//! Resolution of the cache coherence line size that a data structure is
//! aligned to: an explicit override, a probe of the running system, a named
//! hardware slab, the architecture's default, or a global fallback, in that
//! order of precedence.

pub mod arch;
pub mod args;
pub mod detection;
pub mod error;
pub mod laws;
pub mod slabs;
pub mod text;

pub use arch::{coherence_line_size, Arch, FALLBACK_COHERENCE_LINE_SIZE};
pub use args::{CuneiformArgs, SlabName, SLAB_CAPACITY};
pub use error::{ConfigError, FetchError, ProbeError};
pub use detection::{
    aggregate, collect_readings, hermetic_detection, is_cache_line_probe, parse_reading, Probe,
    ProbeFile, CACHE_LINE_PROBE, LINUX_CPU_PROC_PROBE,
};
pub use slabs::{fetch, needs_probe, slab_fetch, slabs};
