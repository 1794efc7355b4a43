//! Reasons for which a line size cannot be resolved.

use vstd::prelude::*;

verus! {

/// The configuration itself is unusable.
#[derive(Clone, Copy, Debug, PartialEq, Eq, Structural)]
pub enum ConfigError {
    /// A forced line size was given, and it is zero or odd.
    InvalidForce,
}

/// The probe of the running system met an entry it could not use.
#[derive(Clone, Copy, Debug, PartialEq, Eq, Structural)]
pub enum ProbeError {
    /// A probe file could not be read.
    ReadFailure,
    /// A probe file does not hold one unsigned decimal number.
    ParseFailure,
}

/// Why [`crate::fetch`] gave no line size.
#[derive(Clone, Copy, Debug, PartialEq, Eq, Structural)]
pub enum FetchError {
    Config(ConfigError),
    Probe(ProbeError),
}

} // verus!
