//! What holds of every resolution, proved from the definitions.

use vstd::prelude::*;
use hashbrown::HashMap;
use crate::arch::Arch;
use crate::args::{ArgsView, CuneiformArgs};
use crate::detection::{
    file_reading, lemma_aggregated_is_least, lemma_readings_of, readings_of, Probe, ProbeView,
};
use crate::slabs::{known_slabs, resolution, slab_entries};

verus! {

/// A line size that can serve as an alignment: neither zero nor odd.
pub open spec fn is_alignment(size: int) -> bool {
    size != 0 && size % 2 == 0
}

/// An acceptable forced size is the resolution, whatever the other settings,
/// the table, the target and the probe are.
pub proof fn lemma_force_overrides(
    args: ArgsView,
    entries: Map<Seq<char>, u8>,
    arch: Option<Arch>,
    probe: ProbeView,
    force: usize,
)
    requires
        args.force == Some(force),
        force != 0,
        force % 2 == 0,
    ensures
        resolution(args, entries, arch, probe) == Ok::<usize, crate::error::FetchError>(force),
{
}

/// On a host that cannot be probed, a hermetic configuration resolves as
/// the same configuration does with `hermetic` switched off, whatever probe
/// the latter is given.
pub proof fn lemma_unprobed_host_degrades(
    args: ArgsView,
    entries: Map<Seq<char>, u8>,
    arch: Option<Arch>,
    probe: ProbeView,
)
    requires
        args.hermetic,
    ensures
        resolution(args, entries, arch, ProbeView::Unsupported) == resolution(
            ArgsView { hermetic: false, ..args },
            entries,
            arch,
            probe,
        ),
{
}

/// Resolving again gives the same: two configurations with the same
/// settings, resolved against the same table and target and against probes
/// that delivered the same, resolve alike.
pub proof fn lemma_fetch_repeats(
    first: CuneiformArgs,
    again: CuneiformArgs,
    table: HashMap<&'static str, u8>,
    arch: Option<Arch>,
    probe: Probe,
    probe_again: Probe,
)
    requires
        first@ == again@,
        probe@ == probe_again@,
    ensures
        resolution(first@, slab_entries(table), arch, probe@) == resolution(
            again@,
            slab_entries(table),
            arch,
            probe_again@,
        ),
{
}

/// A configuration with a forced size, or one that is not hermetic,
/// resolves without regard to the probe.
pub proof fn lemma_probe_unused(
    args: ArgsView,
    entries: Map<Seq<char>, u8>,
    arch: Option<Arch>,
    probe: ProbeView,
    other: ProbeView,
)
    requires
        args.force is Some || !args.hermetic,
    ensures
        resolution(args, entries, arch, probe) == resolution(args, entries, arch, other),
{
}

/// Every known slab has a line size that can serve as an alignment.
pub proof fn lemma_known_slabs_are_alignments()
    ensures
        forall|name: Seq<char>| #[trigger]
            known_slabs().contains_key(name) ==> is_alignment(known_slabs()[name] as int),
{
}

/// A resolved line size can serve as an alignment, provided that every
/// entry of the table can and that every reading of the probe can.
pub proof fn lemma_resolution_is_alignment(
    args: ArgsView,
    entries: Map<Seq<char>, u8>,
    arch: Option<Arch>,
    probe: ProbeView,
)
    requires
        forall|name: Seq<char>| #[trigger]
            entries.contains_key(name) ==> is_alignment(entries[name] as int),
        probe matches ProbeView::Native(files) ==> (forall|i: int|
            0 <= i < files.len() ==> (#[trigger] file_reading(files[i]) matches Ok(reading)
                ==> is_alignment(reading as int))),
    ensures
        resolution(args, entries, arch, probe) matches Ok(size) ==> is_alignment(size as int),
{
    if args.force is None && args.hermetic {
        if let ProbeView::Native(files) = probe {
            lemma_readings_of(files);
            if let Ok(readings) = readings_of(files) {
                if readings.len() > 0 {
                    lemma_aggregated_is_least(readings);
                    let size = crate::detection::aggregated(readings);
                    let at = choose|i: int| 0 <= i < readings.len() && readings[i] == size;
                    assert(file_reading(files[at]) is Ok);
                }
            }
        }
    }
}

} // verus!
