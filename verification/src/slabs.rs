//! The slab lookaside table: line sizes of named boards and chip families
//! that the architecture alone does not tell apart.

use vstd::prelude::*;
use hashbrown::HashMap;
use crate::arch::{coherence_line_size, target_line_size, Arch, FALLBACK_COHERENCE_LINE_SIZE};
use crate::args::{ArgsView, CuneiformArgs};
use crate::detection::{
    detected_line_size, hermetic_detection, is_least_of, lemma_aggregated_is_least, readings_of,
    Probe, ProbeView,
};
use crate::error::{ConfigError, FetchError};

verus! {

/// `hashbrown::HashMap`, taken as it is: nothing inside it is looked at.
#[verifier::external_type_specification]
#[verifier::external_body]
#[verifier::reject_recursive_types(K)]
#[verifier::reject_recursive_types(V)]
#[verifier::reject_recursive_types(S)]
pub struct ExHashMap<K, V, S>(hashbrown::HashMap<K, V, S>);

/// The hasher that a `hashbrown::HashMap` takes by default.
#[verifier::external_type_specification]
#[verifier::external_body]
pub struct ExDefaultHashBuilder(hashbrown::hash_map::DefaultHashBuilder);

/// The entries of a slab table: each name it holds, with the line size
/// stored under it.
pub uninterp spec fn slab_entries(table: hashbrown::HashMap<&'static str, u8>) -> Map<Seq<char>, u8>;

/// `hashbrown::HashMap::new`: the map it makes has no entries.
#[verifier::external_body]
fn table_new() -> (table: HashMap<&'static str, u8>)
    ensures
        slab_entries(table) == (Map::<Seq<char>, u8>::empty()),
{
    HashMap::new()
}

/// `hashbrown::HashMap::insert`: afterwards `name` is bound to `size`, in
/// place of what it was bound to before, and every other name is bound as it
/// was.
#[verifier::external_body]
fn table_insert(table: &mut HashMap<&'static str, u8>, name: &'static str, size: u8)
    ensures
        slab_entries(*final(table)) == slab_entries(*old(table)).insert(name@, size),
{
    table.insert(name, size);
}

/// `hashbrown::HashMap::get`: the size stored under the key that equals
/// `name`, character for character, or `None` where there is no such key.
#[verifier::external_body]
fn table_get(table: &HashMap<&'static str, u8>, name: &str) -> (found: Option<u8>)
    ensures
        found == (if slab_entries(*table).contains_key(name@) {
            Some(slab_entries(*table)[name@])
        } else {
            None
        }),
{
    table.get(name).copied()
}

/// The slabs that are known, with their line sizes in bytes.
pub open spec fn known_slabs() -> Map<Seq<char>, u8> {
    map![
        "powerpc_mpc8xx"@ => 16u8,
        "powerpc64bridge"@ => 128u8,
        "powerpc_e500mc"@ => 64u8,
        "power_7"@ => 128u8,
        "power_8"@ => 128u8,
        "power_9"@ => 128u8,
        "exynos_big"@ => 128u8,
        "exynos_LITTLE"@ => 64u8,
        "krait"@ => 64u8,
        "neoverse_n1"@ => 64u8,
    ]
}

/// Builds the table of the known slabs.
pub fn slabs() -> (table: HashMap<&'static str, u8>)
    ensures
        slab_entries(table) == known_slabs(),
{
    let mut table = table_new();
    table_insert(&mut table, "powerpc_mpc8xx", 16);
    // Combined bridge mode of the 64-bit parts: two doublewords at a time.
    table_insert(&mut table, "powerpc64bridge", 128);
    // The e500 signal processors take 64 bytes though most are 32-bit.
    table_insert(&mut table, "powerpc_e500mc", 64);
    table_insert(&mut table, "power_7", 128);
    table_insert(&mut table, "power_8", 128);
    table_insert(&mut table, "power_9", 128);
    table_insert(&mut table, "exynos_big", 128);
    table_insert(&mut table, "exynos_LITTLE", 64);
    table_insert(&mut table, "krait", 64);
    table_insert(&mut table, "neoverse_n1", 64);
    table
}

/// Line size for a slab name: the entry of a non-empty name that the table
/// holds, the target's line size for every other name.
pub open spec fn slab_line_size(
    slab: Seq<char>,
    entries: Map<Seq<char>, u8>,
    arch: Option<Arch>,
) -> usize {
    if slab.len() > 0 && entries.contains_key(slab) {
        entries[slab] as usize
    } else {
        target_line_size(arch)
    }
}

/// Resolves the line size without asking the running system: the table's
/// entry for the slab that `args` names, else what is compiled in for `arch`.
pub fn slab_fetch(
    args: CuneiformArgs,
    table: &HashMap<&'static str, u8>,
    arch: Option<Arch>,
) -> (size: usize)
    ensures
        size == slab_line_size(args@.slab, slab_entries(*table), arch),
{
    let name = args.slab.as_str();
    if name.is_empty() {
        return coherence_line_size(arch);
    }
    match table_get(table, name) {
        Some(entry) => entry as usize,
        None => coherence_line_size(arch),
    }
}

/// Says whether a forced line size can be used: it is neither zero nor odd.
pub open spec fn acceptable_force(force: usize) -> bool {
    force != 0 && force % 2 == 0
}

/// The line size that a configuration resolves to, by the first rule that
/// applies:
/// 1. a forced size is the answer where it is acceptable, and a failure
///    where it is not;
/// 2. a hermetic configuration takes what detection gives;
/// 3. any other takes the slab's entry, or else the target's line size.
pub open spec fn resolution(
    args: ArgsView,
    entries: Map<Seq<char>, u8>,
    arch: Option<Arch>,
    probe: ProbeView,
) -> Result<usize, FetchError> {
    match args.force {
        Some(force) => if acceptable_force(force) {
            Ok(force)
        } else {
            Err(FetchError::Config(ConfigError::InvalidForce))
        },
        None => if args.hermetic {
            match detected_line_size(args.slab, entries, arch, probe) {
                Ok(size) => Ok(size),
                Err(e) => Err(FetchError::Probe(e)),
            }
        } else {
            Ok(slab_line_size(args.slab, entries, arch))
        },
    }
}

/// Says whether resolving `args` consults the probe: only then does the
/// host have to be inspected before [`fetch`] is called.
pub fn needs_probe(args: &CuneiformArgs) -> (needed: bool)
    ensures
        needed == (args@.force is None && args@.hermetic),
{
    args.force.is_none() && args.hermetic
}

/// Resolves the line size that `args` asks for, given the slab table, the
/// architecture of the target and what the prober of the host delivered.
pub fn fetch(
    args: CuneiformArgs,
    table: &HashMap<&'static str, u8>,
    arch: Option<Arch>,
    probe: &Probe,
) -> (size: Result<usize, FetchError>)
    ensures
        size == resolution(args@, slab_entries(*table), arch, probe@),
        // An acceptable forced size is returned as it is.
        args@.force matches Some(force) ==> (force != 0 && force % 2 == 0 ==> size is Ok
            && size->Ok_0 == force),
        // A forced size of zero, or an odd one, fails.
        args@.force matches Some(force) ==> (force == 0 || force % 2 == 1 ==> size is Err
            && size->Err_0 == FetchError::Config(ConfigError::InvalidForce)),
        // Without force and probe, a slab of the table gives its entry.
        args@.force is None && !args@.hermetic && args@.slab.len() > 0
            && slab_entries(*table).contains_key(args@.slab)
            ==> size is Ok && size->Ok_0 == slab_entries(*table)[args@.slab],
        // Without force and probe, any other slab gives the target's size.
        args@.force is None && !args@.hermetic
            && !(args@.slab.len() > 0 && slab_entries(*table).contains_key(args@.slab))
            ==> size is Ok && size->Ok_0 == target_line_size(arch),
        // On a host that cannot be probed, hermetic or not makes no
        // difference.
        args@.force is None && args@.hermetic && probe@ is Unsupported
            ==> size is Ok && size->Ok_0 == slab_line_size(args@.slab, slab_entries(*table), arch),
        // A probe with readings gives the least of them, and one without
        // any gives the fallback.
        args@.force is None && args@.hermetic ==> (probe@ matches ProbeView::Native(files)
            ==> (readings_of(files) matches Ok(readings) ==> size is Ok && (if readings.len() == 0 {
                size->Ok_0 == FALLBACK_COHERENCE_LINE_SIZE
            } else {
                is_least_of(size->Ok_0, readings)
            }))),
        // A probe with a file that gives no reading fails as that file does.
        args@.force is None && args@.hermetic ==> (probe@ matches ProbeView::Native(files)
            ==> (readings_of(files) matches Err(e) ==> size is Err
            && size->Err_0 == FetchError::Probe(e))),
{
    proof {
        if let ProbeView::Native(files) = probe@ {
            if let Ok(readings) = readings_of(files) {
                if readings.len() > 0 {
                    lemma_aggregated_is_least(readings);
                }
            }
        }
    }
    match args.force {
        Some(force) => {
            if force != 0 && force % 2 == 0 {
                Ok(force)
            } else {
                Err(FetchError::Config(ConfigError::InvalidForce))
            }
        },
        None => {
            if args.hermetic {
                match hermetic_detection(args, table, arch, probe) {
                    Ok(size) => Ok(size),
                    Err(e) => Err(FetchError::Probe(e)),
                }
            } else {
                Ok(slab_fetch(args, table, arch))
            }
        },
    }
}

} // verus!
