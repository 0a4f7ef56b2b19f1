//! CPU metrics, and what they share: finding the `cpuN` directories under
//! `/sys/devices/system/cpu` and reading one file of each.
pub mod freq;
pub mod governor;
pub mod topology;
pub mod usage;

use vstd::prelude::*;
use crate::hardware::metric::Metric;
use crate::hardware::registry::{
    default_cpu_ids, default_cpu_labels, default_cpu_units, metric_ids, metric_labels, metric_units,
    CpuMetric,
};
use crate::hardware::source::{HwError, Source};
use crate::order::{is_stable_sort, lemma_stable_sort_map, map_items, sort_by_index};
use crate::path::{dot, dot_dot, file_name, join, join_path, law_file_name_of_join, path_file_name};
use crate::text::{
    chars_of, decimal, has_prefix, is_digit, law_decimal_reads_back, lemma_decimal_digits, parse_uint,
    parse_unsigned, slice_chars, starts_with,
};

verus! {

broadcast use vstd::std_specs::vec::group_vec_axioms;

/// The directory that holds one `cpuN` directory per core.
pub const SYS_CPU: &'static str = "/sys/devices/system/cpu";

pub open spec fn cpu_prefix() -> Seq<char> {
    seq!['c', 'p', 'u']
}

/// The core index of a `cpuN` path: its file name is `cpu` followed by an
/// unsigned decimal that fits in `usize`.
pub open spec fn cpu_index(path: Seq<char>) -> Option<usize> {
    match file_name(path) {
        Some(n) => if has_prefix(n, cpu_prefix()) {
            match parse_uint(n.skip(3), usize::MAX as nat) {
                Some(v) => Some(v as usize),
                None => None,
            }
        } else {
            None
        },
        None => None,
    }
}

/// Instantiate the default set of CPU metrics, in registration order.
///
/// Each new CPU parameter is constructed here so that
/// [`crate::hardware::registry::Registry::default_cpu`] picks it up.
pub fn default_metrics() -> (r: Vec<CpuMetric>)
    ensures
        metric_ids(r@) == default_cpu_ids(),
        metric_labels(r@) == default_cpu_labels(),
        metric_units(r@) == default_cpu_units(),
{
    let r = vec![
        CpuMetric::CurrentFreq(freq::CpuCurrentFreqMetric::new()),
        CpuMetric::Governor(governor::CpuGovernorMetric::new()),
        CpuMetric::AvailableGovernors(governor::CpuAvailableGovernorsMetric::new()),
        CpuMetric::Online(topology::CpuOnlineMetric::new()),
        CpuMetric::Cluster(topology::CpuClusterMetric::new()),
        CpuMetric::Utilization(usage::CpuUtilizationMetric::new()),
    ];
    assert(metric_ids(r@) =~= default_cpu_ids());
    assert(metric_labels(r@) =~= default_cpu_labels());
    assert(metric_units(r@) =~= default_cpu_units());
    r
}

/// The directory of core `core`: `cpu<core>` under [`SYS_CPU`].
pub open spec fn core_dir(core: usize) -> Seq<char> {
    join_path(SYS_CPU@, cpu_prefix() + decimal(core as nat))
}

/// The directory of core `core` is the `cpuN` entry that a listing numbers
/// `core`.
pub proof fn law_core_dir_index(core: usize)
    ensures
        cpu_index(core_dir(core)) == Some(core),
{
    let name = cpu_prefix() + decimal(core as nat);
    law_decimal_reads_back(core as nat, usize::MAX as nat);
    lemma_decimal_digits(core as nat);
    assert forall|i: int| 0 <= i < name.len() implies #[trigger] name[i] != '/' by {
        if i >= 3 {
            assert(name[i] == decimal(core as nat)[i - 3]);
            assert(is_digit(decimal(core as nat)[i - 3]));
        }
    }
    assert(name != dot());
    assert(name != dot_dot());
    law_file_name_of_join(SYS_CPU@, name);
    assert(name.skip(3) =~= decimal(core as nat));
    assert(has_prefix(name, cpu_prefix())) by {
        assert(name.take(3) =~= cpu_prefix());
    }
}

/// The `cpuN` entries of a directory listing with their index, in listing
/// order.
pub open spec fn cpu_entries(listing: Seq<Seq<char>>) -> Seq<(usize, Seq<char>)>
    decreases listing.len(),
{
    if listing.len() == 0 {
        Seq::empty()
    } else {
        let prev = cpu_entries(listing.drop_last());
        match cpu_index(listing.last()) {
            Some(i) => prev.push((i, listing.last())),
            None => prev,
        }
    }
}

/// The text of each string.
pub open spec fn string_views(s: Seq<String>) -> Seq<Seq<char>> {
    s.map_values(|x: String| x@)
}

/// The text of each indexed string.
pub open spec fn indexed_views(s: Seq<(usize, String)>) -> Seq<(usize, Seq<char>)> {
    map_items(s, |x: String| x@)
}

/// The text of an optional string.
pub open spec fn opt_view(o: Option<String>) -> Option<Seq<char>> {
    match o {
        Some(s) => Some(s@),
        None => None,
    }
}

/// The text of each optional string.
pub open spec fn opt_views(s: Seq<Option<String>>) -> Seq<Option<Seq<char>>> {
    s.map_values(|o: Option<String>| opt_view(o))
}

/// The core index of a path, if it names a `cpuN` directory.
pub fn core_index(path: &str) -> (r: Option<usize>)
    ensures
        r == cpu_index(path@),
{
    let cs = chars_of(path);
    match path_file_name(&cs) {
        Some(n) => {
            if starts_with(&n, "cpu") {
                proof {
                    reveal_strlit("cpu");
                    assert("cpu"@ =~= cpu_prefix());
                }
                let rest = slice_chars(&n, 3, n.len());
                assert(rest@ =~= n@.skip(3));
                match parse_unsigned(&rest, usize::MAX as u64) {
                    Some(v) => Some(v as usize),
                    None => None,
                }
            } else {
                proof {
                    reveal_strlit("cpu");
                    assert("cpu"@ =~= cpu_prefix());
                }
                None
            }
        },
        None => None,
    }
}

/// Whether `path` names a `cpuN` directory.
pub fn is_cpu_dir(path: &str) -> (r: bool)
    ensures
        r == (cpu_index(path@) is Some),
{
    core_index(path).is_some()
}

/// The `cpuN` entries of a directory listing with their index, ordered by
/// index (entries of equal index keep their listing order).
pub fn cpu_cores(listing: &Vec<String>) -> (r: Vec<(usize, String)>)
    ensures
        is_stable_sort(indexed_views(r@), cpu_entries(string_views(listing@))),
        r@.len() == cpu_entries(string_views(listing@)).len(),
{
    let mut found: Vec<(usize, String)> = Vec::new();
    let mut i: usize = 0;
    while i < listing.len()
        invariant
            0 <= i <= listing.len(),
            indexed_views(found@) == cpu_entries(string_views(listing@).take(i as int)),
        decreases listing.len() - i,
    {
        let ghost before = indexed_views(found@);
        assert(string_views(listing@).take(i + 1).drop_last() =~= string_views(listing@).take(
            i as int,
        ));
        assert(string_views(listing@).take(i + 1).last() == listing@[i as int]@);
        match core_index(listing[i].as_str()) {
            Some(k) => {
                let p = crate::text::copy_string(&listing[i]);
                found.push((k, p));
                assert(indexed_views(found@) =~= before.push((k, listing@[i as int]@)));
            },
            None => {},
        }
        i = i + 1;
    }
    assert(string_views(listing@).take(listing.len() as int) =~= string_views(listing@));
    let ghost unsorted = found@;
    let r = sort_by_index(found);
    proof {
        lemma_stable_sort_map(r@, unsorted, |x: String| x@);
    }
    r
}

/// The `cpuN` directories under [`SYS_CPU`] as `(core_index, path)`, sorted
/// by index. Non-`cpuN` entries (e.g. `cpufreq`, `cpuidle`) are skipped.
pub fn cpu_core_paths<S: Source + ?Sized>(source: &S) -> (r: Result<Vec<(usize, String)>, HwError>)
    ensures
        r matches Ok(v) ==> exists|listing: Seq<Seq<char>>|
            is_stable_sort(indexed_views(v@), #[trigger] cpu_entries(listing)),
{
    let entries = source.list_dir(SYS_CPU)?;
    let cores = cpu_cores(&entries);
    assert(is_stable_sort(indexed_views(cores@), cpu_entries(string_views(entries@))));
    Ok(cores)
}

/// What reading the file at `path` gave: a text the source served for it
/// (and, when only existing files are read, that the source said it
/// exists); `None` only where the source refused to read the file, or,
/// when only existing files are read, said it does not exist.
pub open spec fn core_read<S: Source + ?Sized>(source: &S, path: Seq<char>, only_existing: bool, read: Option<
    Seq<char>,
>) -> bool {
    match read {
        Some(c) => source.served(path, c) && (only_existing ==> source.answered(path, true)),
        None => source.refused(path) || (only_existing && source.answered(path, false)),
    }
}

/// `reads` are the outcomes of reading the file `rel` under each `cpuN`
/// directory of a listing of [`SYS_CPU`] that `source` gave, in index
/// order: slot `k` holds what reading the `k`-th core's file gave.
pub open spec fn per_core_reads<S: Source + ?Sized>(
    source: &S,
    rel: Seq<char>,
    only_existing: bool,
    reads: Seq<Option<Seq<char>>>,
) -> bool {
    exists|listing: Seq<Seq<char>>, cores: Seq<(usize, Seq<char>)>|
        #![trigger source.listed(SYS_CPU@, listing), is_stable_sort(cores, cpu_entries(listing))]
        source.listed(SYS_CPU@, listing) && is_stable_sort(cores, cpu_entries(listing)) && reads.len()
            == cores.len() && forall|k: int|
            0 <= k < reads.len() ==> core_read(
                source,
                join_path(cores[k].1, rel),
                only_existing,
                #[trigger] reads[k],
            )
}

/// Every core's file is read where the source refuses no read (and, when
/// only existing files are read, denies no file): no core is left without
/// a reading, whatever came before it.
pub proof fn law_unrefused_cores_are_read<S: Source + ?Sized>(
    source: &S,
    rel: Seq<char>,
    only_existing: bool,
    reads: Seq<Option<Seq<char>>>,
)
    requires
        per_core_reads(source, rel, only_existing, reads),
        forall|p: Seq<char>| !#[trigger] source.refused(p),
        only_existing ==> forall|p: Seq<char>| !#[trigger] source.answered(p, false),
    ensures
        forall|k: int| 0 <= k < reads.len() ==> #[trigger] reads[k] is Some,
{
    let (listing, cores) = choose|listing: Seq<Seq<char>>, cores: Seq<(usize, Seq<char>)>|
        #![trigger source.listed(SYS_CPU@, listing), is_stable_sort(cores, cpu_entries(listing))]
        source.listed(SYS_CPU@, listing) && is_stable_sort(cores, cpu_entries(listing)) && reads.len()
            == cores.len() && forall|k: int|
            0 <= k < reads.len() ==> core_read(
                source,
                join_path(cores[k].1, rel),
                only_existing,
                #[trigger] reads[k],
            );
    assert forall|k: int| 0 <= k < reads.len() implies #[trigger] reads[k] is Some by {
        let p = join_path(cores[k].1, rel);
        assert(core_read(source, p, only_existing, reads[k]));
        assert(!source.refused(p));
        if only_existing {
            assert(!source.answered(p, false));
        }
    }
}

/// Reads the file `rel` under every `cpuN` directory, in index order: the
/// file's contents, or `None` where it cannot be read (or, with
/// `only_existing`, where the source says it does not exist).
pub fn read_per_core<S: Source + ?Sized>(source: &S, rel: &str, only_existing: bool) -> (r: Result<
    Vec<Option<String>>,
    HwError,
>)
    ensures
        r matches Ok(v) ==> per_core_reads(source, rel@, only_existing, opt_views(v@)),
{
    let entries = source.list_dir(SYS_CPU)?;
    let cores = cpu_cores(&entries);
    let ghost cv = indexed_views(cores@);
    let mut out: Vec<Option<String>> = Vec::new();
    let mut i: usize = 0;
    while i < cores.len()
        invariant
            0 <= i <= cores.len(),
            cv == indexed_views(cores@),
            out@.len() == i,
            forall|k: int|
                0 <= k < i ==> core_read(
                    source,
                    join_path(cv[k].1, rel@),
                    only_existing,
                    #[trigger] opt_views(out@)[k],
                ),
        decreases cores.len() - i,
    {
        let file = join(cores[i].1.as_str(), rel);
        let present = if only_existing {
            source.path_exists(file.as_str())
        } else {
            true
        };
        let content = if present {
            match source.read_to_string(file.as_str()) {
                Ok(c) => Some(c),
                Err(_) => None,
            }
        } else {
            None
        };
        let ghost before = out@;
        assert(cv[i as int].1 == cores@[i as int].1@);
        assert(file@ == join_path(cv[i as int].1, rel@));
        assert(core_read(source, join_path(cv[i as int].1, rel@), only_existing, opt_view(content)));
        out.push(content);
        assert(opt_views(out@) =~= opt_views(before).push(opt_view(content)));
        i = i + 1;
    }
    assert(entries@.map_values(|e: String| e@) =~= string_views(entries@));
    Ok(out)
}

} // verus!
