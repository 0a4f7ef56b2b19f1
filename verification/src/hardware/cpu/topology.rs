//! Online status and cluster of every CPU core.
use vstd::prelude::*;
use crate::hardware::cpu::{
    core_dir, cpu_entries, opt_views, per_core_reads, read_per_core, string_views, SYS_CPU,
};
use crate::hardware::metric::Metric;
use crate::hardware::source::{HwError, Source};
use crate::hardware::value::{kind_text, lemma_value_views, value_view, value_views, Value, ValueView};
use crate::path::join_path;
use crate::text::{
    chars_of, decimal, digit_value, digits_value, parse_uint, parse_unsigned, push_decimal, push_str,
    string_from, string_of, trim, trim_chars, trim_end, trim_start, unsigned_digits,
};

verus! {

broadcast use vstd::std_specs::vec::group_vec_axioms;

/// The online status held by a core's `online` file: its trimmed contents
/// read as a `u8` is non-zero. A core whose file is missing, unreadable or
/// malformed is online (boot cores like cpu0 have no `online` file).
pub open spec fn online_reading(content: Option<Seq<char>>) -> bool {
    match content {
        Some(s) => match parse_uint(trim(s), 255) {
            Some(n) => n != 0,
            None => true,
        },
        None => true,
    }
}

pub open spec fn online_readings(reads: Seq<Option<Seq<char>>>) -> Seq<bool> {
    reads.map_values(|c: Option<Seq<char>>| online_reading(c))
}

pub open spec fn bool_series_view(bs: Seq<bool>) -> ValueView {
    ValueView::Series(bs.map_values(|b: bool| ValueView::Bool(b)))
}

/// The cluster id held by a core's `topology/cluster_id` file: its trimmed
/// contents, or `"-"` when the file is missing, unreadable or blank.
pub open spec fn cluster_reading(content: Option<Seq<char>>) -> Seq<char> {
    match content {
        Some(s) => if trim(s).len() > 0 {
            trim(s)
        } else {
            "-"@
        },
        None => "-"@,
    }
}

pub open spec fn cluster_readings(reads: Seq<Option<Seq<char>>>) -> Seq<Seq<char>> {
    reads.map_values(|c: Option<Seq<char>>| cluster_reading(c))
}

pub open spec fn raw_series_view(names: Seq<Seq<char>>) -> ValueView {
    ValueView::Series(names.map_values(|n: Seq<char>| ValueView::Raw(n)))
}

/// The path of the `online` file of core `core`.
pub open spec fn online_path(core: usize) -> Seq<char> {
    join_path(core_dir(core), "online"@)
}

/// The path of the `online` file of core `core`.
pub fn online_file(core: usize) -> (r: String)
    ensures
        r@ == online_path(core),
{
    let mut dir = string_from(SYS_CPU);
    push_str(&mut dir, "/cpu");
    push_decimal(&mut dir, core as u128);
    push_str(&mut dir, "/online");
    proof {
        reveal_strlit("/sys/devices/system/cpu");
        reveal_strlit("/cpu");
        reveal_strlit("/online");
        reveal_strlit("cpu");
        reveal_strlit("online");
        let cpu_dir = "/sys/devices/system/cpu"@ + "/cpu"@ + decimal(core as nat);
        assert(SYS_CPU@ == "/sys/devices/system/cpu"@);
        assert(join_path(SYS_CPU@, "cpu"@ + decimal(core as nat)) =~= cpu_dir);
        assert(cpu_dir.last() != '/') by {
            lemma_decimal_no_slash(core as nat);
        }
        assert(online_path(core) =~= cpu_dir + "/online"@);
    }
    dir
}

proof fn lemma_decimal_no_slash(n: nat)
    ensures
        decimal(n).len() > 0,
        decimal(n).last() != '/',
    decreases n,
{
    if n >= 10 {
        lemma_decimal_no_slash(n / 10);
    }
}

/// The online statuses held by per-core `online` file contents.
pub fn online_values(reads: &Vec<Option<String>>) -> (r: Value)
    ensures
        r@ == bool_series_view(online_readings(opt_views(reads@))),
{
    let mut out: Vec<Value> = Vec::new();
    let mut i: usize = 0;
    while i < reads.len()
        invariant
            0 <= i <= reads.len(),
            out@.len() == i,
            forall|k: int|
                0 <= k < i ==> #[trigger] out@[k] == Value::Bool(
                    online_reading(opt_views(reads@)[k]),
                ),
        decreases reads.len() - i,
    {
        let b = match &reads[i] {
            Some(c) => {
                let cs = chars_of(c.as_str());
                let t = trim_chars(&cs);
                match parse_unsigned(&t, 255) {
                    Some(n) => n != 0,
                    None => true,
                }
            },
            None => true,
        };
        out.push(Value::Bool(b));
        i = i + 1;
    }
    proof {
        lemma_value_views(out@);
        assert(value_views(out@) =~= online_readings(opt_views(reads@)).map_values(
            |b: bool| ValueView::Bool(b),
        ));
    }
    Value::Series(out)
}

/// The cluster ids held by per-core `topology/cluster_id` file contents.
pub fn cluster_values(reads: &Vec<Option<String>>) -> (r: Value)
    ensures
        r@ == raw_series_view(cluster_readings(opt_views(reads@))),
{
    let mut out: Vec<Value> = Vec::new();
    let mut i: usize = 0;
    while i < reads.len()
        invariant
            0 <= i <= reads.len(),
            out@.len() == i,
            forall|k: int|
                0 <= k < i ==> #[trigger] value_view(&out@[k]) == ValueView::Raw(
                    cluster_reading(opt_views(reads@)[k]),
                ),
        decreases reads.len() - i,
    {
        let s = match &reads[i] {
            Some(c) => {
                let cs = chars_of(c.as_str());
                let t = trim_chars(&cs);
                if t.len() > 0 {
                    string_of(&t)
                } else {
                    string_from("-")
                }
            },
            None => string_from("-"),
        };
        out.push(Value::Raw(s));
        i = i + 1;
    }
    proof {
        lemma_value_views(out@);
        assert(value_views(out@) =~= cluster_readings(opt_views(reads@)).map_values(
            |n: Seq<char>| ValueView::Raw(n),
        ));
    }
    Value::Series(out)
}

/// A value that reading the online status can give: the status read from
/// the `online` file of each `cpuN` entry of a listing, in index order.
pub open spec fn is_online_value<S: Source + ?Sized>(source: &S, v: ValueView) -> bool {
    exists|reads: Seq<Option<Seq<char>>>|
        #![trigger per_core_reads(source, "online"@, true, reads)]
        per_core_reads(source, "online"@, true, reads) && v == bool_series_view(
            online_readings(reads),
        )
}

/// Metric: online status of every CPU core.
///
/// Cores without an `online` file (e.g. cpu0 on some kernels) are online.
/// Per-core writable: writing `Bool(b)` to a core writes `"1"` or `"0"` to
/// its `online` file.
pub struct CpuOnlineMetric;

impl CpuOnlineMetric {
    pub fn new() -> (r: Self) {
        CpuOnlineMetric
    }
}

impl Metric for CpuOnlineMetric {
    open spec fn spec_id(&self) -> Seq<char> {
        "cpu.topology.online"@
    }

    open spec fn spec_label(&self) -> Seq<char> {
        "Online Status"@
    }

    open spec fn spec_writable(&self) -> bool {
        false
    }

    open spec fn spec_core_writable(&self) -> bool {
        true
    }

    fn id(&self) -> (r: &str) {
        "cpu.topology.online"
    }

    fn label(&self) -> (r: &str) {
        "Online Status"
    }

    fn read<S: Source + ?Sized>(&mut self, source: &S) -> (r: Result<Value, HwError>)
        ensures
            r matches Ok(v) ==> is_online_value(source, v@),
    {
        let reads = read_per_core(source, "online", true)?;
        let v = online_values(&reads);
        assert(per_core_reads(source, "online"@, true, opt_views(reads@)));
        Ok(v)
    }

    fn is_writable(&self) -> (r: bool) {
        false
    }

    fn is_core_writable(&self) -> (r: bool) {
        true
    }

    /// Writes `"1"` (online) or `"0"` (offline) to the core's `online`
    /// file, when the value is a `Bool` and the file exists.
    fn write_core<S: Source + ?Sized>(&self, source: &S, core: usize, value: &Value) -> (r: Result<
        (),
        HwError,
    >)
        ensures
            !(value is Bool) ==> (r matches Err(HwError::NotABool(k)) && k@ == kind_text(value@)),
            value@ matches ValueView::Bool(b) ==> online_write_outcome(source, core, b, r),
    {
        let content = online_setting(value)?;
        let path = online_file(core);
        if !source.path_exists(path.as_str()) {
            return Err(HwError::NoOnlineFile(core));
        }
        match source.write(path.as_str(), content) {
            Ok(()) => Ok(()),
            Err(_) => Err(HwError::SetOnlineFailed(core)),
        }
    }
}

/// The text an `online` file is set to: `"1"` for online, `"0"` for
/// offline.
pub open spec fn online_text(online: bool) -> Seq<char> {
    if online {
        "1"@
    } else {
        "0"@
    }
}

/// The text that sets the online status carried by `value`, which must be
/// a `Bool`.
pub fn online_setting(value: &Value) -> (r: Result<&'static str, HwError>)
    ensures
        match value@ {
            ValueView::Bool(b) => r matches Ok(t) && t@ == online_text(b),
            _ => r matches Err(HwError::NotABool(k)) && k@ == kind_text(value@),
        },
{
    match value {
        Value::Bool(b) => if *b {
            Ok("1")
        } else {
            Ok("0")
        },
        _ => Err(HwError::NotABool(string_from(value.kind_name()))),
    }
}

/// What writing the status `online` to core `core` through `source` gives:
/// success, with the source having taken the status text for the core's
/// `online` file; a missing file, which the source said does not exist; or
/// a failed write to the file, which the source said exists.
pub open spec fn online_write_outcome<S: Source + ?Sized>(
    source: &S,
    core: usize,
    online: bool,
    r: Result<(), HwError>,
) -> bool {
    ||| r is Ok && source.accepted(online_path(core), online_text(online))
    ||| r == Err::<(), HwError>(HwError::NoOnlineFile(core)) && source.answered(
        online_path(core),
        false,
    )
    ||| r == Err::<(), HwError>(HwError::SetOnlineFailed(core)) && source.answered(
        online_path(core),
        true,
    )
}

/// The status that a write sets reads back unchanged from an `online`
/// file holding exactly the text written.
pub proof fn law_online_reads_back(online: bool)
    ensures
        online_reading(Some(online_text(online))) == online,
{
    reveal_strlit("1");
    reveal_strlit("0");
    let t = online_text(online);
    assert(trim_start(t) == t);
    assert(trim_end(t) == t);
    assert(unsigned_digits(t) == t);
    assert(digits_value(t) == digits_value(t.drop_last()) * 10 + digit_value(t.last()));
    assert(t.drop_last() =~= Seq::<char>::empty());
}

/// Whether a given core exposes an `online` file (i.e. can be toggled).
/// Boot cores like cpu0 typically have no `online` file and are always
/// online. The answer is the source's, for the path [`online_path`].
pub fn core_has_online_file<S: Source + ?Sized>(source: &S, core: usize) -> (r: bool)
    ensures
        source.answered(online_path(core), r),
{
    let path = online_file(core);
    source.path_exists(path.as_str())
}

/// A value that reading the cluster ids can give: the cluster id read from
/// the `topology/cluster_id` file of each `cpuN` entry of a listing, in
/// index order.
pub open spec fn is_cluster_value<S: Source + ?Sized>(source: &S, v: ValueView) -> bool {
    exists|reads: Seq<Option<Seq<char>>>|
        #![trigger per_core_reads(source, "topology/cluster_id"@, false, reads)]
        per_core_reads(source, "topology/cluster_id"@, false, reads) && v == raw_series_view(
            cluster_readings(reads),
        )
}

/// Metric: cluster id of every CPU core, from `topology/cluster_id`.
///
/// Cores whose `cluster_id` file is missing (kernels without cluster
/// topology support) yield `"-"` for that slot so the index ordering stays
/// stable across cores.
pub struct CpuClusterMetric;

impl CpuClusterMetric {
    pub fn new() -> (r: Self) {
        CpuClusterMetric
    }
}

impl Metric for CpuClusterMetric {
    open spec fn spec_id(&self) -> Seq<char> {
        "cpu.topology.cluster"@
    }

    open spec fn spec_label(&self) -> Seq<char> {
        "Cluster"@
    }

    open spec fn spec_writable(&self) -> bool {
        false
    }

    open spec fn spec_core_writable(&self) -> bool {
        false
    }

    fn id(&self) -> (r: &str) {
        "cpu.topology.cluster"
    }

    fn label(&self) -> (r: &str) {
        "Cluster"
    }

    fn read<S: Source + ?Sized>(&mut self, source: &S) -> (r: Result<Value, HwError>)
        ensures
            r matches Ok(v) ==> is_cluster_value(source, v@),
    {
        let reads = read_per_core(source, "topology/cluster_id", false)?;
        let v = cluster_values(&reads);
        assert(per_core_reads(source, "topology/cluster_id"@, false, opt_views(reads@)));
        Ok(v)
    }

    fn is_writable(&self) -> (r: bool) {
        false
    }

    fn is_core_writable(&self) -> (r: bool) {
        false
    }
}

} // verus!
