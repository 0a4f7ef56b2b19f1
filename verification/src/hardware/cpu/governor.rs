//! Scaling governor of every CPU core, and the governors the system offers.
use vstd::prelude::*;
use crate::hardware::cpu::{
    cpu_entries, cpu_index, is_cpu_dir, opt_view, opt_views, per_core_reads, read_per_core,
    string_views, SYS_CPU,
};
use crate::hardware::metric::Metric;
use crate::hardware::source::{HwError, Source};
use crate::hardware::value::{kind_text, lemma_value_views, value_view, value_views, Value, ValueView};
use crate::path::{join, join_path};
use crate::text::{
    chars_of, lemma_trim_idempotent, split_whitespace, split_ws, string_from, string_of, trim,
    trim_chars, views,
};

verus! {

broadcast use vstd::std_specs::vec::group_vec_axioms;

/// The per-core text of a file: its trimmed contents, or empty text when
/// it could not be read.
pub open spec fn string_reading(content: Option<Seq<char>>) -> Seq<char> {
    match content {
        Some(s) => trim(s),
        None => Seq::empty(),
    }
}

pub open spec fn string_readings(reads: Seq<Option<Seq<char>>>) -> Seq<Seq<char>> {
    reads.map_values(|c: Option<Seq<char>>| string_reading(c))
}

/// The series view of per-core governor names.
pub open spec fn enum_series_view(names: Seq<Seq<char>>) -> ValueView {
    ValueView::Series(names.map_values(|n: Seq<char>| ValueView::Enum(n)))
}

/// The trimmed texts of per-core file contents, empty where a file could
/// not be read.
pub fn string_values(reads: &Vec<Option<String>>) -> (r: Vec<String>)
    ensures
        string_views(r@) == string_readings(opt_views(reads@)),
{
    let mut out: Vec<String> = Vec::new();
    let mut i: usize = 0;
    while i < reads.len()
        invariant
            0 <= i <= reads.len(),
            string_views(out@) == string_readings(opt_views(reads@)).take(i as int),
        decreases reads.len() - i,
    {
        let t = match &reads[i] {
            Some(c) => {
                let cs = chars_of(c.as_str());
                let t = trim_chars(&cs);
                string_of(&t)
            },
            None => String::new(),
        };
        let ghost before = string_views(out@);
        let ghost tv = t@;
        out.push(t);
        i = i + 1;
        assert(string_views(out@) =~= before.push(tv));
        assert(string_views(out@) =~= string_readings(opt_views(reads@)).take(i as int));
    }
    assert(string_readings(opt_views(reads@)).take(reads.len() as int) =~= string_readings(
        opt_views(reads@),
    ));
    out
}

/// Reads the file `rel` of every `cpuN` directory, in index order, as
/// trimmed text; empty text for a core whose file cannot be read.
pub fn per_core_string<S: Source + ?Sized>(source: &S, rel: &str) -> (r: Result<Vec<String>, HwError>)
    ensures
        r matches Ok(v) ==> exists|reads: Seq<Option<Seq<char>>>|
            #![trigger per_core_reads(source, rel@, false, reads)]
            per_core_reads(source, rel@, false, reads) && string_views(v@) == string_readings(reads),
{
    let reads = read_per_core(source, rel, false)?;
    let out = string_values(&reads);
    assert(per_core_reads(source, rel@, false, opt_views(reads@)));
    Ok(out)
}

/// A series of `Enum` values with the given names.
pub fn enum_series(names: Vec<String>) -> (r: Value)
    ensures
        r@ == enum_series_view(string_views(names@)),
{
    let mut out: Vec<Value> = Vec::new();
    let mut rest = names;
    let ghost all = rest@;
    let total = rest.len();
    let mut n: usize = 0;
    while rest.len() > 0
        invariant
            n + rest@.len() == all.len(),
            all.len() == total,
            rest@ == all.skip(n as int),
            out@.len() == n,
            forall|k: int| 0 <= k < n ==> #[trigger] value_view(&out@[k]) == ValueView::Enum(
                all[k]@,
            ),
        decreases rest.len(),
    {
        let s = rest.remove(0);
        assert(s == all[n as int]);
        out.push(Value::Enum(s));
        n = n + 1;
        assert(rest@ =~= all.skip(n as int));
    }
    proof {
        lemma_value_views(out@);
        assert(value_views(out@) =~= string_views(all).map_values(
            |t: Seq<char>| ValueView::Enum(t),
        ));
    }
    Value::Series(out)
}

/// The governor name a write carries: the trimmed text of an `Enum` or
/// `Raw` value.
pub open spec fn governor_name(value: ValueView) -> Result<Seq<char>, HwError> {
    match value {
        ValueView::Enum(s) => if trim(s).len() == 0 {
            Err(HwError::EmptyGovernorName)
        } else {
            Ok(trim(s))
        },
        ValueView::Raw(s) => if trim(s).len() == 0 {
            Err(HwError::EmptyGovernorName)
        } else {
            Ok(trim(s))
        },
        _ => Err(HwError::EmptyGovernorName),
    }
}

/// Whether a value can carry a governor name at all.
/// The governor name that a write sets reads back unchanged from a
/// `scaling_governor` file holding exactly that name.
pub proof fn law_governor_reads_back(value: ValueView)
    ensures
        governor_name(value) matches Ok(n) ==> string_reading(Some(n)) == n,
{
    match value {
        ValueView::Enum(s) => lemma_trim_idempotent(s),
        ValueView::Raw(s) => lemma_trim_idempotent(s),
        _ => {},
    }
}

/// Each of `files` was walked: `present[j]` is an answer the source gave to
/// whether the `j`-th file exists, and each that it said exists took
/// `name`.
pub open spec fn walked<S: Source + ?Sized>(
    source: &S,
    files: Seq<(Seq<char>, Seq<char>)>,
    name: Seq<char>,
    present: Seq<bool>,
) -> bool {
    &&& present.len() == files.len()
    &&& forall|j: int|
        0 <= j < files.len() ==> source.answered(files[j].1, #[trigger] present[j]) && (present[j]
            ==> source.accepted(files[j].1, name))
}

pub open spec fn is_name_value(value: ValueView) -> bool {
    value is Enum || value is Raw
}

/// The trimmed governor name carried by `value`.
pub fn governor_name_of(value: &Value) -> (r: Result<String, HwError>)
    ensures
        !is_name_value(value@) ==> (r matches Err(HwError::NotAGovernorName(k)) && k@ == kind_text(
            value@,
        )),
        is_name_value(value@) ==> match governor_name(value@) {
            Ok(n) => r matches Ok(g) && g@ == n,
            Err(e) => r == Err::<String, HwError>(e),
        },
{
    let s = match value {
        Value::Enum(s) => s,
        Value::Raw(s) => s,
        _ => {
            return Err(HwError::NotAGovernorName(string_from(value.kind_name())));
        },
    };
    let cs = chars_of(s.as_str());
    let t = trim_chars(&cs);
    if t.len() == 0 {
        return Err(HwError::EmptyGovernorName);
    }
    Ok(string_of(&t))
}

/// The `cpuN` directories of a listing, in listing order, each with the
/// path of its file `rel`.
pub open spec fn core_files(listing: Seq<Seq<char>>, rel: Seq<char>) -> Seq<(Seq<char>, Seq<char>)> {
    cpu_entries(listing).map_values(|e: (usize, Seq<char>)| (e.1, join_path(e.1, rel)))
}

pub open spec fn pair_views(s: Seq<(String, String)>) -> Seq<(Seq<char>, Seq<char>)> {
    s.map_values(|p: (String, String)| (p.0@, p.1@))
}

/// The `cpuN` directories of `listing`, in listing order, each with the
/// path of its file `rel`.
pub fn core_file_paths(listing: &Vec<String>, rel: &str) -> (r: Vec<(String, String)>)
    ensures
        pair_views(r@) == core_files(string_views(listing@), rel@),
{
    let mut out: Vec<(String, String)> = Vec::new();
    let mut i: usize = 0;
    while i < listing.len()
        invariant
            0 <= i <= listing.len(),
            pair_views(out@) == core_files(string_views(listing@).take(i as int), rel@),
        decreases listing.len() - i,
    {
        let ghost before = pair_views(out@);
        let ghost pre = string_views(listing@).take(i as int);
        let ghost cur = string_views(listing@).take(i + 1);
        assert(cur.drop_last() =~= pre);
        assert(cur.last() == listing@[i as int]@);
        if is_cpu_dir(listing[i].as_str()) {
            let dir = crate::text::copy_string(&listing[i]);
            let file = join(listing[i].as_str(), rel);
            let ghost e = (dir@, file@);
            out.push((dir, file));
            assert(pair_views(out@) =~= before.push(e));
            assert(cpu_entries(cur) == cpu_entries(pre).push(
                (cpu_index(listing@[i as int]@).unwrap(), listing@[i as int]@),
            ));
            assert(core_files(cur, rel@) =~= core_files(pre, rel@).push(e));
        } else {
            assert(cpu_entries(cur) == cpu_entries(pre));
            assert(core_files(cur, rel@) =~= core_files(pre, rel@));
        }
        i = i + 1;
    }
    assert(string_views(listing@).take(listing.len() as int) =~= string_views(listing@));
    out
}

/// The series view of the governors listed by an
/// `scaling_available_governors` file.
pub open spec fn governor_list_view(content: Seq<char>) -> ValueView {
    enum_series_view(split_ws(content))
}

/// The governors listed by the contents of an
/// `scaling_available_governors` file, one `Enum` per whitespace-separated
/// name.
pub fn governor_list(content: &str) -> (r: Value)
    ensures
        r@ == governor_list_view(content@),
{
    let cs = chars_of(content);
    let toks = split_whitespace(&cs);
    let mut names: Vec<String> = Vec::new();
    let mut i: usize = 0;
    while i < toks.len()
        invariant
            0 <= i <= toks.len(),
            string_views(names@) == views(toks@).take(i as int),
        decreases toks.len() - i,
    {
        let ghost before = string_views(names@);
        let n = string_of(&toks[i]);
        let ghost nv = n@;
        names.push(n);
        i = i + 1;
        assert(string_views(names@) =~= before.push(nv));
        assert(string_views(names@) =~= views(toks@).take(i as int));
    }
    assert(views(toks@).take(toks.len() as int) =~= views(toks@));
    enum_series(names)
}

/// A value that reading the governors can give: the trimmed
/// `scaling_governor` text of each `cpuN` entry of a listing, in index
/// order.
pub open spec fn is_governor_value<S: Source + ?Sized>(source: &S, v: ValueView) -> bool {
    exists|reads: Seq<Option<Seq<char>>>|
        #![trigger per_core_reads(source, governor_file(), false, reads)]
        per_core_reads(source, governor_file(), false, reads) && v == enum_series_view(
            string_readings(reads),
        )
}

/// The per-core file holding a core's scaling governor.
pub open spec fn governor_file() -> Seq<char> {
    "cpufreq/scaling_governor"@
}

/// The per-core file listing the governors a core offers.
pub open spec fn available_governors_file() -> Seq<char> {
    "cpufreq/scaling_available_governors"@
}

/// Metric: scaling governor of every CPU core.
///
/// Writable: writing an `Enum` (or `Raw`) governor name sets the governor
/// on every core.
pub struct CpuGovernorMetric;

impl CpuGovernorMetric {
    pub fn new() -> (r: Self) {
        CpuGovernorMetric
    }
}

impl Metric for CpuGovernorMetric {
    open spec fn spec_id(&self) -> Seq<char> {
        "cpu.governor"@
    }

    open spec fn spec_label(&self) -> Seq<char> {
        "Scaling Governor"@
    }

    open spec fn spec_writable(&self) -> bool {
        true
    }

    open spec fn spec_core_writable(&self) -> bool {
        false
    }

    fn id(&self) -> (r: &str) {
        "cpu.governor"
    }

    fn label(&self) -> (r: &str) {
        "Scaling Governor"
    }

    fn read<S: Source + ?Sized>(&mut self, source: &S) -> (r: Result<Value, HwError>)
        ensures
            r matches Ok(v) ==> is_governor_value(source, v@),
    {
        let rel = "cpufreq/scaling_governor";
        let names = per_core_string(source, rel)?;
        let ghost reads = choose|reads: Seq<Option<Seq<char>>>|
            #![trigger per_core_reads(source, rel@, false, reads)]
            per_core_reads(source, rel@, false, reads) && string_views(names@) == string_readings(
                reads,
            );
        let v = enum_series(names);
        assert(per_core_reads(source, governor_file(), false, reads));
        Ok(v)
    }

    fn is_writable(&self) -> (r: bool) {
        true
    }

    /// Sets the governor carried by `value` (trimmed) on every `cpuN`
    /// directory, in listing order, that has a `scaling_governor` file; the
    /// first failing write stops the walk.
    fn write<S: Source + ?Sized>(&self, source: &S, value: &Value) -> (r: Result<(), HwError>)
        ensures
            !is_name_value(value@) ==> (r matches Err(HwError::NotAGovernorName(k)) && k@
                == kind_text(value@)),
            is_name_value(value@) && governor_name(value@) is Err ==> r == Err::<(), HwError>(
                HwError::EmptyGovernorName,
            ),
            r is Ok ==> is_name_value(value@) && governor_name(value@) is Ok,
            r is Ok ==> exists|listing: Seq<Seq<char>>, present: Seq<bool>|
                #![trigger source.listed(SYS_CPU@, listing), walked(source, core_files(listing, governor_file()), governor_name(value@)->Ok_0, present)]
                source.listed(SYS_CPU@, listing) && walked(
                    source,
                    core_files(listing, governor_file()),
                    governor_name(value@)->Ok_0,
                    present,
                ),
            r matches Err(e) ==> !is_name_value(value@) || governor_name(value@) is Err
                || source.listing_failed(SYS_CPU@, e) || exists|listing: Seq<Seq<char>>, present: Seq<bool>, k: int|
                #![trigger source.listed(SYS_CPU@, listing), walked(source, core_files(listing, governor_file()).take(k), governor_name(value@)->Ok_0, present)]
                source.listed(SYS_CPU@, listing) && 0 <= k < core_files(listing, governor_file()).len()
                    && walked(
                    source,
                    core_files(listing, governor_file()).take(k),
                    governor_name(value@)->Ok_0,
                    present,
                ) && source.answered(core_files(listing, governor_file())[k].1, true) && (
                e matches HwError::SetGovernorFailed(d) && d@ == core_files(
                    listing,
                    governor_file(),
                )[k].0),
    {
        let gov = governor_name_of(value)?;
        let entries = source.list_dir(SYS_CPU)?;
        let files = core_file_paths(&entries, "cpufreq/scaling_governor");
        let ghost listing = string_views(entries@);
        let ghost fv = pair_views(files@);
        let ghost mut present: Seq<bool> = Seq::empty();
        assert(entries@.map_values(|e: String| e@) =~= listing);
        let mut i: usize = 0;
        while i < files.len()
            invariant
                0 <= i <= files.len(),
                is_name_value(value@),
                governor_name(value@) == Ok::<Seq<char>, HwError>(gov@),
                fv == pair_views(files@),
                fv == core_files(listing, governor_file()),
                source.listed(SYS_CPU@, listing),
                walked(source, fv.take(i as int), gov@, present),
            decreases files.len() - i,
        {
            let (dir, file) = (&files[i].0, &files[i].1);
            assert(fv[i as int].1 == file@);
            let exists_now = source.path_exists(file.as_str());
            if exists_now {
                match source.write(file.as_str(), gov.as_str()) {
                    Ok(()) => {},
                    Err(_) => {
                        let d = crate::text::copy_string(dir);
                        assert(fv[i as int].0 == d@);
                        assert(source.answered(fv[i as int].1, true));
                        assert(walked(
                            source,
                            core_files(listing, governor_file()).take(i as int),
                            governor_name(value@)->Ok_0,
                            present,
                        ));
                        assert(source.listed(SYS_CPU@, listing));
                        return Err(HwError::SetGovernorFailed(d));
                    },
                }
            }
            proof {
                present = present.push(exists_now);
                assert(fv.take(i + 1).drop_last() =~= fv.take(i as int));
            }
            i = i + 1;
        }
        assert(fv.take(files.len() as int) =~= fv);
        Ok(())
    }

    fn is_core_writable(&self) -> (r: bool) {
        false
    }
}

/// A value that reading the available governors through `source` can
/// give: for a listing of [`SYS_CPU`] that the source gave, the names in a
/// text it served for the `scaling_available_governors` file of the first
/// `cpuN` directory, in listing order, whose file it said exists; no names
/// when it said none exists.
pub open spec fn is_available_governors_value<S: Source + ?Sized>(source: &S, v: ValueView) -> bool {
    exists|listing: Seq<Seq<char>>|
        #![trigger source.listed(SYS_CPU@, listing)]
        source.listed(SYS_CPU@, listing) && available_from(
            source,
            core_files(listing, available_governors_file()),
            v,
        )
}

/// `v` is what the first of `files` that `source` said exists gives, or
/// no names when it said none exists.
pub open spec fn available_from<S: Source + ?Sized>(
    source: &S,
    files: Seq<(Seq<char>, Seq<char>)>,
    v: ValueView,
) -> bool {
    ||| v == enum_series_view(Seq::empty()) && forall|j: int|
        0 <= j < files.len() ==> source.answered(#[trigger] files[j].1, false)
    ||| exists|k: int, content: Seq<char>|
        #![trigger files[k], governor_list_view(content)]
        0 <= k < files.len() && (forall|j: int|
            0 <= j < k ==> source.answered(#[trigger] files[j].1, false)) && source.answered(
            files[k].1,
            true,
        ) && source.served(files[k].1, content) && v == governor_list_view(content)
}

/// Metric: governors available on the system (read from the first core in
/// listing order that has an `scaling_available_governors` file).
pub struct CpuAvailableGovernorsMetric;

impl CpuAvailableGovernorsMetric {
    pub fn new() -> (r: Self) {
        CpuAvailableGovernorsMetric
    }
}

impl Metric for CpuAvailableGovernorsMetric {
    open spec fn spec_id(&self) -> Seq<char> {
        "cpu.governor.available"@
    }

    open spec fn spec_label(&self) -> Seq<char> {
        "Available Governors"@
    }

    open spec fn spec_writable(&self) -> bool {
        false
    }

    open spec fn spec_core_writable(&self) -> bool {
        false
    }

    fn id(&self) -> (r: &str) {
        "cpu.governor.available"
    }

    fn label(&self) -> (r: &str) {
        "Available Governors"
    }

    fn read<S: Source + ?Sized>(&mut self, source: &S) -> (r: Result<Value, HwError>)
        ensures
            r matches Ok(v) ==> is_available_governors_value(source, v@),
    {
        let entries = source.list_dir(SYS_CPU)?;
        let files = core_file_paths(&entries, "cpufreq/scaling_available_governors");
        let ghost listing = string_views(entries@);
        let ghost fv = pair_views(files@);
        assert(entries@.map_values(|e: String| e@) =~= listing);
        assert(fv == core_files(listing, available_governors_file()));
        let mut i: usize = 0;
        while i < files.len()
            invariant
                0 <= i <= files.len(),
                fv == pair_views(files@),
                source.listed(SYS_CPU@, listing),
                fv == core_files(listing, available_governors_file()),
                forall|j: int| 0 <= j < i ==> source.answered(#[trigger] fv[j].1, false),
            decreases files.len() - i,
        {
            let file = &files[i].1;
            assert(fv[i as int].1 == file@);
            if source.path_exists(file.as_str()) {
                let content = source.read_to_string(file.as_str())?;
                let v = governor_list(content.as_str());
                assert(v@ == governor_list_view(content@));
                assert(available_from(source, fv, v@)) by {
                    assert(fv[i as int] == fv[i as int]);
                }
                return Ok(v);
            }
            i = i + 1;
        }
        let v = enum_series(Vec::new());
        assert(string_views(Seq::<String>::empty()) =~= Seq::<Seq<char>>::empty());
        assert(available_from(source, fv, v@));
        Ok(v)
    }

    fn is_writable(&self) -> (r: bool) {
        false
    }

    fn is_core_writable(&self) -> (r: bool) {
        false
    }
}

} // verus!
