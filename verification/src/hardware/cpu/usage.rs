//! Per-core CPU utilization, from the tick counters of `/proc/stat`.
use vstd::prelude::*;
use std::collections::HashMap;
use crate::hardware::cpu::cpu_prefix;
use crate::hardware::metric::Metric;
use crate::hardware::source::{HwError, Source};
use crate::hardware::value::{lemma_value_views, value_view, value_views, TickDelta, Value, ValueView};
use crate::order::{is_stable_sort, sort_by_index};
use crate::text::{
    chars_of, has_prefix, lines, parse_uint, parse_unsigned, slice_chars, split_lines,
    split_whitespace, split_ws, starts_with, string_from, views,
};

verus! {

broadcast use {vstd::std_specs::vec::group_vec_axioms, vstd::std_specs::hash::group_hash_axioms};

/// The kernel's tick counters.
pub const PROC_STAT: &'static str = "/proc/stat";

// ---------------------------------------------------------------------------
// Parsing `/proc/stat`.
/// The tokens of a line that read as `u64`, in order.
pub open spec fn stat_fields(toks: Seq<Seq<char>>) -> Seq<nat>
    decreases toks.len(),
{
    if toks.len() == 0 {
        Seq::empty()
    } else {
        let prev = stat_fields(toks.drop_last());
        match parse_uint(toks.last(), u64::MAX as nat) {
            Some(v) => prev.push(v),
            None => prev,
        }
    }
}

/// The first eight elements of `s`, or all of them when there are fewer.
pub open spec fn first_eight(s: Seq<nat>) -> Seq<nat> {
    if s.len() > 8 {
        s.take(8)
    } else {
        s
    }
}

pub open spec fn nat_sum(s: Seq<nat>) -> nat
    decreases s.len(),
{
    if s.len() == 0 {
        0
    } else {
        nat_sum(s.drop_last()) + s.last()
    }
}

/// The `(core, (idle, total))` of a per-core line of `/proc/stat`: its
/// first token is `cpu` followed by a core index, and at least four of the
/// other tokens read as `u64`. `idle` is the fourth number plus the fifth
/// (idle + iowait); `total` is the sum of the first eight (user, nice,
/// system, idle, iowait, irq, softirq, steal). The aggregate `cpu` line
/// has no index and is no record.
pub open spec fn stat_line(line: Seq<char>) -> Option<(usize, (nat, nat))> {
    let toks = split_ws(line);
    if toks.len() > 0 && has_prefix(toks[0], cpu_prefix()) {
        match parse_uint(toks[0].skip(3), usize::MAX as nat) {
            Some(core) => {
                let f = stat_fields(toks.skip(1));
                if f.len() >= 4 {
                    Some(
                        (
                            core as usize,
                            (
                                f[3] + if f.len() > 4 {
                                    f[4]
                                } else {
                                    0
                                },
                                nat_sum(first_eight(f)),
                            ),
                        ),
                    )
                } else {
                    None
                }
            },
            None => None,
        }
    } else {
        None
    }
}

/// The per-core records of a sequence of lines, in line order.
pub open spec fn stat_records(lines: Seq<Seq<char>>) -> Seq<(usize, (nat, nat))>
    decreases lines.len(),
{
    if lines.len() == 0 {
        Seq::empty()
    } else {
        let prev = stat_records(lines.drop_last());
        match stat_line(lines.last()) {
            Some(r) => prev.push(r),
            None => prev,
        }
    }
}

pub open spec fn record_fits(r: (usize, (nat, nat))) -> bool {
    r.1.0 <= u64::MAX && r.1.1 <= u64::MAX
}

/// Every per-core record of `content` has sums that fit in 64 bits.
pub open spec fn proc_stat_fits(content: Seq<char>) -> bool {
    let recs = stat_records(split_lines(content));
    forall|i: int| 0 <= i < recs.len() ==> #[trigger] record_fits(recs[i])
}

/// The per-core `(core, (idle, total))` samples of `/proc/stat` contents,
/// in line order.
pub open spec fn stat_samples(content: Seq<char>) -> Seq<(usize, (u64, u64))> {
    stat_records(split_lines(content)).map_values(
        |r: (usize, (nat, nat))| (r.0, (r.1.0 as u64, r.1.1 as u64)),
    )
}

/// Triples `(core, idle, total)` as pairs `(core, (idle, total))`.
pub open spec fn nested(s: Seq<(usize, u64, u64)>) -> Seq<(usize, (u64, u64))> {
    s.map_values(|t: (usize, u64, u64)| (t.0, (t.1, t.2)))
}

/// What scanning one line found.
pub enum StatLine {
    /// Not a per-core line.
    Skip,
    /// A per-core line `(core, idle, total)`.
    Sample(usize, u64, u64),
    /// A per-core line whose sums exceed 64 bits.
    Overflow,
}

/// The numbers among `toks[from..]`, with the proof that they are the
/// `stat_fields` of those tokens.
fn numeric_fields(toks: &Vec<Vec<char>>, from: usize) -> (r: Vec<u64>)
    requires
        from <= toks.len(),
    ensures
        r@.map_values(|v: u64| v as nat) == stat_fields(views(toks@).skip(from as int)),
{
    let ghost ts = views(toks@).skip(from as int);
    let mut out: Vec<u64> = Vec::new();
    let mut j: usize = from;
    while j < toks.len()
        invariant
            from <= j <= toks.len(),
            ts == views(toks@).skip(from as int),
            out@.map_values(|v: u64| v as nat) == stat_fields(ts.take(j - from)),
        decreases toks.len() - j,
    {
        let ghost before = out@;
        assert(ts.take(j - from + 1).drop_last() =~= ts.take(j - from));
        assert(ts.take(j - from + 1).last() == toks@[j as int]@);
        match parse_unsigned(&toks[j], u64::MAX) {
            Some(v) => {
                out.push(v);
                assert(out@.map_values(|v: u64| v as nat) =~= before.map_values(
                    |v: u64| v as nat,
                ).push(v as nat));
            },
            None => {},
        }
        j = j + 1;
    }
    assert(ts.take(toks.len() - from) =~= ts);
    out
}

/// Scans one line of `/proc/stat`.
pub fn scan_stat_line(line: &Vec<char>) -> (r: StatLine)
    ensures
        match stat_line(line@) {
            None => r is Skip,
            Some(rec) => if record_fits(rec) {
                r == StatLine::Sample(rec.0, rec.1.0 as u64, rec.1.1 as u64)
            } else {
                r is Overflow
            },
        },
{
    let toks = split_whitespace(line);
    let ghost tv = views(toks@);
    if toks.len() == 0 {
        return StatLine::Skip;
    }
    assert(tv[0] == toks@[0]@);
    if !starts_with(&toks[0], "cpu") {
        proof {
            reveal_strlit("cpu");
            assert("cpu"@ =~= cpu_prefix());
        }
        return StatLine::Skip;
    }
    proof {
        reveal_strlit("cpu");
        assert("cpu"@ =~= cpu_prefix());
    }
    let rest = slice_chars(&toks[0], 3, toks[0].len());
    assert(rest@ =~= tv[0].skip(3));
    let core = match parse_unsigned(&rest, usize::MAX as u64) {
        Some(c) => c as usize,
        None => {
            return StatLine::Skip;
        },
    };
    let f = numeric_fields(&toks, 1);
    let ghost fv = f@.map_values(|v: u64| v as nat);
    assert(fv == stat_fields(tv.skip(1)));
    if f.len() < 4 {
        return StatLine::Skip;
    }
    let extra: u64 = if f.len() > 4 {
        f[4]
    } else {
        0
    };
    let idle = match f[3].checked_add(extra) {
        Some(v) => v,
        None => {
            return StatLine::Overflow;
        },
    };
    let n: usize = if f.len() < 8 {
        f.len()
    } else {
        8
    };
    let ghost rec = (core, ((fv[3] + if fv.len() > 4 { fv[4] } else { 0 }) as nat, nat_sum(first_eight(fv))));
    assert(stat_line(line@) == Some(rec));
    let mut total: u64 = 0;
    let mut k: usize = 0;
    while k < n
        invariant
            stat_line(line@) == Some(rec),
            rec.1.1 == nat_sum(first_eight(fv)),
            rec.0 == core,
            rec.1.0 == idle,
            n <= f.len(),
            n == if fv.len() < 8 { fv.len() } else { 8 },
            fv == f@.map_values(|v: u64| v as nat),
            0 <= k <= n,
            total as nat == nat_sum(fv.take(k as int)),
        decreases n - k,
    {
        assert(fv.take(k + 1).drop_last() =~= fv.take(k as int));
        match total.checked_add(f[k]) {
            Some(t) => {
                total = t;
            },
            None => {
                proof {
                    lemma_nat_sum_prefix(first_eight(fv), k + 1);
                    assert(first_eight(fv).take(k + 1) =~= fv.take(k + 1));
                }
                return StatLine::Overflow;
            },
        }
        k = k + 1;
    }
    assert(fv.take(n as int) =~= first_eight(fv));
    StatLine::Sample(core, idle, total)
}

proof fn lemma_nat_sum_prefix(s: Seq<nat>, k: int)
    requires
        0 <= k <= s.len(),
    ensures
        nat_sum(s.take(k)) <= nat_sum(s),
    decreases s.len() - k,
{
    if k < s.len() {
        lemma_nat_sum_prefix(s, k + 1);
        assert(s.take(k + 1).drop_last() =~= s.take(k));
    } else {
        assert(s.take(k) =~= s);
    }
}

/// The samples of `/proc/stat` contents in line order, or `None` when a
/// per-core line's sums exceed 64 bits.
pub fn stat_samples_checked(content: &str) -> (r: Option<Vec<(usize, (u64, u64))>>)
    ensures
        r is Some <==> proc_stat_fits(content@),
        r matches Some(v) ==> v@ == stat_samples(content@),
{
    let cs = chars_of(content);
    let ls = lines(&cs);
    let ghost lv = views(ls@);
    assert(lv == split_lines(content@));
    let mut out: Vec<(usize, (u64, u64))> = Vec::new();
    let mut i: usize = 0;
    while i < ls.len()
        invariant
            0 <= i <= ls.len(),
            lv == views(ls@),
            lv == split_lines(content@),
            forall|k: int|
                0 <= k < stat_records(lv.take(i as int)).len() ==> #[trigger] record_fits(
                    stat_records(lv.take(i as int))[k],
                ),
            out@ == stat_records(lv.take(i as int)).map_values(
                |r: (usize, (nat, nat))| (r.0, (r.1.0 as u64, r.1.1 as u64)),
            ),
        decreases ls.len() - i,
    {
        assert(lv.take(i + 1).drop_last() =~= lv.take(i as int));
        assert(lv.take(i + 1).last() == ls@[i as int]@);
        let ghost before = out@;
        match scan_stat_line(&ls[i]) {
            StatLine::Skip => {},
            StatLine::Sample(c, idle, total) => {
                out.push((c, (idle, total)));
                assert(out@ =~= stat_records(lv.take(i + 1)).map_values(
                    |r: (usize, (nat, nat))| (r.0, (r.1.0 as u64, r.1.1 as u64)),
                ));
            },
            StatLine::Overflow => {
                proof {
                    let recs = stat_records(lv.take(i + 1));
                    assert(!record_fits(recs[recs.len() - 1]));
                    lemma_records_prefix(lv, i + 1);
                    let all = stat_records(lv);
                    assert(all.take(recs.len() as int) == recs);
                    assert(!record_fits(all[recs.len() - 1]));
                    assert(lv.take(ls.len() as int) =~= lv);
                }
                return None;
            },
        }
        i = i + 1;
    }
    assert(lv.take(ls.len() as int) =~= lv);
    Some(out)
}

/// The records of a prefix of the lines are a prefix of the records.
proof fn lemma_records_prefix(lv: Seq<Seq<char>>, k: int)
    requires
        0 <= k <= lv.len(),
    ensures
        stat_records(lv.take(k)).len() <= stat_records(lv).len(),
        stat_records(lv).take(stat_records(lv.take(k)).len() as int) == stat_records(lv.take(k)),
    decreases lv.len() - k,
{
    if k < lv.len() {
        lemma_records_prefix(lv, k + 1);
        assert(lv.take(k + 1).drop_last() =~= lv.take(k));
        let a = stat_records(lv.take(k));
        let b = stat_records(lv.take(k + 1));
        let all = stat_records(lv);
        assert(all.take(a.len() as int) =~= b.take(a.len() as int));
    } else {
        assert(lv.take(k) =~= lv);
        assert(stat_records(lv).take(stat_records(lv).len() as int) =~= stat_records(lv));
    }
}

/// Whether every per-core line of `/proc/stat` contents has sums that fit
/// in 64 bits.
pub fn proc_stat_in_range(content: &str) -> (r: bool)
    ensures
        r == proc_stat_fits(content@),
{
    stat_samples_checked(content).is_some()
}

/// Parse `/proc/stat` into `(core, idle, total)` tuples, sorted by core
/// (lines of the same core keep their order).
///
/// `idle = idle + iowait`; `total` is the sum of the first eight fields
/// (user, nice, system, idle, iowait, irq, softirq, steal). The aggregate
/// `cpu ` line (no numeric suffix) is skipped.
pub fn parse_proc_stat(content: &str) -> (r: Vec<(usize, u64, u64)>)
    requires
        proc_stat_fits(content@),
    ensures
        is_stable_sort(nested(r@), stat_samples(content@)),
{
    let samples = match stat_samples_checked(content) {
        Some(v) => v,
        None => Vec::new(),
    };
    let sorted = sort_by_index(samples);
    let mut out: Vec<(usize, u64, u64)> = Vec::new();
    let mut i: usize = 0;
    while i < sorted.len()
        invariant
            0 <= i <= sorted.len(),
            nested(out@) == sorted@.take(i as int),
        decreases sorted.len() - i,
    {
        let (c, (idle, total)) = sorted[i];
        assert(sorted@[i as int] == (c, (idle, total)));
        let ghost before = nested(out@);
        out.push((c, idle, total));
        assert(nested(out@) =~= before.push((c, (idle, total))));
        i = i + 1;
        assert(nested(out@) =~= sorted@.take(i as int));
    }
    assert(sorted@.take(sorted.len() as int) =~= sorted@);
    out
}

// ---------------------------------------------------------------------------
// Utilization between consecutive samples.
pub open spec fn sat_sub(a: u64, b: u64) -> u64 {
    if a >= b {
        (a - b) as u64
    } else {
        0
    }
}

/// The utilization of sample `s = (core, idle, total)` against the
/// previous sample of its core in `prev`: the idle and total deltas
/// (saturating at zero), or `None` when the core has no previous sample
/// or no tick elapsed.
pub open spec fn usage_of(prev: Map<usize, (u64, u64)>, s: (usize, u64, u64)) -> Option<TickDelta> {
    if prev.contains_key(s.0) {
        let dt = sat_sub(s.2, prev[s.0].1);
        let di = sat_sub(s.1, prev[s.0].0);
        if dt == 0 {
            None
        } else {
            Some(TickDelta { idle: di, total: dt })
        }
    } else {
        None
    }
}

/// Taking samples in order: the utilization of each against the samples
/// seen so far, and the last sample of each core afterwards.
pub open spec fn usage_step(prev: Map<usize, (u64, u64)>, samples: Seq<(usize, u64, u64)>) -> (Map<
    usize,
    (u64, u64),
>, Seq<Option<TickDelta>>)
    decreases samples.len(),
{
    if samples.len() == 0 {
        (prev, Seq::empty())
    } else {
        let st = usage_step(prev, samples.drop_last());
        let s = samples.last();
        (st.0.insert(s.0, (s.1, s.2)), st.1.push(usage_of(st.0, s)))
    }
}

pub open spec fn percent_series_view(ps: Seq<Option<TickDelta>>) -> ValueView {
    ValueView::Series(ps.map_values(|p: Option<TickDelta>| ValueView::Percent(p)))
}

/// No two samples are of the same core.
pub open spec fn distinct_cores(samples: Seq<(usize, u64, u64)>) -> bool {
    forall|i: int, j: int|
        0 <= i < j < samples.len() ==> #[trigger] samples[i].0 != #[trigger] samples[j].0
}

/// With one sample per core, each sample is measured against the history
/// from before the call, and afterwards the history holds each sampled
/// core's new counters and keeps the others.
pub proof fn law_usage_against_previous(prev: Map<usize, (u64, u64)>, samples: Seq<(usize, u64, u64)>)
    requires
        distinct_cores(samples),
    ensures
        usage_step(prev, samples).1.len() == samples.len(),
        forall|k: int|
            0 <= k < samples.len() ==> #[trigger] usage_step(prev, samples).1[k] == usage_of(
                prev,
                samples[k],
            ),
        forall|k: int|
            0 <= k < samples.len() ==> usage_step(prev, samples).0.contains_key(#[trigger] samples[k].0)
                && usage_step(prev, samples).0[samples[k].0] == (samples[k].1, samples[k].2),
        forall|c: usize|
            (forall|k: int| 0 <= k < samples.len() ==> #[trigger] samples[k].0 != c) ==> (
            #[trigger] usage_step(prev, samples).0.contains_key(c) == prev.contains_key(c)) && (
            prev.contains_key(c) ==> usage_step(prev, samples).0[c] == prev[c]),
    decreases samples.len(),
{
    if samples.len() > 0 {
        let init = samples.drop_last();
        let s = samples.last();
        assert forall|i: int, j: int| 0 <= i < j < init.len() implies #[trigger] init[i].0
            != #[trigger] init[j].0 by {
            assert(init[i] == samples[i] && init[j] == samples[j]);
        }
        law_usage_against_previous(prev, init);
        let st = usage_step(prev, init);
        assert forall|k: int| 0 <= k < init.len() implies #[trigger] init[k].0 != s.0 by {
            assert(init[k] == samples[k]);
            assert(samples[k].0 != samples[samples.len() - 1].0);
        }
        assert(st.0.contains_key(s.0) == prev.contains_key(s.0));
        assert(usage_of(st.0, s) == usage_of(prev, s));
        assert forall|k: int| 0 <= k < samples.len() implies #[trigger] usage_step(
            prev,
            samples,
        ).1[k] == usage_of(prev, samples[k]) by {
            if k < init.len() {
                assert(init[k] == samples[k]);
            }
        }
        assert forall|k: int| 0 <= k < samples.len() implies usage_step(prev, samples).0.contains_key(
            #[trigger] samples[k].0,
        ) && usage_step(prev, samples).0[samples[k].0] == (samples[k].1, samples[k].2) by {
            if k < init.len() {
                assert(init[k] == samples[k]);
                assert(samples[k].0 != s.0);
            }
        }
        assert forall|c: usize|
            (forall|k: int| 0 <= k < samples.len() ==> #[trigger] samples[k].0 != c) implies (
            #[trigger] usage_step(prev, samples).0.contains_key(c) == prev.contains_key(c)) && (
            prev.contains_key(c) ==> usage_step(prev, samples).0[c] == prev[c]) by {
            assert(samples[samples.len() - 1].0 != c);
            assert forall|k: int| 0 <= k < init.len() implies #[trigger] init[k].0 != c by {
                assert(init[k] == samples[k]);
            }
            assert(st.0.contains_key(c) == prev.contains_key(c));
            assert(usage_step(prev, samples).0 == st.0.insert(s.0, (s.1, s.2)));
        }
    }
}

/// The first sample of each core has no previous sample to compare with:
/// with an empty history and one sample per core, every utilization is
/// unknown.
pub proof fn law_first_sample_unknown(samples: Seq<(usize, u64, u64)>)
    requires
        distinct_cores(samples),
    ensures
        forall|k: int|
            0 <= k < samples.len() ==> #[trigger] usage_step(
                Map::<usize, (u64, u64)>::empty(),
                samples,
            ).1[k] is None,
{
    law_usage_against_previous(Map::empty(), samples);
}

/// Taking the same samples twice in a row measures no elapsed tick, so the
/// second call reports every utilization as unknown.
pub proof fn law_same_sample_unknown(prev: Map<usize, (u64, u64)>, samples: Seq<(usize, u64, u64)>)
    requires
        distinct_cores(samples),
    ensures
        forall|k: int|
            0 <= k < samples.len() ==> #[trigger] usage_step(
                usage_step(prev, samples).0,
                samples,
            ).1[k] is None,
{
    law_usage_against_previous(prev, samples);
    law_usage_against_previous(usage_step(prev, samples).0, samples);
}

/// Between two samples of the same cores, each core's utilization is the
/// growth of its idle and total counters (when the total grew).
pub proof fn law_delta_between_samples(
    prev: Map<usize, (u64, u64)>,
    first: Seq<(usize, u64, u64)>,
    second: Seq<(usize, u64, u64)>,
)
    requires
        distinct_cores(first),
        distinct_cores(second),
        first.len() == second.len(),
        forall|k: int| 0 <= k < first.len() ==> #[trigger] first[k].0 == second[k].0,
        forall|k: int|
            0 <= k < first.len() ==> #[trigger] first[k].1 <= second[k].1 && first[k].2
                < second[k].2,
    ensures
        forall|k: int|
            0 <= k < second.len() ==> #[trigger] usage_step(usage_step(prev, first).0, second).1[k]
                == Some(
                TickDelta {
                    idle: (second[k].1 - first[k].1) as u64,
                    total: (second[k].2 - first[k].2) as u64,
                },
            ),
{
    law_usage_against_previous(prev, first);
    law_usage_against_previous(usage_step(prev, first).0, second);
    assert forall|k: int| 0 <= k < second.len() implies #[trigger] usage_step(
        usage_step(prev, first).0,
        second,
    ).1[k] == Some(
        TickDelta {
            idle: (second[k].1 - first[k].1) as u64,
            total: (second[k].2 - first[k].2) as u64,
        },
    ) by {
        assert(first[k].0 == second[k].0);
        assert(first[k].1 <= second[k].1 && first[k].2 < second[k].2);
    }
}

/// A value that reading the utilization can give: for the per-core samples
/// of a `/proc/stat` text, sorted by core, each core's utilization against
/// some history of previous samples.
/// A read of the usage metric that kept the samples `before` gave `v` and
/// keeps `after`: `/proc/stat` as `source` served it, its samples sorted by
/// core, stepped from `before`.
pub open spec fn usage_read<S: Source + ?Sized>(
    source: &S,
    before: Map<usize, (u64, u64)>,
    after: Map<usize, (u64, u64)>,
    v: ValueView,
) -> bool {
    exists|content: Seq<char>, samples: Seq<(usize, u64, u64)>|
        #![trigger stat_samples(content), usage_step(before, samples)]
        source.served(PROC_STAT@, content) && proc_stat_fits(content) && is_stable_sort(
            nested(samples),
            stat_samples(content),
        ) && after == usage_step(before, samples).0 && v == percent_series_view(usage_step(before, samples).1)
}

pub open spec fn is_usage_value<S: Source + ?Sized>(source: &S, v: ValueView) -> bool {
    exists|history: Map<usize, (u64, u64)>, content: Seq<char>, samples: Seq<(usize, u64, u64)>|
        #![trigger stat_samples(content), usage_step(history, samples)]
        source.served(PROC_STAT@, content) && proc_stat_fits(content) && is_stable_sort(
            nested(samples),
            stat_samples(content),
        ) && v == percent_series_view(usage_step(history, samples).1)
}

/// Metric: per-core CPU utilization, derived from `/proc/stat`.
///
/// Utilization is a ratio of deltas between two samples, so the metric
/// keeps the previous `(idle, total)` of each core. The first sample of a
/// core (no prior data) yields `Percent(None)`.
pub struct CpuUtilizationMetric {
    prev: HashMap<usize, (u64, u64)>,
}

impl CpuUtilizationMetric {
    /// The last `(idle, total)` seen of each core.
    pub closed spec fn history(&self) -> Map<usize, (u64, u64)> {
        self.prev@
    }

    pub fn new() -> (r: Self)
        ensures
            r.history() == Map::<usize, (u64, u64)>::empty(),
    {
        CpuUtilizationMetric { prev: HashMap::new() }
    }

    /// Takes the per-core samples of the `/proc/stat` text `content`, sorted
    /// by core (see [`CpuUtilizationMetric::sample`]); a text whose counter
    /// sums exceed 64 bits is refused and the history kept.
    pub fn sample_text(&mut self, content: &str) -> (r: Result<Value, HwError>)
        ensures
            !proc_stat_fits(content@) ==> r == Err::<Value, HwError>(HwError::CounterOverflow)
                && final(self).history() == old(self).history(),
            proc_stat_fits(content@) ==> exists|samples: Seq<(usize, u64, u64)>|
                #![trigger usage_step(old(self).history(), samples)]
                is_stable_sort(nested(samples), stat_samples(content@)) && final(self).history()
                    == usage_step(old(self).history(), samples).0 && (r matches Ok(v) && v@
                    == percent_series_view(usage_step(old(self).history(), samples).1)),
    {
        if !proc_stat_in_range(content) {
            return Err(HwError::CounterOverflow);
        }
        let samples = parse_proc_stat(content);
        let v = self.sample(&samples);
        assert(usage_step(old(self).history(), samples@) == usage_step(old(self).history(), samples@));
        Ok(v)
    }

    /// Takes the samples `(core, idle, total)` in order: each yields its
    /// utilization against the previous sample of its core, then becomes
    /// that core's previous sample.
    pub fn sample(&mut self, samples: &Vec<(usize, u64, u64)>) -> (r: Value)
        ensures
            final(self).history() == usage_step(old(self).history(), samples@).0,
            r@ == percent_series_view(usage_step(old(self).history(), samples@).1),
    {
        let ghost start = self.prev@;
        let mut out: Vec<Value> = Vec::new();
        let mut i: usize = 0;
        while i < samples.len()
            invariant
                0 <= i <= samples.len(),
                self.prev@ == usage_step(start, samples@.take(i as int)).0,
                usage_step(start, samples@.take(i as int)).1.len() == i,
                out@.len() == i,
                forall|k: int|
                    0 <= k < i ==> #[trigger] out@[k] == Value::Percent(
                        usage_step(start, samples@.take(i as int)).1[k],
                    ),
            decreases samples.len() - i,
        {
            let (core, idle, total) = samples[i];
            let ghost st = usage_step(start, samples@.take(i as int));
            let ghost sv = samples@[i as int];
            assert(sv == (core, idle, total));
            assert(samples@.take(i + 1).drop_last() =~= samples@.take(i as int));
            assert(samples@.take(i + 1).last() == sv);
            assert(usage_step(start, samples@.take(i + 1)) == (st.0.insert(core, (idle, total)), st.1.push(usage_of(st.0, sv))));
            let pct = match self.prev.get(&core) {
                Some(p) => {
                    let (prev_idle, prev_total) = *p;
                    let dt = total.saturating_sub(prev_total);
                    let di = idle.saturating_sub(prev_idle);
                    if dt == 0 {
                        None
                    } else {
                        Some(TickDelta { idle: di, total: dt })
                    }
                },
                None => None,
            };
            assert(pct == usage_of(st.0, sv));
            out.push(Value::Percent(pct));
            self.prev.insert(core, (idle, total));
            i = i + 1;
        }
        assert(samples@.take(samples.len() as int) =~= samples@);
        proof {
            lemma_value_views(out@);
            let ps = usage_step(start, samples@).1;
            assert(value_views(out@) =~= ps.map_values(|p: Option<TickDelta>| ValueView::Percent(p)));
        }
        Value::Series(out)
    }
}

impl Default for CpuUtilizationMetric {
    fn default() -> (r: Self) {
        Self::new()
    }
}

impl Metric for CpuUtilizationMetric {
    open spec fn spec_id(&self) -> Seq<char> {
        "cpu.usage"@
    }

    open spec fn spec_label(&self) -> Seq<char> {
        "Usage"@
    }

    open spec fn spec_writable(&self) -> bool {
        false
    }

    open spec fn spec_core_writable(&self) -> bool {
        false
    }

    fn id(&self) -> (r: &str) {
        "cpu.usage"
    }

    fn label(&self) -> (r: &str) {
        "Usage"
    }

    fn unit(&self) -> (r: &str)
        ensures
            r@ == "%"@,
    {
        "%"
    }

    /// Reads `/proc/stat` and takes its per-core samples, sorted by core.
    fn read<S: Source + ?Sized>(&mut self, source: &S) -> (r: Result<Value, HwError>)
        ensures
            r matches Ok(v) ==> exists|content: Seq<char>, samples: Seq<(usize, u64, u64)>|
                #![trigger stat_samples(content), usage_step(old(self).history(), samples)]
                source.served(PROC_STAT@, content) && proc_stat_fits(content) && is_stable_sort(
                    nested(samples),
                    stat_samples(content),
                )
                    && final(self).history() == usage_step(old(self).history(), samples).0
                    && v@ == percent_series_view(usage_step(old(self).history(), samples).1),
            r is Err ==> final(self).history() == old(self).history(),
            r matches Err(e) ==> e == HwError::CounterOverflow || (e matches HwError::ReadFailed(p)
                && p@ == PROC_STAT@),
    {
        let content = match source.read_to_string(PROC_STAT) {
            Ok(c) => c,
            Err(_) => {
                return Err(HwError::ReadFailed(string_from(PROC_STAT)));
            },
        };
        let r = self.sample_text(content.as_str());
        assert(stat_samples(content@) == stat_samples(content@));
        r
    }

    fn is_writable(&self) -> (r: bool) {
        false
    }

    fn is_core_writable(&self) -> (r: bool) {
        false
    }
}

} // verus!
