//! What the monitor shows: the Overview table, the cores grouped by
//! cluster, and per-metric value lists, as text (styling is applied where
//! it is drawn).
use vstd::prelude::*;
use crate::hardware::value::{lemma_value_views, value_text, value_view, value_views, Value, ValueView};
use crate::text::{
    chars_of, decimal, lemma_text_less_asymmetric, lemma_text_less_irreflexive,
    lemma_text_less_total, lemma_text_less_transitive, push_decimal, push_str, same_text,
    string_from, string_of, text_less, text_lt, trim, trim_chars,
};
use crate::tui::app::{entry_view, entry_views, find_entry, first_value, EntryView, SnapshotEntry};
use crate::hardware::value::{indexed_line, join};
use crate::text::{has_prefix, starts_with};

verus! {

broadcast use vstd::std_specs::vec::group_vec_axioms;

/// The placeholder of a missing cell.
pub open spec fn dash() -> Seq<char> {
    "\u{2014}"@
}

/// The items of the series of the first entry with the given id.
pub open spec fn series_of(entries: Seq<EntryView>, id: Seq<char>) -> Option<Seq<ValueView>> {
    match first_value(entries, id) {
        Some(ValueView::Series(vs)) => Some(vs),
        _ => None,
    }
}

/// Extract the series of the first snapshot entry with the given id, if it
/// is a series.
pub fn series_for<'a>(snapshot: &'a Vec<SnapshotEntry>, id: &str) -> (r: Option<&'a Vec<Value>>)
    ensures
        match series_of(entry_views(snapshot@), id@) {
            Some(vs) => r matches Some(items) && value_views(items@) == vs,
            None => r is None,
        },
{
    match find_entry(snapshot, id) {
        Some(i) => match &snapshot[i].value {
            Value::Series(items) => Some(items),
            _ => None,
        },
        None => None,
    }
}

/// A value whose reading is unknown.
pub open spec fn is_unknown(v: ValueView) -> bool {
    match v {
        ValueView::Freq(None) | ValueView::Temp(None) | ValueView::Percent(None) => true,
        ValueView::Percent(Some(d)) => d.total == 0,
        _ => false,
    }
}

/// The text of a table cell: the value's rendering, or a dash for an
/// unknown reading.
pub open spec fn cell_text(v: ValueView) -> Seq<char> {
    if is_unknown(v) {
        dash()
    } else {
        value_text(v)
    }
}

/// Format a single value for a table cell, rendering an unknown reading as
/// a dash.
pub fn cell_string(v: &Value) -> (r: String)
    ensures
        r@ == cell_text(v@),
{
    let unknown = match v {
        Value::Freq(None) | Value::Temp(None) | Value::Percent(None) => true,
        Value::Percent(Some(d)) => d.total == 0,
        _ => false,
    };
    if unknown {
        string_from("\u{2014}")
    } else {
        v.format()
    }
}

/// The cell of item `i` of an optional series: its text, or a dash.
pub open spec fn series_cell(s: Option<Seq<ValueView>>, i: int) -> Seq<char> {
    match s {
        Some(vs) => if 0 <= i < vs.len() {
            cell_text(vs[i])
        } else {
            dash()
        },
        None => dash(),
    }
}

/// The number of rows of the Overview table: the length of the frequency
/// series, else of the usage series, else 0.
pub open spec fn overview_count(entries: Seq<EntryView>) -> nat {
    match series_of(entries, "cpu.freq.cur"@) {
        Some(vs) => vs.len(),
        None => match series_of(entries, "cpu.usage"@) {
            Some(us) => us.len(),
            None => 0,
        },
    }
}

/// Row `i` of the Overview table: CPU number, current frequency, usage.
pub open spec fn overview_row(entries: Seq<EntryView>, i: nat) -> (Seq<char>, Seq<char>, Seq<char>) {
    (
        decimal(i),
        series_cell(series_of(entries, "cpu.freq.cur"@), i as int),
        series_cell(series_of(entries, "cpu.usage"@), i as int),
    )
}

/// The rows of the Overview table: one per core; a single row of dashes
/// when there is no data.
pub open spec fn overview_table(entries: Seq<EntryView>) -> Seq<(Seq<char>, Seq<char>, Seq<char>)> {
    if overview_count(entries) == 0 {
        seq![(dash(), dash(), dash())]
    } else {
        Seq::new(overview_count(entries), |i: int| overview_row(entries, i as nat))
    }
}

/// Row `i` of the Overview table is core `i`: its CPU number, the cell of
/// item `i` of the current-frequency series and the cell of item `i` of
/// the usage series (a dash where a series is missing or shorter).
pub proof fn law_overview_row_is_core(entries: Seq<EntryView>, i: int)
    requires
        0 <= i < overview_count(entries),
    ensures
        overview_table(entries).len() == overview_count(entries),
        overview_table(entries)[i].0 == decimal(i as nat),
        series_of(entries, "cpu.freq.cur"@) matches Some(fs) ==> overview_table(entries)[i].1 == cell_text(
            fs[i],
        ),
        series_of(entries, "cpu.usage"@) matches Some(us) ==> (overview_table(entries)[i].2 == if i
            < us.len() {
            cell_text(us[i])
        } else {
            dash()
        }),
        series_of(entries, "cpu.freq.cur"@) is None ==> overview_table(entries)[i].1 == dash(),
        series_of(entries, "cpu.usage"@) is None ==> overview_table(entries)[i].2 == dash(),
{
}

/// The Overview table has one row per core of the current-frequency
/// series, or, without one, of the usage series; with neither (or only
/// empty ones) it is a single row of dashes.
pub proof fn law_overview_rows_per_core(entries: Seq<EntryView>)
    ensures
        series_of(entries, "cpu.freq.cur"@) matches Some(fs) ==> (fs.len() > 0 ==> overview_table(
            entries,
        ).len() == fs.len()),
        series_of(entries, "cpu.freq.cur"@) is None ==> (series_of(entries, "cpu.usage"@) matches Some(us)
            ==> (us.len() > 0 ==> overview_table(entries).len() == us.len())),
        overview_count(entries) == 0 ==> overview_table(entries) == seq![(dash(), dash(), dash())],
{
}

pub open spec fn row_views(rows: Seq<(String, String, String)>) -> Seq<(Seq<char>, Seq<char>, Seq<char>)> {
    rows.map_values(|r: (String, String, String)| (r.0@, r.1@, r.2@))
}

fn cell_of(s: Option<&Vec<Value>>, i: usize) -> (r: String)
    ensures
        r@ == series_cell(
            match s {
                Some(items) => Some(value_views(items@)),
                None => None,
            },
            i as int,
        ),
{
    match s {
        Some(items) => {
            proof {
                lemma_value_views(items@);
            }
            if i < items.len() {
                cell_string(&items[i])
            } else {
                string_from("\u{2014}")
            }
        },
        None => string_from("\u{2014}"),
    }
}

/// Per-core cell strings for the Overview table: `(cpu_number,
/// current_freq, usage)`. Missing series or unknown values yield a dash.
pub fn overview_data(snapshot: &Vec<SnapshotEntry>) -> (r: Vec<(String, String, String)>)
    ensures
        row_views(r@) == overview_table(entry_views(snapshot@)),
{
    let ghost es = entry_views(snapshot@);
    let freq = series_for(snapshot, "cpu.freq.cur");
    let usage = series_for(snapshot, "cpu.usage");
    let core_count = match freq {
        Some(s) => s.len(),
        None => match usage {
            Some(u) => u.len(),
            None => 0,
        },
    };
    proof {
        match freq {
            Some(s) => lemma_value_views(s@),
            None => {},
        }
        match usage {
            Some(u) => lemma_value_views(u@),
            None => {},
        }
    }
    assert(core_count == overview_count(es));
    let mut rows: Vec<(String, String, String)> = Vec::new();
    let mut i: usize = 0;
    while i < core_count
        invariant
            0 <= i <= core_count,
            core_count == overview_count(es),
            es == entry_views(snapshot@),
            match series_of(es, "cpu.freq.cur"@) {
                Some(vs) => freq matches Some(items) && value_views(items@) == vs,
                None => freq is None,
            },
            match series_of(es, "cpu.usage"@) {
                Some(vs) => usage matches Some(items) && value_views(items@) == vs,
                None => usage is None,
            },
            row_views(rows@) == Seq::new(i as nat, |k: int| overview_row(es, k as nat)),
        decreases core_count - i,
    {
        let mut cpu = String::new();
        push_decimal(&mut cpu, i as u128);
        let f = cell_of(freq, i);
        let u = cell_of(usage, i);
        let ghost row = (cpu@, f@, u@);
        let ghost before = row_views(rows@);
        rows.push((cpu, f, u));
        i = i + 1;
        assert(row == overview_row(es, (i - 1) as nat));
        assert(row_views(rows@) =~= before.push(row));
        assert(row_views(rows@) =~= Seq::new(i as nat, |k: int| overview_row(es, k as nat)));
    }
    if rows.len() == 0 {
        rows.push((string_from("\u{2014}"), string_from("\u{2014}"), string_from("\u{2014}")));
        assert(row_views(rows@) =~= seq![(dash(), dash(), dash())]);
    } else {
        assert(row_views(rows@) =~= overview_table(es));
    }
    rows
}

// ---------------------------------------------------------------------------
// Cores grouped by cluster.
/// The cluster id a value stands for: the trimmed text of a `Raw` value,
/// the rendering of any other.
pub open spec fn cluster_key(v: ValueView) -> Seq<char> {
    match v {
        ValueView::Raw(s) => trim(s),
        _ => value_text(v),
    }
}

pub open spec fn cluster_keys(vs: Seq<ValueView>) -> Seq<Seq<char>> {
    vs.map_values(|v: ValueView| cluster_key(v))
}

/// The positions of `keys` that hold `k`, in increasing order.
pub open spec fn indices_with(keys: Seq<Seq<char>>, k: Seq<char>) -> Seq<usize>
    decreases keys.len(),
{
    if keys.len() == 0 {
        Seq::empty()
    } else if keys.last() == k {
        indices_with(keys.drop_last(), k).push((keys.len() - 1) as usize)
    } else {
        indices_with(keys.drop_last(), k)
    }
}

pub open spec fn has_group(groups: Seq<(Seq<char>, Seq<usize>)>, k: Seq<char>) -> bool {
    exists|g: int| 0 <= g < groups.len() && #[trigger] groups[g].0 == k
}

/// `groups` groups the positions of `keys` by key: one group per distinct
/// key, in increasing order of key, each holding the positions of its key
/// in increasing order.
pub open spec fn is_grouping(groups: Seq<(Seq<char>, Seq<usize>)>, keys: Seq<Seq<char>>) -> bool {
    &&& forall|a: int, b: int|
        0 <= a < b < groups.len() ==> text_less(#[trigger] groups[a].0, #[trigger] groups[b].0)
    &&& forall|g: int|
        0 <= g < groups.len() ==> #[trigger] groups[g].1 == indices_with(keys, groups[g].0)
            && groups[g].1.len() > 0
    &&& forall|m: int| 0 <= m < keys.len() ==> has_group(groups, #[trigger] keys[m])
}

pub open spec fn group_views(g: Seq<(String, Vec<usize>)>) -> Seq<(Seq<char>, Seq<usize>)> {
    g.map_values(|e: (String, Vec<usize>)| (e.0@, e.1@))
}

proof fn lemma_indices_with_absent(keys: Seq<Seq<char>>, k: Seq<char>)
    requires
        forall|m: int| 0 <= m < keys.len() ==> keys[m] != k,
    ensures
        indices_with(keys, k) == Seq::<usize>::empty(),
    decreases keys.len(),
{
    if keys.len() > 0 {
        lemma_indices_with_absent(keys.drop_last(), k);
    }
}

proof fn lemma_indices_with_contains(keys: Seq<Seq<char>>, k: Seq<char>, m: usize)
    requires
        keys.len() <= usize::MAX,
    ensures
        indices_with(keys, k).contains(m) <==> (m < keys.len() && keys[m as int] == k),
    decreases keys.len(),
{
    if keys.len() > 0 {
        let init = keys.drop_last();
        let n = (keys.len() - 1) as usize;
        lemma_indices_with_contains(init, k, m);
        let prev = indices_with(init, k);
        if m < n {
            assert(init[m as int] == keys[m as int]);
        }
        if keys[n as int] == k {
            let r = prev.push(n);
            assert(indices_with(keys, k) == r);
            if r.contains(m) {
                let j = choose|j: int| 0 <= j < r.len() && r[j] == m;
                if j < prev.len() {
                    assert(prev[j] == m);
                    assert(prev.contains(m));
                }
            }
            if m < keys.len() && keys[m as int] == k {
                if m < n {
                    assert(prev.contains(m));
                    let j = choose|j: int| 0 <= j < prev.len() && prev[j] == m;
                    assert(r[j] == m);
                } else {
                    assert(r[prev.len() as int] == m);
                }
            }
        } else {
            assert(indices_with(keys, k) == prev);
        }
    }
}

/// Every core belongs to exactly one cluster group: the group of its own
/// cluster id.
pub proof fn law_each_core_in_one_group(
    groups: Seq<(Seq<char>, Seq<usize>)>,
    keys: Seq<Seq<char>>,
    m: usize,
)
    requires
        is_grouping(groups, keys),
        keys.len() <= usize::MAX,
        m < keys.len(),
    ensures
        exists|g: int|
            0 <= g < groups.len() && groups[g].0 == keys[m as int] && #[trigger] groups[g].1.contains(
                m,
            ),
        forall|g: int|
            0 <= g < groups.len() && #[trigger] groups[g].1.contains(m) ==> groups[g].0
                == keys[m as int],
        forall|a: int, b: int|
            0 <= a < groups.len() && 0 <= b < groups.len() && #[trigger] groups[a].1.contains(m)
                && #[trigger] groups[b].1.contains(m) ==> a == b,
{
    assert(has_group(groups, keys[m as int]));
    let g0 = choose|g: int| 0 <= g < groups.len() && #[trigger] groups[g].0 == keys[m as int];
    lemma_indices_with_contains(keys, keys[m as int], m);
    assert(groups[g0].1.contains(m));
    assert forall|g: int| 0 <= g < groups.len() && #[trigger] groups[g].1.contains(m) implies groups[g].0
        == keys[m as int] by {
        lemma_indices_with_contains(keys, groups[g].0, m);
    }
    assert forall|a: int, b: int|
        0 <= a < groups.len() && 0 <= b < groups.len() && #[trigger] groups[a].1.contains(m)
            && #[trigger] groups[b].1.contains(m) implies a == b by {
        lemma_indices_with_contains(keys, groups[a].0, m);
        lemma_indices_with_contains(keys, groups[b].0, m);
        lemma_text_less_irreflexive(keys[m as int]);
        if a < b {
            assert(text_less(groups[a].0, groups[b].0));
        } else if b < a {
            assert(text_less(groups[b].0, groups[a].0));
        }
    }
}

/// The cluster id a value stands for.
pub fn cluster_key_of(v: &Value) -> (r: String)
    ensures
        r@ == cluster_key(v@),
{
    match v {
        Value::Raw(s) => {
            let cs = chars_of(s.as_str());
            let t = trim_chars(&cs);
            string_of(&t)
        },
        _ => v.format(),
    }
}

/// Where `k` goes among the sorted groups: the first position whose key is
/// not below `k`, and whether that key is `k`.
fn locate(groups: &Vec<(String, Vec<usize>)>, k: &String) -> (r: (usize, bool))
    requires
        forall|a: int, b: int|
            0 <= a < b < groups@.len() ==> text_less(
                #[trigger] group_views(groups@)[a].0,
                #[trigger] group_views(groups@)[b].0,
            ),
    ensures
        r.0 <= groups@.len(),
        forall|l: int| 0 <= l < r.0 ==> text_less(#[trigger] group_views(groups@)[l].0, k@),
        r.1 ==> r.0 < groups@.len() && group_views(groups@)[r.0 as int].0 == k@,
        !r.1 ==> r.0 == groups@.len() || text_less(k@, group_views(groups@)[r.0 as int].0),
{
    let ghost gv = group_views(groups@);
    let mut j: usize = 0;
    while j < groups.len()
        invariant
            0 <= j <= groups@.len(),
            gv == group_views(groups@),
            forall|l: int| 0 <= l < j ==> text_less(#[trigger] gv[l].0, k@),
        decreases groups.len() - j,
    {
        assert(gv[j as int].0 == groups@[j as int].0@);
        if same_text(groups[j].0.as_str(), k.as_str()) {
            return (j, true);
        }
        if text_lt(k.as_str(), groups[j].0.as_str()) {
            return (j, false);
        }
        proof {
            lemma_text_less_total(gv[j as int].0, k@);
        }
        j = j + 1;
    }
    (j, false)
}

/// Group core indices by their cluster id, sorted by cluster id.
pub fn cluster_groups(series: &Vec<Value>) -> (r: Vec<(String, Vec<usize>)>)
    ensures
        is_grouping(group_views(r@), cluster_keys(value_views(series@))),
{
    let ghost keys = cluster_keys(value_views(series@));
    proof {
        lemma_value_views(series@);
    }
    let mut groups: Vec<(String, Vec<usize>)> = Vec::new();
    let mut i: usize = 0;
    while i < series.len()
        invariant
            0 <= i <= series.len(),
            keys == cluster_keys(value_views(series@)),
            keys.len() == series@.len(),
            forall|m: int| 0 <= m < series@.len() ==> #[trigger] keys[m] == cluster_key(value_view(&series@[m])),
            is_grouping(group_views(groups@), keys.take(i as int)),
        decreases series.len() - i,
    {
        let k = cluster_key_of(&series[i]);
        let ghost kp = keys.take(i as int);
        let ghost kn = keys.take(i + 1);
        let ghost old_g = group_views(groups@);
        assert(kn.drop_last() =~= kp);
        assert(kn.last() == k@);
        assert forall|key: Seq<char>| #[trigger] indices_with(kn, key) == if key == k@ {
            indices_with(kp, key).push(i)
        } else {
            indices_with(kp, key)
        } by {}
        let (j, found) = locate(&groups, &k);
        if found {
            let mut g = groups.remove(j);
            g.1.push(i);
            groups.insert(j, g);
            proof {
                let new_g = group_views(groups@);
                assert(new_g =~= old_g.update(j as int, (k@, old_g[j as int].1.push(i))));
                assert forall|a: int| 0 <= a < new_g.len() && a != j implies #[trigger] new_g[a].0 != k@ by {
                    if a < j {
                        lemma_text_less_irreflexive(k@);
                    } else {
                        lemma_text_less_irreflexive(k@);
                    }
                }
                assert forall|m: int| 0 <= m < kn.len() implies has_group(new_g, #[trigger] kn[m]) by {
                    if m < i {
                        assert(kn[m] == kp[m]);
                        assert(has_group(old_g, kp[m]));
                        let g0 = choose|g0: int| 0 <= g0 < old_g.len() && #[trigger] old_g[g0].0 == kp[m];
                        assert(new_g[g0].0 == kp[m]);
                    } else {
                        assert(new_g[j as int].0 == kn[m]);
                    }
                }
            }
        } else {
            let mut idxs: Vec<usize> = Vec::new();
            idxs.push(i);
            let ghost entry = (k@, idxs@);
            groups.insert(j, (k, idxs));
            proof {
                let new_g = group_views(groups@);
                assert(new_g =~= old_g.insert(j as int, entry));
                assert forall|l: int| 0 <= l < old_g.len() implies #[trigger] old_g[l].0 != k@ by {
                    if l < j {
                        lemma_text_less_irreflexive(k@);
                        assert(text_less(old_g[l].0, k@));
                    } else {
                        if l > j {
                            lemma_text_less_transitive(k@, old_g[j as int].0, old_g[l].0);
                        }
                        lemma_text_less_irreflexive(k@);
                    }
                }
                assert forall|m: int| 0 <= m < kp.len() implies kp[m] != k@ by {
                    assert(has_group(old_g, #[trigger] kp[m]));
                }
                lemma_indices_with_absent(kp, k@);
                assert(entry.1 =~= indices_with(kn, k@));
                assert forall|a: int, b: int|
                    0 <= a < b < new_g.len() implies text_less(#[trigger] new_g[a].0, #[trigger] new_g[b].0) by {
                    if b < j {
                        assert(new_g[a] == old_g[a]);
                        assert(new_g[b] == old_g[b]);
                    } else if a < j && b == j {
                    } else if a < j && b > j {
                        assert(new_g[b] == old_g[b - 1]);
                        if b - 1 > a {
                        }
                    } else if a == j && b > j {
                        assert(new_g[b] == old_g[b - 1]);
                        if b - 1 > j {
                            lemma_text_less_transitive(k@, old_g[j as int].0, old_g[b - 1].0);
                        }
                    } else {
                        assert(new_g[a] == old_g[a - 1]);
                        assert(new_g[b] == old_g[b - 1]);
                    }
                }
                assert forall|g: int| 0 <= g < new_g.len() implies #[trigger] new_g[g].1 == indices_with(kn, new_g[g].0)
                    && new_g[g].1.len() > 0 by {
                    if g < j {
                        assert(new_g[g] == old_g[g]);
                    } else if g > j {
                        assert(new_g[g] == old_g[g - 1]);
                    }
                }
                assert forall|m: int| 0 <= m < kn.len() implies has_group(new_g, #[trigger] kn[m]) by {
                    if m < i {
                        assert(kn[m] == kp[m]);
                        assert(has_group(old_g, kp[m]));
                        let g0 = choose|g0: int| 0 <= g0 < old_g.len() && #[trigger] old_g[g0].0 == kp[m];
                        if g0 < j {
                            assert(new_g[g0].0 == kp[m]);
                        } else {
                            assert(new_g[g0 + 1].0 == kp[m]);
                        }
                    } else {
                        assert(new_g[j as int].0 == kn[m]);
                    }
                }
            }
        }
        i = i + 1;
    }
    assert(keys.take(series.len() as int) =~= keys);
    groups
}

// ---------------------------------------------------------------------------
// Text lines.
/// A line of text, bold or plain.
pub struct TextLine {
    pub text: String,
    pub bold: bool,
}

pub open spec fn line_views(ls: Seq<TextLine>) -> Seq<(Seq<char>, bool)> {
    ls.map_values(|l: TextLine| (l.text@, l.bold))
}

fn push_line(out: &mut Vec<TextLine>, text: String, bold: bool)
    ensures
        line_views(final(out)@) == line_views(old(out)@).push((text@, bold)),
{
    let ghost t = text@;
    out.push(TextLine { text, bold });
    assert(line_views(out@) =~= line_views(old(out)@).push((t, bold)));
}

/// `"  cpu<a>, cpu<b>, ..."`: the members of a cluster.
pub open spec fn members_text(cores: Seq<usize>) -> Seq<char> {
    "  "@ + join(cores.map_values(|c: usize| "cpu"@ + decimal(c as nat)), ", "@)
}

/// The lines of grouped cores: for each cluster a bold `Cluster <id>`
/// header and a line listing its cores, with a blank line between
/// clusters.
pub open spec fn cluster_lines(groups: Seq<(Seq<char>, Seq<usize>)>) -> Seq<(Seq<char>, bool)>
    decreases groups.len(),
{
    if groups.len() == 0 {
        Seq::empty()
    } else {
        let g = groups.last();
        let sep: Seq<(Seq<char>, bool)> = if groups.len() > 1 {
            seq![(Seq::<char>::empty(), false)]
        } else {
            Seq::empty()
        };
        cluster_lines(groups.drop_last()) + sep + seq![
            ("Cluster "@ + g.0, true),
            (members_text(g.1), false),
        ]
    }
}

fn members_string(cores: &Vec<usize>) -> (r: String)
    ensures
        r@ == members_text(cores@),
{
    let ghost parts = cores@.map_values(|c: usize| "cpu"@ + decimal(c as nat));
    let mut s = string_from("  ");
    let ghost start = s@;
    let mut i: usize = 0;
    while i < cores.len()
        invariant
            0 <= i <= cores.len(),
            parts == cores@.map_values(|c: usize| "cpu"@ + decimal(c as nat)),
            s@ == start + join(parts.take(i as int), ", "@),
        decreases cores.len() - i,
    {
        if i > 0 {
            push_str(&mut s, ", ");
        }
        push_str(&mut s, "cpu");
        push_decimal(&mut s, cores[i] as u128);
        i = i + 1;
        assert(parts.take(i as int).drop_last() =~= parts.take(i - 1));
        if i == 1 {
            assert(join(parts.take(1), ", "@) == parts[0]);
        }
        assert(s@ =~= start + join(parts.take(i as int), ", "@));
    }
    assert(parts.take(cores.len() as int) =~= parts);
    s
}

/// Render grouped cores as a bold `Cluster <id>` header line followed by
/// one indented line listing the member cores (`cpu0, cpu1, ...`).
pub fn render_cluster_groups(groups: &Vec<(String, Vec<usize>)>) -> (r: Vec<TextLine>)
    ensures
        line_views(r@) == cluster_lines(group_views(groups@)),
{
    let ghost gv = group_views(groups@);
    let mut lines: Vec<TextLine> = Vec::new();
    let mut i: usize = 0;
    while i < groups.len()
        invariant
            0 <= i <= groups.len(),
            gv == group_views(groups@),
            line_views(lines@) == cluster_lines(gv.take(i as int)),
        decreases groups.len() - i,
    {
        let ghost before = line_views(lines@);
        if i > 0 {
            push_line(&mut lines, String::new(), false);
        }
        let mut header = string_from("Cluster ");
        push_str(&mut header, groups[i].0.as_str());
        push_line(&mut lines, header, true);
        let members = members_string(&groups[i].1);
        push_line(&mut lines, members, false);
        assert(gv.take(i + 1).drop_last() =~= gv.take(i as int));
        assert(gv.take(i + 1).last() == gv[i as int]);
        i = i + 1;
        assert(line_views(lines@) =~= cluster_lines(gv.take(i as int)));
    }
    assert(gv.take(groups.len() as int) =~= gv);
    lines
}

pub open spec fn placeholder_lines(title: Seq<char>) -> Seq<(Seq<char>, bool)> {
    seq![
        (title + " - no data"@, false),
        (Seq::<char>::empty(), false),
        ("This sub-page is a placeholder for future work."@, false),
    ]
}

fn placeholder(title: &str) -> (r: Vec<TextLine>)
    ensures
        line_views(r@) == placeholder_lines(title@),
{
    let mut lines: Vec<TextLine> = Vec::new();
    let mut t = string_from(title);
    push_str(&mut t, " - no data");
    push_line(&mut lines, t, false);
    push_line(&mut lines, String::new(), false);
    push_line(&mut lines, string_from("This sub-page is a placeholder for future work."), false);
    assert(line_views(lines@) =~= placeholder_lines(title@));
    lines
}

/// The lines of the Cluster sub-page.
pub fn cluster_page_lines(snapshot: &Vec<SnapshotEntry>) -> (r: Vec<TextLine>)
    ensures
        match series_of(entry_views(snapshot@), "cpu.topology.cluster"@) {
            None => line_views(r@) == placeholder_lines("Cluster"@),
            Some(vs) => exists|groups: Seq<(Seq<char>, Seq<usize>)>|
                is_grouping(groups, cluster_keys(vs)) && line_views(r@) == #[trigger] cluster_lines(groups),
        },
{
    match series_for(snapshot, "cpu.topology.cluster") {
        None => placeholder("Cluster"),
        Some(series) => {
            let groups = cluster_groups(series);
            render_cluster_groups(&groups)
        },
    }
}

/// The lines of a metric's value: its label in bold, then its value
/// indented, one line per element of a series.
pub open spec fn entry_lines(e: EntryView) -> Seq<(Seq<char>, bool)> {
    seq![(e.label, true)] + match e.value {
        ValueView::Series(vs) => Seq::new(
            vs.len(),
            |i: int| ("  "@ + indexed_line(i as nat, vs[i]), false),
        ),
        _ => seq![("  "@ + value_text(e.value), false)],
    }
}

/// The lines of several metrics, separated by blank lines.
pub open spec fn metric_lines(entries: Seq<EntryView>) -> Seq<(Seq<char>, bool)>
    decreases entries.len(),
{
    if entries.len() == 0 {
        Seq::empty()
    } else {
        let sep: Seq<(Seq<char>, bool)> = if entries.len() > 1 {
            seq![(Seq::<char>::empty(), false)]
        } else {
            Seq::empty()
        };
        metric_lines(entries.drop_last()) + sep + entry_lines(entries.last())
    }
}

/// The entries whose id starts with `prefix`, in order.
pub open spec fn with_prefix(entries: Seq<EntryView>, prefix: Seq<char>) -> Seq<EntryView>
    decreases entries.len(),
{
    if entries.len() == 0 {
        Seq::empty()
    } else if has_prefix(entries.last().id, prefix) {
        with_prefix(entries.drop_last(), prefix).push(entries.last())
    } else {
        with_prefix(entries.drop_last(), prefix)
    }
}

/// The content of a list-style sub-page: the metrics whose id starts with
/// `prefix`, or a placeholder titled `title` when there is none.
pub open spec fn metric_list(entries: Seq<EntryView>, prefix: Seq<char>, title: Seq<char>) -> Seq<
    (Seq<char>, bool),
> {
    if with_prefix(entries, prefix).len() == 0 {
        placeholder_lines(title)
    } else {
        metric_lines(with_prefix(entries, prefix))
    }
}

fn push_entry_lines(lines: &mut Vec<TextLine>, e: &SnapshotEntry)
    ensures
        line_views(final(lines)@) == line_views(old(lines)@) + entry_lines(entry_view(*e)),
{
    let ghost start = line_views(lines@);
    push_line(lines, string_from(e.label.as_str()), true);
    match &e.value {
        Value::Series(items) => {
            proof {
                lemma_value_views(items@);
            }
            let ghost vs = value_views(items@);
            let mut i: usize = 0;
            while i < items.len()
                invariant
                    0 <= i <= items.len(),
                    vs == value_views(items@),
                    vs.len() == items@.len(),
                    forall|k: int| 0 <= k < items@.len() ==> #[trigger] vs[k] == value_view(&items@[k]),
                    line_views(lines@) == start + seq![(e.label@, true)] + Seq::new(
                        i as nat,
                        |k: int| ("  "@ + indexed_line(k as nat, vs[k]), false),
                    ),
                decreases items.len() - i,
            {
                let mut t = string_from("  #");
                push_decimal(&mut t, i as u128);
                push_str(&mut t, ": ");
                let f = items[i].format();
                push_str(&mut t, f.as_str());
                proof {
                    reveal_strlit("  #");
                    reveal_strlit("  ");
                    reveal_strlit("#");
                    reveal_strlit(": ");
                }
                assert(t@ =~= "  "@ + indexed_line(i as nat, vs[i as int]));
                push_line(lines, t, false);
                i = i + 1;
                assert(line_views(lines@) =~= start + seq![(e.label@, true)] + Seq::new(
                    i as nat,
                    |k: int| ("  "@ + indexed_line(k as nat, vs[k]), false),
                ));
            }
            assert(line_views(lines@) =~= start + entry_lines(entry_view(*e)));
        },
        _ => {
            let mut t = string_from("  ");
            let f = e.value.format();
            push_str(&mut t, f.as_str());
            push_line(lines, t, false);
            assert(line_views(lines@) =~= start + entry_lines(entry_view(*e)));
        },
    }
}

/// Render a list-style sub-page: metrics whose id starts with `prefix`,
/// each as a labelled header with per-core values expanded below; a
/// placeholder titled `title` when there is none.
#[verifier::spinoff_prover]
pub fn metric_list_lines(snapshot: &Vec<SnapshotEntry>, prefix: &str, title: &str) -> (r: Vec<
    TextLine,
>)
    ensures
        line_views(r@) == metric_list(entry_views(snapshot@), prefix@, title@),
{
    let ghost es = entry_views(snapshot@);
    let mut lines: Vec<TextLine> = Vec::new();
    let mut count: usize = 0;
    let mut i: usize = 0;
    while i < snapshot.len()
        invariant
            0 <= i <= snapshot.len(),
            es == entry_views(snapshot@),
            count == with_prefix(es.take(i as int), prefix@).len(),
            count <= i,
            line_views(lines@) == metric_lines(with_prefix(es.take(i as int), prefix@)),
        decreases snapshot.len() - i,
    {
        assert(es.take(i + 1).drop_last() =~= es.take(i as int));
        assert(es.take(i + 1).last() == entry_view(snapshot@[i as int]));
        let id_chars = chars_of(snapshot[i].id.as_str());
        if starts_with(&id_chars, prefix) {
            let ghost before = with_prefix(es.take(i as int), prefix@);
            if count > 0 {
                push_line(&mut lines, String::new(), false);
            }
            push_entry_lines(&mut lines, &snapshot[i]);
            count = count + 1;
            assert(with_prefix(es.take(i + 1), prefix@) == before.push(entry_view(snapshot@[i as int])));
            assert(before.push(entry_view(snapshot@[i as int])).drop_last() =~= before);
            assert(line_views(lines@) =~= metric_lines(with_prefix(es.take(i + 1), prefix@)));
        }
        i = i + 1;
    }
    assert(es.take(snapshot.len() as int) =~= es);
    if count == 0 {
        placeholder(title)
    } else {
        lines
    }
}

} // verus!
