//! Observed metric values and their rendering.
//!
//! Readings are kept as the integers the kernel reports: a frequency in
//! kHz, a temperature in millidegrees Celsius, a utilization as the idle and
//! total tick deltas between two samples. Rendering shows the exact value
//! rounded to the displayed number of decimals (ties to even).
use vstd::prelude::*;
use crate::text::{chars_of, decimal, digit_char, push_chars, push_decimal, push_str, trim, trim_chars};

verus! {

broadcast use vstd::std_specs::vec::group_vec_axioms;

/// Tick deltas of one core between two samples of `/proc/stat`; the
/// utilization is `(total - idle) / total`.
#[derive(Debug, Clone, Copy, PartialEq, Eq)]
pub struct TickDelta {
    pub idle: u64,
    pub total: u64,
}

/// A single observed value of a metric. `Series` holds per-core readings.
#[derive(Debug, PartialEq)]
pub enum Value {
    /// Frequency in kHz; `None` when the core's frequency could not be read.
    Freq(Option<u64>),
    /// Temperature in millidegrees Celsius; `None` when unknown.
    Temp(Option<i64>),
    /// Utilization; `None` when there is no earlier sample to compare with
    /// or no tick elapsed.
    Percent(Option<TickDelta>),
    Bool(bool),
    Enum(String),
    Raw(String),
    Series(Vec<Value>),
}

/// The mathematical content of a [`Value`].
pub enum ValueView {
    Freq(Option<u64>),
    Temp(Option<i64>),
    Percent(Option<TickDelta>),
    Bool(bool),
    Enum(Seq<char>),
    Raw(Seq<char>),
    Series(Seq<ValueView>),
}

pub open spec fn value_view(v: &Value) -> ValueView
    decreases v,
{
    match v {
        Value::Freq(f) => ValueView::Freq(*f),
        Value::Temp(t) => ValueView::Temp(*t),
        Value::Percent(p) => ValueView::Percent(*p),
        Value::Bool(b) => ValueView::Bool(*b),
        Value::Enum(s) => ValueView::Enum(s@),
        Value::Raw(s) => ValueView::Raw(s@),
        Value::Series(vs) => ValueView::Series(value_views(vs@)),
    }
}

/// The views of a sequence of values.
pub open spec fn value_views(vs: Seq<Value>) -> Seq<ValueView>
    decreases vs,
{
    if vs.len() == 0 {
        Seq::empty()
    } else {
        value_views(vs.drop_last()).push(value_view(&vs.last()))
    }
}

impl View for Value {
    type V = ValueView;

    open spec fn view(&self) -> ValueView {
        value_view(self)
    }
}


// ---------------------------------------------------------------------------
// Rendering.
/// `n / d` rounded to the nearest integer, ties to even.
pub open spec fn round_div(n: nat, d: nat) -> nat {
    let q = n / d;
    let r = n % d;
    if 2 * r > d || (2 * r == d && q % 2 == 1) {
        q + 1
    } else {
        q
    }
}

/// `u / 100` written with two decimals.
pub open spec fn fixed2(u: nat) -> Seq<char> {
    decimal(u / 100) + seq!['.', digit_char((u / 10) % 10), digit_char(u % 10)]
}

/// `u / 10` written with one decimal.
pub open spec fn fixed1(u: nat) -> Seq<char> {
    decimal(u / 10) + seq!['.', digit_char(u % 10)]
}

pub open spec fn nan_text() -> Seq<char> {
    seq!['N', 'a', 'N']
}

/// A frequency of `khz` kHz in MHz with two decimals, e.g. `"2400.00 MHz"`.
pub open spec fn freq_text(khz: nat) -> Seq<char> {
    fixed2(round_div(khz, 10)) + seq![' ', 'M', 'H', 'z']
}

pub open spec fn abs(x: int) -> nat {
    if x < 0 {
        (-x) as nat
    } else {
        x as nat
    }
}

pub open spec fn sign_text(negative: bool) -> Seq<char> {
    if negative {
        seq!['-']
    } else {
        Seq::empty()
    }
}

/// A temperature of `milli` millidegrees in degrees with one decimal.
pub open spec fn temp_text(milli: int) -> Seq<char> {
    sign_text(milli < 0) + fixed1(round_div(abs(milli), 100)) + seq![' ', 'C']
}

/// A utilization with one decimal and a percent sign, e.g. `"30.0%"`.
pub open spec fn percent_text(d: TickDelta) -> Seq<char> {
    if d.total == 0 {
        nan_text() + seq!['%']
    } else {
        let busy = d.total - d.idle;
        sign_text(busy < 0) + fixed1(round_div(abs(busy) * 1000, d.total as nat)) + seq!['%']
    }
}

/// `parts` joined by `sep`.
pub open spec fn join(parts: Seq<Seq<char>>, sep: Seq<char>) -> Seq<char>
    decreases parts.len(),
{
    if parts.len() == 0 {
        Seq::empty()
    } else if parts.len() == 1 {
        parts[0]
    } else {
        join(parts.drop_last(), sep) + sep + parts.last()
    }
}

pub open spec fn comma_sep() -> Seq<char> {
    seq![',', ' ']
}

/// The human-readable rendering of a value (`Value::format`).
pub open spec fn value_text(v: ValueView) -> Seq<char>
    decreases v,
{
    match v {
        ValueView::Freq(None) => nan_text(),
        ValueView::Freq(Some(k)) => freq_text(k as nat),
        ValueView::Temp(None) => nan_text(),
        ValueView::Temp(Some(m)) => temp_text(m as int),
        ValueView::Percent(None) => nan_text() + seq!['%'],
        ValueView::Percent(Some(d)) => percent_text(d),
        ValueView::Bool(b) => if b {
            seq!['o', 'n', 'l', 'i', 'n', 'e']
        } else {
            seq!['o', 'f', 'f', 'l', 'i', 'n', 'e']
        },
        ValueView::Enum(s) => s,
        ValueView::Raw(s) => trim(s),
        ValueView::Series(vs) => seq!['['] + join(value_texts(vs), comma_sep()) + seq![']'],
    }
}

/// The renderings of a sequence of values.
pub open spec fn value_texts(vs: Seq<ValueView>) -> Seq<Seq<char>>
    decreases vs,
{
    if vs.len() == 0 {
        Seq::empty()
    } else {
        value_texts(vs.drop_last()).push(value_text(vs.last()))
    }
}

pub proof fn lemma_value_views(vs: Seq<Value>)
    ensures
        value_views(vs).len() == vs.len(),
        forall|i: int| 0 <= i < vs.len() ==> #[trigger] value_views(vs)[i] == value_view(&vs[i]),
    decreases vs.len(),
{
    if vs.len() > 0 {
        lemma_value_views(vs.drop_last());
    }
}

pub proof fn lemma_value_texts(vs: Seq<ValueView>)
    ensures
        value_texts(vs).len() == vs.len(),
        forall|i: int| 0 <= i < vs.len() ==> #[trigger] value_texts(vs)[i] == value_text(vs[i]),
    decreases vs.len(),
{
    if vs.len() > 0 {
        lemma_value_texts(vs.drop_last());
    }
}

/// The display line of element `i` of a series: `"#<i>: <text>"`.
pub open spec fn indexed_line(i: nat, v: ValueView) -> Seq<char> {
    seq!['#'] + decimal(i) + seq![':', ' '] + value_text(v)
}

/// The display lines of a value (`Value::lines`): one per element of a
/// series, prefixed by its index; a single line otherwise.
pub open spec fn value_lines(v: ValueView) -> Seq<Seq<char>> {
    match v {
        ValueView::Series(vs) => Seq::new(vs.len(), |i: int| indexed_line(i as nat, vs[i])),
        _ => seq![value_text(v)],
    }
}

fn push_fixed2(s: &mut String, u: u128)
    ensures
        final(s)@ == old(s)@ + fixed2(u as nat),
{
    push_decimal(s, u / 100);
    let ghost mid = s@;
    let dot = chars_of(".");
    proof {
        reveal_strlit(".");
    }
    push_chars(s, &dot);
    push_decimal(s, (u / 10) % 10);
    push_decimal(s, u % 10);
    assert(decimal(((u / 10) % 10) as nat) =~= seq![digit_char(((u / 10) % 10) as nat)]);
    assert(decimal((u % 10) as nat) =~= seq![digit_char((u % 10) as nat)]);
    assert(s@ =~= old(s)@ + fixed2(u as nat));
}

fn push_fixed1(s: &mut String, u: u128)
    ensures
        final(s)@ == old(s)@ + fixed1(u as nat),
{
    push_decimal(s, u / 10);
    let dot = chars_of(".");
    proof {
        reveal_strlit(".");
    }
    push_chars(s, &dot);
    push_decimal(s, u % 10);
    assert(decimal((u % 10) as nat) =~= seq![digit_char((u % 10) as nat)]);
    assert(s@ =~= old(s)@ + fixed1(u as nat));
}

fn round_div_exec(n: u128, d: u128) -> (r: u128)
    requires
        d > 0,
        n / d < u128::MAX,
    ensures
        r == round_div(n as nat, d as nat),
{
    let q = n / d;
    let r = n % d;
    if r > d - r || (r == d - r && q % 2 == 1) {
        q + 1
    } else {
        q
    }
}

fn push_lit(s: &mut String, lit: &str)
    ensures
        final(s)@ == old(s)@ + lit@,
{
    push_str(s, lit);
}

/// The name of the variant of a value.
pub open spec fn kind_text(v: ValueView) -> Seq<char> {
    match v {
        ValueView::Freq(_) => "Freq"@,
        ValueView::Temp(_) => "Temp"@,
        ValueView::Percent(_) => "Percent"@,
        ValueView::Bool(_) => "Bool"@,
        ValueView::Enum(_) => "Enum"@,
        ValueView::Raw(_) => "Raw"@,
        ValueView::Series(_) => "Series"@,
    }
}

impl Value {
    /// The name of this value's variant, e.g. `"Bool"`.
    pub fn kind_name(&self) -> (r: &'static str)
        ensures
            r@ == kind_text(self@),
    {
        match self {
            Value::Freq(_) => "Freq",
            Value::Temp(_) => "Temp",
            Value::Percent(_) => "Percent",
            Value::Bool(_) => "Bool",
            Value::Enum(_) => "Enum",
            Value::Raw(_) => "Raw",
            Value::Series(_) => "Series",
        }
    }

    /// Human-readable rendering of a single value (no surrounding context).
    pub fn format(&self) -> (r: String)
        ensures
            r@ == value_text(self@),
        decreases self,
    {
        let mut s = String::new();
        match self {
            Value::Freq(None) | Value::Temp(None) => {
                push_lit(&mut s, "NaN");
                proof {
                    reveal_strlit("NaN");
                }
            },
            Value::Freq(Some(k)) => {
                let u = round_div_exec(*k as u128, 10);
                push_fixed2(&mut s, u);
                push_lit(&mut s, " MHz");
                proof {
                    reveal_strlit(" MHz");
                }
            },
            Value::Temp(Some(m)) => {
                let neg = *m < 0;
                let a: u128 = if neg {
                    (0i128 - (*m as i128)) as u128
                } else {
                    *m as u128
                };
                if neg {
                    push_lit(&mut s, "-");
                    proof {
                        reveal_strlit("-");
                    }
                }
                let u = round_div_exec(a, 100);
                push_fixed1(&mut s, u);
                push_lit(&mut s, " C");
                proof {
                    reveal_strlit(" C");
                }
            },
            Value::Percent(p) => {
                match p {
                    Some(d) if d.total != 0 => {
                        let neg = d.idle > d.total;
                        let a: u128 = if neg {
                            (d.idle - d.total) as u128
                        } else {
                            (d.total - d.idle) as u128
                        };
                        if neg {
                            push_lit(&mut s, "-");
                            proof {
                                reveal_strlit("-");
                            }
                        }
                        assert(a * 1000 <= u64::MAX as u128 * 1000);
                        let u = round_div_exec(a * 1000, d.total as u128);
                        push_fixed1(&mut s, u);
                    },
                    _ => {
                        push_lit(&mut s, "NaN");
                        proof {
                            reveal_strlit("NaN");
                        }
                    },
                }
                push_lit(&mut s, "%");
                proof {
                    reveal_strlit("%");
                }
            },
            Value::Bool(b) => {
                if *b {
                    push_lit(&mut s, "online");
                    proof {
                        reveal_strlit("online");
                    }
                } else {
                    push_lit(&mut s, "offline");
                    proof {
                        reveal_strlit("offline");
                    }
                }
            },
            Value::Enum(e) => {
                push_str(&mut s, e.as_str());
            },
            Value::Raw(e) => {
                let cs = chars_of(e.as_str());
                let t = trim_chars(&cs);
                push_chars(&mut s, &t);
            },
            Value::Series(vs) => {
                push_lit(&mut s, "[");
                proof {
                    reveal_strlit("[");
                }
                let ghost start = s@;
                let ghost texts = value_texts(value_views(vs@));
                proof {
                    lemma_value_views(vs@);
                    lemma_value_texts(value_views(vs@));
                }
                let mut i: usize = 0;
                while i < vs.len()
                    invariant
                        0 <= i <= vs.len(),
                        *self == Value::Series(*vs),
                        texts.len() == vs@.len(),
                        texts == value_texts(value_views(vs@)),
                        forall|k: int|
                            0 <= k < vs@.len() ==> #[trigger] texts[k] == value_text(
                                value_view(&vs@[k]),
                            ),
                        s@ == start + join(texts.take(i as int), comma_sep()),
                    decreases vs.len() - i,
                {
                    if i > 0 {
                        push_lit(&mut s, ", ");
                        proof {
                            reveal_strlit(", ");
                        }
                    }
                    proof {
                        assert(decreases_to!(*self => self->Series_0));
                        assert(self->Series_0 == *vs);
                        assert(decreases_to!(vs => vs@));
                        assert(decreases_to!(vs@ => vs@[i as int]));
                    }
                    let t = vs[i].format();
                    push_str(&mut s, t.as_str());
                    i = i + 1;
                    assert(texts.take(i as int).drop_last() =~= texts.take(i - 1));
                    if i == 1 {
                        assert(join(texts.take(1), comma_sep()) == texts[0]);
                    }
                    assert(s@ =~= start + join(texts.take(i as int), comma_sep()));
                }
                assert(texts.take(vs.len() as int) =~= texts);
                push_lit(&mut s, "]");
                proof {
                    reveal_strlit("]");
                }
            },
        }
        assert(s@ =~= value_text(self@));
        s
    }

    /// Expand a (possibly per-core) value into display lines.
    ///
    /// Scalars yield a single line; `Series` yields one line per element
    /// prefixed with its index.
    pub fn lines(&self) -> (r: Vec<String>)
        ensures
            r@.map_values(|s: String| s@) == value_lines(self@),
    {
        let mut out: Vec<String> = Vec::new();
        match self {
            Value::Series(vs) => {
                let mut i: usize = 0;
                while i < vs.len()
                    invariant
                        0 <= i <= vs.len(),
                        out@.len() == i,
                        forall|k: int|
                            0 <= k < i ==> #[trigger] out@[k]@ == indexed_line(
                                k as nat,
                                value_view(&vs@[k]),
                            ),
                    decreases vs.len() - i,
                {
                    proof {
                        lemma_value_views(vs@);
                    }
                    let mut line = String::new();
                    push_lit(&mut line, "#");
                    push_decimal(&mut line, i as u128);
                    push_lit(&mut line, ": ");
                    let t = vs[i].format();
                    push_str(&mut line, t.as_str());
                    proof {
                        reveal_strlit("#");
                        reveal_strlit(": ");
                        assert(line@ =~= indexed_line(i as nat, value_view(&vs@[i as int])));
                    }
                    out.push(line);
                    i = i + 1;
                }
                proof {
                    lemma_value_views(vs@);
                    let vv = value_views(vs@);
                    assert(out@.map_values(|s: String| s@) =~= Seq::new(
                        vv.len(),
                        |k: int| indexed_line(k as nat, vv[k]),
                    ));
                }
            },
            _ => {
                out.push(self.format());
                assert(out@.map_values(|s: String| s@) =~= value_lines(self@));
            },
        }
        out
    }
}

} // verus!
