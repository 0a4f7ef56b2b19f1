//! Decimal number text as `str::parse::<f64>` accepts it, and the value in
//! kHz of a frequency typed in MHz.
//!
//! The grammar is the one `f64`'s `FromStr` documents, read without regard
//! to case: an optional sign, then `inf`, `infinity`, `nan`, or a number of
//! digits with at most one `'.'` (at least one digit), optionally followed
//! by `e` or `E`, an optional sign and one or more digits.
use crate::text::{all_digits, digit_value, digits_value, is_digit, parse_unsigned, slice_chars};
use vstd::prelude::*;

verus! {

broadcast use vstd::std_specs::vec::group_vec_axioms;

pub open spec fn is_sign(c: char) -> bool {
    c == '+' || c == '-'
}

/// `s` without its leading sign, where it has one.
pub open spec fn unsigned_part(s: Seq<char>) -> Seq<char> {
    if s.len() > 0 && is_sign(s[0]) {
        s.drop_first()
    } else {
        s
    }
}

/// `s` spells the word whose lower-case letters are `w` and whose
/// upper-case letters are `u`, in any mix of cases.
pub open spec fn spells(s: Seq<char>, w: Seq<char>, u: Seq<char>) -> bool {
    s.len() == w.len() && forall|i: int| 0 <= i < s.len() ==> #[trigger] s[i] == w[i] || s[i] == u[i]
}

pub open spec fn is_exp_mark(c: char) -> bool {
    c == 'e' || c == 'E'
}

pub open spec fn digit_or_point(c: char) -> bool {
    is_digit(c) || c == '.'
}

/// Digits with at most one `'.'` among them, and at least one digit.
pub open spec fn mantissa_text(m: Seq<char>) -> bool {
    &&& forall|i: int| 0 <= i < m.len() ==> digit_or_point(#[trigger] m[i])
    &&& forall|i: int, j: int|
        0 <= i < m.len() && 0 <= j < m.len() && #[trigger] m[i] == '.' && #[trigger] m[j] == '.' ==> i == j
    &&& exists|i: int| 0 <= i < m.len() && is_digit(#[trigger] m[i])
}

/// An optional sign and one or more digits.
pub open spec fn exponent_text(u: Seq<char>) -> bool {
    let v = unsigned_part(u);
    v.len() > 0 && all_digits(v)
}

/// A mantissa, optionally followed by an exponent mark and an exponent.
pub open spec fn number_text(t: Seq<char>) -> bool {
    ||| mantissa_text(t)
    ||| exists|k: int|
        0 <= k < t.len() && is_exp_mark(#[trigger] t[k]) && mantissa_text(t.take(k)) && exponent_text(
            t.skip(k + 1),
        )
}

/// The texts that `str::parse::<f64>` reads as a number.
pub open spec fn float_text(s: Seq<char>) -> bool {
    let t = unsigned_part(s);
    ||| spells(t, seq!['i', 'n', 'f'], seq!['I', 'N', 'F'])
    ||| spells(t, seq!['i', 'n', 'f', 'i', 'n', 'i', 't', 'y'], seq!['I', 'N', 'F', 'I', 'N', 'I', 'T', 'Y'])
    ||| spells(t, seq!['n', 'a', 'n'], seq!['N', 'A', 'N'])
    ||| number_text(t)
}

/// Where the `'.'` of `m` stands, or `m.len()` when it has none.
pub open spec fn point_at(m: Seq<char>) -> int {
    if exists|d: int| 0 <= d < m.len() && m[d] == '.' {
        choose|d: int| 0 <= d < m.len() && m[d] == '.'
    } else {
        m.len() as int
    }
}

/// The first three digits of the fraction `f`, as thousandths.
pub open spec fn thousandths(f: Seq<char>) -> nat {
    if f.len() >= 3 {
        digits_value(f.take(3))
    } else if f.len() == 2 {
        digits_value(f) * 10
    } else if f.len() == 1 {
        digits_value(f) * 100
    } else {
        0
    }
}

/// The fraction `f` rounds its thousandths up (its fourth digit is 5 or more).
pub open spec fn rounds_up(f: Seq<char>) -> bool {
    f.len() > 3 && digit_value(f[3]) >= 5
}

/// The value, in kHz, of `s` read as a frequency in MHz and rounded to the
/// nearest kHz (halves up), where `s` is an optional `'+'` and a mantissa
/// and the value fits in a `u64`; `None` for any other text (a `'-'`, an
/// exponent, infinity, NaN) and for larger values.
pub open spec fn freq_khz(s: Seq<char>) -> Option<nat> {
    let m = if s.len() > 0 && s[0] == '+' {
        s.drop_first()
    } else {
        s
    };
    let d = point_at(m);
    let f = if d < m.len() {
        m.skip(d + 1)
    } else {
        Seq::<char>::empty()
    };
    let k = digits_value(m.take(d)) * 1000 + thousandths(f) + if rounds_up(f) {
        1nat
    } else {
        0nat
    };
    if mantissa_text(m) && k <= u64::MAX {
        Some(k)
    } else {
        None
    }
}

/// Whether `s[lo..]` spells the word with lower-case letters `w` and
/// upper-case letters `u`.
fn spells_from(s: &Vec<char>, lo: usize, w: &Vec<char>, u: &Vec<char>) -> (r: bool)
    requires
        lo <= s.len(),
        u.len() == w.len(),
    ensures
        r == spells(s@.skip(lo as int), w@, u@),
{
    if s.len() - lo != w.len() {
        return false;
    }
    let mut i: usize = 0;
    while i < w.len()
        invariant
            lo <= s.len(),
            s.len() - lo == w.len(),
            u.len() == w.len(),
            0 <= i <= w.len(),
            forall|j: int| 0 <= j < i ==> #[trigger] s@.skip(lo as int)[j] == w@[j] || s@.skip(lo as int)[j] == u@[j],
        decreases w.len() - i,
    {
        let c = s[lo + i];
        assert(s@.skip(lo as int)[i as int] == c);
        if !(c == w[i] || c == u[i]) {
            return false;
        }
        i = i + 1;
    }
    true
}

/// Whether `s[lo..hi]` is a mantissa.
fn is_mantissa(s: &Vec<char>, lo: usize, hi: usize) -> (r: bool)
    requires
        lo <= hi <= s.len(),
    ensures
        r == mantissa_text(s@.subrange(lo as int, hi as int)),
{
    let ghost m = s@.subrange(lo as int, hi as int);
    let mut point: Option<usize> = None;
    let mut digit: bool = false;
    let mut i: usize = lo;
    while i < hi
        invariant
            lo <= i <= hi <= s.len(),
            m == s@.subrange(lo as int, hi as int),
            forall|j: int| 0 <= j < i - lo ==> digit_or_point(#[trigger] m[j]),
            point matches Some(q) ==> lo <= q < i && m[q - lo] == '.' && forall|j: int|
                0 <= j < i - lo && #[trigger] m[j] == '.' ==> j == q - lo,
            point is None ==> forall|j: int| 0 <= j < i - lo ==> #[trigger] m[j] != '.',
            digit ==> exists|j: int| 0 <= j < i - lo && is_digit(#[trigger] m[j]),
            !digit ==> forall|j: int| 0 <= j < i - lo ==> !is_digit(#[trigger] m[j]),
        decreases hi - i,
    {
        let c = s[i];
        assert(m[i - lo] == c);
        if c == '.' {
            match point {
                Some(q) => {
                    assert(m[q - lo] == '.' && m[i - lo] == '.');
                    return false;
                },
                None => {
                    point = Some(i);
                },
            }
        } else if '0' <= c && c <= '9' {
            digit = true;
        } else {
            assert(!digit_or_point(m[i - lo]));
            return false;
        }
        i = i + 1;
    }
    proof {
        if mantissa_text(m) && !digit {
            let j = choose|j: int| 0 <= j < m.len() && is_digit(#[trigger] m[j]);
            assert(!is_digit(m[j]));
        }
    }
    digit
}

/// Whether `s[lo..hi]` is an exponent: an optional sign and digits.
fn is_exponent(s: &Vec<char>, lo: usize, hi: usize) -> (r: bool)
    requires
        lo <= hi <= s.len(),
    ensures
        r == exponent_text(s@.subrange(lo as int, hi as int)),
{
    let ghost u = s@.subrange(lo as int, hi as int);
    let start: usize = if lo < hi && (s[lo] == '+' || s[lo] == '-') {
        lo + 1
    } else {
        lo
    };
    let ghost v = unsigned_part(u);
    assert(v =~= s@.subrange(start as int, hi as int));
    if start >= hi {
        return false;
    }
    let mut i: usize = start;
    while i < hi
        invariant
            start <= i <= hi <= s.len(),
            v == s@.subrange(start as int, hi as int),
            v == unsigned_part(s@.subrange(lo as int, hi as int)),
            forall|j: int| 0 <= j < i - start ==> is_digit(#[trigger] v[j]),
        decreases hi - i,
    {
        let c = s[i];
        assert(v[i - start] == c);
        if !('0' <= c && c <= '9') {
            assert(!is_digit(v[i - start]));
            return false;
        }
        i = i + 1;
    }
    true
}

proof fn lemma_mantissa_chars(m: Seq<char>, j: int)
    requires
        mantissa_text(m),
        0 <= j < m.len(),
    ensures
        !is_exp_mark(m[j]),
{
    assert(digit_or_point(m[j]));
}

/// Whether `s` is text that `str::parse::<f64>` reads as a number.
pub fn is_float_text(s: &Vec<char>) -> (r: bool)
    ensures
        r == float_text(s@),
{
    let start: usize = if s.len() > 0 && (s[0] == '+' || s[0] == '-') {
        1
    } else {
        0
    };
    let ghost t = unsigned_part(s@);
    assert(t =~= s@.skip(start as int));
    let inf = vec!['i', 'n', 'f'];
    let inf_u = vec!['I', 'N', 'F'];
    let infinity = vec!['i', 'n', 'f', 'i', 'n', 'i', 't', 'y'];
    let infinity_u = vec!['I', 'N', 'F', 'I', 'N', 'I', 'T', 'Y'];
    let nan = vec!['n', 'a', 'n'];
    let nan_u = vec!['N', 'A', 'N'];
    assert(inf@ =~= seq!['i', 'n', 'f'] && inf_u@ =~= seq!['I', 'N', 'F']);
    assert(infinity@ =~= seq!['i', 'n', 'f', 'i', 'n', 'i', 't', 'y']);
    assert(infinity_u@ =~= seq!['I', 'N', 'F', 'I', 'N', 'I', 'T', 'Y']);
    assert(nan@ =~= seq!['n', 'a', 'n'] && nan_u@ =~= seq!['N', 'A', 'N']);
    if spells_from(s, start, &inf, &inf_u) || spells_from(s, start, &infinity, &infinity_u) || spells_from(
        s,
        start,
        &nan,
        &nan_u,
    ) {
        return true;
    }
    let mut p: usize = start;
    while p < s.len() && !(s[p] == 'e' || s[p] == 'E')
        invariant
            start <= p <= s.len(),
            t == s@.skip(start as int),
            forall|j: int| 0 <= j < p - start ==> !is_exp_mark(#[trigger] t[j]),
        decreases s.len() - p,
    {
        assert(t[p - start] == s@[p as int]);
        p = p + 1;
    }
    let k: usize = p - start;
    assert(t.take(k as int) =~= s@.subrange(start as int, p as int));
    if p == s.len() {
        assert(t =~= s@.subrange(start as int, p as int));
        let r = is_mantissa(s, start, p);
        proof {
            if exists|j: int|
                0 <= j < t.len() && is_exp_mark(#[trigger] t[j]) && mantissa_text(t.take(j)) && exponent_text(
                    t.skip(j + 1),
                ) {
                let j = choose|j: int|
                    0 <= j < t.len() && is_exp_mark(#[trigger] t[j]) && mantissa_text(t.take(j))
                        && exponent_text(t.skip(j + 1));
                assert(!is_exp_mark(t[j]));
            }
        }
        return r;
    }
    assert(t[k as int] == s@[p as int]);
    assert(t.skip(k + 1) =~= s@.subrange(p + 1, s.len() as int));
    let a = is_mantissa(s, start, p);
    let b = is_exponent(s, p + 1, s.len());
    proof {
        if mantissa_text(t) {
            lemma_mantissa_chars(t, k as int);
        }
        if exists|j: int|
            0 <= j < t.len() && is_exp_mark(#[trigger] t[j]) && mantissa_text(t.take(j)) && exponent_text(
                t.skip(j + 1),
            ) {
            let j = choose|j: int|
                0 <= j < t.len() && is_exp_mark(#[trigger] t[j]) && mantissa_text(t.take(j))
                    && exponent_text(t.skip(j + 1));
            if j < k {
                assert(!is_exp_mark(t[j]));
            }
            if j > k {
                assert(t.take(j)[k as int] == t[k as int]);
                lemma_mantissa_chars(t.take(j), k as int);
            }
            assert(j == k);
        }
        if a && b {
            assert(is_exp_mark(t[k as int]));
        }
    }
    a && b
}

/// The value of the digit `c`.
fn digit_of(c: char) -> (r: u64)
    requires
        is_digit(c),
    ensures
        r == digit_value(c),
        r <= 9,
{
    (c as u32 - '0' as u32) as u64
}

/// The thousandths that the fraction `s[lo..hi]` (all digits) stands for.
fn thousandths_of(s: &Vec<char>, lo: usize, hi: usize) -> (r: u64)
    requires
        lo <= hi <= s.len(),
        all_digits(s@.subrange(lo as int, hi as int)),
    ensures
        r == thousandths(s@.subrange(lo as int, hi as int)),
        r < 1000,
{
    let ghost f = s@.subrange(lo as int, hi as int);
    let n = hi - lo;
    if n == 0 {
        return 0;
    }
    assert(is_digit(f[0]));
    let a = digit_of(s[lo]);
    assert(f.take(1).drop_last() =~= Seq::<char>::empty());
    assert(digits_value(Seq::<char>::empty()) == 0);
    assert(f.take(1).last() == f[0]);
    assert(digits_value(f.take(1)) == a);
    if n == 1 {
        assert(f.take(1) =~= f);
        return a * 100;
    }
    assert(is_digit(f[1]));
    let b = digit_of(s[lo + 1]);
    assert(f.take(2).drop_last() =~= f.take(1));
    assert(f.take(2).last() == f[1]);
    assert(digits_value(f.take(2)) == a * 10 + b);
    if n == 2 {
        assert(f.take(2) =~= f);
        return (a * 10 + b) * 10;
    }
    assert(is_digit(f[2]));
    let c = digit_of(s[lo + 2]);
    assert(f.take(3).drop_last() =~= f.take(2));
    assert(f.take(3).last() == f[2]);
    assert(digits_value(f.take(3)) == (a * 10 + b) * 10 + c);
    (a * 10 + b) * 10 + c
}

/// The value in kHz of `s` read as a frequency in MHz, where `s` is an
/// optional `'+'` and a mantissa: see `freq_khz`.
pub fn freq_khz_of(s: &Vec<char>) -> (r: Option<u64>)
    ensures
        match freq_khz(s@) {
            Some(k) => r == Some(k as u64),
            None => r is None,
        },
{
    let lo: usize = if s.len() > 0 && s[0] == '+' {
        1
    } else {
        0
    };
    let ghost m = if s@.len() > 0 && s@[0] == '+' {
        s@.drop_first()
    } else {
        s@
    };
    assert(m =~= s@.subrange(lo as int, s.len() as int));
    if !is_mantissa(s, lo, s.len()) {
        return None;
    }
    let mut d: usize = lo;
    while d < s.len() && s[d] != '.'
        invariant
            lo <= d <= s.len(),
            m == s@.subrange(lo as int, s.len() as int),
            forall|j: int| 0 <= j < d - lo ==> #[trigger] m[j] != '.',
        decreases s.len() - d,
    {
        assert(m[d - lo] == s@[d as int]);
        d = d + 1;
    }
    let ghost p = d - lo;
    proof {
        if d < s.len() {
            assert(m[p] == s@[d as int]);
            assert(0 <= p < m.len() && m[p] == '.');
            let q = choose|q: int| 0 <= q < m.len() && m[q] == '.';
            assert(m[q] == '.' && m[p] == '.');
            assert(point_at(m) == p);
        } else {
            assert(point_at(m) == p);
        }
    }
    assert(m.take(p) =~= s@.subrange(lo as int, d as int));
    let whole: u64 = if d == lo {
        assert(m.take(p) =~= Seq::<char>::empty());
        0
    } else {
        let digits = slice_chars(s, lo, d);
        assert(forall|j: int| 0 <= j < d - lo ==> digit_or_point(#[trigger] m[j]) && m[j] != '.');
        assert(all_digits(digits@));
        match parse_unsigned(&digits, u64::MAX / 1000) {
            Some(v) => v,
            None => {
                return None;
            },
        }
    };
    let fl: usize = if d < s.len() {
        d + 1
    } else {
        s.len()
    };
    let ghost f = if p < m.len() {
        m.skip(p + 1)
    } else {
        Seq::<char>::empty()
    };
    assert(f =~= s@.subrange(fl as int, s.len() as int));
    assert(forall|j: int| 0 <= j < f.len() ==> is_digit(#[trigger] f[j])) by {
        assert forall|j: int| 0 <= j < f.len() implies is_digit(#[trigger] f[j]) by {
            assert(f[j] == m[p + 1 + j]);
            assert(digit_or_point(m[p + 1 + j]));
        }
    }
    let th = thousandths_of(s, fl, s.len());
    let up: u64 = if s.len() - fl > 3 && digit_of(s[fl + 3]) >= 5 {
        assert(f[3] == s@[fl + 3]);
        1
    } else {
        proof {
            if f.len() > 3 {
                assert(f[3] == s@[fl + 3]);
            }
        }
        0
    };
    match (whole * 1000).checked_add(th + up) {
        Some(k) => Some(k),
        None => None,
    }
}

pub open spec fn ten_pow(n: nat) -> nat
    decreases n,
{
    if n == 0 {
        1
    } else {
        10 * ten_pow((n - 1) as nat)
    }
}

proof fn lemma_digits_value_below(d: Seq<char>)
    requires
        all_digits(d),
    ensures
        digits_value(d) < ten_pow(d.len()),
    decreases d.len(),
{
    if d.len() > 0 {
        assert(all_digits(d.drop_last())) by {
            assert forall|i: int| 0 <= i < d.drop_last().len() implies is_digit(#[trigger] d.drop_last()[i]) by {
                assert(d.drop_last()[i] == d[i]);
            }
        }
        lemma_digits_value_below(d.drop_last());
        assert(is_digit(d[d.len() - 1]));
    }
}

/// Digits alone are a number, and read as a frequency in MHz they are
/// that many thousand kHz, where that fits in a `u64`.
pub proof fn law_digits_read_as_mhz(b: Seq<char>)
    requires
        b.len() > 0,
        all_digits(b),
        digits_value(b) * 1000 <= u64::MAX,
    ensures
        float_text(b),
        freq_khz(b) == Some(digits_value(b) * 1000),
{
    assert(is_digit(b[0]));
    assert(unsigned_part(b) == b);
    assert forall|i: int| 0 <= i < b.len() implies digit_or_point(#[trigger] b[i]) && b[i] != '.' by {
        assert(is_digit(b[i]));
    }
    assert(mantissa_text(b));
    assert(!(exists|d: int| 0 <= d < b.len() && b[d] == '.'));
    assert(point_at(b) == b.len());
    assert(b.take(b.len() as int) =~= b);
}

/// Up to nine digits read as a frequency in MHz always have a value in kHz.
pub proof fn lemma_nine_digits_fit(b: Seq<char>)
    requires
        b.len() <= 9,
        all_digits(b),
    ensures
        digits_value(b) * 1000 <= u64::MAX,
{
    lemma_digits_value_below(b);
    assert(ten_pow(9) == 1_000_000_000) by {
        reveal_with_fuel(ten_pow, 10);
    }
    lemma_ten_pow_grows(b.len(), 9);
}

proof fn lemma_ten_pow_grows(a: nat, b: nat)
    requires
        a <= b,
    ensures
        ten_pow(a) <= ten_pow(b),
    decreases b - a,
{
    if a < b {
        lemma_ten_pow_grows(a, (b - 1) as nat);
        assert(ten_pow(b) == 10 * ten_pow((b - 1) as nat));
    }
}

} // verus!
