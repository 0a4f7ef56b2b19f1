//! Current frequency of every CPU core.
use vstd::prelude::*;
use crate::hardware::cpu::{cpu_entries, opt_view, opt_views, per_core_reads, read_per_core};
use crate::hardware::metric::Metric;
use crate::hardware::source::{HwError, Source};
use crate::hardware::value::{lemma_value_views, value_views, Value, ValueView};
use crate::text::{
    chars_of, decimal, is_digit, law_decimal_reads_back, lemma_decimal_digits, parse_uint, parse_unsigned,
    trim, trim_chars, trim_end, trim_start,
};

verus! {

broadcast use vstd::std_specs::vec::group_vec_axioms;

/// The frequency, in kHz, that a `scaling_cur_freq` file holds: its
/// trimmed contents as an unsigned decimal. `None` when the file could not
/// be read or does not hold such a number.
pub open spec fn freq_reading(content: Option<Seq<char>>) -> Option<u64> {
    match content {
        Some(s) => match parse_uint(trim(s), u64::MAX as nat) {
            Some(k) => Some(k as u64),
            None => None,
        },
        None => None,
    }
}

pub open spec fn freq_readings(reads: Seq<Option<Seq<char>>>) -> Seq<Option<u64>> {
    reads.map_values(|c: Option<Seq<char>>| freq_reading(c))
}

/// A `scaling_cur_freq` file holding `n` in decimal, with the kernel's
/// trailing newline, reads as `n` kHz.
pub proof fn law_freq_file_reads_back(n: nat)
    requires
        n <= u64::MAX,
    ensures
        freq_reading(Some(decimal(n).push('\n'))) == Some(n as u64),
{
    let d = decimal(n);
    let s = d.push('\n');
    lemma_decimal_digits(n);
    assert(is_digit(d[0]));
    assert(s[0] == d[0]);
    assert(trim_start(s) == s);
    assert(s.drop_last() =~= d);
    assert(is_digit(d.last()));
    assert(trim_end(d) == d);
    assert(trim(s) == d);
    law_decimal_reads_back(n, u64::MAX as nat);
}

/// The series view of per-core frequencies.
pub open spec fn freq_series_view(freqs: Seq<Option<u64>>) -> ValueView {
    ValueView::Series(freqs.map_values(|f: Option<u64>| ValueView::Freq(f)))
}

/// The frequency in kHz held by the contents of a frequency file.
pub fn parse_freq_khz(content: &str) -> (r: Option<u64>)
    ensures
        r == freq_reading(Some(content@)),
{
    let cs = chars_of(content);
    let t = trim_chars(&cs);
    parse_unsigned(&t, u64::MAX)
}

/// The frequencies held by per-core file contents, `None` where a file was
/// unreadable or malformed.
pub fn freq_values(reads: &Vec<Option<String>>) -> (r: Vec<Option<u64>>)
    ensures
        r@ == freq_readings(opt_views(reads@)),
{
    let mut out: Vec<Option<u64>> = Vec::new();
    let mut i: usize = 0;
    while i < reads.len()
        invariant
            0 <= i <= reads.len(),
            out@ == freq_readings(opt_views(reads@)).take(i as int),
        decreases reads.len() - i,
    {
        let f = match &reads[i] {
            Some(c) => parse_freq_khz(c.as_str()),
            None => None,
        };
        out.push(f);
        i = i + 1;
        assert(out@ =~= freq_readings(opt_views(reads@)).take(i as int));
    }
    assert(freq_readings(opt_views(reads@)).take(reads.len() as int) =~= freq_readings(
        opt_views(reads@),
    ));
    out
}

/// A series of frequency values.
pub fn freq_series(freqs: &Vec<Option<u64>>) -> (r: Value)
    ensures
        r@ == freq_series_view(freqs@),
{
    let mut out: Vec<Value> = Vec::new();
    let mut i: usize = 0;
    while i < freqs.len()
        invariant
            0 <= i <= freqs.len(),
            out@.len() == i,
            forall|k: int| 0 <= k < i ==> #[trigger] out@[k] == Value::Freq(freqs@[k]),
        decreases freqs.len() - i,
    {
        out.push(Value::Freq(freqs[i]));
        i = i + 1;
    }
    proof {
        lemma_value_views(out@);
        assert(value_views(out@) =~= freqs@.map_values(|f: Option<u64>| ValueView::Freq(f)));
    }
    Value::Series(out)
}

/// Reads the current frequency (kHz) of every CPU core, ordered by CPU
/// index; `None` for a core whose frequency cannot be read.
pub fn current_frequencies_khz_with<S: Source + ?Sized>(source: &S) -> (r: Result<Vec<Option<u64>>, HwError>)
    ensures
        r matches Ok(v) ==> exists|reads: Seq<Option<Seq<char>>>|
            #![trigger per_core_reads(source, cur_freq_file(), false, reads)]
            per_core_reads(source, cur_freq_file(), false, reads) && v@ == freq_readings(reads),
{
    let reads = read_per_core(source, "cpufreq/scaling_cur_freq", false)?;
    let freqs = freq_values(&reads);
    assert(per_core_reads(source, cur_freq_file(), false, opt_views(reads@)));
    Ok(freqs)
}

/// The per-core file holding a core's current frequency.
pub open spec fn cur_freq_file() -> Seq<char> {
    "cpufreq/scaling_cur_freq"@
}

/// A value that reading the current frequencies through `source` can give:
/// the series of readings of the `scaling_cur_freq` file of each `cpuN`
/// directory that the source listed, in index order.
pub open spec fn is_current_freq_value<S: Source + ?Sized>(source: &S, v: ValueView) -> bool {
    exists|reads: Seq<Option<Seq<char>>>|
        #![trigger per_core_reads(source, cur_freq_file(), false, reads)]
        per_core_reads(source, cur_freq_file(), false, reads) && v == freq_series_view(
            freq_readings(reads),
        )
}

/// Metric: current frequency of every CPU core.
///
/// Reads `scaling_cur_freq` for each `cpuN`. Missing/unreadable cores
/// produce `Value::Freq(None)` so that indexing stays stable across cores.
pub struct CpuCurrentFreqMetric;

impl CpuCurrentFreqMetric {
    pub fn new() -> (r: Self) {
        CpuCurrentFreqMetric
    }
}

impl Default for CpuCurrentFreqMetric {
    fn default() -> (r: Self) {
        Self::new()
    }
}

impl Metric for CpuCurrentFreqMetric {
    open spec fn spec_id(&self) -> Seq<char> {
        "cpu.freq.cur"@
    }

    open spec fn spec_label(&self) -> Seq<char> {
        "Current Frequency"@
    }

    open spec fn spec_writable(&self) -> bool {
        false
    }

    open spec fn spec_core_writable(&self) -> bool {
        false
    }

    fn id(&self) -> (r: &str) {
        "cpu.freq.cur"
    }

    fn label(&self) -> (r: &str) {
        "Current Frequency"
    }

    fn unit(&self) -> (r: &str)
        ensures
            r@ == "MHz"@,
    {
        "MHz"
    }

    fn read<S: Source + ?Sized>(&mut self, source: &S) -> (r: Result<Value, HwError>)
        ensures
            r matches Ok(v) ==> is_current_freq_value(source, v@),
    {
        let freqs = current_frequencies_khz_with(source)?;
        Ok(freq_series(&freqs))
    }

    fn is_writable(&self) -> (r: bool) {
        false
    }

    fn is_core_writable(&self) -> (r: bool) {
        false
    }
}

} // verus!
