use hare::hardware::cpu::freq::{
    current_frequencies_khz_with, freq_values, parse_freq_khz, CpuCurrentFreqMetric,
};
use hare::hardware::cpu::SYS_CPU;
use hare::hardware::metric::Metric;
use hare::hardware::source::{HwError, Listing, Source, Text};
use hare::hardware::value::Value;
use std::collections::HashMap;

/// In-memory `Source` for exercising parsing logic without sysfs.
struct FakeSource {
    files: HashMap<String, String>,
    dirs: HashMap<String, Vec<String>>,
}

impl Source for FakeSource {
    fn served(&self, _path: Text, _content: Text) -> bool {
        true
    }
    fn listed(&self, _path: Text, _entries: Listing) -> bool {
        true
    }
    fn answered(&self, _path: Text, _present: bool) -> bool {
        true
    }
    fn accepted(&self, _path: Text, _content: Text) -> bool {
        true
    }
    fn listing_failed(&self, _path: Text, _e: HwError) -> bool {
        true
    }
    fn read_to_string(&self, path: &str) -> Result<String, HwError> {
        self.files
            .get(path)
            .cloned()
            .ok_or_else(|| HwError::Source(format!("not found: {}", path)))
    }

    fn write(&self, _path: &str, _content: &str) -> Result<(), HwError> {
        Err(HwError::Source("writes are not supported".to_string()))
    }

    fn path_exists(&self, path: &str) -> bool {
        self.files.contains_key(path) || self.dirs.contains_key(path)
    }

    fn list_dir(&self, path: &str) -> Result<Vec<String>, HwError> {
        self.dirs
            .get(path)
            .cloned()
            .ok_or_else(|| HwError::Source(format!("not a dir: {}", path)))
    }
}

fn fake_source() -> FakeSource {
    let cpu0 = format!("{}/cpu0", SYS_CPU);
    let cpu1 = format!("{}/cpu1", SYS_CPU);
    let cpu3 = format!("{}/cpu3", SYS_CPU);

    let mut dirs = HashMap::new();
    dirs.insert(SYS_CPU.to_string(), vec![cpu0.clone(), cpu1.clone(), cpu3.clone()]);

    let mut files = HashMap::new();
    files.insert(format!("{}/cpufreq/scaling_cur_freq", cpu0), "2400000\n".to_string());
    files.insert(format!("{}/cpufreq/scaling_cur_freq", cpu1), "1800000\n".to_string());
    // cpu3 has no scaling_cur_freq -> unknown

    FakeSource { files, dirs }
}

fn mhz(khz: Option<u64>) -> f64 {
    match khz {
        Some(k) => k as f64 / 1000.0,
        None => f64::NAN,
    }
}

#[test]
fn reads_frequencies_in_index_order_with_nan_for_missing() {
    let src = fake_source();
    let freqs = current_frequencies_khz_with(&src).unwrap();
    assert_eq!(freqs.len(), 3);
    assert_eq!(mhz(freqs[0]), 2400.0);
    assert_eq!(mhz(freqs[1]), 1800.0);
    assert!(mhz(freqs[2]).is_nan());
}

#[test]
fn metric_read_returns_series() {
    let src = fake_source();
    let mut m = CpuCurrentFreqMetric::new();
    let Value::Series(values) = m.read(&src).unwrap() else {
        panic!("expected Series");
    };
    assert_eq!(values.len(), 3);
    assert!(matches!(values[2], Value::Freq(None)));
}

#[test]
fn freq_metric_metadata() {
    let m = CpuCurrentFreqMetric::new();
    assert_eq!(m.id(), "cpu.freq.cur");
    assert_eq!(m.unit(), "MHz");
    assert!(!m.is_writable());
}

#[test]
fn frequencies_follow_core_index_not_listing_order() {
    let mut src = fake_source();
    let cpu10 = format!("{}/cpu10", SYS_CPU);
    let cpu2 = format!("{}/cpu2", SYS_CPU);
    src.dirs.insert(
        SYS_CPU.to_string(),
        vec![cpu10.clone(), format!("{}/cpufreq", SYS_CPU), cpu2.clone()],
    );
    src.files.insert(format!("{}/cpufreq/scaling_cur_freq", cpu10), "1000\n".to_string());
    src.files.insert(format!("{}/cpufreq/scaling_cur_freq", cpu2), " 2000 ".to_string());
    let freqs = current_frequencies_khz_with(&src).unwrap();
    assert_eq!(freqs, vec![Some(2000), Some(1000)]);
}

#[test]
fn missing_cpu_directory_is_an_error() {
    let src = FakeSource { files: HashMap::new(), dirs: HashMap::new() };
    assert!(current_frequencies_khz_with(&src).is_err());
}

#[test]
fn frequency_contents_parse_as_trimmed_khz() {
    assert_eq!(parse_freq_khz("2400000\n"), Some(2_400_000));
    assert_eq!(parse_freq_khz("  +7 "), Some(7));
    assert_eq!(parse_freq_khz("abc"), None);
    assert_eq!(parse_freq_khz(""), None);
    assert_eq!(parse_freq_khz("18446744073709551616"), None);
    let reads = vec![Some("5\n".to_string()), None, Some("x".to_string())];
    assert_eq!(freq_values(&reads), vec![Some(5), None, None]);
}
