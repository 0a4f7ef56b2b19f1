use hare::hardware::cpu::usage::{
    parse_proc_stat, proc_stat_in_range, CpuUtilizationMetric, PROC_STAT,
};
use hare::hardware::metric::Metric;
use hare::hardware::source::{HwError, Listing, Source, Text};
use hare::hardware::value::{TickDelta, Value};
use std::collections::HashMap;

struct FakeSource {
    files: HashMap<String, String>,
}

impl Source for FakeSource {
    fn served(&self, _path: Text, _content: Text) -> bool {
        true
    }
    fn listed(&self, _path: Text, _entries: Listing) -> bool {
        true
    }
    fn answered(&self, _path: Text, _present: bool) -> bool {
        true
    }
    fn accepted(&self, _path: Text, _content: Text) -> bool {
        true
    }
    fn listing_failed(&self, _path: Text, _e: HwError) -> bool {
        true
    }
    fn read_to_string(&self, path: &str) -> Result<String, HwError> {
        self.files
            .get(path)
            .cloned()
            .ok_or_else(|| HwError::Source(format!("not found: {}", path)))
    }
    fn write(&self, _path: &str, _content: &str) -> Result<(), HwError> {
        Err(HwError::Source("writes are not supported".to_string()))
    }
    fn path_exists(&self, path: &str) -> bool {
        self.files.contains_key(path)
    }
    fn list_dir(&self, _path: &str) -> Result<Vec<String>, HwError> {
        Ok(Vec::new())
    }
}

fn src_with(content: &str) -> FakeSource {
    let mut files = HashMap::new();
    files.insert(PROC_STAT.to_string(), content.to_string());
    FakeSource { files }
}

fn percent(v: &Value) -> f64 {
    match v {
        Value::Percent(Some(d)) if d.total != 0 => {
            let dt = d.total as f64;
            let di = d.idle as f64;
            ((dt - di) / dt) * 100.0
        },
        Value::Percent(_) => f64::NAN,
        _ => panic!("expected Percent"),
    }
}

// Sample1: cpu0 total=100 idle=85; cpu1 total=200 idle=170
const SAMPLE_A: &str = "cpu  100 0 100 1000 0 0 0 0\ncpu0 10 0 5 85 0 0 0 0\ncpu1 20 0 10 170 0 0 0 0\n";
// Sample2: cpu0 total=200 idle=155 (dt=100, di=70 -> 30%);
//          cpu1 total=240 idle=180 (dt=40, di=10  -> 75%)
const SAMPLE_B: &str = "cpu  200 0 200 2000 0 0 0 0\ncpu0 30 0 15 155 0 0 0 0\ncpu1 40 0 20 180 0 0 0 0\n";

#[test]
fn first_sample_is_nan_per_core() {
    let src = src_with(SAMPLE_A);
    let mut m = CpuUtilizationMetric::new();
    let Value::Series(vs) = m.read(&src).unwrap() else {
        panic!("expected Series");
    };
    assert_eq!(vs.len(), 2);
    assert!(percent(&vs[0]).is_nan());
    assert!(percent(&vs[1]).is_nan());
}

#[test]
fn second_sample_yields_delta_percent() {
    let mut m = CpuUtilizationMetric::new();
    // Seed state.
    let _ = m.read(&src_with(SAMPLE_A)).unwrap();
    let Value::Series(vs) = m.read(&src_with(SAMPLE_B)).unwrap() else {
        panic!("expected Series");
    };
    assert_eq!(vs.len(), 2);
    assert!((percent(&vs[0]) - 30.0).abs() < 1e-6);
    assert!((percent(&vs[1]) - 75.0).abs() < 1e-6);
    assert_eq!(vs[0], Value::Percent(Some(TickDelta { idle: 70, total: 100 })));
    assert_eq!(vs[0].format(), "30.0%");
    assert_eq!(vs[1].format(), "75.0%");
}

#[test]
fn aggregate_cpu_line_is_skipped() {
    let src = src_with("cpu  1 2 3 4 5 6 7 8\ncpu0 1 2 3 4 5 6 7 8\n");
    let mut m = CpuUtilizationMetric::new();
    let Value::Series(vs) = m.read(&src).unwrap() else {
        panic!("expected Series");
    };
    assert_eq!(vs.len(), 1, "aggregate cpu line must not be a core");
}

#[test]
fn parse_handles_iowait_and_eight_field_total() {
    let parsed = parse_proc_stat("cpu0 1 2 3 4 5 6 7 8\n");
    assert_eq!(parsed, vec![(0, 4 + 5, 1 + 2 + 3 + 4 + 5 + 6 + 7 + 8)]);
}

#[test]
fn usage_metric_metadata() {
    let m = CpuUtilizationMetric::new();
    assert_eq!(m.id(), "cpu.usage");
    assert_eq!(m.unit(), "%");
    assert!(!m.is_writable());
}

#[test]
fn parse_sorts_by_core_and_skips_short_or_foreign_lines() {
    let content = "intr 5 6\ncpu2 1 1 1 1\r\ncpu10 1 2 3 4 5 6 7 8 9 10\ncpu1 1 2 3\ncpuX 1 2 3 4\ncpu0 x 1 2 3 4\n";
    let parsed = parse_proc_stat(content);
    // cpu1 has only three numbers; cpu0's non-numeric token is dropped; only
    // the first eight numbers count towards the total.
    assert_eq!(parsed, vec![(0, 4 + 0, 1 + 2 + 3 + 4), (2, 1, 4), (10, 4 + 5, 36)]);
}

#[test]
fn same_sample_twice_has_no_elapsed_ticks() {
    let mut m = CpuUtilizationMetric::new();
    let _ = m.read(&src_with(SAMPLE_A)).unwrap();
    let Value::Series(vs) = m.read(&src_with(SAMPLE_A)).unwrap() else { panic!() };
    assert_eq!(vs, vec![Value::Percent(None), Value::Percent(None)]);
}

#[test]
fn counters_beyond_64_bits_are_refused() {
    let content = "cpu0 18446744073709551615 1 0 0\n";
    assert!(!proc_stat_in_range(content));
    let mut m = CpuUtilizationMetric::new();
    assert_eq!(m.read(&src_with(content)), Err(HwError::CounterOverflow));
    assert!(proc_stat_in_range(SAMPLE_A));
}

#[test]
fn unreadable_proc_stat_is_an_error() {
    let src = FakeSource { files: HashMap::new() };
    let mut m = CpuUtilizationMetric::new();
    assert_eq!(m.read(&src), Err(HwError::ReadFailed("/proc/stat".into())));
}

#[test]
fn sample_uses_saturating_deltas() {
    let mut m = CpuUtilizationMetric::new();
    let _ = m.sample(&vec![(0, 50, 100)]);
    // Counters went backwards for idle: the idle delta saturates at zero.
    let v = m.sample(&vec![(0, 40, 150)]);
    assert_eq!(v, Value::Series(vec![Value::Percent(Some(TickDelta { idle: 0, total: 50 }))]));
    assert_eq!(v.lines(), vec!["#0: 100.0%".to_string()]);
}

#[test]
fn sampling_text_refuses_overflowing_counters_and_keeps_history() {
    let mut m = CpuUtilizationMetric::new();
    let _ = m.sample_text("cpu0 10 0 5 85 0 0 0 0\n").unwrap();
    assert_eq!(
        m.sample_text("cpu0 18446744073709551615 1 0 0\n"),
        Err(HwError::CounterOverflow)
    );
    let v = m.sample_text("cpu0 30 0 15 155 0 0 0 0\n").unwrap();
    assert_eq!(v, Value::Series(vec![Value::Percent(Some(TickDelta { idle: 70, total: 100 }))]));
}
