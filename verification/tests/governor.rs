use hare::hardware::cpu::governor::{
    core_file_paths, governor_list, governor_name_of, CpuAvailableGovernorsMetric,
    CpuGovernorMetric,
};
use hare::hardware::cpu::SYS_CPU;
use hare::hardware::metric::Metric;
use hare::hardware::source::{HwError, Listing, Source, Text};
use hare::hardware::value::Value;
use std::collections::HashMap;
use std::sync::Mutex;

struct FakeSource {
    files: HashMap<String, String>,
    dirs: HashMap<String, Vec<String>>,
    writes: Mutex<Vec<(String, String)>>,
}

impl Source for FakeSource {
    fn served(&self, _path: Text, _content: Text) -> bool {
        true
    }
    fn listed(&self, _path: Text, _entries: Listing) -> bool {
        true
    }
    fn answered(&self, _path: Text, _present: bool) -> bool {
        true
    }
    fn accepted(&self, _path: Text, _content: Text) -> bool {
        true
    }
    fn listing_failed(&self, _path: Text, _e: HwError) -> bool {
        true
    }
    fn read_to_string(&self, path: &str) -> Result<String, HwError> {
        self.files
            .get(path)
            .cloned()
            .ok_or_else(|| HwError::Source(format!("not found: {}", path)))
    }
    fn write(&self, path: &str, content: &str) -> Result<(), HwError> {
        self.writes.lock().unwrap().push((path.to_string(), content.to_string()));
        Ok(())
    }
    fn path_exists(&self, path: &str) -> bool {
        self.files.contains_key(path) || self.dirs.contains_key(path)
    }
    fn list_dir(&self, path: &str) -> Result<Vec<String>, HwError> {
        self.dirs
            .get(path)
            .cloned()
            .ok_or_else(|| HwError::Source(format!("not a dir: {}", path)))
    }
}

fn fake_source() -> FakeSource {
    let cpu0 = format!("{}/cpu0", SYS_CPU);
    let cpu1 = format!("{}/cpu1", SYS_CPU);
    let mut dirs = HashMap::new();
    dirs.insert(SYS_CPU.to_string(), vec![cpu0.clone(), cpu1.clone()]);
    let mut files = HashMap::new();
    files.insert(format!("{}/cpufreq/scaling_governor", cpu0), "powersave\n".to_string());
    files.insert(format!("{}/cpufreq/scaling_governor", cpu1), "performance\n".to_string());
    files.insert(
        format!("{}/cpufreq/scaling_available_governors", cpu0),
        "performance powersave\n".to_string(),
    );
    FakeSource { files, dirs, writes: Mutex::new(Vec::new()) }
}

#[test]
fn reads_per_core_governors() {
    let src = fake_source();
    let v = CpuGovernorMetric::new().read(&src).unwrap();
    let Value::Series(vs) = v else { panic!("series") };
    assert_eq!(vs, vec![Value::Enum("powersave".into()), Value::Enum("performance".into())]);
}

#[test]
fn available_governors_split_into_series() {
    let src = fake_source();
    let v = CpuAvailableGovernorsMetric::new().read(&src).unwrap();
    let Value::Series(vs) = v else { panic!("series") };
    assert_eq!(vs.len(), 2);
}

#[test]
fn write_sets_governor_on_all_cores() {
    let src = fake_source();
    CpuGovernorMetric::new().write(&src, &Value::Enum("powersave".into())).unwrap();
    let writes = src.writes.lock().unwrap();
    assert_eq!(writes.len(), 2);
    assert!(writes.iter().all(|(_, v)| v == "powersave"));
}

#[test]
fn is_writable_flag() {
    assert!(CpuGovernorMetric::new().is_writable());
    assert!(!CpuAvailableGovernorsMetric::new().is_writable());
}

#[test]
fn unreadable_governor_is_empty_text() {
    let mut src = fake_source();
    src.files.remove(&format!("{}/cpu1/cpufreq/scaling_governor", SYS_CPU));
    let Value::Series(vs) = CpuGovernorMetric::new().read(&src).unwrap() else { panic!("series") };
    assert_eq!(vs, vec![Value::Enum("powersave".into()), Value::Enum(String::new())]);
}

#[test]
fn governor_write_trims_and_checks_the_name() {
    let src = fake_source();
    CpuGovernorMetric::new().write(&src, &Value::Raw("  schedutil \n".into())).unwrap();
    let writes = src.writes.lock().unwrap().clone();
    assert_eq!(
        writes,
        vec![
            (format!("{}/cpu0/cpufreq/scaling_governor", SYS_CPU), "schedutil".to_string()),
            (format!("{}/cpu1/cpufreq/scaling_governor", SYS_CPU), "schedutil".to_string()),
        ]
    );
    assert_eq!(
        CpuGovernorMetric::new().write(&src, &Value::Enum("   ".into())),
        Err(HwError::EmptyGovernorName)
    );
    assert_eq!(
        CpuGovernorMetric::new().write(&src, &Value::Bool(true)),
        Err(HwError::NotAGovernorName("Bool".into()))
    );
    assert_eq!(governor_name_of(&Value::Enum(" x ".into())), Ok("x".to_string()));
}

#[test]
fn governor_write_skips_cores_without_governor_file() {
    let mut src = fake_source();
    src.files.remove(&format!("{}/cpu1/cpufreq/scaling_governor", SYS_CPU));
    CpuGovernorMetric::new().write(&src, &Value::Enum("powersave".into())).unwrap();
    assert_eq!(src.writes.lock().unwrap().len(), 1);
}

#[test]
fn read_only_metric_refuses_writes() {
    let src = fake_source();
    assert_eq!(
        CpuAvailableGovernorsMetric::new().write(&src, &Value::Enum("x".into())),
        Err(HwError::ReadOnly("cpu.governor.available".into()))
    );
    assert_eq!(
        CpuGovernorMetric::new().write_core(&src, 0, &Value::Enum("x".into())),
        Err(HwError::NotCoreWritable("cpu.governor".into()))
    );
}

#[test]
fn available_governors_list_and_missing_file() {
    let v = governor_list("performance  powersave\tschedutil\n");
    assert_eq!(
        v,
        Value::Series(vec![
            Value::Enum("performance".into()),
            Value::Enum("powersave".into()),
            Value::Enum("schedutil".into()),
        ])
    );
    let mut src = fake_source();
    src.files.remove(&format!("{}/cpu0/cpufreq/scaling_available_governors", SYS_CPU));
    let v = CpuAvailableGovernorsMetric::new().read(&src).unwrap();
    assert_eq!(v, Value::Series(Vec::new()));
}

#[test]
fn core_files_keep_listing_order_and_skip_non_cpu_entries() {
    let listing = vec![
        "/sys/devices/system/cpu/cpu1".to_string(),
        "/sys/devices/system/cpu/cpufreq".to_string(),
        "/sys/devices/system/cpu/cpu0".to_string(),
    ];
    let files = core_file_paths(&listing, "online");
    assert_eq!(
        files,
        vec![
            ("/sys/devices/system/cpu/cpu1".to_string(), "/sys/devices/system/cpu/cpu1/online".to_string()),
            ("/sys/devices/system/cpu/cpu0".to_string(), "/sys/devices/system/cpu/cpu0/online".to_string()),
        ]
    );
}
