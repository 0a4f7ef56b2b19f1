use hare::hardware::cpu::topology::{
    core_has_online_file, online_file, CpuClusterMetric, CpuOnlineMetric,
};
use hare::hardware::cpu::{cpu_cores, core_index, is_cpu_dir, SYS_CPU};
use hare::hardware::metric::Metric;
use hare::hardware::source::{HwError, Listing, Source, Text};
use hare::hardware::value::Value;
use std::collections::HashMap;
use std::sync::Mutex;

struct FakeSource {
    files: HashMap<String, String>,
    dirs: HashMap<String, Vec<String>>,
    writes: Mutex<Vec<(String, String)>>,
}

impl Source for FakeSource {
    fn served(&self, _path: Text, _content: Text) -> bool {
        true
    }
    fn listed(&self, _path: Text, _entries: Listing) -> bool {
        true
    }
    fn answered(&self, _path: Text, _present: bool) -> bool {
        true
    }
    fn accepted(&self, _path: Text, _content: Text) -> bool {
        true
    }
    fn listing_failed(&self, _path: Text, _e: HwError) -> bool {
        true
    }
    fn read_to_string(&self, path: &str) -> Result<String, HwError> {
        self.files
            .get(path)
            .cloned()
            .ok_or_else(|| HwError::Source(format!("not found: {}", path)))
    }
    fn write(&self, path: &str, content: &str) -> Result<(), HwError> {
        self.writes.lock().unwrap().push((path.to_string(), content.to_string()));
        Ok(())
    }
    fn path_exists(&self, path: &str) -> bool {
        self.files.contains_key(path) || self.dirs.contains_key(path)
    }
    fn list_dir(&self, path: &str) -> Result<Vec<String>, HwError> {
        self.dirs
            .get(path)
            .cloned()
            .ok_or_else(|| HwError::Source(format!("not a dir: {}", path)))
    }
}

fn fake_source(with_cluster: bool) -> FakeSource {
    let cpu0 = format!("{}/cpu0", SYS_CPU);
    let cpu1 = format!("{}/cpu1", SYS_CPU);
    let cpu3 = format!("{}/cpu3", SYS_CPU);
    let mut dirs = HashMap::new();
    dirs.insert(SYS_CPU.to_string(), vec![cpu0.clone(), cpu1.clone(), cpu3.clone()]);
    let mut files = HashMap::new();
    files.insert(format!("{}/online", cpu0), "1\n".to_string());
    files.insert(format!("{}/online", cpu1), "0\n".to_string());
    // cpu3 has no online file -> defaults to online.
    if with_cluster {
        files.insert(format!("{}/topology/cluster_id", cpu0), "0\n".to_string());
        files.insert(format!("{}/topology/cluster_id", cpu1), "4\n".to_string());
        // cpu3 lacks cluster_id -> "-".
    }
    FakeSource { files, dirs, writes: Mutex::new(Vec::new()) }
}

#[test]
fn online_reads_per_core_with_default_for_missing() {
    let src = fake_source(false);
    let Value::Series(vs) = CpuOnlineMetric::new().read(&src).unwrap() else {
        panic!("expected Series");
    };
    assert_eq!(vs, vec![Value::Bool(true), Value::Bool(false), Value::Bool(true)]);
}

#[test]
fn cluster_reads_per_core_with_dash_for_missing() {
    let src = fake_source(true);
    let Value::Series(vs) = CpuClusterMetric::new().read(&src).unwrap() else {
        panic!("expected Series");
    };
    assert_eq!(
        vs,
        vec![
            Value::Raw("0".to_string()),
            Value::Raw("4".to_string()),
            Value::Raw("-".to_string()),
        ]
    );
}

#[test]
fn cluster_all_missing_when_unsupported() {
    // No topology/cluster_id files at all.
    let src = fake_source(false);
    let Value::Series(vs) = CpuClusterMetric::new().read(&src).unwrap() else {
        panic!("expected Series");
    };
    assert_eq!(vs.len(), 3);
    assert!(vs.iter().all(|v| matches!(v, Value::Raw(s) if s == "-")));
}

#[test]
fn cluster_metadata() {
    let m = CpuClusterMetric::new();
    assert_eq!(m.id(), "cpu.topology.cluster");
    assert!(!m.is_writable());
}

#[test]
fn online_write_core_writes_one_or_zero_and_skips_locked() {
    let src = fake_source(true); // cpu0/cpu1 have online, cpu3 does not
    let m = CpuOnlineMetric::new();

    // cpu1 present -> writes "0" to its online file.
    m.write_core(&src, 1, &Value::Bool(false)).unwrap();
    assert_eq!(src.writes.lock().unwrap().iter().filter(|(_, v)| v == "0").count(), 1);

    // cpu3 (no online file) -> error, nothing written for it.
    let err = m.write_core(&src, 3, &Value::Bool(false));
    assert!(err.is_err());
}

#[test]
fn online_write_core_rejects_non_bool() {
    let src = fake_source(true);
    let m = CpuOnlineMetric::new();
    assert!(m.write_core(&src, 0, &Value::Raw("1".into())).is_err());
}

#[test]
fn core_has_online_file_reflects_presence() {
    let src = fake_source(true); // cpu0/cpu1 have online, cpu3 does not
    assert!(core_has_online_file(&src, 0));
    assert!(core_has_online_file(&src, 1));
    assert!(!core_has_online_file(&src, 3));
}

#[test]
fn online_is_core_writable() {
    assert!(CpuOnlineMetric::new().is_core_writable());
    assert!(!CpuClusterMetric::new().is_core_writable());
}

#[test]
fn online_write_core_errors_name_the_cause() {
    let src = fake_source(true);
    let m = CpuOnlineMetric::new();
    m.write_core(&src, 0, &Value::Bool(true)).unwrap();
    assert_eq!(
        src.writes.lock().unwrap().clone(),
        vec![("/sys/devices/system/cpu/cpu0/online".to_string(), "1".to_string())]
    );
    assert_eq!(m.write_core(&src, 3, &Value::Bool(true)), Err(HwError::NoOnlineFile(3)));
    assert_eq!(
        m.write_core(&src, 0, &Value::Freq(None)),
        Err(HwError::NotABool("Freq".into()))
    );
    assert_eq!(
        HwError::NoOnlineFile(3).message(),
        "core 3 cannot be onlined/offlined (no online file)"
    );
    assert_eq!(online_file(12), "/sys/devices/system/cpu/cpu12/online");
}

#[test]
fn malformed_online_file_counts_as_online() {
    let mut src = fake_source(false);
    src.files.insert(format!("{}/cpu1/online", SYS_CPU), "x\n".to_string());
    src.files.insert(format!("{}/cpu3/online", SYS_CPU), " 2 ".to_string());
    let Value::Series(vs) = CpuOnlineMetric::new().read(&src).unwrap() else { panic!() };
    assert_eq!(vs, vec![Value::Bool(true), Value::Bool(true), Value::Bool(true)]);
}

#[test]
fn cpu_directories_are_recognised_and_ordered() {
    assert_eq!(core_index("/sys/devices/system/cpu/cpu7"), Some(7));
    assert_eq!(core_index("/sys/devices/system/cpu/cpu7/"), Some(7));
    assert_eq!(core_index("/sys/devices/system/cpu/cpufreq"), None);
    assert_eq!(core_index("/sys/devices/system/cpu/cpu"), None);
    assert_eq!(core_index("cpu+3"), Some(3));
    assert!(!is_cpu_dir("/sys/devices/system/cpu/cpuidle"));
    let listing = vec![
        "/a/cpu2".to_string(),
        "/a/cpu10".to_string(),
        "/a/power".to_string(),
        "/a/cpu0".to_string(),
    ];
    let cores = cpu_cores(&listing);
    assert_eq!(
        cores,
        vec![(0, "/a/cpu0".to_string()), (2, "/a/cpu2".to_string()), (10, "/a/cpu10".to_string())]
    );
}
