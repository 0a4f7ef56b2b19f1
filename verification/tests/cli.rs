use hare::cli::args::{
    Commands, CpuArgs, CpuCommand, FreqArgs, FreqMetric, GovernorAction, GovernorArgs,
};
use hare::cli::handler::{dispatch, Outcome};
use hare::cli::run;
use hare::hardware::cpu::topology::CpuOnlineMetric;
use hare::hardware::cpu::SYS_CPU;
use hare::hardware::metric::Metric;
use hare::hardware::source::{HwError, Listing, Source, Text};
use hare::hardware::value::Value;
use std::collections::HashMap;

/// A read-only source: every write fails.
struct ReadOnlySource {
    files: HashMap<String, String>,
    dirs: HashMap<String, Vec<String>>,
}

impl Source for ReadOnlySource {
    fn served(&self, _path: Text, _content: Text) -> bool {
        true
    }
    fn listed(&self, _path: Text, _entries: Listing) -> bool {
        true
    }
    fn answered(&self, _path: Text, _present: bool) -> bool {
        true
    }
    fn accepted(&self, _path: Text, _content: Text) -> bool {
        true
    }
    fn listing_failed(&self, _path: Text, _e: HwError) -> bool {
        true
    }
    fn read_to_string(&self, path: &str) -> Result<String, HwError> {
        self.files.get(path).cloned().ok_or_else(|| HwError::Source(format!("not found: {}", path)))
    }
    fn write(&self, path: &str, _content: &str) -> Result<(), HwError> {
        Err(HwError::Source(format!("failed to write {}", path)))
    }
    fn path_exists(&self, path: &str) -> bool {
        self.files.contains_key(path) || self.dirs.contains_key(path)
    }
    fn list_dir(&self, path: &str) -> Result<Vec<String>, HwError> {
        self.dirs.get(path).cloned().ok_or_else(|| HwError::Source(format!("not a dir: {}", path)))
    }
}

fn source() -> ReadOnlySource {
    let cpu0 = format!("{}/cpu0", SYS_CPU);
    let cpu1 = format!("{}/cpu1", SYS_CPU);
    let mut dirs = HashMap::new();
    dirs.insert(SYS_CPU.to_string(), vec![cpu1.clone(), cpu0.clone()]);
    let mut files = HashMap::new();
    files.insert(format!("{}/online", cpu1), "0\n".to_string());
    files.insert(format!("{}/cpufreq/scaling_cur_freq", cpu0), "2400000\n".to_string());
    files.insert(format!("{}/cpufreq/scaling_governor", cpu0), "schedutil\n".to_string());
    files.insert(format!("{}/cpufreq/scaling_governor", cpu1), "schedutil\n".to_string());
    files.insert(
        format!("{}/cpufreq/scaling_available_governors", cpu0),
        "performance schedutil\n".to_string(),
    );
    ReadOnlySource { files, dirs }
}

fn cpu(command: CpuCommand) -> Commands {
    Commands::Cpu(CpuArgs { command })
}

fn printed(r: Result<Outcome, HwError>) -> Vec<String> {
    match r {
        Ok(Outcome::Print(lines)) => lines,
        _ => panic!("expected printed lines"),
    }
}

#[test]
fn monitor_command_starts_the_monitor() {
    assert!(matches!(run(Commands::Monitor, &source()), Ok(Outcome::Monitor)));
}

#[test]
fn read_commands_print_one_line_per_core() {
    let src = source();
    assert_eq!(
        printed(dispatch(cpu(CpuCommand::Freq(FreqArgs { metric: None })), &src)),
        vec!["#0: 2400.00 MHz".to_string(), "#1: NaN".to_string()]
    );
    assert_eq!(
        printed(dispatch(cpu(CpuCommand::Topology), &src)),
        vec!["#0: online".to_string(), "#1: offline".to_string()]
    );
    assert_eq!(
        printed(dispatch(
            cpu(CpuCommand::Governor(GovernorArgs { action: GovernorAction::Get })),
            &src
        )),
        vec!["#0: schedutil".to_string(), "#1: schedutil".to_string()]
    );
    assert_eq!(
        printed(dispatch(
            cpu(CpuCommand::Governor(GovernorArgs { action: GovernorAction::List })),
            &src
        )),
        vec!["#0: performance".to_string(), "#1: schedutil".to_string()]
    );
}

#[test]
fn min_and_max_frequencies_are_not_registered() {
    let src = source();
    let r = dispatch(cpu(CpuCommand::Freq(FreqArgs { metric: Some(FreqMetric::Min) })), &src);
    assert!(matches!(&r, Err(HwError::NotRegistered(id)) if id == "cpu.freq.min"));
    let r = dispatch(cpu(CpuCommand::Freq(FreqArgs { metric: Some(FreqMetric::Max) })), &src);
    match r {
        Err(e) => {
            assert_eq!(e, HwError::NotRegistered("cpu.freq.max".to_string()));
            assert_eq!(e.message(), "metric cpu.freq.max not registered");
        }
        Ok(_) => panic!("expected an error"),
    }
}

#[test]
fn governor_changes_report_blank_names_and_failed_writes() {
    let src = source();
    let set = |g: &str| {
        cpu(CpuCommand::Governor(GovernorArgs {
            action: GovernorAction::SetTo { governor: g.to_string() },
        }))
    };
    assert!(matches!(dispatch(set("  "), &src), Err(HwError::EmptyGovernorName)));
    match dispatch(set("performance"), &src) {
        Err(e) => {
            // The walk is in listing order and stops at the first failure.
            assert_eq!(e, HwError::SetGovernorFailed(format!("{}/cpu1", SYS_CPU)));
            assert_eq!(e.message(), "failed to set governor on /sys/devices/system/cpu/cpu1");
        }
        Ok(_) => panic!("expected an error"),
    }
}

#[test]
fn failed_online_write_names_the_core() {
    let src = source();
    let m = CpuOnlineMetric::new();
    let e = m.write_core(&src, 1, &Value::Bool(true)).unwrap_err();
    assert_eq!(e, HwError::SetOnlineFailed(1));
    assert_eq!(e.message(), "failed to set online status for core 1");
}
