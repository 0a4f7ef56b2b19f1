//! Running a command against the default CPU metrics.
use vstd::prelude::*;
use crate::cli::args::{Commands, CpuCommand, FreqMetric, GovernorAction};
use crate::hardware::cpu::freq::{is_current_freq_value, CpuCurrentFreqMetric};
use crate::hardware::cpu::governor::{
    core_files, governor_file, governor_name, walked, is_available_governors_value, is_governor_value, CpuAvailableGovernorsMetric,
    CpuGovernorMetric,
};
use crate::hardware::cpu::topology::{is_online_value, CpuOnlineMetric};
use crate::hardware::cpu::{cpu_entries, SYS_CPU};
use crate::cli::args::{CpuArgs, GovernorArgs};
use crate::path::join_path;
use crate::text::trim;
use crate::hardware::metric::Metric;
use crate::hardware::source::{HwError, Source};
use crate::hardware::value::{value_lines, Value, ValueView};
use crate::text::string_from;

verus! {

/// What a command asks the program to do next.
pub enum Outcome {
    /// Print these lines.
    Print(Vec<String>),
    /// Start the interactive monitor.
    Monitor,
}

/// The text of each line.
pub open spec fn line_texts(ls: Seq<String>) -> Seq<Seq<char>> {
    ls.map_values(|l: String| l@)
}

/// The outcome prints the display lines of a value with property `p`.
pub open spec fn prints_value_with(r: Result<Outcome, HwError>, p: spec_fn(ValueView) -> bool) -> bool {
    r matches Ok(Outcome::Print(ls)) ==> exists|v: ValueView| #[trigger] p(v) && line_texts(ls@)
        == value_lines(v)
}

/// The display lines of `v`.
fn lines_of(v: Value) -> (r: Outcome)
    ensures
        r matches Outcome::Print(ls) && line_texts(ls@) == value_lines(v@),
{
    let ls = v.lines();
    assert(line_texts(ls@) =~= value_lines(v@));
    Outcome::Print(ls)
}

/// What running `command` gives: the monitor for `monitor`; for a read,
/// the display lines of a value the metric's read can give (or its error);
/// for a governor change, no lines once every write succeeded, and the
/// empty-name error for a blank name; the not-registered error for the
/// minimum and maximum frequencies.
pub open spec fn command_result<S: Source + ?Sized>(source: &S, command: Commands, r: Result<Outcome, HwError>) -> bool {
    match command {
        Commands::Monitor => r matches Ok(Outcome::Monitor),
        Commands::Cpu(a) => match a.command {
            CpuCommand::Freq(f) => match f.metric {
                Some(FreqMetric::Min) => r matches Err(HwError::NotRegistered(id)) && id@
                    == "cpu.freq.min"@,
                Some(FreqMetric::Max) => r matches Err(HwError::NotRegistered(id)) && id@
                    == "cpu.freq.max"@,
                _ => prints_value_with(r, |v: ValueView| is_current_freq_value(source, v)),
            },
            CpuCommand::Governor(g) => match g.action {
                GovernorAction::Get => prints_value_with(r, |v: ValueView| is_governor_value(source, v)),
                GovernorAction::SetTo { governor } => (r matches Ok(Outcome::Print(ls))
                    ==> ls@.len() == 0 && governor_name(Value::Enum(governor)@) is Ok) && (
                governor_name(Value::Enum(governor)@) is Err ==> r == Err::<Outcome, HwError>(
                    HwError::EmptyGovernorName,
                )) && (r is Ok ==> exists|listing: Seq<Seq<char>>, present: Seq<bool>|
                    #![trigger source.listed(SYS_CPU@, listing), walked(source, core_files(listing, governor_file()), governor_name(Value::Enum(governor)@)->Ok_0, present)]
                    source.listed(SYS_CPU@, listing) && walked(
                        source,
                        core_files(listing, governor_file()),
                        governor_name(Value::Enum(governor)@)->Ok_0,
                        present,
                    )),
                GovernorAction::List => prints_value_with(
                    r,
                    |v: ValueView| is_available_governors_value(source, v),
                ),
            },
            CpuCommand::Topology => prints_value_with(r, |v: ValueView| is_online_value(source, v)),
        },
    }
}

/// Runs `command`: reads a metric and returns its display lines, sets the
/// governor, or asks for the monitor. Only the current frequency is a
/// registered frequency metric; `min` and `max` are refused as not
/// registered.
pub fn dispatch<S: Source + ?Sized>(command: Commands, source: &S) -> (r: Result<Outcome, HwError>)
    ensures
        command_result(source, command, r),
{
    match command {
        Commands::Monitor => Ok(Outcome::Monitor),
        Commands::Cpu(args) => match args.command {
            CpuCommand::Freq(f) => {
                let metric = match f.metric {
                    Some(m) => m,
                    None => FreqMetric::Cur,
                };
                match metric {
                    FreqMetric::Cur => {
                        let mut m = CpuCurrentFreqMetric::new();
                        let v = m.read(source)?;
                        let ghost p = |v: ValueView| is_current_freq_value(source, v);
                        assert(p(v@));
                        Ok(lines_of(v))
                    },
                    FreqMetric::Min => Err(HwError::NotRegistered(string_from("cpu.freq.min"))),
                    FreqMetric::Max => Err(HwError::NotRegistered(string_from("cpu.freq.max"))),
                }
            },
            CpuCommand::Governor(g) => match g.action {
                GovernorAction::Get => {
                    let mut m = CpuGovernorMetric::new();
                    let v = m.read(source)?;
                    let ghost p = |v: ValueView| is_governor_value(source, v);
                    assert(p(v@));
                    Ok(lines_of(v))
                },
                GovernorAction::SetTo { governor } => {
                    let m = CpuGovernorMetric::new();
                    let v = Value::Enum(governor);
                    m.write(source, &v)?;
                    Ok(Outcome::Print(Vec::new()))
                },
                GovernorAction::List => {
                    let mut m = CpuAvailableGovernorsMetric::new();
                    let v = m.read(source)?;
                    let ghost p = |v: ValueView| is_available_governors_value(source, v);
                    assert(p(v@));
                    Ok(lines_of(v))
                },
            },
            CpuCommand::Topology => {
                let mut m = CpuOnlineMetric::new();
                let v = m.read(source)?;
                let ghost p = |v: ValueView| is_online_value(source, v);
                assert(p(v@));
                Ok(lines_of(v))
            },
        },
    }
}

/// Setting the governor writes the requested name, trimmed, to the
/// `scaling_governor` file of every `cpuN` directory the source listed and
/// said has one; it succeeds only for a name that is not blank.
pub proof fn law_set_governor_writes_name<S: Source + ?Sized>(
    source: &S,
    governor: String,
    r: Result<Outcome, HwError>,
)
    requires
        command_result(
            source,
            Commands::Cpu(
                (CpuArgs {
                    command: CpuCommand::Governor(
                        (GovernorArgs { action: GovernorAction::SetTo { governor } }),
                    ),
                }),
            ),
            r,
        ),
        r is Ok,
    ensures
        trim(governor@).len() > 0,
        exists|listing: Seq<Seq<char>>, present: Seq<bool>|
            #![trigger source.listed(SYS_CPU@, listing), present.len()]
            source.listed(SYS_CPU@, listing) && present.len() == cpu_entries(listing).len() && forall|j: int|
                0 <= j < present.len() ==> source.answered(
                    join_path(cpu_entries(listing)[j].1, governor_file()),
                    #[trigger] present[j],
                ) && (present[j] ==> source.accepted(
                    join_path(cpu_entries(listing)[j].1, governor_file()),
                    trim(governor@),
                )),
{
    let name = governor_name(Value::Enum(governor)@);
    let (listing, present) = choose|listing: Seq<Seq<char>>, present: Seq<bool>|
        #![trigger source.listed(SYS_CPU@, listing), walked(source, core_files(listing, governor_file()), name->Ok_0, present)]
        source.listed(SYS_CPU@, listing) && walked(
            source,
            core_files(listing, governor_file()),
            name->Ok_0,
            present,
        );
    let files = core_files(listing, governor_file());
    assert(name == Ok::<Seq<char>, HwError>(trim(governor@)));
    assert forall|j: int| 0 <= j < present.len() implies source.answered(
        join_path(cpu_entries(listing)[j].1, governor_file()),
        #[trigger] present[j],
    ) && (present[j] ==> source.accepted(
        join_path(cpu_entries(listing)[j].1, governor_file()),
        trim(governor@),
    )) by {
        assert(files[j].1 == join_path(cpu_entries(listing)[j].1, governor_file()));
    }
    assert(present.len() == cpu_entries(listing).len());
}

} // verus!
