//! The command line: an optional command; without one the interactive
//! monitor starts.
use vstd::prelude::*;

verus! {

/// A lightweight hardware information CLI.
pub struct Cli {
    pub command: Option<Commands>,
}

pub enum Commands {
    /// CPU metrics and controls.
    Cpu(CpuArgs),
    /// Launch the interactive TUI monitor.
    Monitor,
}

pub struct CpuArgs {
    pub command: CpuCommand,
}

pub enum CpuCommand {
    /// CPU frequency metrics.
    Freq(FreqArgs),
    /// CPU scaling governor.
    Governor(GovernorArgs),
    /// CPU topology / online status.
    Topology,
}

pub struct FreqArgs {
    pub metric: Option<FreqMetric>,
}

#[derive(Clone, Copy, PartialEq, Eq, Debug, Structural)]
pub enum FreqMetric {
    /// Current frequency per core.
    Cur,
    /// Minimum scaling frequency per core.
    Min,
    /// Maximum scaling frequency per core.
    Max,
}

pub struct GovernorArgs {
    pub action: GovernorAction,
}

pub enum GovernorAction {
    /// Show the current governor per core.
    Get,
    /// Set the governor on every core.
    SetTo { governor: String },
    /// List available governors.
    List,
}

} // verus!
