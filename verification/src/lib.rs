//! Reading and controlling CPU hardware parameters exposed by the Linux
//! kernel (sysfs/procfs), and the state machine of an interactive monitor.
pub mod cli;
pub mod hardware;
pub mod number;
pub mod order;
pub mod path;
pub mod text;
pub mod tui;
