//! The command-line interface.
pub mod args;
pub mod handler;

use vstd::prelude::*;
use crate::cli::args::Commands;
use crate::cli::handler::{command_result, dispatch, Outcome};
use crate::hardware::source::{HwError, Source};

verus! {

/// Runs a command (see [`dispatch`]).
pub fn run<S: Source + ?Sized>(command: Commands, source: &S) -> (r: Result<Outcome, HwError>)
    ensures
        command_result(source, command, r),
{
    dispatch(command, source)
}

} // verus!
