//! The stand-in for a debug target: a simulation that either returns at
//! once or keeps running until it is cancelled.

use vstd::prelude::*;
use vstd::string::*;

verus! {

/// Whether the simulation goes on.
#[derive(Clone, Copy, Debug, PartialEq, Eq, Structural)]
pub enum SimStep {
    /// It keeps running: look at the cancel signal again.
    Running,
    /// It has stopped.
    Halted,
}

/// Whether the command line asks for a simulation that runs until it is
/// cancelled: its first argument, behind the program's name, is `--loop`
/// or `-l`.
pub open spec fn asks_for_loop(args: Seq<String>) -> bool {
    args.len() > 1 && (args[1]@ == "--loop"@ || args[1]@ == "-l"@)
}

/// Reads the simulation mode off the command line, the program's name
/// first.
pub fn parse_args(args: &Vec<String>) -> (loop_mode: bool)
    ensures
        loop_mode == asks_for_loop(args@),
{
    if args.len() > 1 {
        let long = String::from_str("--loop");
        let short = String::from_str("-l");
        args[1] == long || args[1] == short
    } else {
        false
    }
}

/// One look at a running simulation: in loop mode it runs until the
/// cancel signal is raised; otherwise it stops at once.
pub fn run_sim(loop_mode: bool, cancelled: bool) -> (step: SimStep)
    ensures
        step == if loop_mode && !cancelled {
            SimStep::Running
        } else {
            SimStep::Halted
        },
{
    if loop_mode && !cancelled {
        SimStep::Running
    } else {
        SimStep::Halted
    }
}

} // verus!
