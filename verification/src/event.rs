//! What one iteration of a main loop reports.
use vstd::prelude::*;

verus! {

/// Returned by each iteration of a [main loop](crate::stepper::MainLoop::main_loop):
/// whether the looping goes on or ends.
#[derive(Clone, Copy, Debug, PartialEq, Eq, Structural)]
pub enum MainLoopEvent {
    Continue,
    Terminate,
}

} // verus!
