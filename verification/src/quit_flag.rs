//! The flag through which an iteration tells the loop around it to end.
use crate::event::MainLoopEvent;
use vstd::prelude::*;

verus! {

/// Whether the loop that owns this flag has to end. A flag starts lowered,
/// is raised by the first `Terminate` it is shown, and is never lowered again.
pub struct QuitFlag {
    raised: bool,
}

impl QuitFlag {
    /// Whether the flag is raised.
    pub closed spec fn raised(&self) -> bool {
        self.raised
    }

    /// A lowered flag.
    pub fn new() -> (flag: Self)
        ensures
            !flag.raised(),
    {
        QuitFlag { raised: false }
    }

    /// Reads the flag.
    pub fn should_quit(&self) -> (quit: bool)
        ensures
            quit == self.raised(),
    {
        self.raised
    }

    /// Takes note of what an iteration reported and passes the event on:
    /// `Terminate` raises the flag, `Continue` leaves it as it is.
    pub fn record(&mut self, event: MainLoopEvent) -> (passed_on: MainLoopEvent)
        ensures
            passed_on == event,
            final(self).raised() == (old(self).raised() || event is Terminate),
    {
        match event {
            MainLoopEvent::Continue => MainLoopEvent::Continue,
            MainLoopEvent::Terminate => {
                self.raised = true;
                MainLoopEvent::Terminate
            },
        }
    }
}

} // verus!
