//! The driver: it owns a main loop and dispatches its iterations.
//!
//! Two things repeat a driver's turns. [`Driver::drive`] does so in a loop of
//! its own and is what [`run`] is made of. A host that runs an event loop of
//! its own calls [`Driver::iterate`] once per turn instead, and should stop
//! calling when a turn reports `Terminate`; a call that comes nonetheless
//! dispatches nothing.
use crate::event::MainLoopEvent;
use crate::quit_flag::QuitFlag;
use crate::stepper::{halts, stops_within, MainLoop};
use vstd::prelude::*;

verus! {

/// Owns a main loop for as long as it is driven, and the flag that ends the
/// driving. A driver is running until an iteration reports `Terminate`; from
/// then on it is stopped and dispatches nothing.
///
/// Besides the two, a driver keeps a ghost record of the states its looper
/// has passed through, over which its contracts are stated.
pub struct Driver<T: MainLoop> {
    looper: T,
    quit: QuitFlag,
    trail: Ghost<Seq<T>>,
}

impl<T: MainLoop> Driver<T> {
    /// The main loop as the last dispatched iteration left it.
    pub closed spec fn looper(&self) -> T {
        self.looper
    }

    /// Whether the quit flag is raised.
    pub closed spec fn stopped(&self) -> bool {
        self.quit.raised()
    }

    /// The main loop as it was handed over, followed by what each dispatched
    /// iteration left of it, in the order of the calls.
    pub closed spec fn trail(&self) -> Seq<T> {
        self.trail@
    }

    /// The main loop as it was handed over.
    pub open spec fn origin(&self) -> T {
        self.trail()[0]
    }

    /// How many iterations have been dispatched.
    pub open spec fn dispatched(&self) -> nat {
        (self.trail().len() - 1) as nat
    }

    /// What the iteration dispatched after `i` others reported. The driver
    /// raises its flag on the first `Terminate` and dispatches nothing after
    /// it, so this is `Terminate` for the last iteration of a stopped driver
    /// and `Continue` for every other.
    pub open spec fn event_of(&self, i: int) -> MainLoopEvent {
        if self.stopped() && i + 1 == self.dispatched() {
            MainLoopEvent::Terminate
        } else {
            MainLoopEvent::Continue
        }
    }

    /// The iteration dispatched after `i` others was one call of `main_loop`
    /// on what its predecessor had left: the looper allows the step from
    /// entry `i` of the trail to the next with the event reported.
    pub open spec fn dispatch_ok(&self, i: int) -> bool {
        self.trail()[i].allows(self.trail()[i + 1], self.event_of(i))
    }

    /// What holds of every driver. The trail starts with the looper as it
    /// was handed over and ends with the looper as it is now. Each entry
    /// arose from the one before it by one iteration, and every iteration
    /// reported `Continue` but the one that raised the flag, which is the
    /// last.
    pub open spec fn wf(&self) -> bool {
        &&& self.trail().len() > 0
        &&& self.trail().last() == self.looper()
        &&& self.stopped() ==> self.dispatched() > 0
        &&& forall|i: int| 0 <= i < self.dispatched() ==> #[trigger] self.dispatch_ok(i)
    }

    /// The driver that `new` makes of `looper`.
    pub open spec fn is_fresh(&self, looper: T) -> bool {
        &&& self.looper() == looper
        &&& !self.stopped()
        &&& self.trail() == seq![looper]
    }

    /// Whether one call of `iterate` may turn `self` into `next` and report
    /// `event`. A stopped driver stays as it is and reports `Terminate`. A
    /// running one dispatches one iteration, reports what it reported, and
    /// is stopped afterwards if and only if that was `Terminate`.
    pub open spec fn iterates_to(&self, next: Self, event: MainLoopEvent) -> bool {
        if self.stopped() {
            &&& next == *self
            &&& event is Terminate
        } else {
            &&& self.looper().allows(next.looper(), event)
            &&& next.trail() == self.trail().push(next.looper())
            &&& next.stopped() == (event is Terminate)
        }
    }

    /// Takes ownership of `looper`. The new driver is running and has
    /// dispatched nothing.
    pub fn new(looper: T) -> (driver: Self)
        ensures
            driver.wf(),
            driver.is_fresh(looper),
    {
        let ghost handed_over = looper;
        Driver { looper, quit: QuitFlag::new(), trail: Ghost(Seq::empty().push(handed_over)) }
    }

    /// Whether the driving has ended.
    pub fn should_quit(&self) -> (quit: bool)
        ensures
            quit == self.stopped(),
    {
        self.quit.should_quit()
    }

    /// One turn of the driver. While running it calls `main_loop` once,
    /// raises the quit flag if the call reported `Terminate`, and passes the
    /// event on. Once stopped it calls nothing and reports `Terminate`.
    pub fn iterate(&mut self) -> (event: MainLoopEvent)
        requires
            old(self).wf(),
        ensures
            final(self).wf(),
            old(self).iterates_to(*final(self), event),
    {
        if self.quit.should_quit() {
            return MainLoopEvent::Terminate;
        }
        let event = self.looper.main_loop();
        proof {
            self.trail@ = self.trail@.push(self.looper);
        }
        let event = self.quit.record(event);
        proof {
            assert forall|i: int| 0 <= i < self.dispatched() implies #[trigger] self.dispatch_ok(
                i,
            ) by {
                if i + 1 < self.dispatched() {
                    assert(old(self).dispatch_ok(i));
                }
            }
        }
        event
    }

    /// Takes turns, one after the other, until the driver is stopped: the
    /// blocking loop of a native target. A driver that is stopped already is
    /// left as it is.
    ///
    /// The loop has to end, so the looper has to halt. What has been
    /// dispatched before stays on the trail, and `wf` says of what was added
    /// that the last iteration reported `Terminate` and none before it did.
    pub fn drive(&mut self)
        requires
            old(self).wf(),
            old(self).stopped() || halts(old(self).looper()),
        ensures
            final(self).wf(),
            final(self).stopped(),
            final(self).origin() == old(self).origin(),
            old(self).trail().is_prefix_of(final(self).trail()),
            old(self).stopped() ==> *final(self) == *old(self),
    {
        let ghost mut calls_left: nat = 0;
        proof {
            if !self.stopped() {
                calls_left = choose|calls: nat| stops_within(self.looper(), calls);
            }
        }
        loop
            invariant
                self.wf(),
                old(self).trail().is_prefix_of(self.trail()),
                old(self).stopped() ==> *self == *old(self),
                !self.stopped() ==> stops_within(self.looper(), calls_left),
            ensures
                self.stopped(),
            decreases (if self.stopped() { 0 } else { calls_left }),
        {
            let ghost before = *self;
            let event = self.iterate();
            proof {
                if !before.stopped() && event is Continue {
                    assert(before.looper().allows(self.looper(), event));
                    calls_left = (calls_left - 1) as nat;
                }
            }
            if self.should_quit() {
                break;
            }
        }
    }
}

/// A driver that was made of `looper` can come to a stop: some sequence of
/// iterations that `looper` allows ends in one that reports `Terminate`.
pub open spec fn runs_to_stop<T: MainLoop>(looper: T) -> bool {
    exists|last: Driver<T>| last.wf() && last.origin() == looper && last.stopped()
}

/// Starts the looping and returns when it has ended: iterations of `looper`
/// are dispatched one after the other until one of them reports `Terminate`.
///
/// The looper is consumed, so that nothing else can reach it while it is
/// driven. Each call makes a driver of its own, with a flag of its own.
///
/// The call returns only after an iteration has reported `Terminate`. A
/// caller shows that one will: with a looper that reports `Continue` for
/// ever the loop would not end.
pub fn run<T: 'static + MainLoop>(looper: T)
    requires
        halts(looper),
    ensures
        runs_to_stop(looper),
{
    let mut driver = Driver::new(looper);
    driver.drive();
}

} // verus!
