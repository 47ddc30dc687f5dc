//! The contract between a main loop and whatever drives it, and the words in
//! which the driver's own contracts speak of a loop's behaviour.
use crate::event::MainLoopEvent;
use vstd::prelude::*;

verus! {

/// A main loop that can be driven on native targets as well as in a browser,
/// where looping naively would freeze the page. Implement it on the object
/// that holds all the data the loop works on.
pub trait MainLoop: Sized {
    /// Whether one call of [`main_loop`](MainLoop::main_loop) on `self` may
    /// leave `next` behind and report `event`. An implementor that says
    /// nothing of its behaviour allows every outcome.
    open spec fn allows(&self, next: Self, event: MainLoopEvent) -> bool {
        true
    }

    /// Run once per iteration: the body of the loop. The result says whether
    /// the looping goes on or ends.
    fn main_loop(&mut self) -> (event: MainLoopEvent)
        ensures
            old(self).allows(*final(self), event),
    ;
}

/// Whatever `looper` does, one of its first `calls` iterations reports
/// `Terminate`.
pub open spec fn stops_within<T: MainLoop>(looper: T, calls: nat) -> bool
    decreases calls,
{
    &&& calls > 0
    &&& forall|next: T, event: MainLoopEvent| #[trigger]
        looper.allows(next, event) ==> event is Terminate || stops_within(
            next,
            (calls - 1) as nat,
        )
}

/// There is a number of iterations within which `looper` reports `Terminate`.
pub open spec fn halts<T: MainLoop>(looper: T) -> bool {
    exists|calls: nat| stops_within(looper, calls)
}

/// Whatever `looper` does, its first `n - 1` iterations report `Continue`
/// and iteration `n` reports `Terminate`.
pub open spec fn stops_on_call<T: MainLoop>(looper: T, n: nat) -> bool
    decreases n,
{
    &&& n > 0
    &&& forall|next: T, event: MainLoopEvent| #[trigger]
        looper.allows(next, event) ==> if n == 1 {
            event is Terminate
        } else {
            event is Continue && stops_on_call(next, (n - 1) as nat)
        }
}

/// Whatever `looper` does, its first `calls` iterations report `Continue`.
pub open spec fn continues_for<T: MainLoop>(looper: T, calls: nat) -> bool
    decreases calls,
{
    calls > 0 ==> forall|next: T, event: MainLoopEvent| #[trigger]
        looper.allows(next, event) ==> event is Continue && continues_for(
            next,
            (calls - 1) as nat,
        )
}

/// Every iteration of `looper` reports `Continue`.
pub open spec fn never_stops<T: MainLoop>(looper: T) -> bool {
    forall|calls: nat| continues_for(looper, calls)
}

/// A looper that reports `Terminate` on iteration `n` and not before stops
/// within `n` iterations, so it halts.
pub proof fn lemma_stops_on_call_halts<T: MainLoop>(looper: T, n: nat)
    requires
        stops_on_call(looper, n),
    ensures
        stops_within(looper, n),
        halts(looper),
    decreases n,
{
    assert forall|next: T, event: MainLoopEvent| #[trigger]
        looper.allows(next, event) implies event is Terminate || stops_within(
        next,
        (n - 1) as nat,
    ) by {
        if n > 1 {
            lemma_stops_on_call_halts(next, (n - 1) as nat);
        }
    }
    assert(stops_within(looper, n));
}

} // verus!
