//! What follows, for every driver, from the contracts of its operations.
//!
//! Each theorem speaks of a driver that satisfies `wf`, which is what `new`
//! establishes and `iterate` and `drive` preserve: so each holds of every
//! driver that a program can hold.
use crate::driver::{runs_to_stop, Driver};
use crate::event::MainLoopEvent;
use crate::stepper::{continues_for, never_stops, stops_on_call, stops_within, MainLoop};
use vstd::prelude::*;

verus! {

/// Where the looper that was handed over reports `Terminate` on iteration
/// `n` and not before, then after `i` dispatched iterations `n - i` more are
/// due, and the driver is stopped once `i` has reached `n`.
proof fn lemma_calls_due_along_trail<T: MainLoop>(driver: Driver<T>, n: nat, i: nat)
    requires
        driver.wf(),
        stops_on_call(driver.origin(), n),
        i <= driver.dispatched(),
    ensures
        i <= n,
        i < n ==> stops_on_call(driver.trail()[i as int], (n - i) as nat),
        i == n ==> driver.stopped() && i == driver.dispatched(),
    decreases i,
{
    if i > 0 {
        lemma_calls_due_along_trail(driver, n, (i - 1) as nat);
        assert(driver.dispatch_ok(i - 1));
    }
}

/// A driver whose looper reports `Continue` on its first `n - 1` iterations
/// and `Terminate` on iteration `n` never dispatches more than `n`
/// iterations, and its quit flag is raised exactly when it has dispatched
/// all `n`: lowered after each of the first `n - 1`, raised after the last.
pub proof fn theorem_stops_on_the_terminating_call<T: MainLoop>(driver: Driver<T>, n: nat)
    requires
        driver.wf(),
        stops_on_call(driver.origin(), n),
    ensures
        driver.dispatched() <= n,
        driver.stopped() <==> driver.dispatched() == n,
        !driver.stopped() ==> stops_on_call(
            driver.looper(),
            (n - driver.dispatched()) as nat,
        ),
{
    let done = driver.dispatched();
    lemma_calls_due_along_trail(driver, n, done);
    if driver.stopped() && done < n {
        lemma_calls_due_along_trail(driver, n, (done - 1) as nat);
        assert(driver.dispatch_ok(done - 1));
    }
}

/// Where the looper that was handed over stops within `n` iterations, what
/// `i` dispatched iterations left of it stops within `n - i` more, as long as
/// none of them has stopped the driver.
proof fn lemma_bound_along_trail<T: MainLoop>(driver: Driver<T>, n: nat, i: nat)
    requires
        driver.wf(),
        stops_within(driver.origin(), n),
        i <= driver.dispatched(),
        i < driver.dispatched() || !driver.stopped(),
    ensures
        i < n,
        stops_within(driver.trail()[i as int], (n - i) as nat),
    decreases i,
{
    if i > 0 {
        lemma_bound_along_trail(driver, n, (i - 1) as nat);
        assert(driver.dispatch_ok(i - 1));
        assert(stops_within(driver.trail()[i as int], (n - i) as nat));
    }
}

/// A driver whose looper stops within `n` iterations never dispatches more
/// than `n`, and fewer than `n` as long as it is running.
pub proof fn theorem_dispatches_within_the_bound<T: MainLoop>(driver: Driver<T>, n: nat)
    requires
        driver.wf(),
        stops_within(driver.origin(), n),
    ensures
        driver.dispatched() <= n,
        !driver.stopped() ==> driver.dispatched() < n && stops_within(
            driver.looper(),
            (n - driver.dispatched()) as nat,
        ),
{
    let done = driver.dispatched();
    if driver.stopped() {
        lemma_bound_along_trail(driver, n, (done - 1) as nat);
    } else {
        lemma_bound_along_trail(driver, n, done);
    }
}

/// A looper that never stops allows only iterations that report `Continue`
/// and leave a looper that never stops either.
proof fn lemma_never_stops_is_kept<T: MainLoop>(looper: T, next: T, event: MainLoopEvent)
    requires
        never_stops(looper),
        looper.allows(next, event),
    ensures
        event is Continue,
        never_stops(next),
{
    assert(continues_for(looper, 1));
    assert forall|calls: nat| continues_for(next, calls) by {
        assert(continues_for(looper, calls + 1));
    }
}

/// Where the looper that was handed over never stops, what every dispatched
/// iteration left never stops either.
proof fn lemma_never_stops_along_trail<T: MainLoop>(driver: Driver<T>, i: nat)
    requires
        driver.wf(),
        never_stops(driver.origin()),
        i <= driver.dispatched(),
    ensures
        never_stops(driver.trail()[i as int]),
    decreases i,
{
    if i > 0 {
        lemma_never_stops_along_trail(driver, (i - 1) as nat);
        assert(driver.dispatch_ok(i - 1));
        lemma_never_stops_is_kept(
            driver.trail()[i - 1],
            driver.trail()[i as int],
            driver.event_of(i - 1),
        );
    }
}

/// A driver whose looper reports `Continue` on every iteration is never
/// stopped, however many iterations it has dispatched: the loop around it
/// finds the quit flag lowered after each one and goes on.
pub proof fn theorem_never_stops_while_continuing<T: MainLoop>(driver: Driver<T>)
    requires
        driver.wf(),
        never_stops(driver.origin()),
    ensures
        !driver.stopped(),
        never_stops(driver.looper()),
{
    let done = driver.dispatched();
    lemma_never_stops_along_trail(driver, done);
    if driver.stopped() {
        lemma_never_stops_along_trail(driver, (done - 1) as nat);
        assert(driver.dispatch_ok(done - 1));
        lemma_never_stops_is_kept(
            driver.trail()[done - 1],
            driver.trail()[done as int],
            driver.event_of(done - 1),
        );
    }
}

/// No run of a looper that reports `Continue` on every iteration comes to a
/// stop: `run` does not return from it.
pub proof fn theorem_endless_looper_is_driven_forever<T: MainLoop>(looper: T)
    requires
        never_stops(looper),
    ensures
        !runs_to_stop(looper),
{
    if runs_to_stop(looper) {
        let last = choose|last: Driver<T>| last.wf() && last.origin() == looper && last.stopped();
        theorem_never_stops_while_continuing(last);
    }
}

/// A driver that was just made holds the looper it was given and nothing
/// else: it is running and has dispatched nothing, whatever any other
/// driver has done before.
pub proof fn theorem_new_driver_starts_afresh<T: MainLoop>(driver: Driver<T>, looper: T)
    requires
        driver.is_fresh(looper),
    ensures
        driver.wf(),
        driver.origin() == looper,
        driver.looper() == looper,
        driver.dispatched() == 0,
        !driver.stopped(),
{
}

/// Iterations are dispatched in order and without a gap: where every
/// iteration raises the number that `number` reads off the looper by one,
/// the entries of the trail carry consecutive numbers, and the driver's
/// looper carries the first of them plus the count of dispatched iterations.
pub proof fn theorem_calls_are_consecutive<T: MainLoop>(
    driver: Driver<T>,
    number: spec_fn(T) -> int,
)
    requires
        driver.wf(),
        forall|looper: T, next: T, event: MainLoopEvent| #[trigger]
            looper.allows(next, event) ==> number(next) == number(looper) + 1,
    ensures
        forall|i: int|
            0 <= i <= driver.dispatched() ==> #[trigger] number(driver.trail()[i]) == number(
                driver.origin(),
            ) + i,
        number(driver.looper()) == number(driver.origin()) + driver.dispatched(),
{
    assert forall|i: int| 0 <= i <= driver.dispatched() implies #[trigger] number(
        driver.trail()[i],
    ) == number(driver.origin()) + i by {
        lemma_numbers_along_trail(driver, number, i as nat);
    }
}

/// The step of the induction for [`theorem_calls_are_consecutive`].
proof fn lemma_numbers_along_trail<T: MainLoop>(
    driver: Driver<T>,
    number: spec_fn(T) -> int,
    i: nat,
)
    requires
        driver.wf(),
        forall|looper: T, next: T, event: MainLoopEvent| #[trigger]
            looper.allows(next, event) ==> number(next) == number(looper) + 1,
        i <= driver.dispatched(),
    ensures
        number(driver.trail()[i as int]) == number(driver.origin()) + i,
    decreases i,
{
    if i > 0 {
        lemma_numbers_along_trail(driver, number, (i - 1) as nat);
        assert(driver.dispatch_ok(i - 1));
    }
}

/// Once an iteration has reported `Terminate`, no other is dispatched: a
/// turn of a stopped driver leaves the driver, and with it the looper, as it
/// was, and reports `Terminate` again.
pub proof fn theorem_stopped_driver_dispatches_nothing<T: MainLoop>(
    driver: Driver<T>,
    next: Driver<T>,
    event: MainLoopEvent,
)
    requires
        driver.wf(),
        driver.stopped(),
        driver.iterates_to(next, event),
    ensures
        event is Terminate,
        next == driver,
        next.stopped(),
        next.looper() == driver.looper(),
        next.dispatched() == driver.dispatched(),
{
}

} // verus!
