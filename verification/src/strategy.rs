//! How a consumer waits for its upstream cursors: by spinning, or parked on
//! a condition variable.
//!
//! A strategy waits one round at a time. A round either settles the wait
//! (the target is reached, or the barrier was alerted) or reports that it is
//! still pending; the caller decides whether to go for another round.

use crate::sequence::min_cursor_sequence;
use crate::sequence::Sequence;
use std::sync::Arc;
use std::sync::Condvar;
use std::sync::Mutex;
use std::sync::MutexGuard;
use vstd::prelude::*;

verus! {

/// How one round of waiting ended.
#[derive(Clone, Copy, Debug, PartialEq, Eq, Structural)]
pub enum WaitOutcome {
    /// Every upstream cursor was seen at the target or beyond; the value is
    /// the lowest one seen, which may lie beyond the target.
    Ready(i64),
    /// The barrier was alerted: the wait is over for good.
    Alerted,
    /// Neither yet.
    Pending,
}

/// The outcome of a round that looks at the cursors first: a reached target
/// wins over an alert.
pub open spec fn spin_verdict(target: i64, available: i64, alerted: bool) -> WaitOutcome {
    if available >= target {
        WaitOutcome::Ready(available)
    } else if alerted {
        WaitOutcome::Alerted
    } else {
        WaitOutcome::Pending
    }
}

/// The outcome of a round that looks at the alert first: an alert wins over
/// a reached target.
pub open spec fn blocking_verdict(target: i64, available: i64, alerted: bool) -> WaitOutcome {
    if alerted {
        WaitOutcome::Alerted
    } else if available >= target {
        WaitOutcome::Ready(available)
    } else {
        WaitOutcome::Pending
    }
}

/// A round of waiting for `target` that has read the cursors as `seen`,
/// with `available` the lowest value read, may end in `outcome`: `Ready`
/// carries `available`, which has reached the target; `Pending` is only
/// reported where it has not. An alert ends the round whatever was read.
pub open spec fn is_wait_round(
    outcome: WaitOutcome,
    target: i64,
    seen: Seq<i64>,
    available: i64,
) -> bool {
    &&& crate::sequence::is_lowest(seen, available)
    &&& match outcome {
        WaitOutcome::Ready(reached) => reached == available && available >= target,
        WaitOutcome::Alerted => true,
        WaitOutcome::Pending => available < target,
    }
}

impl WaitOutcome {
    /// Settles a round of the spinning strategy from what it has read.
    pub fn of_spin(target: i64, available: i64, alerted: bool) -> (outcome: WaitOutcome)
        ensures
            outcome == spin_verdict(target, available, alerted),
    {
        if available >= target {
            WaitOutcome::Ready(available)
        } else if alerted {
            WaitOutcome::Alerted
        } else {
            WaitOutcome::Pending
        }
    }

    /// Settles a round of the blocking strategy from what it has read.
    pub fn of_blocking(target: i64, available: i64, alerted: bool) -> (outcome: WaitOutcome)
        ensures
            outcome == blocking_verdict(target, available, alerted),
    {
        if alerted {
            WaitOutcome::Alerted
        } else if available >= target {
            WaitOutcome::Ready(available)
        } else {
            WaitOutcome::Pending
        }
    }
}

/// Strategy by which a consumer waits on the cursors it depends on, and
/// by which those who move a cursor wake the waiting.
pub trait WaitStrategy: Send + Sync + 'static {
    /// A strategy that nobody waits by yet.
    fn new() -> Self where Self: Sized;

    /// One round of waiting for `sequence` on `dependencies`.
    ///
    /// `Ready` carries the lowest value of one reading of the cursors, and
    /// that value has reached `sequence`. `Pending` is reported on a
    /// reading that has not reached `sequence`. `Alerted` and `Pending`
    /// are only reported on an answer of `check_alert`.
    fn wait_once<F: Fn() -> bool>(
        &self,
        sequence: i64,
        dependencies: &[Arc<Sequence>],
        check_alert: F,
    ) -> (outcome: WaitOutcome)
        requires
            call_requires(check_alert, ()),
        ensures
            exists|seen: Seq<i64>, available: i64|
                seen.len() == dependencies@.len() && #[trigger] is_wait_round(
                    outcome,
                    sequence,
                    seen,
                    available,
                ),
            outcome is Alerted ==> call_ensures(check_alert, (), true),
            outcome is Pending ==> call_ensures(check_alert, (), false),
    ;

    /// Wakes every consumer that is parked in a round of waiting.
    fn signal(&self);
}

/// Busy spin strategy: a round reads the cursors and returns at once.
///
/// It burns a core and makes no system call; it suits threads that are
/// bound to cores of their own.
pub struct BusySpinWaitStrategy;

/// The spinning strategy under its other name.
pub type SpinLoopWaitStrategy = BusySpinWaitStrategy;

impl WaitStrategy for BusySpinWaitStrategy {
    fn new() -> Self {
        BusySpinWaitStrategy {  }
    }

    /// Reads the cursors, and asks for the alert only where the target is
    /// not reached.
    fn wait_once<F: Fn() -> bool>(
        &self,
        sequence: i64,
        dependencies: &[Arc<Sequence>],
        check_alert: F,
    ) -> (outcome: WaitOutcome)
        ensures
            exists|seen: Seq<i64>, available: i64, alerted: bool|
                seen.len() == dependencies@.len() && crate::sequence::is_lowest(seen, available)
                    && outcome == spin_verdict(sequence, available, alerted),
    {
        let available: i64 = min_cursor_sequence(dependencies);
        let alerted: bool = available < sequence && check_alert();
        let ghost seen = choose|seen: Seq<i64>|
            seen.len() == dependencies@.len() && crate::sequence::is_lowest(seen, available);
        assert(seen.len() == dependencies@.len() && crate::sequence::is_lowest(seen, available));
        let outcome = WaitOutcome::of_spin(sequence, available, alerted);
        assert(is_wait_round(outcome, sequence, seen, available));
        outcome
    }

    /// Nobody is parked: nothing to do.
    fn signal(&self) {
    }
}

/// Declares `std::sync::Mutex`. A lock is carried through; nothing is
/// known of it.
#[verifier::external_type_specification]
#[verifier::external_body]
#[verifier::reject_recursive_types(T)]
pub struct ExMutex<T: ?Sized>(Mutex<T>);

/// Declares `std::sync::MutexGuard`. A guard is carried through; nothing
/// is known of it.
#[verifier::external_type_specification]
#[verifier::external_body]
#[verifier::reject_recursive_types(T)]
pub struct ExMutexGuard<'a, T: ?Sized + 'a>(MutexGuard<'a, T>);

/// Declares `std::sync::Condvar`. A condition variable is carried through;
/// nothing is known of it.
#[verifier::external_type_specification]
#[verifier::external_body]
pub struct ExCondvar(Condvar);

/// Wraps `Mutex::new`. Nothing is claimed of the lock.
#[verifier::external_body]
fn new_lock() -> Mutex<()> {
    Mutex::new(())
}

/// Wraps `Condvar::new`. Nothing is claimed of the condition variable.
#[verifier::external_body]
fn new_condvar() -> Condvar {
    Condvar::new()
}

/// Wraps `Mutex::lock`: blocks until the lock is held. A lock that a
/// panicking holder left poisoned guards no data here and is taken all the
/// same. Nothing is claimed of the guard.
#[verifier::external_body]
fn acquire<'a>(lock: &'a Mutex<()>) -> MutexGuard<'a, ()> {
    match lock.lock() {
        Ok(held) => held,
        Err(poisoned) => poisoned.into_inner(),
    }
}

/// Wraps `Condvar::wait`: gives the lock up, parks the thread until it is
/// notified (or wakes for no reason), takes the lock again and lets it go.
/// Nothing is claimed of what happened meanwhile.
#[verifier::external_body]
fn park<'a>(cvar: &Condvar, held: MutexGuard<'a, ()>) {
    match cvar.wait(held) {
        Ok(held) => drop(held),
        Err(poisoned) => drop(poisoned.into_inner()),
    }
}

/// Wraps `Condvar::notify_all`: wakes every thread parked on the condition
/// variable.
#[verifier::external_body]
fn wake_all(cvar: &Condvar) {
    cvar.notify_all();
}

/// Blocking strategy: a round that finds the target not reached parks the
/// thread on a condition variable until somebody signals.
///
/// The lock is held only around the check and the parking, never while
/// events are handled. `check_alert` runs under the lock and must not call
/// `signal` of the same strategy.
pub struct BlockingWaitStrategy {
    guard: Mutex<()>,
    cvar: Condvar,
}

impl WaitStrategy for BlockingWaitStrategy {
    fn new() -> Self {
        BlockingWaitStrategy { cvar: new_condvar(), guard: new_lock() }
    }

    /// Takes the lock and asks for the alert; where there is none, reads the
    /// cursors, and parks where the target is not reached. So `Ready` and
    /// `Pending` are only reported after `check_alert` has answered no.
    fn wait_once<F: Fn() -> bool>(
        &self,
        sequence: i64,
        dependencies: &[Arc<Sequence>],
        check_alert: F,
    ) -> (outcome: WaitOutcome)
        ensures
            outcome is Alerted || exists|seen: Seq<i64>, available: i64|
                seen.len() == dependencies@.len() && crate::sequence::is_lowest(seen, available)
                    && outcome == blocking_verdict(sequence, available, false),
            outcome is Ready ==> call_ensures(check_alert, (), false),
    {
        let blocked = acquire(&self.guard);
        if check_alert() {
            proof {
                let unread = crate::sequence::lemma_some_reading(dependencies@.len());
                assert(is_wait_round(WaitOutcome::Alerted, sequence, unread, 0));
            }
            return WaitOutcome::Alerted;
        }
        let available: i64 = min_cursor_sequence(dependencies);
        let ghost seen = choose|seen: Seq<i64>|
            seen.len() == dependencies@.len() && crate::sequence::is_lowest(seen, available);
        assert(seen.len() == dependencies@.len() && crate::sequence::is_lowest(seen, available));
        let outcome = WaitOutcome::of_blocking(sequence, available, false);
        assert(is_wait_round(outcome, sequence, seen, available));
        if let WaitOutcome::Pending = outcome {
            park(&self.cvar, blocked);
        }
        outcome
    }

    /// Takes the lock for a moment and wakes all that are parked.
    fn signal(&self) {
        let _guard = acquire(&self.guard);
        wake_all(&self.cvar);
    }
}

} // verus!
