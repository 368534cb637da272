//! What stands in front of a consumer: the cursors it has to wait for, the
//! strategy it waits by, and the flag that ends the wait for good.

use crate::sequence::Sequence;
use crate::strategy::WaitOutcome;
use crate::strategy::WaitStrategy;
use std::sync::atomic::AtomicBool;
use std::sync::atomic::Ordering;
use std::sync::Arc;
use vstd::prelude::*;

verus! {

/// The flag by which a sequencer ends the waiting on all of its barriers.
/// Once raised it stays raised.
///
/// The flag is shared between threads: what `is_raised` returns is tied to
/// no earlier call by a contract.
pub struct AlertFlag {
    raised: AtomicBool,
}

impl AlertFlag {
    /// A flag that is not raised.
    pub fn new() -> Self {
        AlertFlag { raised: AtomicBool::new(false) }
    }

    /// Whether the flag was raised when it was read.
    pub fn is_raised(&self) -> bool {
        self.raised.load(Ordering::Relaxed)
    }

    /// Raises the flag.
    pub fn raise(&self) {
        self.raised.store(true, Ordering::SeqCst);
    }
}

/// Coordination barrier between a consumer and what it depends on: the
/// producer cursor, or the cursors of earlier consumers.
pub trait SequenceBarrier: Send + Sync {
    /// The cursors that the barrier waits for. An implementation says
    /// here what they are.
    open spec fn upstream(&self) -> Seq<Arc<Sequence>> {
        arbitrary()
    }

    /// One round of waiting for `sequence` to be free for consumption.
    /// `Ready` carries a sequence at or beyond the one asked for: the
    /// lowest value of one reading of the cursors waited for. `Pending`
    /// is reported on a reading that has not come to `sequence`.
    fn wait_once(&self, sequence: i64) -> (outcome: WaitOutcome)
        ensures
            exists|seen: Seq<i64>, available: i64|
                seen.len() == self.upstream().len() && #[trigger] crate::strategy::is_wait_round(
                    outcome,
                    sequence,
                    seen,
                    available,
                ),
    ;

    /// Wakes the consumers that wait by the same strategy.
    fn signal(&self);

    /// Ends every wait on this barrier, now and later.
    fn alert(&self);
}

/// The barrier that a sequencer hands out: it waits on the given cursors by
/// the sequencer's wait strategy.
pub struct ProcessingSequenceBarrier<W: WaitStrategy> {
    gating_sequences: Vec<Arc<Sequence>>,
    wait_strategy: Arc<W>,
    is_alerted: Arc<AlertFlag>,
}

impl<W: WaitStrategy> ProcessingSequenceBarrier<W> {
    /// The cursors that this barrier waits for.
    pub closed spec fn dependencies(&self) -> Seq<Arc<Sequence>> {
        self.gating_sequences@
    }

    /// The strategy that this barrier waits by.
    pub closed spec fn strategy(&self) -> Arc<W> {
        self.wait_strategy
    }

    /// The flag that ends the waiting.
    pub closed spec fn alert_flag(&self) -> Arc<AlertFlag> {
        self.is_alerted
    }

    /// A barrier that waits on `gating_sequences` by `wait_strategy`
    /// until `is_alerted` is raised.
    pub fn new(
        wait_strategy: Arc<W>,
        gating_sequences: Vec<Arc<Sequence>>,
        is_alerted: Arc<AlertFlag>,
    ) -> (barrier: Self)
        ensures
            barrier.dependencies() == gating_sequences@,
            barrier.strategy() == wait_strategy,
            barrier.alert_flag() == is_alerted,
    {
        ProcessingSequenceBarrier { wait_strategy, gating_sequences, is_alerted }
    }
}

impl<W: WaitStrategy> SequenceBarrier for ProcessingSequenceBarrier<W> {
    open spec fn upstream(&self) -> Seq<Arc<Sequence>> {
        self.dependencies()
    }

    /// A round of the wait strategy on the upstream cursors.
    fn wait_once(&self, sequence: i64) -> (outcome: WaitOutcome) {
        let check_alert = || -> (alerted: bool) { self.is_alerted.is_raised() };
        self.wait_strategy.wait_once(sequence, self.gating_sequences.as_slice(), check_alert)
    }

    fn signal(&self) {
        self.wait_strategy.signal();
    }

    /// Raises the flag, which is never lowered again, and wakes the waiting.
    fn alert(&self) {
        self.is_alerted.raise();
        self.wait_strategy.signal();
    }
}

} // verus!
