//! What every sequencer offers: claiming a range of sequences, publishing
//! it, and wiring consumers to the cursors they depend on.

use crate::barrier::SequenceBarrier;
use crate::sequence::Sequence;
use std::sync::Arc;
use vstd::prelude::*;

verus! {

/// A run of sequences, from `first` to `last`, that a producer has claimed
/// and not yet published. Only a sequencer makes one, and publishing uses
/// it up.
pub struct ClaimedRange {
    start: i64,
    end: i64,
}

impl ClaimedRange {
    #[verifier::type_invariant]
    spec fn ordered(&self) -> bool {
        self.start <= self.end
    }

    /// The first sequence of the range.
    pub closed spec fn first(&self) -> i64 {
        self.start
    }

    /// The last sequence of the range.
    pub closed spec fn last(&self) -> i64 {
        self.end
    }

    /// How many sequences the range holds.
    pub open spec fn count(&self) -> int {
        self.last() - self.first() + 1
    }

    /// The range from `start` to `end`.
    pub(crate) fn new(start: i64, end: i64) -> (range: Self)
        requires
            start <= end,
        ensures
            range.first() == start,
            range.last() == end,
    {
        ClaimedRange { start, end }
    }

    /// The first sequence of the range.
    pub fn start(&self) -> (sequence: i64)
        ensures
            sequence == self.first(),
            self.first() <= self.last(),
    {
        proof {
            use_type_invariant(self);
        }
        self.start
    }

    /// The last sequence of the range.
    pub fn end(&self) -> (sequence: i64)
        ensures
            sequence == self.last(),
            self.first() <= self.last(),
    {
        proof {
            use_type_invariant(self);
        }
        self.end
    }
}

/// A claim that ends at `end` does not wrap over unread slots: counted from
/// the slowest gating cursor `gate`, it stays within one lap of the ring.
pub open spec fn claim_fits(end: int, gate: int, capacity: int) -> bool {
    end - gate <= capacity
}

/// Says whether a claim that ends at `end` fits, with the slowest gating
/// cursor seen at `gate`.
pub fn fits(end: i64, gate: i64, capacity: usize) -> (yes: bool)
    ensures
        yes == claim_fits(end as int, gate as int, capacity as int),
{
    (end as i128) - (gate as i128) <= capacity as i128
}

/// A producer may stop: the barriers were alerted already, or the slowest
/// gating cursor, seen at `gate`, has come up to the last claimed sequence.
pub open spec fn drain_verdict(alerted: bool, gate: int, last_claimed: int) -> bool {
    alerted || gate >= last_claimed
}

/// A round of shutting down that has read the alert flag as `alerted` and
/// the gating cursors as `seen`, with `gate` the lowest value read, and
/// that knows `last_claimed` as the last sequence claimed, ends in `done`.
pub open spec fn is_drain_round(
    done: bool,
    alerted: bool,
    seen: Seq<i64>,
    gate: i64,
    last_claimed: int,
) -> bool {
    crate::sequence::is_lowest(seen, gate) && done == drain_verdict(
        alerted,
        gate as int,
        last_claimed,
    )
}

/// The range from `first` to `last` is the claim of `count` sequences
/// behind the high watermark `high_watermark`, and fits the ring on a
/// reading of the gating cursors with `gate` as the lowest value.
pub open spec fn is_claim_behind(
    first: i64,
    last: i64,
    high_watermark: i64,
    count: int,
    gate: i64,
    capacity: int,
) -> bool {
    &&& first == high_watermark + 1
    &&& last == high_watermark + count
    &&& claim_fits(last as int, gate as int, capacity)
}

/// Says whether a producer may stop, from what it has read.
pub fn drained(alerted: bool, gate: i64, last_claimed: i64) -> (yes: bool)
    ensures
        yes == drain_verdict(alerted, gate as int, last_claimed as int),
{
    alerted || gate >= last_claimed
}

/// Coordinates the claiming of sequences by producers with the progress of
/// the consumers that gate them.
pub trait Sequencer {
    /// The barriers that this sequencer hands out.
    type Barrier: SequenceBarrier + 'static;

    /// Number of slots of the ring that the sequences address. An
    /// implementation says here what it is.
    open spec fn buffer_size(&self) -> int {
        arbitrary()
    }

    /// The cursors of the last consumers, which hold the producer back. An
    /// implementation says here what they are.
    open spec fn gating(&self) -> Seq<Arc<Sequence>> {
        arbitrary()
    }

    /// The producer cursor, which the first consumers read. An
    /// implementation says here what it is.
    open spec fn cursor(&self) -> Arc<Sequence> {
        arbitrary()
    }

    /// The sequence at which the next claim starts, where this sequencer
    /// alone decides it; `None` where several producers share the
    /// position. An implementation says here what it is.
    open spec fn position(&self) -> Option<i64> {
        arbitrary()
    }

    /// Whether a claim of `count` sequences is sure to be made, whatever
    /// the consumers are read at. An implementation says here when.
    open spec fn owed(&self, count: usize) -> bool {
        arbitrary()
    }

    /// Number of slots of the ring that the sequences address.
    fn capacity(&self) -> (size: usize)
        ensures
            size == self.buffer_size(),
    ;

    /// Claims the next `count` sequences where the ring has room for them
    /// now. On `None` nothing was claimed. A claim that is owed is made.
    /// Where the sequencer alone decides the position, the claim starts
    /// there and the position moves behind it.
    fn try_next(&mut self, count: usize) -> (claim: Option<ClaimedRange>)
        requires
            1 <= count <= old(self).buffer_size(),
        ensures
            claim matches Some(range) ==> range.count() == count,
            old(self).owed(count) ==> claim is Some,
            old(self).position() is Some && claim is Some ==> claim->0.first() == old(
                self).position()->0 && final(self).position() == Some((claim->0.last() + 1) as i64),
            claim is None ==> final(self).position() == old(self).position(),
            old(self).position() is None ==> final(self).position() is None,
            final(self).buffer_size() == old(self).buffer_size(),
            final(self).gating() == old(self).gating(),
            final(self).cursor() == old(self).cursor(),
    ;

    /// Makes a claimed range visible to the consumers and wakes them.
    ///
    /// Returns the sequence that it set out to move the producer cursor
    /// to, and `None` where it found nothing to move the cursor over: a
    /// sequence before the range is not published yet, or another
    /// producer has moved the cursor over the range already. Where the
    /// sequencer alone decides the position, the cursor goes to the last
    /// sequence of the range.
    fn publish(&self, range: ClaimedRange) -> (moved: Option<i64>)
        ensures
            self.position() is Some ==> moved == Some(range.last()),
    ;

    /// A barrier for a consumer that depends on `gating_sequences`. What
    /// the sequencer claims stays as it is.
    fn create_barrier(&mut self, gating_sequences: &[Arc<Sequence>]) -> (barrier: Self::Barrier)
        ensures
            barrier.upstream() == gating_sequences@,
            final(self).buffer_size() == old(self).buffer_size(),
            final(self).gating() == old(self).gating(),
            final(self).cursor() == old(self).cursor(),
            final(self).position() == old(self).position(),
            forall|count: usize| #[trigger] final(self).owed(count) == old(self).owed(count),
    ;

    /// Registers the cursor of a last consumer: claims wait for it. What
    /// is settled of the claims without a reading stays as it is.
    fn add_gating_sequence(&mut self, gating_sequence: &Arc<Sequence>)
        ensures
            final(self).buffer_size() == old(self).buffer_size(),
            final(self).gating() == old(self).gating().push(*gating_sequence),
            final(self).cursor() == old(self).cursor(),
            final(self).position() == old(self).position(),
            forall|count: usize| #[trigger] final(self).owed(count) == old(self).owed(count),
    ;

    /// The producer cursor.
    fn get_cursor(&self) -> (cursor: Arc<Sequence>)
        ensures
            cursor == self.cursor(),
    ;

    /// One round of shutting down: where the gating cursors have come up
    /// to all that was claimed, or the barriers were alerted already,
    /// alerts the barriers and returns `true`. Wakes the waiting in any
    /// case.
    ///
    /// The result is the verdict on one reading of the alert flag and of
    /// the gating cursors. Where the sequencer alone decides the position,
    /// the last sequence claimed is the one before it.
    fn try_drain(&self) -> (done: bool)
        ensures
            exists|alerted: bool, seen: Seq<i64>, gate: i64, last_claimed: int|
                seen.len() == self.gating().len() && (self.position() is Some ==> last_claimed
                    == self.position()->0 - 1) && #[trigger] is_drain_round(
                    done,
                    alerted,
                    seen,
                    gate,
                    last_claimed,
                ),
    ;
}

/// The sequencer `after` claims as `before` did: for the same ring and
/// the same producer cursor, from the same position, and it owes the same
/// claims.
pub open spec fn same_claims<S: Sequencer>(before: S, after: S) -> bool {
    &&& after.buffer_size() == before.buffer_size()
    &&& after.cursor() == before.cursor()
    &&& after.position() == before.position()
    &&& forall|count: usize| #[trigger] after.owed(count) == before.owed(count)
}

} // verus!
