//! The two sequencers, for one producer and for many, and the producer
//! that writes through them.

use crate::barrier::AlertFlag;
use crate::barrier::ProcessingSequenceBarrier;
use crate::bitmap::BitMap;
use crate::ringbuffer::DataProvider;
use crate::sequence::min_cursor_sequence;
use crate::sequence::share;
use crate::sequence::share_all;
use crate::sequence::Sequence;
use crate::sequence::SequenceGuard;
use crate::sequencer::drained;
use crate::sequencer::fits;
use crate::sequencer::ClaimedRange;
use crate::sequencer::Sequencer;
use crate::strategy::WaitStrategy;
use std::marker::PhantomData;
use std::sync::Arc;
use vstd::prelude::*;

verus! {

/// The last sequence of a claim of `count` sequences that starts at `next`.
pub open spec fn claim_end(next: int, count: int) -> int {
    next + count - 1
}

/// The position of a single producer: where its next claim starts, and
/// the lowest gating cursor as it last read it.
pub struct ClaimCounter {
    next_write_sequence: i64,
    cached_available_sequence: i64,
    buffer_size: usize,
}

impl ClaimCounter {
    #[verifier::type_invariant]
    spec fn well_formed(&self) -> bool {
        &&& 1 <= self.buffer_size
        &&& self.buffer_size - 1 <= i64::MAX
        &&& 0 <= self.next_write_sequence
    }

    /// The sequence that the next claim starts at.
    pub closed spec fn next_write(&self) -> i64 {
        self.next_write_sequence
    }

    /// The lowest gating cursor as it was last read.
    pub closed spec fn cached_gate(&self) -> i64 {
        self.cached_available_sequence
    }

    /// Number of slots of the ring.
    pub closed spec fn capacity(&self) -> int {
        self.buffer_size as int
    }

    /// The position before the first claim: the next claim starts at `0`,
    /// and no consumer has been read yet.
    pub fn new(buffer_size: usize) -> (counter: Self)
        requires
            1 <= buffer_size,
            buffer_size - 1 <= i64::MAX,
        ensures
            counter.capacity() == buffer_size,
            counter.next_write() == 0,
            counter.cached_gate() == crate::sequence::INITIAL_CURSOR,
    {
        ClaimCounter {
            next_write_sequence: 0,
            cached_available_sequence: crate::sequence::INITIAL_CURSOR,
            buffer_size,
        }
    }

    /// Number of slots of the ring.
    pub fn size(&self) -> (size: usize)
        ensures
            size == self.capacity(),
            1 <= size,
    {
        proof {
            use_type_invariant(self);
        }
        self.buffer_size
    }

    /// The last sequence claimed so far, `-1` before the first claim.
    pub fn last_claimed(&self) -> (last: i64)
        ensures
            last == self.next_write() - 1,
            last >= -1,
    {
        proof {
            use_type_invariant(self);
        }
        self.next_write_sequence - 1
    }

    /// The lowest gating cursor as it was last read.
    pub fn gate(&self) -> (gate: i64)
        ensures
            gate == self.cached_gate(),
    {
        self.cached_available_sequence
    }

    /// Whether a claim of `count` sequences fits by the cached reading of
    /// the gating cursors.
    pub fn fits_cached(&self, count: usize) -> (yes: bool)
        requires
            1 <= count <= self.capacity(),
        ensures
            yes == crate::sequencer::claim_fits(
                claim_end(self.next_write() as int, count as int),
                self.cached_gate() as int,
                self.capacity(),
            ),
    {
        proof {
            use_type_invariant(self);
        }
        (self.next_write_sequence as i128) + (count as i128) - 1 - (
        self.cached_available_sequence as i128) <= self.buffer_size as i128
    }

    /// Claims the next `count` sequences against one reading `gate` of the
    /// gating cursors. The reading is kept as the cached gate. The claim is
    /// made exactly where it fits the ring and the sequences are not used
    /// up; it starts where the claim before it ended.
    pub fn claim_at(&mut self, count: usize, gate: i64) -> (claim: Option<ClaimedRange>)
        requires
            1 <= count <= old(self).capacity(),
        ensures
            final(self).cached_gate() == gate,
            final(self).capacity() == old(self).capacity(),
            claim is Some <==> claim_end(old(self).next_write() as int, count as int) < i64::MAX
                && crate::sequencer::claim_fits(
                claim_end(old(self).next_write() as int, count as int),
                gate as int,
                old(self).capacity(),
            ),
            claim matches Some(range) ==> range.first() == old(self).next_write() && range.last()
                == claim_end(old(self).next_write() as int, count as int) && final(
                self).next_write() == range.last() + 1,
            claim is None ==> final(self).next_write() == old(self).next_write(),
    {
        proof {
            use_type_invariant(&*self);
        }
        self.cached_available_sequence = gate;
        let next: i64 = self.next_write_sequence;
        let span: i64 = (count - 1) as i64;
        if next >= i64::MAX - span {
            return None;
        }
        let end: i64 = next + span;
        if fits(end, gate, self.buffer_size) {
            self.next_write_sequence = end + 1;
            Some(ClaimedRange::new(next, end))
        } else {
            None
        }
    }
}

/// Sequencer for exactly one producer. The position of the next claim and
/// the last reading of the gating cursors are plain fields of the one
/// producer: a claim needs no compare-and-set, and reads the gating cursors
/// only where the cached reading leaves no room.
pub struct SingleProducerSequencer<W: WaitStrategy> {
    cursor: Arc<Sequence>,
    position: ClaimCounter,
    wait_strategy: Arc<W>,
    gating_sequences: Vec<Arc<Sequence>>,
    is_done: Arc<AlertFlag>,
}

impl<W: WaitStrategy> SingleProducerSequencer<W> {
    /// The sequence that the next claim starts at: every claim starts
    /// where the claim before it ended, the first one at `0`.
    pub closed spec fn next_write(&self) -> i64 {
        self.position.next_write()
    }

    /// The lowest gating cursor as it was last read.
    pub closed spec fn cached_gate(&self) -> i64 {
        self.position.cached_gate()
    }

    /// The wait strategy shared with the barriers.
    pub closed spec fn strategy(&self) -> Arc<W> {
        self.wait_strategy
    }

    /// The flag shared with the barriers that ends their waiting.
    pub closed spec fn alert_flag(&self) -> Arc<AlertFlag> {
        self.is_done
    }

    /// A sequencer for a ring of `buffer_size` slots: nothing claimed,
    /// nothing read of the consumers, no consumer registered.
    pub fn new(buffer_size: usize, wait_strategy: W) -> (sequencer: Self)
        requires
            1 <= buffer_size,
            buffer_size - 1 <= i64::MAX,
        ensures
            sequencer.buffer_size() == buffer_size,
            sequencer.next_write() == 0,
            sequencer.cached_gate() == crate::sequence::INITIAL_CURSOR,
            sequencer.gating() == Seq::<Arc<Sequence>>::empty(),
            *sequencer.strategy() == wait_strategy,
            sequencer.cursor().started_at() == crate::sequence::INITIAL_CURSOR,
    {
        SingleProducerSequencer {
            cursor: Arc::new(Sequence::default()),
            position: ClaimCounter::new(buffer_size),
            wait_strategy: Arc::new(wait_strategy),
            gating_sequences: Vec::new(),
            is_done: Arc::new(AlertFlag::new()),
        }
    }
}

impl<W: WaitStrategy> Sequencer for SingleProducerSequencer<W> {
    type Barrier = ProcessingSequenceBarrier<W>;

    closed spec fn buffer_size(&self) -> int {
        self.position.capacity()
    }

    closed spec fn gating(&self) -> Seq<Arc<Sequence>> {
        self.gating_sequences@
    }

    closed spec fn cursor(&self) -> Arc<Sequence> {
        self.cursor
    }

    /// The one producer decides the position: the next claim starts at
    /// `next_write`.
    open spec fn position(&self) -> Option<i64> {
        Some(self.next_write())
    }

    /// A claim is owed where it fits by the cached reading of the gating
    /// cursors and does not use the sequences up.
    open spec fn owed(&self, count: usize) -> bool {
        claim_end(self.next_write() as int, count as int) < i64::MAX
            && crate::sequencer::claim_fits(
            claim_end(self.next_write() as int, count as int),
            self.cached_gate() as int,
            self.buffer_size(),
        )
    }

    fn capacity(&self) -> (size: usize) {
        self.position.size()
    }

    /// Claims at the position of the last claim's end, where the ring has
    /// room. Where the cached reading of the gating cursors leaves room,
    /// the claim is made on it and no cursor is read; else the cursors are
    /// read once, and the claim is made or refused on that reading.
    fn try_next(&mut self, count: usize) -> (claim: Option<ClaimedRange>)
        ensures
            final(self).strategy() == old(self).strategy(),
            final(self).alert_flag() == old(self).alert_flag(),
            claim matches Some(range) ==> range.first() == old(self).next_write() && range.last()
                == claim_end(old(self).next_write() as int, count as int) && final(
                self).next_write() == range.last() + 1 && crate::sequencer::claim_fits(
                range.last() as int,
                final(self).cached_gate() as int,
                old(self).buffer_size(),
            ),
            claim is None ==> final(self).next_write() == old(self).next_write() && (claim_end(
                old(self).next_write() as int,
                count as int,
            ) >= i64::MAX || !crate::sequencer::claim_fits(
                claim_end(old(self).next_write() as int, count as int),
                final(self).cached_gate() as int,
                old(self).buffer_size(),
            )),
            claim_end(old(self).next_write() as int, count as int) < i64::MAX
                && crate::sequencer::claim_fits(
                claim_end(old(self).next_write() as int, count as int),
                old(self).cached_gate() as int,
                old(self).buffer_size(),
            ) ==> claim is Some && final(self).cached_gate() == old(self).cached_gate(),
            !crate::sequencer::claim_fits(
                claim_end(old(self).next_write() as int, count as int),
                old(self).cached_gate() as int,
                old(self).buffer_size(),
            ) ==> exists|seen: Seq<i64>|
                seen.len() == old(self).gating().len() && crate::sequence::is_lowest(
                    seen,
                    final(self).cached_gate(),
                ),
    {
        if self.position.fits_cached(count) {
            let gate: i64 = self.position.gate();
            self.position.claim_at(count, gate)
        } else {
            let gate: i64 = min_cursor_sequence(self.gating_sequences.as_slice());
            let ghost seen = choose|seen: Seq<i64>|
                seen.len() == self.gating().len() && crate::sequence::is_lowest(seen, gate);
            let claim = self.position.claim_at(count, gate);
            assert(seen.len() == old(self).gating().len() && crate::sequence::is_lowest(
                seen,
                self.cached_gate(),
            ));
            claim
        }
    }

    /// Stores the end of the range into the producer cursor and wakes the
    /// consumers. There is one producer, so the cursor alone names what is
    /// published.
    fn publish(&self, range: ClaimedRange) -> (moved: Option<i64>) {
        let to: i64 = range.end();
        self.cursor.set(to);
        self.wait_strategy.signal();
        Some(to)
    }

    fn create_barrier(&mut self, gating_sequences: &[Arc<Sequence>]) -> (barrier:
        ProcessingSequenceBarrier<W>)
        ensures
            barrier.dependencies() == gating_sequences@,
            barrier.strategy() == old(self).strategy(),
            barrier.alert_flag() == old(self).alert_flag(),
            final(self).next_write() == old(self).next_write(),
            final(self).cached_gate() == old(self).cached_gate(),
            final(self).strategy() == old(self).strategy(),
            final(self).alert_flag() == old(self).alert_flag(),
    {
        ProcessingSequenceBarrier::new(
            share(&self.wait_strategy),
            share_all(gating_sequences),
            share(&self.is_done),
        )
    }

    fn add_gating_sequence(&mut self, gating_sequence: &Arc<Sequence>)
        ensures
            final(self).next_write() == old(self).next_write(),
            final(self).cached_gate() == old(self).cached_gate(),
            final(self).strategy() == old(self).strategy(),
            final(self).alert_flag() == old(self).alert_flag(),
    {
        self.gating_sequences.push(share(gating_sequence));
    }

    fn get_cursor(&self) -> (cursor: Arc<Sequence>) {
        share(&self.cursor)
    }

    /// Compares one reading of the gating cursors with the last sequence
    /// claimed, unless the barriers are alerted already.
    fn try_drain(&self) -> (done: bool)
        ensures
            exists|alerted: bool, seen: Seq<i64>, gate: i64|
                seen.len() == self.gating().len() && #[trigger] crate::sequencer::is_drain_round(
                    done,
                    alerted,
                    seen,
                    gate,
                    self.next_write() - 1,
                ),
    {
        let last: i64 = self.position.last_claimed();
        if self.is_done.is_raised() {
            self.wait_strategy.signal();
            proof {
                let unread = crate::sequence::lemma_some_reading(self.gating().len());
                assert(crate::sequencer::is_drain_round(
                    true,
                    true,
                    unread,
                    0,
                    self.next_write() - 1,
                ));
            }
            return true;
        }
        let gate: i64 = min_cursor_sequence(self.gating_sequences.as_slice());
        let done: bool = drained(false, gate, last);
        proof {
            let seen = choose|seen: Seq<i64>|
                seen.len() == self.gating().len() && crate::sequence::is_lowest(seen, gate);
            assert(crate::sequencer::is_drain_round(
                done,
                false,
                seen,
                gate,
                self.next_write() - 1,
            ));
        }
        if done {
            self.is_done.raise();
        }
        self.wait_strategy.signal();
        done
    }
}

/// Of the marks read behind the cursor, in the order of the sequences, the
/// first `run` were set, and the one after them, if one was read, was not.
pub open spec fn is_published_run(marks: Seq<bool>, run: int) -> bool {
    &&& 0 <= run <= marks.len()
    &&& forall|i: int| 0 <= i < run ==> marks[i]
    &&& run < marks.len() ==> !marks[run]
}

/// How many marks a scan behind the cursor is to read at most: one for
/// every sequence between the cursor, read at `behind`, and the high
/// watermark, read at `high`, but not more than one lap of the ring.
pub open spec fn scan_limit(behind: int, high: int, capacity: int) -> int {
    if high <= behind {
        0
    } else if high - behind <= capacity {
        high - behind
    } else {
        capacity
    }
}

/// How many marks a scan behind the cursor is to read at most.
pub fn marks_to_read(behind: i64, high: i64, capacity: usize) -> (count: usize)
    ensures
        count == scan_limit(behind as int, high as int, capacity as int),
{
    if high <= behind {
        0
    } else {
        let between: i128 = (high as i128) - (behind as i128);
        if between <= capacity as i128 {
            between as usize
        } else {
            capacity
        }
    }
}

/// The length of the run of set marks at the start of `marks`: the number
/// of marks before the first that is not set.
pub fn run_length(marks: &[bool]) -> (run: usize)
    ensures
        run <= marks.len(),
        forall|i: int| 0 <= i < run ==> marks[i],
        run < marks.len() ==> !marks[run as int],
{
    let mut run: usize = 0;
    while run < marks.len() && marks[run]
        invariant
            run <= marks.len(),
            forall|i: int| 0 <= i < run ==> marks[i],
        decreases marks.len() - run,
    {
        run += 1;
    }
    run
}

/// The move that the cursor is to make, from where it was read to the end
/// of the run of published sequences behind it: from `behind` to `good`
/// where the run holds a sequence at all, and none where it does not. A
/// move goes forward, and a run of one sequence is a move.
pub fn cursor_move(behind: i64, good: i64) -> (step: Option<(i64, i64)>)
    ensures
        step == if good > behind {
            Some((behind, good))
        } else {
            None::<(i64, i64)>
        },
{
    if good > behind {
        Some((behind, good))
    } else {
        None
    }
}

/// The move that the cursor, read at `behind`, is to make on the marks
/// read behind it, `marks[0]` being the mark of `behind + 1`: to the last
/// sequence of the run of set marks that the marks start with, and none
/// where the first mark is not set or no mark was read.
pub fn move_over(behind: i64, marks: &[bool]) -> (step: Option<(i64, i64)>)
    requires
        behind + marks.len() <= i64::MAX,
    ensures
        match step {
            Some((from, to)) => from == behind && to > behind && is_published_run(
                marks@,
                to - behind,
            ),
            None => is_published_run(marks@, 0),
        },
{
    let run: usize = run_length(marks);
    let good: i64 = ((behind as i128) + (run as i128)) as i64;
    cursor_move(behind, good)
}

/// The sequences that a move of the cursor from `from` to `to` passes:
/// those behind `from`, up to `to`.
pub fn passed_by(from: i64, to: i64) -> (passed: ClaimedRange)
    requires
        from < to,
    ensures
        passed.first() == from + 1,
        passed.last() == to,
{
    ClaimedRange::new(from + 1, to)
}

/// A round of publishing that has read the cursor at `behind`, the high
/// watermark at `high` and the marks behind the cursor as `marks` sets out
/// for `moved`. It reads no more marks than [`scan_limit`] allows, and at
/// least one where that allows any. It sets out for the last sequence of
/// the run of set marks that the marks start with, and for none where the
/// first mark is not set or no mark was read.
pub open spec fn is_publish_round(
    moved: Option<i64>,
    behind: i64,
    high: i64,
    marks: Seq<bool>,
    capacity: int,
) -> bool {
    &&& marks.len() <= scan_limit(behind as int, high as int, capacity)
    &&& scan_limit(behind as int, high as int, capacity) > 0 ==> marks.len() >= 1
    &&& match moved {
        Some(to) => to > behind && is_published_run(marks, to - behind),
        None => is_published_run(marks, 0),
    }
}

/// The range that a claim of `count` sequences takes behind the high
/// watermark `high_watermark`, with the slowest gating cursor seen at
/// `gate`: the `count` sequences that follow the watermark, where they fit
/// the ring and the sequences are not used up.
pub fn claim_after(high_watermark: i64, count: usize, gate: i64, capacity: usize) -> (claim: Option<
    ClaimedRange,
>)
    requires
        1 <= count,
    ensures
        claim is Some <==> high_watermark + count <= i64::MAX && crate::sequencer::claim_fits(
            high_watermark + count,
            gate as int,
            capacity as int,
        ),
        claim matches Some(range) ==> range.first() == high_watermark + 1 && range.last()
            == high_watermark + count,
        claim is Some ==> crate::sequencer::is_claim_behind(
            claim->0.first(),
            claim->0.last(),
            high_watermark,
            count as int,
            gate,
            capacity as int,
        ),
{
    let end: i128 = (high_watermark as i128) + (count as i128);
    if end > i64::MAX as i128 {
        return None;
    }
    if end - (gate as i128) <= capacity as i128 {
        Some(ClaimedRange::new(high_watermark + 1, end as i64))
    } else {
        None
    }
}

/// After a failed compare-and-set from `current`, with the cursor then
/// seen at `seen`: the value to try from next, if there is still something
/// to do. The cursor is tried again only where it was seen further on and
/// still short of `good`, so every new attempt starts closer to `good`.
pub fn next_attempt(current: i64, seen: i64, good: i64) -> (again: Option<i64>)
    ensures
        again == if current < seen < good {
            Some(seen)
        } else {
            None::<i64>
        },
{
    if current < seen && seen < good {
        Some(seen)
    } else {
        None
    }
}

/// Sequencer for any number of producers. A claim moves the high watermark
/// by compare-and-set, so no two claims overlap; a published range is
/// marked in the bitmap, and the cursor moves over the longest run of
/// published sequences that follows it.
pub struct MultiProducerSequencer<W: WaitStrategy> {
    cursor: Arc<Sequence>,
    wait_strategy: Arc<W>,
    gating_sequences: Vec<Arc<Sequence>>,
    buffer_size: usize,
    high_watermark: Arc<Sequence>,
    ready_sequences: Arc<BitMap>,
    is_done: Arc<AlertFlag>,
}

impl<W: WaitStrategy> MultiProducerSequencer<W> {
    /// The wait strategy shared with the barriers.
    pub closed spec fn strategy(&self) -> Arc<W> {
        self.wait_strategy
    }

    /// The flag shared with the barriers that ends their waiting.
    pub closed spec fn alert_flag(&self) -> Arc<AlertFlag> {
        self.is_done
    }

    /// The counter of the last sequence claimed by any producer.
    pub closed spec fn watermark(&self) -> Arc<Sequence> {
        self.high_watermark
    }

    /// The map of the sequences published and not yet passed by the cursor.
    pub closed spec fn published(&self) -> Arc<BitMap> {
        self.ready_sequences
    }

    /// A sequencer for a ring of `buffer_size` slots: nothing claimed,
    /// nothing published, no consumer registered.
    pub fn new(buffer_size: usize, wait_strategy: W) -> (sequencer: Self)
        requires
            1 <= buffer_size,
            buffer_size - 1 <= i64::MAX,
        ensures
            sequencer.buffer_size() == buffer_size,
            sequencer.gating() == Seq::<Arc<Sequence>>::empty(),
            *sequencer.strategy() == wait_strategy,
            sequencer.published().capacity() == buffer_size,
            sequencer.cursor().started_at() == crate::sequence::INITIAL_CURSOR,
            sequencer.watermark().started_at() == crate::sequence::INITIAL_CURSOR,
    {
        MultiProducerSequencer {
            cursor: Arc::new(Sequence::default()),
            wait_strategy: Arc::new(wait_strategy),
            gating_sequences: Vec::new(),
            buffer_size,
            high_watermark: Arc::new(Sequence::default()),
            ready_sequences: Arc::new(BitMap::new(buffer_size)),
            is_done: Arc::new(AlertFlag::new()),
        }
    }

    /// Another handle on the same sequencer, for another producer.
    pub fn handle(&self) -> (other: Self)
        ensures
            other.buffer_size() == self.buffer_size(),
            other.gating() == self.gating(),
            other.cursor() == self.cursor(),
            other.strategy() == self.strategy(),
            other.alert_flag() == self.alert_flag(),
            other.watermark() == self.watermark(),
            other.published() == self.published(),
    {
        MultiProducerSequencer {
            cursor: share(&self.cursor),
            wait_strategy: share(&self.wait_strategy),
            gating_sequences: share_all(self.gating_sequences.as_slice()),
            buffer_size: self.buffer_size,
            high_watermark: share(&self.high_watermark),
            ready_sequences: share(&self.ready_sequences),
            is_done: share(&self.is_done),
        }
    }

    /// Whether `count` sequences behind `high_watermark` fit the ring, with
    /// the slowest gating cursor seen at `gate`.
    pub fn has_capacity(&self, high_watermark: i64, count: usize, gate: i64) -> (yes: bool)
        ensures
            yes == crate::sequencer::claim_fits(
                high_watermark + count,
                gate as int,
                self.buffer_size(),
            ),
    {
        (high_watermark as i128) + (count as i128) - (gate as i128) <= self.buffer_size as i128
    }

    /// Marks the sequences of `range` as published.
    fn mark(&self, range: &ClaimedRange) {
        let lo: i64 = range.start();
        let hi: i64 = range.end();
        let mut n: i64 = lo;
        while n < hi
            invariant
                lo <= n <= hi,
            decreases hi - n,
        {
            self.ready_sequences.set(n);
            n = n + 1;
        }
        self.ready_sequences.set(hi);
    }

    /// Clears the marks of the sequences of `range`.
    fn clear(&self, range: &ClaimedRange) {
        let lo: i64 = range.start();
        let hi: i64 = range.end();
        let mut n: i64 = lo;
        while n < hi
            invariant
                lo <= n <= hi,
            decreases hi - n,
        {
            self.ready_sequences.unset(n);
            n = n + 1;
        }
        self.ready_sequences.unset(hi);
    }

    /// Reads the marks of the sequences behind `behind`, in their order:
    /// at most `count` of them, and none after the first that is not set.
    /// So every mark but the last was read as set, and the last was read
    /// as not set where the reading stopped short of `count`.
    pub fn published_marks(&self, behind: i64, count: usize) -> (marks: Vec<bool>)
        requires
            behind + count <= i64::MAX,
        ensures
            marks.len() <= count,
            count > 0 ==> marks.len() >= 1,
            forall|i: int| 0 <= i < marks.len() - 1 ==> marks[i],
            marks.len() < count ==> !marks[marks.len() - 1],
    {
        let mut marks: Vec<bool> = Vec::new();
        let mut n: i64 = behind;
        while marks.len() < count
            invariant
                marks.len() <= count,
                n == behind + marks.len(),
                behind + count <= i64::MAX,
                forall|i: int| 0 <= i < marks.len() ==> marks[i],
            decreases count - marks.len(),
        {
            n = n + 1;
            let set: bool = self.ready_sequences.is_set(n);
            marks.push(set);
            if !set {
                return marks;
            }
        }
        marks
    }

    /// After a first move of the cursor from `from` to `to` has failed
    /// because another producer moved it: tries again from where the
    /// cursor is seen, as long as that is short of `to`.
    fn move_again(&self, from: i64, to: i64)
        requires
            from < to,
    {
        let mut current: i64 = from;
        loop
            invariant
                current < to,
            decreases to - current,
        {
            let seen: i64 = self.cursor.get();
            match next_attempt(current, seen, to) {
                Some(next) => {
                    current = next;
                },
                None => {
                    break ;
                },
            }
            if self.cursor.compare_exchange(current, to) {
                break ;
            }
        }
    }
}

impl<W: WaitStrategy> Sequencer for MultiProducerSequencer<W> {
    type Barrier = ProcessingSequenceBarrier<W>;

    closed spec fn buffer_size(&self) -> int {
        self.buffer_size as int
    }

    closed spec fn gating(&self) -> Seq<Arc<Sequence>> {
        self.gating_sequences@
    }

    closed spec fn cursor(&self) -> Arc<Sequence> {
        self.cursor
    }

    /// The producers share the position: none of them decides it alone.
    open spec fn position(&self) -> Option<i64> {
        None
    }

    /// No claim is owed: another producer may always come first.
    open spec fn owed(&self, count: usize) -> bool {
        false
    }

    fn capacity(&self) -> (size: usize) {
        self.buffer_size
    }

    /// Reads the high watermark and the gating cursors once. Where the
    /// claim fits on that reading, tries to move the watermark by one
    /// compare-and-set; the range behind the old watermark is claimed
    /// where that succeeds.
    fn try_next(&mut self, count: usize) -> (claim: Option<ClaimedRange>)
        ensures
            final(self).strategy() == old(self).strategy(),
            final(self).alert_flag() == old(self).alert_flag(),
            final(self).watermark() == old(self).watermark(),
            final(self).published() == old(self).published(),
            claim is Some ==> exists|high_watermark: i64, seen: Seq<i64>, gate: i64|
                seen.len() == old(self).gating().len() && #[trigger] crate::sequence::is_lowest(
                    seen,
                    gate,
                ) && #[trigger] crate::sequencer::is_claim_behind(
                    claim->0.first(),
                    claim->0.last(),
                    high_watermark,
                    count as int,
                    gate,
                    old(self).buffer_size(),
                ),
    {
        let high_watermark: i64 = self.high_watermark.get();
        let gate: i64 = min_cursor_sequence(self.gating_sequences.as_slice());
        let ghost seen = choose|seen: Seq<i64>|
            seen.len() == self.gating().len() && crate::sequence::is_lowest(seen, gate);
        let claim = match claim_after(high_watermark, count, gate, self.buffer_size) {
            Some(range) => {
                if self.high_watermark.compare_exchange(high_watermark, range.end()) {
                    Some(range)
                } else {
                    None
                }
            },
            None => None,
        };
        proof {
            if claim is Some {
                assert(seen.len() == old(self).gating().len() && crate::sequence::is_lowest(
                    seen,
                    gate,
                ) && crate::sequencer::is_claim_behind(
                    claim->0.first(),
                    claim->0.last(),
                    high_watermark,
                    count as int,
                    gate,
                    old(self).buffer_size(),
                ));
            }
        }
        claim
    }

    /// Marks the range as published. Then reads the cursor, the high
    /// watermark and the marks behind the cursor, and moves the cursor to
    /// the end of the run of published sequences behind it, if there is
    /// one, clearing the marks of that run. Wakes the consumers.
    ///
    /// Returns the sequence that it set out to move the cursor to, as
    /// [`move_over`] decides it on the marks read: forward only, and never
    /// past a mark that was not read as set. Another producer may have
    /// moved the cursor there, or beyond, in the meantime.
    fn publish(&self, range: ClaimedRange) -> (moved: Option<i64>)
        ensures
            exists|behind: i64, high: i64, marks: Seq<bool>| #[trigger]
                is_publish_round(moved, behind, high, marks, self.buffer_size()),
    {
        self.mark(&range);
        let behind: i64 = self.cursor.get();
        let high: i64 = self.high_watermark.get();
        let count: usize = marks_to_read(behind, high, self.buffer_size);
        let marks: Vec<bool> = self.published_marks(behind, count);
        let moved: Option<i64> = match move_over(behind, marks.as_slice()) {
            Some((from, to)) => {
                self.clear(&passed_by(from, to));
                if !self.cursor.compare_exchange(from, to) {
                    self.move_again(from, to);
                }
                Some(to)
            },
            None => None,
        };
        self.wait_strategy.signal();
        assert(is_publish_round(moved, behind, high, marks@, self.buffer_size()));
        moved
    }

    fn create_barrier(&mut self, gating_sequences: &[Arc<Sequence>]) -> (barrier:
        ProcessingSequenceBarrier<W>)
        ensures
            barrier.dependencies() == gating_sequences@,
            barrier.strategy() == old(self).strategy(),
            barrier.alert_flag() == old(self).alert_flag(),
            final(self).strategy() == old(self).strategy(),
            final(self).alert_flag() == old(self).alert_flag(),
            final(self).watermark() == old(self).watermark(),
            final(self).published() == old(self).published(),
    {
        ProcessingSequenceBarrier::new(
            share(&self.wait_strategy),
            share_all(gating_sequences),
            share(&self.is_done),
        )
    }

    fn add_gating_sequence(&mut self, gating_sequence: &Arc<Sequence>)
        ensures
            final(self).strategy() == old(self).strategy(),
            final(self).alert_flag() == old(self).alert_flag(),
            final(self).watermark() == old(self).watermark(),
            final(self).published() == old(self).published(),
    {
        self.gating_sequences.push(share(gating_sequence));
    }

    fn get_cursor(&self) -> (cursor: Arc<Sequence>) {
        share(&self.cursor)
    }

    /// Compares one reading of the gating cursors with one reading of the
    /// high watermark, unless the barriers are alerted already.
    fn try_drain(&self) -> (done: bool) {
        if self.is_done.is_raised() {
            self.wait_strategy.signal();
            proof {
                let unread = crate::sequence::lemma_some_reading(self.gating().len());
                assert(crate::sequencer::is_drain_round(true, true, unread, 0, 0));
            }
            return true;
        }
        let last: i64 = self.high_watermark.get();
        let gate: i64 = min_cursor_sequence(self.gating_sequences.as_slice());
        let done: bool = drained(false, gate, last);
        proof {
            let seen = choose|seen: Seq<i64>|
                seen.len() == self.gating().len() && crate::sequence::is_lowest(seen, gate);
            assert(crate::sequencer::is_drain_round(done, false, seen, gate, last as int));
        }
        if done {
            self.is_done.raise();
        }
        self.wait_strategy.signal();
        done
    }
}

/// The slot of the `k`-th sequence of a batch that starts at `start`, in a
/// ring of `capacity` slots.
pub open spec fn batch_slot(start: i64, k: int, capacity: nat) -> int {
    crate::ringbuffer::slot_index((start + k) as i64, capacity)
}

/// Between `before` and `after`, no slot has changed but slots of the batch
/// of `count` sequences that starts at `start`.
pub open spec fn others_untouched<T>(
    before: Seq<T>,
    after: Seq<T>,
    start: i64,
    count: int,
) -> bool {
    forall|p: int|
        0 <= p < before.len() ==> #[trigger] before[p] == after[p] || exists|k: int|
            0 <= k < count && #[trigger] batch_slot(start, k, before.len()) == p
}

/// Lets `f` fill the slots of the sequences `start`, `start + 1`, ... from
/// the items, one slot for each item, in order.
///
/// Every slot of the batch is what `f` made of the slot as it was, the
/// sequence and the item; no other slot changes.
pub fn fill_batch<D: DataProvider<T>, T, U, F: Fn(&mut T, i64, &U)>(
    target: &mut D,
    start: i64,
    items: &[U],
    f: &F,
)
    requires
        1 <= items.len() <= old(target).slots().len(),
        start + items.len() - 1 <= i64::MAX,
        forall|slot: &mut T, sequence: i64, i: int|
            0 <= i < items.len() ==> call_requires(*f, (slot, sequence, &items[i])),
    ensures
        final(target).slots().len() == old(target).slots().len(),
        forall|k: int|
            #![trigger batch_slot(start, k, old(target).slots().len())]
            0 <= k < items.len() ==> 0 <= batch_slot(start, k, old(target).slots().len()) < old(
                target).slots().len() && exists|slot: &mut T|
                *slot == old(target).slots()[batch_slot(start, k, old(target).slots().len())]
                    && *final(slot) == final(target).slots()[batch_slot(
                    start,
                    k,
                    old(target).slots().len(),
                )] && #[trigger] call_ensures(*f, (slot, (start + k) as i64, &items[k]), ()),
        others_untouched(old(target).slots(), final(target).slots(), start, items.len() as int),
{
    let count: usize = items.len();
    let size: usize = target.buffer_size();
    let ghost len = target.slots().len();
    let ghost before = target.slots();
    let mut idx: usize = 0;
    let mut seq: i64 = start;
    while idx < count
        invariant
            idx <= count,
            count == items.len(),
            count <= len,
            len == size,
            crate::ringbuffer::is_power_of_two(size),
            start + count - 1 <= i64::MAX,
            seq == start + idx || (idx == count && seq == start + count - 1),
            target.slots().len() == len,
            before.len() == len,
            forall|slot: &mut T, sequence: i64, i: int|
                0 <= i < items.len() ==> call_requires(*f, (slot, sequence, &items[i])),
            forall|k: int|
                #![trigger batch_slot(start, k, len)]
                0 <= k < idx ==> 0 <= batch_slot(start, k, len) < len && exists|slot: &mut T|
                    *slot == before[batch_slot(start, k, len)] && *final(slot)
                        == target.slots()[batch_slot(start, k, len)] && #[trigger] call_ensures(
                        *f,
                        (slot, (start + k) as i64, &items[k]),
                        (),
                    ),
            forall|p: int|
                0 <= p < len ==> #[trigger] before[p] == target.slots()[p] || exists|k: int|
                    0 <= k < idx && #[trigger] batch_slot(start, k, len) == p,
        decreases count - idx,
    {
        let ghost previous = target.slots();
        let ghost index = batch_slot(start, idx as int, len);
        proof {
            crate::ringbuffer::lemma_slot_in_ring(seq, size);
            assert forall|k: int| 0 <= k < idx implies batch_slot(start, k, len) != index by {
                crate::ringbuffer::lemma_slots_distinct((start + k) as i64, seq, size);
            }
            assert(previous[index] == before[index]);
        }
        let mut guard = SequenceGuard::new(seq);
        let slot = target.get_mut(&mut guard);
        f(slot, seq, &items[idx]);
        proof {
            assert(target.slots() == previous.update(index, target.slots()[index]));
            assert forall|k: int|
                #![trigger batch_slot(start, k, len)]
                0 <= k < idx + 1 implies 0 <= batch_slot(start, k, len) < len && exists|
                slot: &mut T,
            |
                *slot == before[batch_slot(start, k, len)] && *final(slot)
                    == target.slots()[batch_slot(start, k, len)] && #[trigger] call_ensures(
                    *f,
                    (slot, (start + k) as i64, &items[k]),
                    (),
                ) by {
                let place = batch_slot(start, k, len);
                crate::ringbuffer::lemma_slot_in_ring((start + k) as i64, size);
                if k < idx {
                    assert(place != index);
                    assert(target.slots()[place] == previous[place]);
                } else {
                    assert(place == index);
                    assert((start + k) as i64 == seq);
                }
            }
            assert forall|p: int| 0 <= p < len implies #[trigger] before[p] == target.slots()[p]
                || exists|k: int| 0 <= k < idx + 1 && #[trigger] batch_slot(start, k, len) == p by {
                if p == index {
                    assert(batch_slot(start, idx as int, len) == p);
                } else {
                    assert(target.slots()[p] == previous[p]);
                    if previous[p] != before[p] {
                        let k = choose|k: int|
                            0 <= k < idx && #[trigger] batch_slot(start, k, len) == p;
                        assert(0 <= k < idx + 1 && batch_slot(start, k, len) == p);
                    }
                }
            }
        }
        idx += 1;
        if idx < count {
            seq = seq + 1;
        }
    }
}

/// What a producer offers: writing batches of events into a store of type
/// `D`, and shutting the pipeline down.
pub trait EventProducer<T, D: DataProvider<T>> {
    /// Number of slots that the producer's sequences address. An
    /// implementation says here what it is.
    open spec fn buffer_size(&self) -> int {
        arbitrary()
    }

    /// Number of slots that the producer's sequences address: the most
    /// that one batch may hold.
    fn capacity(&self) -> (size: usize)
        ensures
            size == self.buffer_size(),
    ;

    /// Writes one batch where the ring has room for it now: claims as many
    /// sequences as there are items, lets `f` fill the slot of each
    /// sequence from its item, in order, and publishes the range. Returns
    /// the sequence of the first item, or `None` where the claim was
    /// refused; then nothing was written.
    ///
    /// Every slot of the batch is what `f` made of the slot as it was, the
    /// sequence and the item; no other slot changes.
    fn try_write<U, F: Fn(&mut T, i64, &U)>(
        &mut self,
        target: &mut D,
        items: &[U],
        f: F,
    ) -> (written: Option<i64>)
        requires
            1 <= items.len() <= old(self).buffer_size(),
            items.len() <= old(target).slots().len(),
            forall|slot: &mut T, sequence: i64, i: int|
                0 <= i < items.len() ==> call_requires(f, (slot, sequence, &items[i])),
        ensures
            final(self).buffer_size() == old(self).buffer_size(),
            final(target).slots().len() == old(target).slots().len(),
            written is None ==> final(target).slots() == old(target).slots(),
            written matches Some(start) ==> start + items.len() - 1 <= i64::MAX,
            written matches Some(start) ==> forall|k: int|
                #![trigger batch_slot(start, k, old(target).slots().len())]
                0 <= k < items.len() ==> 0 <= batch_slot(start, k, old(target).slots().len()) < old(
                    target).slots().len() && exists|slot: &mut T|
                    *slot == old(target).slots()[batch_slot(start, k, old(target).slots().len())]
                        && *final(slot) == final(target).slots()[batch_slot(
                        start,
                        k,
                        old(target).slots().len(),
                    )] && #[trigger] call_ensures(f, (slot, (start + k) as i64, &items[k]), ()),
            written matches Some(start) ==> others_untouched(
                old(target).slots(),
                final(target).slots(),
                start,
                items.len() as int,
            ),
    ;

    /// One round of shutting down: `true` when the consumers have come up
    /// to all that was claimed, or were alerted already; the barriers are
    /// then alerted.
    fn try_drain(&self) -> (done: bool);
}

/// The producer's side of a ring: writes batches of events through a
/// sequencer into a store of slots. The store is handed in for each write;
/// with a sequencer for many producers, each producer writes through a
/// handle of its own.
pub struct Producer<D: DataProvider<T>, T, S: Sequencer> {
    sequencer: S,
    _provider: PhantomData<D>,
    _element: PhantomData<T>,
}

impl<D: DataProvider<T>, T, S: Sequencer> Producer<D, T, S> {
    /// The sequencer that this producer claims and publishes through.
    pub closed spec fn sequencer(&self) -> S {
        self.sequencer
    }

    /// A producer that claims and publishes through `sequencer`.
    pub fn new(sequencer: S) -> (producer: Self)
        ensures
            producer.sequencer() == sequencer,
    {
        Producer { sequencer, _provider: PhantomData, _element: PhantomData }
    }
}

impl<D: DataProvider<T>, T, S: Sequencer> Producer<D, T, S> {
    /// Writes a batch on the outcome of its claim. On `None` nothing is
    /// written. On a range, `f` fills the slot of each sequence of the
    /// range from its item, in order, and the range is published; the
    /// result is the first sequence of the range.
    ///
    /// Every slot of the batch is what `f` made of the slot as it was, the
    /// sequence and the item; no other slot changes.
    pub fn write_claim<U, F: Fn(&mut T, i64, &U)>(
        &self,
        target: &mut D,
        claim: Option<ClaimedRange>,
        items: &[U],
        f: F,
    ) -> (written: Option<i64>)
        requires
            1 <= items.len() <= old(target).slots().len(),
            claim is Some ==> claim->0.count() == items.len(),
            forall|slot: &mut T, sequence: i64, i: int|
                0 <= i < items.len() ==> call_requires(f, (slot, sequence, &items[i])),
        ensures
            written is Some <==> claim is Some,
            written is Some ==> written->0 == claim->0.first(),
            final(target).slots().len() == old(target).slots().len(),
            written is None ==> final(target).slots() == old(target).slots(),
            written matches Some(start) ==> start + items.len() - 1 <= i64::MAX,
            written matches Some(start) ==> forall|k: int|
                #![trigger batch_slot(start, k, old(target).slots().len())]
                0 <= k < items.len() ==> 0 <= batch_slot(start, k, old(target).slots().len()) < old(
                    target).slots().len() && exists|slot: &mut T|
                    *slot == old(target).slots()[batch_slot(start, k, old(target).slots().len())]
                        && *final(slot) == final(target).slots()[batch_slot(
                        start,
                        k,
                        old(target).slots().len(),
                    )] && #[trigger] call_ensures(f, (slot, (start + k) as i64, &items[k]), ()),
            written matches Some(start) ==> others_untouched(
                old(target).slots(),
                final(target).slots(),
                start,
                items.len() as int,
            ),
    {
        match claim {
            None => None,
            Some(range) => {
                let start: i64 = range.start();
                let end: i64 = range.end();
                fill_batch(target, start, items, &f);
                let _ = self.sequencer.publish(range);
                Some(start)
            },
        }
    }
}

impl<D: DataProvider<T>, T, W: WaitStrategy> Producer<D, T, MultiProducerSequencer<W>> {
    /// Another producer on the same sequencer: the two claim from the same
    /// sequences and never get the same one.
    pub fn handle(&self) -> (other: Self)
        ensures
            other.sequencer().buffer_size() == self.sequencer().buffer_size(),
            other.sequencer().gating() == self.sequencer().gating(),
            other.sequencer().cursor() == self.sequencer().cursor(),
            other.sequencer().watermark() == self.sequencer().watermark(),
            other.sequencer().published() == self.sequencer().published(),
    {
        Producer::new(self.sequencer.handle())
    }
}

impl<D: DataProvider<T>, T, S: Sequencer> EventProducer<T, D> for Producer<D, T, S> {
    open spec fn buffer_size(&self) -> int {
        self.sequencer().buffer_size()
    }

    fn capacity(&self) -> (size: usize) {
        self.sequencer.capacity()
    }

    /// Claims through the sequencer, and writes into what was claimed. A
    /// write is made where the claim is owed; where the sequencer alone
    /// decides the position, the batch starts there and the position moves
    /// behind it. The wiring of the sequencer stays.
    fn try_write<U, F: Fn(&mut T, i64, &U)>(
        &mut self,
        target: &mut D,
        items: &[U],
        f: F,
    ) -> (written: Option<i64>)
        ensures
            final(self).sequencer().gating() == old(self).sequencer().gating(),
            final(self).sequencer().cursor() == old(self).sequencer().cursor(),
            old(self).sequencer().owed(items.len()) ==> written is Some,
            old(self).sequencer().position() is Some && written is Some ==> written->0 == old(
                self).sequencer().position()->0 && final(self).sequencer().position() == Some(
                (written->0 + items.len()) as i64,
            ),
            written is None ==> final(self).sequencer().position() == old(
                self).sequencer().position(),
    {
        let count: usize = items.len();
        let claim = self.sequencer.try_next(count);
        self.write_claim(target, claim, items, f)
    }

    /// One round of shutting down, as the sequencer does it: the result is
    /// the verdict on one reading of the alert flag and of the gating
    /// cursors of the sequencer.
    fn try_drain(&self) -> (done: bool)
        ensures
            exists|alerted: bool, seen: Seq<i64>, gate: i64, last_claimed: int|
                seen.len() == self.sequencer().gating().len() && (self.sequencer().position()
                    is Some ==> last_claimed == self.sequencer().position()->0 - 1)
                    && #[trigger] crate::sequencer::is_drain_round(
                    done,
                    alerted,
                    seen,
                    gate,
                    last_claimed,
                ),
    {
        self.sequencer.try_drain()
    }
}

} // verus!
