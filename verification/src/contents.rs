//! What the slots of the ring hold over a run of the protocol: the event
//! of which sequence, and which consumers have been shown it.
//!
//! The ring synchronizes nothing; that a consumer finds in a slot the
//! event it is waiting for, and not one of another lap, follows from the
//! order in which the protocol lets producers and consumers act. Here the
//! pipeline of [`crate::protocol`] runs with a ring beside it. A producer
//! writes a sequence that it has claimed before it marks the sequence as
//! published, and a consumer handles the slots of its batch as it finds
//! them.

use crate::protocol::Pipeline;
use vstd::prelude::*;

verus! {

/// What one slot holds.
pub struct Held {
    /// The sequence whose event was last written to the slot.
    pub sequence: int,
    /// The consumers that have handled the slot since, by their places in
    /// the pipeline.
    pub shown_to: Set<int>,
}

/// A pipeline and the ring that its events pass through.
pub struct Ring {
    /// The producers and consumers.
    pub pipeline: Pipeline,
    /// The sequences whose events have been written.
    pub written: Set<int>,
    /// What the slots hold, in the order of their indices.
    pub slots: Seq<Held>,
}

/// The slot of `sequence` in a ring of `capacity` slots.
pub open spec fn place(sequence: int, capacity: int) -> int {
    crate::ringbuffer::slot_index(sequence as i64, capacity as nat)
}

/// The consumers that have handled `sequence`: those whose cursors have
/// reached it.
pub open spec fn handlers_of(p: Pipeline, sequence: int) -> Set<int> {
    Set::new(|i: int| 0 <= i < p.consumers.len() && sequence <= p.consumers[i].cursor)
}

/// `sequence` belongs to the last lap of what was claimed.
pub open spec fn in_last_lap(p: Pipeline, sequence: int) -> bool {
    p.claimed - p.capacity < sequence <= p.claimed
}

/// The slot of `sequence` holds the event of that sequence, handled by
/// exactly the consumers whose cursors have reached it.
pub open spec fn holds(r: Ring, sequence: int) -> bool {
    let held = r.slots[place(sequence, r.pipeline.capacity)];
    held.sequence == sequence && held.shown_to == handlers_of(r.pipeline, sequence)
}

/// The slot `k` is the slot of a sequence of the batch that the consumer
/// `who` handles up to `available`.
pub open spec fn in_batch(p: Pipeline, who: int, available: int, k: int) -> bool {
    exists|s: int|
        p.consumers[who].cursor < s <= available && #[trigger] place(s, p.capacity) == k
}

/// A ring before anything has happened, for a pipeline with a consumer,
/// in which the gating consumers are all the last ones.
pub open spec fn ring_init(r: Ring) -> bool {
    &&& crate::protocol::init(r.pipeline)
    &&& crate::protocol::sealed(r.pipeline)
    &&& r.pipeline.consumers.len() >= 1
    &&& r.pipeline.capacity <= usize::MAX
    &&& crate::ringbuffer::is_power_of_two(r.pipeline.capacity as usize)
    &&& r.slots.len() == r.pipeline.capacity
    &&& r.written == Set::<int>::empty()
}

/// What holds of a ring at every moment of every run: every sequence of
/// the last lap that was written is held by its slot.
pub open spec fn ring_inv(r: Ring) -> bool {
    &&& crate::protocol::inv(r.pipeline)
    &&& crate::protocol::sealed(r.pipeline)
    &&& r.pipeline.consumers.len() >= 1
    &&& r.pipeline.capacity <= usize::MAX
    &&& crate::ringbuffer::is_power_of_two(r.pipeline.capacity as usize)
    &&& r.pipeline.claimed <= i64::MAX
    &&& r.slots.len() == r.pipeline.capacity
    &&& forall|s: int| #[trigger] r.pipeline.published.contains(s) ==> r.written.contains(s)
    &&& forall|s: int| #[trigger] r.written.contains(s) ==> 0 <= s <= r.pipeline.claimed
    &&& forall|s: int|
        r.written.contains(s) && in_last_lap(r.pipeline, s) ==> #[trigger] holds(r, s)
}

/// A producer claims; the ring stays as it is. Sequences are not claimed
/// beyond the last one there is.
pub open spec fn ring_claim(pre: Ring, count: int, gate: int, post: Ring) -> bool {
    &&& crate::protocol::claim(pre.pipeline, count, gate, post.pipeline)
    &&& post.pipeline.claimed <= i64::MAX
    &&& post.written == pre.written
    &&& post.slots == pre.slots
}

/// A producer writes the event of a claimed sequence, once, into the slot
/// of the sequence.
pub open spec fn ring_write(pre: Ring, sequence: int, post: Ring) -> bool {
    &&& 0 <= sequence <= pre.pipeline.claimed
    &&& !pre.written.contains(sequence)
    &&& post == Ring {
        written: pre.written.insert(sequence),
        slots: pre.slots.update(
            place(sequence, pre.pipeline.capacity),
            Held { sequence, shown_to: Set::empty() },
        ),
        ..pre
    }
}

/// A producer marks as published what it has written.
pub open spec fn ring_mark(pre: Ring, first: int, last: int, post: Ring) -> bool {
    &&& crate::protocol::mark(pre.pipeline, first, last, post.pipeline)
    &&& forall|s: int| first <= s <= last ==> #[trigger] pre.written.contains(s)
    &&& post.written == pre.written
    &&& post.slots == pre.slots
}

/// A producer moves the cursor; the ring stays as it is.
pub open spec fn ring_advance(pre: Ring, flags: Seq<bool>, good: int, post: Ring) -> bool {
    &&& crate::protocol::advance(pre.pipeline, flags, good, post.pipeline)
    &&& post.written == pre.written
    &&& post.slots == pre.slots
}

/// The consumer `who` handles the slots of its batch, whatever they hold.
pub open spec fn ring_consume(pre: Ring, who: int, available: int, post: Ring) -> bool {
    &&& crate::protocol::consume(pre.pipeline, who, available, post.pipeline)
    &&& post.written == pre.written
    &&& post.slots.len() == pre.slots.len()
    &&& forall|k: int|
        0 <= k < pre.slots.len() ==> #[trigger] post.slots[k] == if in_batch(
            pre.pipeline,
            who,
            available,
            k,
        ) {
            Held { shown_to: pre.slots[k].shown_to.insert(who), ..pre.slots[k] }
        } else {
            pre.slots[k]
        }
}

/// One step of some producer or consumer, with what it does to the ring.
pub open spec fn ring_step(pre: Ring, post: Ring) -> bool {
    ||| exists|count: int, gate: int| #[trigger] ring_claim(pre, count, gate, post)
    ||| exists|sequence: int| #[trigger] ring_write(pre, sequence, post)
    ||| exists|first: int, last: int| #[trigger] ring_mark(pre, first, last, post)
    ||| exists|flags: Seq<bool>, good: int| #[trigger] ring_advance(pre, flags, good, post)
    ||| exists|who: int, available: int| #[trigger] ring_consume(pre, who, available, post)
}

/// Two sequences of the last lap have slots of their own.
pub proof fn lemma_last_lap_apart(r: Ring, a: int, b: int)
    requires
        ring_inv(r),
        0 <= a,
        0 <= b,
        in_last_lap(r.pipeline, a),
        in_last_lap(r.pipeline, b),
        a != b,
    ensures
        place(a, r.pipeline.capacity) != place(b, r.pipeline.capacity),
        0 <= place(a, r.pipeline.capacity) < r.slots.len(),
{
    let capacity = r.pipeline.capacity as usize;
    crate::ringbuffer::lemma_slot_in_ring(a as i64, capacity);
    if a < b {
        crate::ringbuffer::lemma_slots_distinct(a as i64, b as i64, capacity);
    } else {
        crate::ringbuffer::lemma_slots_distinct(b as i64, a as i64, capacity);
    }
}

/// Every consumer is within one lap of what was claimed, and so is the
/// producer cursor.
pub proof fn lemma_cursors_in_last_lap(r: Ring, who: int)
    requires
        ring_inv(r),
        0 <= who < r.pipeline.consumers.len(),
    ensures
        r.pipeline.claimed - r.pipeline.capacity <= r.pipeline.consumers[who].cursor
            <= r.pipeline.cursor,
{
    crate::protocol::lemma_ahead_of_gating(r.pipeline, who);
    crate::protocol::lemma_behind_producer(r.pipeline, who);
}

/// A batch ends no further on than the producer cursor.
pub proof fn lemma_batch_is_published(p: Pipeline, who: int, available: int, q: Pipeline)
    requires
        crate::protocol::inv(p),
        crate::protocol::consume(p, who, available, q),
    ensures
        available <= p.cursor,
{
    assert(crate::protocol::below_cursors(p, p.consumers[who].upstream, available));
    if !p.consumers[who].follows_producer {
        let u = choose|u: int| #[trigger] p.consumers[who].upstream.contains(u);
        crate::protocol::lemma_behind_producer(p, u);
    }
}

/// A ring starts out as it has to stay.
pub proof fn lemma_ring_init_establishes_inv(r: Ring)
    requires
        ring_init(r),
    ensures
        ring_inv(r),
{
    crate::protocol::lemma_init_establishes_inv(r.pipeline);
}

/// The wiring of a pipeline stays sealed where the consumers keep whom
/// they wait on.
proof fn lemma_stays_sealed(pre: Pipeline, post: Pipeline)
    requires
        crate::protocol::sealed(pre),
        post.gating == pre.gating,
        post.consumers.len() == pre.consumers.len(),
        forall|i: int|
            0 <= i < pre.consumers.len() ==> (#[trigger] post.consumers[i]).upstream
                == pre.consumers[i].upstream,
    ensures
        crate::protocol::sealed(post),
{
    assert forall|i: int| 0 <= i < post.consumers.len() implies #[trigger] post.gating.contains(i)
        || exists|j: int|
        i < j < post.consumers.len() && #[trigger] post.consumers[j].upstream.contains(i) by {
        if !pre.gating.contains(i) {
            let j = choose|j: int|
                i < j < pre.consumers.len() && #[trigger] pre.consumers[j].upstream.contains(i);
            assert(post.consumers[j].upstream.contains(i));
        }
    }
}

/// A claim keeps the ring as it has to be.
pub proof fn lemma_ring_claim_preserves_inv(pre: Ring, count: int, gate: int, post: Ring)
    requires
        ring_inv(pre),
        ring_claim(pre, count, gate, post),
    ensures
        ring_inv(post),
{
    crate::protocol::lemma_claim_preserves_inv(pre.pipeline, count, gate, post.pipeline);
    lemma_stays_sealed(pre.pipeline, post.pipeline);
    assert forall|s: int|
        post.written.contains(s) && in_last_lap(post.pipeline, s) implies #[trigger] holds(
        post,
        s,
    ) by {
        assert(holds(pre, s));
        assert(handlers_of(post.pipeline, s) =~= handlers_of(pre.pipeline, s));
    }
}

/// Writing a claimed sequence keeps the ring as it has to be: the slot
/// written to is the slot of no other sequence of the last lap.
pub proof fn lemma_ring_write_preserves_inv(pre: Ring, sequence: int, post: Ring)
    requires
        ring_inv(pre),
        ring_write(pre, sequence, post),
    ensures
        ring_inv(post),
        in_last_lap(pre.pipeline, sequence),
{
    let p = pre.pipeline;
    lemma_cursors_in_last_lap(pre, 0);
    assert(!p.published.contains(sequence));
    assert(sequence > p.cursor);
    crate::ringbuffer::lemma_slot_in_ring(sequence as i64, p.capacity as usize);
    assert(0 <= place(sequence, p.capacity) < pre.slots.len());
    assert forall|s: int|
        post.written.contains(s) && in_last_lap(post.pipeline, s) implies #[trigger] holds(
        post,
        s,
    ) by {
        let k = place(s, p.capacity);
        crate::ringbuffer::lemma_slot_in_ring(s as i64, p.capacity as usize);
        assert(0 <= k < pre.slots.len());
        if s == sequence {
            assert forall|i: int| 0 <= i < p.consumers.len() implies p.consumers[i].cursor < s by {
                crate::protocol::lemma_behind_producer(p, i);
            }
            assert(handlers_of(p, s) =~= Set::<int>::empty());
            assert(post.slots[k] == Held { sequence, shown_to: Set::empty() });
        } else {
            assert(pre.written.contains(s));
            assert(holds(pre, s));
            lemma_last_lap_apart(pre, s, sequence);
            assert(post.slots[k] == pre.slots[k]);
        }
    }
}

/// Marking written sequences as published keeps the ring as it has to be.
pub proof fn lemma_ring_mark_preserves_inv(pre: Ring, first: int, last: int, post: Ring)
    requires
        ring_inv(pre),
        ring_mark(pre, first, last, post),
    ensures
        ring_inv(post),
{
    crate::protocol::lemma_mark_preserves_inv(pre.pipeline, first, last, post.pipeline);
    lemma_stays_sealed(pre.pipeline, post.pipeline);
    assert forall|s: int|
        post.written.contains(s) && in_last_lap(post.pipeline, s) implies #[trigger] holds(
        post,
        s,
    ) by {
        assert(holds(pre, s));
        assert(handlers_of(post.pipeline, s) =~= handlers_of(pre.pipeline, s));
    }
}

/// Moving the producer cursor keeps the ring as it has to be.
pub proof fn lemma_ring_advance_preserves_inv(pre: Ring, flags: Seq<bool>, good: int, post: Ring)
    requires
        ring_inv(pre),
        ring_advance(pre, flags, good, post),
    ensures
        ring_inv(post),
{
    crate::protocol::lemma_advance_preserves_inv(pre.pipeline, flags, good, post.pipeline);
    lemma_stays_sealed(pre.pipeline, post.pipeline);
    assert forall|s: int|
        post.written.contains(s) && in_last_lap(post.pipeline, s) implies #[trigger] holds(
        post,
        s,
    ) by {
        assert(holds(pre, s));
        assert(handlers_of(post.pipeline, s) =~= handlers_of(pre.pipeline, s));
    }
}

/// A batch handled by a consumer keeps the ring as it has to be: the
/// slots of the batch hold the sequences of the batch, and the consumer
/// touches no other.
pub proof fn lemma_ring_consume_preserves_inv(pre: Ring, who: int, available: int, post: Ring)
    requires
        ring_inv(pre),
        ring_consume(pre, who, available, post),
    ensures
        ring_inv(post),
{
    let p = pre.pipeline;
    let q = post.pipeline;
    crate::protocol::lemma_consume_preserves_inv(p, who, available, q);
    lemma_stays_sealed(p, q);
    lemma_cursors_in_last_lap(pre, who);
    lemma_batch_is_published(p, who, available, q);
    assert forall|s: int| post.written.contains(s) && in_last_lap(q, s) implies #[trigger] holds(
        post,
        s,
    ) by {
        assert(holds(pre, s));
        let k = place(s, p.capacity);
        crate::ringbuffer::lemma_slot_in_ring(s as i64, p.capacity as usize);
        let mine = p.consumers[who].cursor < s <= available;
        if in_batch(p, who, available, k) {
            let t = choose|t: int|
                p.consumers[who].cursor < t <= available && #[trigger] place(t, p.capacity) == k;
            if t != s {
                lemma_last_lap_apart(pre, s, t);
            }
            assert(mine);
        } else {
            if mine {
                assert(place(s, p.capacity) == k);
            }
            assert(!mine);
        }
        assert forall|i: int| handlers_of(q, s).contains(i) == if mine {
            handlers_of(p, s).insert(who).contains(i)
        } else {
            handlers_of(p, s).contains(i)
        } by {
            if 0 <= i < p.consumers.len() && i != who {
                assert(q.consumers[i] == p.consumers[i]);
            }
        }
        if mine {
            assert(handlers_of(q, s) =~= handlers_of(p, s).insert(who));
        } else {
            assert(handlers_of(q, s) =~= handlers_of(p, s));
        }
    }
}

/// Whatever step is taken, the ring stays as it has to be.
pub proof fn lemma_ring_step_preserves_inv(pre: Ring, post: Ring)
    requires
        ring_inv(pre),
        ring_step(pre, post),
    ensures
        ring_inv(post),
{
    if exists|count: int, gate: int| #[trigger] ring_claim(pre, count, gate, post) {
        let (count, gate) = choose|count: int, gate: int| #[trigger]
            ring_claim(pre, count, gate, post);
        lemma_ring_claim_preserves_inv(pre, count, gate, post);
    } else if exists|sequence: int| #[trigger] ring_write(pre, sequence, post) {
        let sequence = choose|sequence: int| #[trigger] ring_write(pre, sequence, post);
        lemma_ring_write_preserves_inv(pre, sequence, post);
    } else if exists|first: int, last: int| #[trigger] ring_mark(pre, first, last, post) {
        let (first, last) = choose|first: int, last: int| #[trigger]
            ring_mark(pre, first, last, post);
        lemma_ring_mark_preserves_inv(pre, first, last, post);
    } else if exists|flags: Seq<bool>, good: int| #[trigger] ring_advance(pre, flags, good, post) {
        let (flags, good) = choose|flags: Seq<bool>, good: int| #[trigger]
            ring_advance(pre, flags, good, post);
        lemma_ring_advance_preserves_inv(pre, flags, good, post);
    } else {
        let (who, available) = choose|who: int, available: int| #[trigger]
            ring_consume(pre, who, available, post);
        lemma_ring_consume_preserves_inv(pre, who, available, post);
    }
}

/// A consumer is shown the event that was written for the sequence, and
/// is shown it once. When the consumer `who` handles a batch up to
/// `available`, the slot of every sequence of the batch holds the event of
/// that sequence, not one of another lap; every consumer that `who` waits
/// on has handled it, no consumer has that has not reached the sequence,
/// and `who` itself has not.
pub proof fn law_slot_holds_its_sequence(
    pre: Ring,
    who: int,
    available: int,
    post: Ring,
    sequence: int,
)
    requires
        ring_inv(pre),
        ring_consume(pre, who, available, post),
        pre.pipeline.consumers[who].cursor < sequence <= available,
    ensures
        pre.written.contains(sequence),
        0 <= place(sequence, pre.pipeline.capacity) < pre.slots.len(),
        pre.slots[place(sequence, pre.pipeline.capacity)].sequence == sequence,
        pre.slots[place(sequence, pre.pipeline.capacity)].shown_to == handlers_of(
            pre.pipeline,
            sequence,
        ),
        forall|u: int| #[trigger]
            pre.pipeline.consumers[who].upstream.contains(u) ==> handlers_of(
                pre.pipeline,
                sequence,
            ).contains(u),
        !handlers_of(pre.pipeline, sequence).contains(who),
        post.slots[place(sequence, pre.pipeline.capacity)] == (Held {
            sequence,
            shown_to: handlers_of(pre.pipeline, sequence).insert(who),
        }),
        ring_inv(post),
{
    let p = pre.pipeline;
    lemma_ring_consume_preserves_inv(pre, who, available, post);
    lemma_cursors_in_last_lap(pre, who);
    crate::ringbuffer::lemma_slot_in_ring(sequence as i64, p.capacity as usize);
    lemma_batch_is_published(p, who, available, post.pipeline);
    assert(crate::protocol::below_cursors(p, p.consumers[who].upstream, available));
    assert(p.published.contains(sequence));
    assert(holds(pre, sequence));
    assert(in_batch(p, who, available, place(sequence, p.capacity)));
}

} // verus!
