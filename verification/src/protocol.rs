//! The protocol between producers and consumers, as a state machine over
//! plain numbers, and what holds of every run of it.
//!
//! The counters of a running pipeline are shared between threads and move
//! at any time, so the functions that touch them promise little of the
//! values they read. What the pipeline guarantees is a matter of the
//! protocol: of which steps may be taken on which readings. Here every step
//! is one atomic action of a producer or a consumer, guarded by the same
//! decisions that the code takes ([`crate::sequencer::claim_fits`],
//! [`crate::producer::is_published_run`], the lowest of a reading of
//! cursors), and the guarantees are invariants of the machine.
//!
//! A reading of a cursor may be out of date when it is acted on. Cursors
//! only move forward, so an old reading is a lower bound of the cursor:
//! the guards ask for lower bounds, not for current values.

use vstd::prelude::*;

verus! {

/// One consumer: how far it has come, what it was shown, and whom it waits
/// for.
pub struct Consumer {
    /// The last sequence handled, `-1` before the first.
    pub cursor: int,
    /// The sequences handed to the handler so far, in the order of the
    /// calls.
    pub seen: Seq<int>,
    /// The consumers whose cursors this one waits on, by their places in
    /// the pipeline.
    pub upstream: Set<int>,
    /// Whether this consumer waits on the producer cursor.
    pub follows_producer: bool,
}

/// A pipeline at one moment.
pub struct Pipeline {
    /// Number of slots of the ring.
    pub capacity: int,
    /// The last sequence claimed by any producer, `-1` before the first
    /// claim.
    pub claimed: int,
    /// The producer cursor: the last sequence that consumers may read.
    pub cursor: int,
    /// The sequences that were published.
    pub published: Set<int>,
    /// The ranges claimed so far, in the order of the claims.
    pub claims: Seq<(int, int)>,
    /// The consumers, every one behind those that it waits on.
    pub consumers: Seq<Consumer>,
    /// The consumers whose cursors hold the producers back.
    pub gating: Set<int>,
}

/// The sequences `0, 1, ..., n - 1`.
pub open spec fn first_sequences(n: int) -> Seq<int> {
    Seq::new(n as nat, |k: int| k)
}

/// `bound` is no higher than any cursor that the consumers `who` have now.
pub open spec fn below_cursors(p: Pipeline, who: Set<int>, bound: int) -> bool {
    forall|g: int| #[trigger] who.contains(g) ==> bound <= p.consumers[g].cursor
}

/// Every consumer waits for somebody, and only for consumers before it.
pub open spec fn wired(p: Pipeline) -> bool {
    &&& forall|i: int, u: int|
        0 <= i < p.consumers.len() && #[trigger] p.consumers[i].upstream.contains(u) ==> 0 <= u < i
    &&& forall|i: int|
        0 <= i < p.consumers.len() ==> (#[trigger] p.consumers[i]).follows_producer || exists|
            u: int,
        | #[trigger] p.consumers[i].upstream.contains(u)
    &&& forall|g: int| #[trigger] p.gating.contains(g) ==> 0 <= g < p.consumers.len()
}

/// Every consumer holds a producer back itself or is waited on by a later
/// consumer: the gating consumers are all the last ones.
pub open spec fn sealed(p: Pipeline) -> bool {
    forall|i: int|
        0 <= i < p.consumers.len() ==> #[trigger] p.gating.contains(i) || exists|j: int|
            i < j < p.consumers.len() && #[trigger] p.consumers[j].upstream.contains(i)
}

/// The `i`-th claim is not empty and starts right behind the claim before
/// it, the first one at sequence `0`.
pub open spec fn claim_follows(claims: Seq<(int, int)>, i: int) -> bool {
    &&& claims[i].0 <= claims[i].1
    &&& claims[i].0 == if i == 0 {
        0
    } else {
        claims[i - 1].1 + 1
    }
}

/// The claims follow each other without a gap, from sequence `0` up to
/// `claimed`, and none is empty.
pub open spec fn claims_in_order(claims: Seq<(int, int)>, claimed: int) -> bool {
    &&& forall|i: int| 0 <= i < claims.len() ==> #[trigger] claim_follows(claims, i)
    &&& claimed == if claims.len() == 0 {
        -1
    } else {
        claims.last().1
    }
}

/// A pipeline before anything has happened.
pub open spec fn init(p: Pipeline) -> bool {
    &&& p.capacity >= 1
    &&& p.claimed == -1
    &&& p.cursor == -1
    &&& p.published == Set::<int>::empty()
    &&& p.claims == Seq::<(int, int)>::empty()
    &&& wired(p)
    &&& forall|i: int|
        0 <= i < p.consumers.len() ==> (#[trigger] p.consumers[i]).cursor == -1
            && p.consumers[i].seen == Seq::<int>::empty()
}

/// What holds of a pipeline at every moment of every run.
pub open spec fn inv(p: Pipeline) -> bool {
    &&& p.capacity >= 1
    &&& -1 <= p.cursor <= p.claimed
    &&& claims_in_order(p.claims, p.claimed)
    &&& forall|s: int| #[trigger] p.published.contains(s) ==> 0 <= s <= p.claimed
    &&& forall|s: int| 0 <= s <= p.cursor ==> #[trigger] p.published.contains(s)
    &&& wired(p)
    &&& forall|i: int|
        0 <= i < p.consumers.len() ==> {
            let c = #[trigger] p.consumers[i];
            &&& -1 <= c.cursor
            &&& c.seen == first_sequences(c.cursor + 1)
            &&& c.follows_producer ==> c.cursor <= p.cursor
            &&& below_cursors(p, c.upstream, c.cursor)
        }
    &&& forall|g: int| #[trigger]
        p.gating.contains(g) ==> p.claimed - p.consumers[g].cursor <= p.capacity
}

/// A producer claims `count` sequences on a reading `gate` of the gating
/// cursors: the range behind the last claim, where it fits the ring.
pub open spec fn claim(pre: Pipeline, count: int, gate: int, post: Pipeline) -> bool {
    &&& count >= 1
    &&& below_cursors(pre, pre.gating, gate)
    &&& crate::sequencer::claim_fits(pre.claimed + count, gate, pre.capacity)
    &&& post == Pipeline {
        claimed: pre.claimed + count,
        claims: pre.claims.push((pre.claimed + 1, pre.claimed + count)),
        ..pre
    }
}

/// A producer marks the claimed sequences `first ..= last` as published.
pub open spec fn mark(pre: Pipeline, first: int, last: int, post: Pipeline) -> bool {
    &&& 0 <= first <= last <= pre.claimed
    &&& post == Pipeline {
        published: pre.published.union(Set::new(|s: int| first <= s <= last)),
        ..pre
    }
}

/// A producer moves the cursor to `good`, having read the marks of the
/// sequences behind the cursor as `flags`: a mark that was read as set
/// belongs to a published sequence, and the marks up to `good` were all
/// read as set.
pub open spec fn advance(pre: Pipeline, flags: Seq<bool>, good: int, post: Pipeline) -> bool {
    &&& pre.cursor < good <= pre.claimed
    &&& crate::producer::is_published_run(flags, good - pre.cursor)
    &&& forall|i: int|
        0 <= i < flags.len() && #[trigger] flags[i] ==> pre.published.contains(pre.cursor + 1 + i)
    &&& post == Pipeline { cursor: good, ..pre }
}

/// The consumer `who` handles the batch up to `available`, which no cursor
/// that it waits on has yet to reach.
pub open spec fn consume(pre: Pipeline, who: int, available: int, post: Pipeline) -> bool {
    &&& 0 <= who < pre.consumers.len()
    &&& pre.consumers[who].cursor < available
    &&& pre.consumers[who].follows_producer ==> available <= pre.cursor
    &&& below_cursors(pre, pre.consumers[who].upstream, available)
    &&& post == Pipeline {
        consumers: pre.consumers.update(
            who,
            Consumer {
                cursor: available,
                seen: pre.consumers[who].seen + Seq::new(
                    (available - pre.consumers[who].cursor) as nat,
                    |k: int| pre.consumers[who].cursor + 1 + k,
                ),
                ..pre.consumers[who]
            },
        ),
        ..pre
    }
}

/// One step of some producer or consumer.
pub open spec fn step(pre: Pipeline, post: Pipeline) -> bool {
    ||| exists|count: int, gate: int| #[trigger] claim(pre, count, gate, post)
    ||| exists|first: int, last: int| #[trigger] mark(pre, first, last, post)
    ||| exists|flags: Seq<bool>, good: int| #[trigger] advance(pre, flags, good, post)
    ||| exists|who: int, available: int| #[trigger] consume(pre, who, available, post)
}

/// A reading of cursors is no higher than the cursors have come since: the
/// lowest value read is a lower bound of every cursor now.
pub proof fn lemma_lowest_reading_is_lower_bound(seen: Seq<i64>, now: Seq<int>, lowest: i64)
    requires
        seen.len() == now.len(),
        seen.len() > 0,
        forall|k: int| 0 <= k < seen.len() ==> seen[k] <= now[k],
        crate::sequence::is_lowest(seen, lowest),
    ensures
        forall|k: int| 0 <= k < now.len() ==> lowest <= #[trigger] now[k],
{
    assert forall|k: int| 0 <= k < now.len() implies lowest <= #[trigger] now[k] by {
        assert(lowest <= seen[k]);
    }
}

/// A pipeline starts out as it has to stay.
pub proof fn lemma_init_establishes_inv(p: Pipeline)
    requires
        init(p),
    ensures
        inv(p),
{
    assert forall|i: int| 0 <= i < p.consumers.len() implies {
        let c = #[trigger] p.consumers[i];
        &&& -1 <= c.cursor
        &&& c.seen == first_sequences(c.cursor + 1)
        &&& c.follows_producer ==> c.cursor <= p.cursor
        &&& below_cursors(p, c.upstream, c.cursor)
    } by {
        let c = p.consumers[i];
        assert(c.seen =~= first_sequences(c.cursor + 1));
        assert forall|g: int| #[trigger] c.upstream.contains(g) implies c.cursor
            <= p.consumers[g].cursor by {
            assert(p.consumers[i].upstream.contains(g));
        }
    }
}

/// A claim keeps the pipeline as it has to be.
pub proof fn lemma_claim_preserves_inv(pre: Pipeline, count: int, gate: int, post: Pipeline)
    requires
        inv(pre),
        claim(pre, count, gate, post),
    ensures
        inv(post),
{
    assert forall|i: int| 0 <= i < post.claims.len() implies #[trigger] claim_follows(
        post.claims,
        i,
    ) by {
        if i < pre.claims.len() {
            assert(claim_follows(pre.claims, i));
            assert(post.claims[i] == pre.claims[i]);
            if i > 0 {
                assert(post.claims[i - 1] == pre.claims[i - 1]);
            }
        } else if i > 0 {
            assert(post.claims[i - 1] == pre.claims[i - 1]);
        }
    }
    assert forall|i: int| 0 <= i < post.consumers.len() implies {
        let c = #[trigger] post.consumers[i];
        &&& -1 <= c.cursor
        &&& c.seen == first_sequences(c.cursor + 1)
        &&& c.follows_producer ==> c.cursor <= post.cursor
        &&& below_cursors(post, c.upstream, c.cursor)
    } by {
        let c = pre.consumers[i];
        assert(below_cursors(pre, c.upstream, c.cursor));
    }
}

/// Marking sequences as published keeps the pipeline as it has to be.
pub proof fn lemma_mark_preserves_inv(pre: Pipeline, first: int, last: int, post: Pipeline)
    requires
        inv(pre),
        mark(pre, first, last, post),
    ensures
        inv(post),
{
    assert forall|i: int| 0 <= i < post.consumers.len() implies {
        let c = #[trigger] post.consumers[i];
        &&& -1 <= c.cursor
        &&& c.seen == first_sequences(c.cursor + 1)
        &&& c.follows_producer ==> c.cursor <= post.cursor
        &&& below_cursors(post, c.upstream, c.cursor)
    } by {
        let c = pre.consumers[i];
        assert(below_cursors(pre, c.upstream, c.cursor));
    }
}

/// Moving the producer cursor keeps the pipeline as it has to be: the
/// cursor only moves over sequences that were published.
pub proof fn lemma_advance_preserves_inv(
    pre: Pipeline,
    flags: Seq<bool>,
    good: int,
    post: Pipeline,
)
    requires
        inv(pre),
        advance(pre, flags, good, post),
    ensures
        inv(post),
{
    assert forall|s: int| 0 <= s <= post.cursor implies #[trigger] post.published.contains(s) by {
        if s > pre.cursor {
            let i = s - pre.cursor - 1;
            assert(flags[i]);
        }
    }
    assert forall|i: int| 0 <= i < post.consumers.len() implies {
        let c = #[trigger] post.consumers[i];
        &&& -1 <= c.cursor
        &&& c.seen == first_sequences(c.cursor + 1)
        &&& c.follows_producer ==> c.cursor <= post.cursor
        &&& below_cursors(post, c.upstream, c.cursor)
    } by {
        let c = pre.consumers[i];
        assert(below_cursors(pre, c.upstream, c.cursor));
    }
}

/// A batch handled by a consumer keeps the pipeline as it has to be.
pub proof fn lemma_consume_preserves_inv(pre: Pipeline, who: int, available: int, post: Pipeline)
    requires
        inv(pre),
        consume(pre, who, available, post),
    ensures
        inv(post),
{
    let before = pre.consumers[who];
    let after = post.consumers[who];
    assert(after.seen =~= first_sequences(available + 1)) by {
        assert(before.seen == first_sequences(before.cursor + 1));
    }
    assert forall|i: int, u: int|
        0 <= i < post.consumers.len() && #[trigger] post.consumers[i].upstream.contains(u) implies 0
        <= u < i by {
        assert(pre.consumers[i].upstream.contains(u));
    }
    assert forall|i: int| 0 <= i < post.consumers.len() implies (#[trigger] post.consumers[i])
        .follows_producer || exists|u: int| #[trigger] post.consumers[i].upstream.contains(u) by {
        let c = pre.consumers[i];
        if !c.follows_producer {
            let u = choose|u: int| #[trigger] pre.consumers[i].upstream.contains(u);
            assert(post.consumers[i].upstream.contains(u));
        }
    }
    assert forall|i: int| 0 <= i < post.consumers.len() implies {
        let c = #[trigger] post.consumers[i];
        &&& -1 <= c.cursor
        &&& c.seen == first_sequences(c.cursor + 1)
        &&& c.follows_producer ==> c.cursor <= post.cursor
        &&& below_cursors(post, c.upstream, c.cursor)
    } by {
        let old_c = pre.consumers[i];
        let c = post.consumers[i];
        assert(below_cursors(pre, old_c.upstream, old_c.cursor));
        assert(below_cursors(pre, before.upstream, available));
        assert forall|g: int| #[trigger] c.upstream.contains(g) implies c.cursor
            <= post.consumers[g].cursor by {
            assert(pre.consumers[i].upstream.contains(g));
            assert(0 <= g < i);
            if i == who {
                assert(before.upstream.contains(g));
            } else {
                assert(old_c.upstream.contains(g));
            }
        }
    }
    assert forall|g: int| #[trigger] post.gating.contains(g) implies post.claimed
        - post.consumers[g].cursor <= post.capacity by {
        assert(pre.gating.contains(g));
    }
}

/// Whatever step is taken, the pipeline stays as it has to be.
pub proof fn lemma_step_preserves_inv(pre: Pipeline, post: Pipeline)
    requires
        inv(pre),
        step(pre, post),
    ensures
        inv(post),
{
    if exists|count: int, gate: int| #[trigger] claim(pre, count, gate, post) {
        let (count, gate) = choose|count: int, gate: int| #[trigger] claim(pre, count, gate, post);
        lemma_claim_preserves_inv(pre, count, gate, post);
    } else if exists|first: int, last: int| #[trigger] mark(pre, first, last, post) {
        let (first, last) = choose|first: int, last: int| #[trigger] mark(pre, first, last, post);
        lemma_mark_preserves_inv(pre, first, last, post);
    } else if exists|flags: Seq<bool>, good: int| #[trigger] advance(pre, flags, good, post) {
        let (flags, good) = choose|flags: Seq<bool>, good: int| #[trigger]
            advance(pre, flags, good, post);
        lemma_advance_preserves_inv(pre, flags, good, post);
    } else {
        let (who, available) = choose|who: int, available: int| #[trigger]
            consume(pre, who, available, post);
        lemma_consume_preserves_inv(pre, who, available, post);
    }
}

/// At every moment, every consumer has been shown exactly the sequences
/// `0, 1, 2, ...` up to its cursor, in order, with no gap and no repeat,
/// and has not passed the producer cursor.
pub proof fn law_monotonic_sequences(p: Pipeline, who: int)
    requires
        inv(p),
        0 <= who < p.consumers.len(),
    ensures
        p.consumers[who].seen.len() == p.consumers[who].cursor + 1,
        forall|k: int| 0 <= k < p.consumers[who].seen.len() ==> p.consumers[who].seen[k] == k,
        p.consumers[who].cursor <= p.cursor,
{
    lemma_behind_producer(p, who);
}

/// No consumer is ahead of the producer cursor.
pub proof fn lemma_behind_producer(p: Pipeline, who: int)
    requires
        inv(p),
        0 <= who < p.consumers.len(),
    ensures
        p.consumers[who].cursor <= p.cursor,
    decreases who,
{
    let c = p.consumers[who];
    if !c.follows_producer {
        let u = choose|u: int| #[trigger] p.consumers[who].upstream.contains(u);
        assert(0 <= u < who);
        lemma_behind_producer(p, u);
        assert(below_cursors(p, c.upstream, c.cursor));
    }
}

/// When a consumer handles a batch up to `available` on a reading of the
/// cursors it waits on, of which `available` is the lowest value, every
/// sequence of the batch has been passed by every one of those cursors and
/// was published. In `readers`, `-1` stands for the producer cursor.
pub proof fn law_dependency_respect(
    pre: Pipeline,
    who: int,
    readers: Seq<int>,
    seen: Seq<i64>,
    available: i64,
    sequence: int,
)
    requires
        inv(pre),
        0 <= who < pre.consumers.len(),
        readers.len() == seen.len(),
        seen.len() > 0,
        forall|u: int|
            pre.consumers[who].upstream.contains(u) <==> readers.contains(u) && u >= 0,
        !pre.consumers[who].follows_producer || readers.contains(-1),
        forall|k: int|
            0 <= k < readers.len() ==> seen[k] <= if #[trigger] readers[k] == -1 {
                pre.cursor
            } else {
                pre.consumers[readers[k]].cursor
            },
        crate::sequence::is_lowest(seen, available),
        pre.consumers[who].cursor < sequence <= available,
    ensures
        forall|u: int| #[trigger]
            pre.consumers[who].upstream.contains(u) ==> sequence <= pre.consumers[u].cursor,
        sequence <= pre.cursor,
        pre.published.contains(sequence),
        exists|post: Pipeline| consume(pre, who, available as int, post),
{
    let now = Seq::new(
        readers.len(),
        |k: int|
            if readers[k] == -1 {
                pre.cursor
            } else {
                pre.consumers[readers[k]].cursor
            },
    );
    lemma_lowest_reading_is_lower_bound(seen, now, available);
    assert forall|u: int| #[trigger] pre.consumers[who].upstream.contains(u) implies available
        <= pre.consumers[u].cursor by {
        assert(readers.contains(u));
        let k = choose|k: int| 0 <= k < readers.len() && readers[k] == u;
        assert(available <= now[k]);
    }
    if pre.consumers[who].follows_producer {
        let k = choose|k: int| 0 <= k < readers.len() && readers[k] == -1;
        assert(available <= now[k]);
    } else {
        let u = choose|u: int| #[trigger] pre.consumers[who].upstream.contains(u);
        lemma_behind_producer(pre, u);
    }
    let post = Pipeline {
        consumers: pre.consumers.update(
            who,
            Consumer {
                cursor: available as int,
                seen: pre.consumers[who].seen + Seq::new(
                    (available - pre.consumers[who].cursor) as nat,
                    |k: int| pre.consumers[who].cursor + 1 + k,
                ),
                ..pre.consumers[who]
            },
        ),
        ..pre
    };
    assert(consume(pre, who, available as int, post));
}

/// A claim made on a reading of the gating cursors, of which `gate` is the
/// lowest value, ends within one lap of the ring beyond every gating
/// cursor: the producer never wraps over a slot that is not read yet.
pub proof fn law_no_wrap_over_unread(
    pre: Pipeline,
    gaters: Seq<int>,
    seen: Seq<i64>,
    gate: i64,
    count: int,
    post: Pipeline,
)
    requires
        inv(pre),
        count >= 1,
        gaters.len() == seen.len(),
        forall|g: int| pre.gating.contains(g) <==> gaters.contains(g),
        forall|k: int|
            0 <= k < gaters.len() ==> seen[k] <= pre.consumers[#[trigger] gaters[k]].cursor,
        crate::sequence::is_lowest(seen, gate),
        crate::sequencer::claim_fits(pre.claimed + count, gate as int, pre.capacity),
        post == (Pipeline {
            claimed: pre.claimed + count,
            claims: pre.claims.push((pre.claimed + 1, pre.claimed + count)),
            ..pre
        }),
    ensures
        claim(pre, count, gate as int, post),
        inv(post),
        forall|g: int| #[trigger]
            post.gating.contains(g) ==> post.claimed - post.consumers[g].cursor <= post.capacity,
{
    if seen.len() > 0 {
        let now = Seq::new(gaters.len(), |k: int| pre.consumers[gaters[k]].cursor);
        lemma_lowest_reading_is_lower_bound(seen, now, gate);
        assert forall|g: int| #[trigger] pre.gating.contains(g) implies gate
            <= pre.consumers[g].cursor by {
            assert(gaters.contains(g));
            let k = choose|k: int| 0 <= k < gaters.len() && gaters[k] == g;
            assert(gate <= now[k]);
        }
    } else {
        assert forall|g: int| #[trigger] pre.gating.contains(g) implies gate
            <= pre.consumers[g].cursor by {
            assert(gaters.contains(g));
        }
    }
    lemma_claim_preserves_inv(pre, count, gate as int, post);
}

/// A claim of more sequences than the ring has slots never fits, however
/// far the consumers have come: a reading of a gating cursor is no higher
/// than what was claimed.
pub proof fn law_oversized_claim_never_fits(p: Pipeline, count: int, gate: int, who: int)
    requires
        inv(p),
        count > p.capacity,
        p.gating.contains(who),
        gate <= p.consumers[who].cursor,
    ensures
        !crate::sequencer::claim_fits(p.claimed + count, gate, p.capacity),
{
    lemma_behind_producer(p, who);
}

/// A slot is written and read by turns: while a sequence is claimed and
/// the producer cursor has not reached it, every consumer of a sealed
/// pipeline is done with the sequence that had the slot one lap before,
/// and none has come to the sequence itself.
pub proof fn law_claimed_slot_is_free(p: Pipeline, sequence: int, who: int)
    requires
        inv(p),
        sealed(p),
        p.cursor < sequence <= p.claimed,
        0 <= who < p.consumers.len(),
    ensures
        sequence - p.capacity <= p.consumers[who].cursor < sequence,
{
    lemma_behind_producer(p, who);
    lemma_ahead_of_gating(p, who);
}

/// In a sealed pipeline every consumer is within one lap of all that was
/// claimed.
pub proof fn lemma_ahead_of_gating(p: Pipeline, who: int)
    requires
        inv(p),
        sealed(p),
        0 <= who < p.consumers.len(),
    ensures
        p.claimed - p.consumers[who].cursor <= p.capacity,
    decreases p.consumers.len() - who,
{
    if !p.gating.contains(who) {
        let j = choose|j: int|
            who < j < p.consumers.len() && #[trigger] p.consumers[j].upstream.contains(who);
        lemma_ahead_of_gating(p, j);
        assert(below_cursors(p, p.consumers[j].upstream, p.consumers[j].cursor));
    }
}

/// No two claims overlap, whoever made them: a later claim starts beyond
/// the end of every earlier one.
pub proof fn law_claims_disjoint(p: Pipeline, i: int, j: int)
    requires
        inv(p),
        0 <= i < j < p.claims.len(),
    ensures
        p.claims[i].0 <= p.claims[i].1 < p.claims[j].0 <= p.claims[j].1,
    decreases j - i,
{
    assert(claim_follows(p.claims, i));
    assert(claim_follows(p.claims, j));
    if i + 1 < j {
        law_claims_disjoint(p, i, j - 1);
    }
}

/// The producer cursor only ever moves to a value up to which every
/// sequence was published before the move.
pub proof fn law_contiguous_publication(
    pre: Pipeline,
    flags: Seq<bool>,
    good: int,
    post: Pipeline,
    sequence: int,
)
    requires
        inv(pre),
        advance(pre, flags, good, post),
        0 <= sequence <= good,
    ensures
        post.cursor == good,
        pre.published.contains(sequence),
        inv(post),
{
    lemma_advance_preserves_inv(pre, flags, good, post);
    assert(post.published.contains(sequence));
}

/// A round of publishing is a step of the pipeline or none. The round has
/// read the cursor at `behind`, where it stands, the high watermark at
/// `high`, which is no higher than what was claimed, and the marks behind
/// the cursor as `marks`, every one that was read as set the mark of a
/// published sequence. Where it sets out for a sequence, it moves the
/// cursor forward, over published sequences only and up to the first mark
/// that was not read as set; where it sets out for none, the first mark
/// was not read as set, or none was read.
pub proof fn law_publish_round_moves_cursor(
    pre: Pipeline,
    moved: Option<i64>,
    behind: i64,
    high: i64,
    marks: Seq<bool>,
    post: Pipeline,
)
    requires
        inv(pre),
        behind == pre.cursor,
        high <= pre.claimed,
        crate::producer::is_publish_round(moved, behind, high, marks, pre.capacity),
        forall|i: int|
            0 <= i < marks.len() && #[trigger] marks[i] ==> pre.published.contains(
                pre.cursor + 1 + i),
        post == match moved {
            Some(to) => Pipeline { cursor: to as int, ..pre },
            None => pre,
        },
    ensures
        moved matches Some(to) ==> advance(pre, marks, to as int, post),
        moved matches Some(to) ==> to - behind < marks.len() ==> !marks[to - behind],
        moved is None ==> marks.len() == 0 || !marks[0],
        inv(post),
        pre.cursor <= post.cursor <= pre.claimed,
        forall|s: int| 0 <= s <= post.cursor ==> pre.published.contains(s),
{
    if let Some(to) = moved {
        lemma_advance_preserves_inv(pre, marks, to as int, post);
        assert forall|s: int| 0 <= s <= post.cursor implies pre.published.contains(s) by {
            assert(post.published.contains(s));
        }
    }
}

/// When a reading of the gating cursors of a sealed pipeline has come up
/// to the last sequence claimed, every consumer cursor and the producer
/// cursor stand at that sequence, and every consumer has been shown every
/// sequence up to it.
pub proof fn law_drain_complete(
    p: Pipeline,
    gaters: Seq<int>,
    seen: Seq<i64>,
    gate: i64,
    who: int,
)
    requires
        inv(p),
        sealed(p),
        gaters.len() == seen.len(),
        forall|g: int| p.gating.contains(g) <==> gaters.contains(g),
        forall|k: int|
            0 <= k < gaters.len() ==> seen[k] <= p.consumers[#[trigger] gaters[k]].cursor,
        crate::sequence::is_lowest(seen, gate),
        crate::sequencer::drain_verdict(false, gate as int, p.claimed),
        0 <= who < p.consumers.len(),
    ensures
        p.consumers[who].cursor == p.claimed,
        p.cursor == p.claimed,
        p.consumers[who].seen == first_sequences(p.claimed + 1),
{
    lemma_behind_producer(p, who);
    lemma_drained_up_to(p, gaters, seen, gate, who);
}

/// Once the barriers are alerted, the waiting ends: a round of waiting for
/// a sequence that the upstream cursors have not reached reports the
/// alert, under the spinning strategy as under the blocking one, and the
/// turn of a processor on that report is to halt. Under the blocking
/// strategy the alert ends the wait whatever the cursors were read at.
pub proof fn law_alert_ends_the_wait(processed: i64, target: i64, available: i64)
    ensures
        available < target ==> crate::strategy::spin_verdict(target, available, true)
            == crate::strategy::WaitOutcome::Alerted,
        crate::strategy::blocking_verdict(target, available, true)
            == crate::strategy::WaitOutcome::Alerted,
        crate::consumer::turn_on(processed, crate::strategy::WaitOutcome::Alerted)
            == crate::consumer::Turn::Halted,
{
}

/// With the gating cursors read at the last claimed sequence or beyond,
/// every consumer of a sealed pipeline has come that far.
pub proof fn lemma_drained_up_to(
    p: Pipeline,
    gaters: Seq<int>,
    seen: Seq<i64>,
    gate: i64,
    who: int,
)
    requires
        inv(p),
        sealed(p),
        gaters.len() == seen.len(),
        forall|g: int| p.gating.contains(g) <==> gaters.contains(g),
        forall|k: int|
            0 <= k < gaters.len() ==> seen[k] <= p.consumers[#[trigger] gaters[k]].cursor,
        crate::sequence::is_lowest(seen, gate),
        gate >= p.claimed,
        0 <= who < p.consumers.len(),
    ensures
        p.consumers[who].cursor >= p.claimed,
    decreases p.consumers.len() - who,
{
    if p.gating.contains(who) {
        assert(gaters.contains(who));
        let k = choose|k: int| 0 <= k < gaters.len() && gaters[k] == who;
        let now = Seq::new(gaters.len(), |k: int| p.consumers[gaters[k]].cursor);
        lemma_lowest_reading_is_lower_bound(seen, now, gate);
        assert(gate <= now[k]);
    } else {
        let j = choose|j: int|
            who < j < p.consumers.len() && #[trigger] p.consumers[j].upstream.contains(who);
        lemma_drained_up_to(p, gaters, seen, gate, j);
        assert(below_cursors(p, p.consumers[j].upstream, p.consumers[j].cursor));
    }
}

} // verus!
