//! Sequence counters: the shared cursors by which producers and consumers
//! tell each other how far they have come.

use std::sync::atomic::AtomicI64;
use std::sync::atomic::Ordering;
use std::sync::Arc;
use vstd::prelude::*;

verus! {

/// Value of a cursor before anything was published or consumed, so that the
/// first sequence to publish or consume is `0`.
pub const INITIAL_CURSOR: i64 = -1;

/// A token for one sequence number, handed to a [`crate::ringbuffer::DataProvider`]
/// to name the slot to access.
pub struct SequenceGuard {
    sequence: i64,
}

impl SequenceGuard {
    /// The sequence number this guard stands for.
    pub closed spec fn value(&self) -> i64 {
        self.sequence
    }

    /// A guard for the sequence `seq`.
    pub fn new(seq: i64) -> (guard: Self)
        ensures
            guard.value() == seq,
    {
        SequenceGuard { sequence: seq }
    }

    /// The decimal text of the sequence number, as `i64` renders itself.
    pub fn render(&self) -> (text: String)
        ensures
            vstd::string::to_string_from_display_ensures::<i64>(&self.value(), text),
    {
        self.sequence.to_string()
    }
}

impl From<&SequenceGuard> for i64 {
    fn from(v: &SequenceGuard) -> (sequence: i64) {
        v.sequence
    }
}

impl vstd::std_specs::convert::FromSpecImpl<&SequenceGuard> for i64 {
    open spec fn obeys_from_spec() -> bool {
        true
    }

    open spec fn from_spec(v: &SequenceGuard) -> i64 {
        v.value()
    }
}

impl From<&mut SequenceGuard> for i64 {
    fn from(v: &mut SequenceGuard) -> (sequence: i64) {
        v.sequence
    }
}

impl vstd::std_specs::convert::FromSpecImpl<&mut SequenceGuard> for i64 {
    open spec fn obeys_from_spec() -> bool {
        true
    }

    open spec fn from_spec(v: &mut SequenceGuard) -> i64 {
        v.value()
    }
}

/// A 64-bit counter shared between threads: acquire loads, release stores,
/// sequentially consistent compare-and-set.
///
/// Any owner may store at any moment, so no contract ties a value read to an
/// earlier store. The rules of the protocol are stated over plain values, in
/// the functions that decide on what was read.
pub struct Sequence {
    _pad: [u8; 56],
    offset: AtomicI64,
    start: Ghost<i64>,
}

impl Sequence {
    /// The value that the counter was made with. It is the one thing
    /// known of a counter for good: where it was before anybody moved it.
    pub closed spec fn started_at(&self) -> i64 {
        self.start@
    }

    /// A counter that starts at `value`.
    pub fn new(value: i64) -> (sequence: Self)
        ensures
            sequence.started_at() == value,
    {
        Sequence { _pad: [0u8; 56], offset: AtomicI64::new(value), start: Ghost(value) }
    }

    /// Reads the counter (acquire).
    pub fn get(&self) -> i64 {
        self.offset.load(Ordering::Acquire)
    }

    /// Stores `value` (release).
    pub fn set(&self, value: i64) {
        self.offset.store(value, Ordering::Release);
    }

    /// Stores `new` if the counter holds `current`, and says whether it did.
    pub fn compare_exchange(&self, current: i64, new: i64) -> bool {
        self.offset.compare_exchange(current, new, Ordering::SeqCst, Ordering::Acquire).is_ok()
    }
}

/// The counter under its other name.
pub type AtomicSequence = Sequence;

impl Default for Sequence {
    /// A counter that starts before the first sequence.
    fn default() -> (sequence: Self)
        ensures
            sequence.started_at() == INITIAL_CURSOR,
    {
        Sequence::new(INITIAL_CURSOR)
    }
}

/// `m` is the lowest of `values`; of no values at all, the lowest is `0`.
pub open spec fn is_lowest(values: Seq<i64>, m: i64) -> bool {
    if values.len() == 0 {
        m == 0
    } else {
        values.contains(m) && forall|i: int| 0 <= i < values.len() ==> m <= values[i]
    }
}

/// For any number of cursors there is a reading of them: all at `0`, with
/// `0` as the lowest value.
pub proof fn lemma_some_reading(cursors: nat) -> (seen: Seq<i64>)
    ensures
        seen.len() == cursors,
        is_lowest(seen, 0),
{
    let seen = Seq::new(cursors, |i: int| 0i64);
    if cursors > 0 {
        assert(seen[0] == 0i64);
    }
    seen
}

/// The lowest of the cursor values read.
pub fn lowest(values: &[i64]) -> (m: i64)
    ensures
        is_lowest(values@, m),
{
    if values.len() == 0 {
        return 0;
    }
    let mut m: i64 = values[0];
    let mut i: usize = 1;
    while i < values.len()
        invariant
            1 <= i <= values.len(),
            exists|k: int| 0 <= k < i && values[k] == m,
            forall|j: int| 0 <= j < i ==> m <= values[j],
        decreases values.len() - i,
    {
        if values[i] < m {
            m = values[i];
        }
        i += 1;
    }
    m
}

/// A second handle on the same shared value.
///
/// Wraps `Arc::clone`, which hands out another pointer to the same
/// allocation: the clone is the value it was made from.
#[verifier::external_body]
pub(crate) fn share<T>(handle: &Arc<T>) -> (same: Arc<T>)
    ensures
        same == *handle,
{
    Arc::clone(handle)
}

/// Second handles on the same counters, in the same order.
pub fn share_all(cursors: &[Arc<Sequence>]) -> (same: Vec<Arc<Sequence>>)
    ensures
        same@ == cursors@,
{
    let mut same: Vec<Arc<Sequence>> = Vec::with_capacity(cursors.len());
    let mut i: usize = 0;
    while i < cursors.len()
        invariant
            i <= cursors.len(),
            same@ == cursors@.subrange(0, i as int),
        decreases cursors.len() - i,
    {
        same.push(share(&cursors[i]));
        assert(same@ =~= cursors@.subrange(0, i + 1));
        i += 1;
    }
    assert(cursors@.subrange(0, i as int) =~= cursors@);
    same
}

/// Reads every cursor once, in their order.
///
/// The cursors move while they are read: the values are one reading of
/// each, and nothing ties a value to what its cursor holds afterwards.
pub fn read_cursors(sequences: &[Arc<Sequence>]) -> (values: Vec<i64>)
    ensures
        values.len() == sequences.len(),
{
    let mut values: Vec<i64> = Vec::with_capacity(sequences.len());
    let mut i: usize = 0;
    while i < sequences.len()
        invariant
            i <= sequences.len(),
            values.len() == i,
        decreases sequences.len() - i,
    {
        values.push(sequences[i].get());
        i += 1;
    }
    values
}

/// Reads every cursor once and returns the lowest value read (`0` where
/// there is no cursor).
pub fn min_cursor_sequence(sequences: &[Arc<Sequence>]) -> (m: i64)
    ensures
        exists|seen: Seq<i64>| seen.len() == sequences@.len() && is_lowest(seen, m),
{
    let values = read_cursors(sequences);
    let m: i64 = lowest(values.as_slice());
    assert(values@.len() == sequences@.len() && is_lowest(values@, m));
    m
}

} // verus!
