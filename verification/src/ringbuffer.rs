//! The ring of preallocated slots, addressed by `sequence & mask`.

use crate::sequence::SequenceGuard;
use vstd::prelude::*;

verus! {

/// `n` is a power of two (and so at least 1).
pub open spec fn is_power_of_two(n: usize) -> bool {
    n > 0 && n & ((n - 1) as usize) == 0
}

/// The slot that holds sequence `sequence` in a ring of `capacity` slots:
/// the sequence masked by `capacity - 1`.
pub open spec fn slot_index(sequence: i64, capacity: nat) -> int {
    (sequence & ((capacity - 1) as i64)) as int
}

/// Says whether `n` is a power of two.
pub fn power_of_two(n: usize) -> (yes: bool)
    ensures
        yes == is_power_of_two(n),
{
    n > 0 && n & (n - 1) == 0
}

/// The slot that holds `sequence` in a ring with mask `mask`, the mask
/// being the number of slots less one.
pub fn slot_of(sequence: i64, mask: i64) -> (index: usize)
    requires
        0 <= mask <= usize::MAX,
    ensures
        index == sequence & mask,
        index <= mask,
{
    assert(mask >= 0 ==> 0 <= sequence & mask <= mask) by (bit_vector);
    (sequence & mask) as usize
}

/// A mask of a ring fits the sequence type, and masking lands inside the ring.
pub proof fn lemma_slot_in_ring(sequence: i64, capacity: usize)
    requires
        is_power_of_two(capacity),
    ensures
        capacity - 1 <= i64::MAX,
        0 <= slot_index(sequence, capacity as nat) < capacity,
{
    let wide: u64 = capacity as u64;
    assert(wide > 0 && wide & ((wide - 1) as u64) == 0 ==> wide - 1 <= 0x7fff_ffff_ffff_ffffu64)
        by (bit_vector);
    assert(capacity & ((capacity - 1) as usize) == wide & ((wide - 1) as u64)) by (bit_vector)
        requires
            wide == capacity as u64,
            capacity > 0,
    ;
    let mask: i64 = (capacity - 1) as i64;
    assert(mask >= 0 ==> 0 <= sequence & mask <= mask) by (bit_vector);
}

/// Within one lap of the ring, different sequences live in different slots.
pub proof fn lemma_slots_distinct(a: i64, b: i64, capacity: usize)
    requires
        is_power_of_two(capacity),
        a < b,
        b - a < capacity,
    ensures
        slot_index(a, capacity as nat) != slot_index(b, capacity as nat),
{
    lemma_slot_in_ring(a, capacity);
    let wide: u64 = capacity as u64;
    assert(capacity & ((capacity - 1) as usize) == wide & ((wide - 1) as u64)) by (bit_vector)
        requires
            wide == capacity as u64,
            capacity > 0,
    ;
    let mask: i64 = (capacity - 1) as i64;
    assert(wide & ((wide - 1) as u64) == 0 && wide > 0 && mask == (wide - 1) as i64 && mask >= 0
        ==> ((mask + 1) as i64) & mask == 0) by (bit_vector);
    assert(mask >= 0 && ((mask + 1) as i64) & mask == 0 && a < b && b - a <= mask ==> (a & mask)
        != (b & mask)) by (bit_vector);
}

/// A store of slots that are found by sequence number.
///
/// The store synchronizes nothing. Who may touch which slot, and when, is
/// settled by the sequencer and the barriers; a caller that reaches a slot
/// holds the store for that long.
pub trait DataProvider<T> {
    /// The slots, in the order of their indices. An implementation says
    /// here what it holds.
    open spec fn slots(&self) -> Seq<T> {
        arbitrary()
    }

    /// The number of slots, a power of two.
    fn buffer_size(&self) -> (n: usize)
        ensures
            n == self.slots().len(),
            is_power_of_two(n),
    ;

    /// The slot of the guard's sequence.
    fn get(&self, guard: &SequenceGuard) -> (slot: &T)
        ensures
            0 <= slot_index(guard.value(), self.slots().len()) < self.slots().len(),
            *slot == self.slots()[slot_index(guard.value(), self.slots().len())],
    ;

    /// The slot of the guard's sequence, to write to. Whatever the caller
    /// leaves in the slot is what the store then holds there; no other slot
    /// changes.
    fn get_mut(&mut self, guard: &mut SequenceGuard) -> (slot: &mut T)
        ensures
            0 <= slot_index(old(guard).value(), old(self).slots().len()) < old(self).slots().len(),
            *slot == old(self).slots()[slot_index(old(guard).value(), old(self).slots().len())],
            final(self).slots() == old(self).slots().update(
                slot_index(old(guard).value(), old(self).slots().len()),
                *final(slot),
            ),
            final(guard).value() == old(guard).value(),
    ;
}

/// Ring of reusable slots for the events that pass from producers to
/// consumers. The slots are made once, by `T::default`, and never moved.
pub struct RingBuffer<T> {
    data: Vec<T>,
    capacity: usize,
    mask: i64,
}

impl<T> RingBuffer<T> {
    #[verifier::type_invariant]
    spec fn well_formed(&self) -> bool {
        &&& self.data.len() == self.capacity
        &&& is_power_of_two(self.capacity)
        &&& self.mask == self.capacity - 1
    }
}

impl<T: Default> RingBuffer<T> {
    /// A ring of `capacity` slots, each as `T::default` makes it.
    pub fn new(capacity: usize) -> (ring: Self)
        requires
            is_power_of_two(capacity),
        ensures
            ring.slots().len() == capacity,
            forall|i: int|
                0 <= i < capacity ==> call_ensures(T::default, (), #[trigger] ring.slots()[i]),
    {
        let mut data: Vec<T> = Vec::with_capacity(capacity);
        let mut filled: usize = 0;
        while filled < capacity
            invariant
                filled <= capacity,
                data.len() == filled,
                forall|i: int|
                    0 <= i < filled ==> call_ensures(T::default, (), #[trigger] data[i]),
            decreases capacity - filled,
        {
            data.push(T::default());
            filled += 1;
        }
        proof {
            lemma_slot_in_ring(0, capacity);
        }
        RingBuffer { data, capacity, mask: (capacity - 1) as i64 }
    }
}

impl<T> DataProvider<T> for RingBuffer<T> {
    closed spec fn slots(&self) -> Seq<T> {
        self.data@
    }

    fn buffer_size(&self) -> (n: usize) {
        proof {
            use_type_invariant(self);
        }
        self.capacity
    }

    fn get(&self, guard: &SequenceGuard) -> (slot: &T) {
        proof {
            use_type_invariant(self);
            lemma_slot_in_ring(guard.value(), self.capacity);
        }
        let index: usize = slot_of(i64::from(guard), self.mask);
        &self.data[index]
    }

    fn get_mut(&mut self, guard: &mut SequenceGuard) -> (slot: &mut T) {
        proof {
            use_type_invariant(&*self);
            lemma_slot_in_ring(guard.value(), self.capacity);
        }
        let index: usize = slot_of(i64::from(&*guard), self.mask);
        &mut self.data[index]
    }
}

} // verus!
