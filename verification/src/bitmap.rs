//! One bit per slot of the ring, in shared 64-bit words. A multi-producer
//! sequencer marks here which claimed sequences have been published.

use std::sync::atomic::AtomicU64;
use std::sync::atomic::Ordering;
use vstd::prelude::*;

verus! {

/// Bits in one word of the map.
pub const WORD_BITS: i64 = 64;

/// The bit that stands for `sequence` in a map with mask `index_mask`,
/// counted over the whole map.
pub open spec fn bit_position(sequence: i64, index_mask: i64) -> i64 {
    sequence & index_mask
}

/// The word that holds bit `position`.
pub open spec fn word_index(position: i64) -> int {
    (position >> 6) as int
}

/// A word with only the bit for `position` set.
pub open spec fn bit_in_word(position: i64) -> u64 {
    1u64 << ((position & 63) as u64)
}

/// Words needed for `capacity` bits.
pub open spec fn words_for(capacity: int) -> int {
    (capacity + 63) / 64
}

/// `word` with the bits of `bit` set.
pub open spec fn with_bit(word: u64, bit: u64) -> u64 {
    word | bit
}

/// `word` with the bits of `bit` cleared.
pub open spec fn without_bit(word: u64, bit: u64) -> u64 {
    word & !bit
}

/// Whether `word` has a bit of `bit` set.
pub open spec fn has_bit(word: u64, bit: u64) -> bool {
    word & bit != 0
}

/// `r` is the whole part of the binary logarithm of `n`.
pub open spec fn is_log2(n: i64, r: i64) -> bool {
    0 <= r < 63 && (1i64 << (r as u64)) <= n && (n >> (r as u64)) == 1
}

/// The whole part of the binary logarithm of `n`.
pub fn log2(n: i64) -> (r: i64)
    requires
        n >= 1,
    ensures
        is_log2(n, r),
{
    let mut rest: i64 = n;
    let mut r: i64 = 0;
    assert(n >> 0u64 == n) by (bit_vector);
    assert(n >= 1 ==> (1i64 << 0u64) <= n) by (bit_vector);
    loop
        invariant
            0 <= r < 63,
            rest >= 1,
            rest == n >> (r as u64),
            (1i64 << (r as u64)) <= n,
            n >= 1,
        decreases rest,
    {
        let ghost before = rest;
        rest = rest >> 1;
        assert(before >= 1 ==> 0 <= (before >> 1u64) < before) by (bit_vector);
        if rest == 0 {
            assert(before >= 1 && (before >> 1u64) == 0 ==> before == 1) by (bit_vector);
            return r;
        }
        assert(n >= 1 && 0 <= r < 63 && (n >> (r as u64)) >> 1u64 >= 1 ==> r < 62 && (1i64 << ((r
            + 1) as u64)) <= n && (n >> (r as u64)) >> 1u64 == n >> ((r + 1) as u64))
            by (bit_vector);
        r = r + 1;
    }
}

/// The word and the bit of `sequence` in a map with mask `index_mask`,
/// `index_mask + 1` being the number of bits of the map. `index_shift` is
/// the logarithm of the word size and `word_bits_mask` the mask of a bit's
/// place in its word.
pub fn locate(sequence: i64, index_mask: i64, index_shift: i64, word_bits_mask: i64) -> (place: (
    usize,
    u64,
))
    requires
        index_mask >= 0,
        words_for(index_mask + 1) <= usize::MAX,
        is_log2(WORD_BITS, index_shift),
        word_bits_mask == WORD_BITS - 1,
    ensures
        place.0 == word_index(bit_position(sequence, index_mask)),
        place.1 == bit_in_word(bit_position(sequence, index_mask)),
        place.0 < words_for(index_mask + 1),
{
    let position: i64 = sequence & index_mask;
    assert(index_mask >= 0 ==> 0 <= sequence & index_mask <= index_mask) by (bit_vector);
    assert(0 <= position ==> 0 <= (position >> 6) && (position >> 6) == position / 64 && 0 <= (
    position & 63) < 64) by (bit_vector);
    assert(0 <= index_shift < 63 && (1i64 << (index_shift as u64)) <= 64 && (64i64 >> (
    index_shift as u64)) == 1 ==> index_shift == 6) by (bit_vector);
    let word: usize = (position >> index_shift) as usize;
    let bit: u64 = 1u64 << ((position & word_bits_mask) as u64);
    (word, bit)
}

/// Different positions of the map are different bits: they differ in the
/// word or in the bit of the word.
pub proof fn lemma_positions_apart(p: i64, q: i64)
    requires
        p >= 0,
        q >= 0,
        p != q,
    ensures
        word_index(p) != word_index(q) || bit_in_word(p) != bit_in_word(q),
        word_index(p) == word_index(q) ==> bit_in_word(p) & bit_in_word(q) == 0,
{
    assert(p >= 0 && q >= 0 && p != q ==> (p >> 6) != (q >> 6) || ((1u64 << ((p & 63) as u64)) & (
    1u64 << ((q & 63) as u64))) == 0) by (bit_vector);
    assert((1u64 << ((p & 63) as u64)) != 0) by (bit_vector);
    assert(forall|x: u64| x != 0 ==> #[trigger] (x & x) != 0) by (bit_vector);
}

/// Setting a bit sets it, clearing a bit clears it, and neither touches
/// another bit of the word.
pub proof fn lemma_word_bits(word: u64, p: i64, q: i64)
    requires
        bit_in_word(p) & bit_in_word(q) == 0,
    ensures
        has_bit(with_bit(word, bit_in_word(p)), bit_in_word(p)),
        !has_bit(without_bit(word, bit_in_word(p)), bit_in_word(p)),
        has_bit(with_bit(word, bit_in_word(p)), bit_in_word(q)) == has_bit(word, bit_in_word(q)),
        has_bit(without_bit(word, bit_in_word(p)), bit_in_word(q)) == has_bit(
            word,
            bit_in_word(q),
        ),
{
    let a: u64 = bit_in_word(p);
    let b: u64 = bit_in_word(q);
    assert((1u64 << ((p & 63) as u64)) != 0) by (bit_vector);
    assert(a != 0 ==> (word | a) & a != 0) by (bit_vector);
    assert((word & !a) & a == 0) by (bit_vector);
    assert(a & b == 0 ==> (word | a) & b == word & b) by (bit_vector);
    assert(a & b == 0 ==> (word & !a) & b == word & b) by (bit_vector);
}

/// Whether `word` has a bit of `bit` set.
pub fn word_has(word: u64, bit: u64) -> (yes: bool)
    ensures
        yes == has_bit(word, bit),
{
    word & bit != 0
}

/// The mask that clears the bits of `bit` in a word by `&` and leaves every
/// other bit of the word as it is.
pub fn clearing_mask(bit: u64) -> (mask: u64)
    ensures
        mask == !bit,
        forall|word: u64| #[trigger] (word & mask) == without_bit(word, bit),
{
    !bit
}

/// The word that a map starts with: no bit of it is set.
pub fn empty_word() -> (word: u64)
    ensures
        forall|bit: u64| !#[trigger] has_bit(word, bit),
{
    assert(forall|bit: u64| #[trigger] (0u64 & bit) == 0) by (bit_vector);
    0
}

/// A map of bits in words that several threads set and clear.
///
/// Other threads change the words at any time, so what `is_set` returns is
/// tied to no earlier `set` by a contract: it is the answer of [`word_has`]
/// on the word as it was read. Which word and which bit a sequence has is
/// decided by [`locate`].
pub struct BitMap {
    slots: Vec<AtomicU64>,
    index_mask: i64,
    index_shift: i64,
    word_bits_mask: i64,
}

impl BitMap {
    #[verifier::type_invariant]
    spec fn well_formed(&self) -> bool {
        &&& self.index_mask >= 0
        &&& self.slots.len() == words_for(self.index_mask + 1)
        &&& is_log2(WORD_BITS, self.index_shift)
        &&& self.word_bits_mask == WORD_BITS - 1
    }

    /// Number of bits of the map.
    pub closed spec fn capacity(&self) -> int {
        self.index_mask + 1
    }

    /// The mask that takes a sequence to its bit: the number of bits less
    /// one.
    pub closed spec fn mask(&self) -> i64 {
        self.index_mask
    }

    /// Number of words of the map.
    pub closed spec fn words(&self) -> int {
        self.slots.len() as int
    }

    /// A map of `capacity` bits, none of them set.
    pub fn new(capacity: usize) -> (map: Self)
        requires
            1 <= capacity,
            capacity - 1 <= i64::MAX,
        ensures
            map.capacity() == capacity,
            map.mask() == capacity - 1,
            map.words() == words_for(capacity as int),
    {
        let word_bits: usize = 64;
        let remainder: usize = capacity % word_bits;
        let len: usize = capacity / word_bits + if remainder == 0 {
            0
        } else {
            1
        };
        let mut slots: Vec<AtomicU64> = Vec::with_capacity(len);
        let mut made: usize = 0;
        while made < len
            invariant
                made <= len,
                slots.len() == made,
            decreases len - made,
        {
            slots.push(AtomicU64::new(empty_word()));
            made += 1;
        }
        BitMap {
            slots,
            index_mask: (capacity - 1) as i64,
            index_shift: log2(WORD_BITS),
            word_bits_mask: WORD_BITS - 1,
        }
    }

    /// Whether the bit of `sequence` was set when its word was read: the
    /// answer is that of [`word_has`] on some word, for the bit of the
    /// sequence.
    pub fn is_set(&self, sequence: i64) -> (yes: bool)
        ensures
            exists|word: u64| #[trigger]
                has_bit(word, bit_in_word(bit_position(sequence, self.mask()))) == yes,
    {
        proof {
            use_type_invariant(self);
        }
        let (word, bit) = locate(
            sequence,
            self.index_mask,
            self.index_shift,
            self.word_bits_mask,
        );
        let val: u64 = self.slots[word].load(Ordering::SeqCst);
        let yes: bool = word_has(val, bit);
        assert(has_bit(val, bit_in_word(bit_position(sequence, self.mask()))) == yes);
        yes
    }

    /// Sets the bit of `sequence`.
    pub fn set(&self, sequence: i64) {
        proof {
            use_type_invariant(self);
        }
        let (word, bit) = locate(
            sequence,
            self.index_mask,
            self.index_shift,
            self.word_bits_mask,
        );
        self.slots[word].fetch_or(bit, Ordering::SeqCst);
    }

    /// Clears the bit of `sequence`.
    pub fn unset(&self, sequence: i64) {
        proof {
            use_type_invariant(self);
        }
        let (word, bit) = locate(
            sequence,
            self.index_mask,
            self.index_shift,
            self.word_bits_mask,
        );
        self.slots[word].fetch_and(clearing_mask(bit), Ordering::SeqCst);
    }
}

} // verus!
