use disrustor::ringbuffer::power_of_two;
use disrustor::ringbuffer::slot_of;
use disrustor::ringbuffer::DataProvider;
use disrustor::ringbuffer::RingBuffer;
use disrustor::sequence::SequenceGuard;

#[test]
fn ringbuffer_writes_and_reads_data() {
    const SIZE: i64 = 256;
    let mut buffer = RingBuffer::new(SIZE as usize);

    for i in 0..SIZE {
        let mut guard = SequenceGuard::new(i);
        *buffer.get_mut(&mut guard) = i;
    }

    for i in 0..SIZE {
        let mut guard = SequenceGuard::new(i);
        *buffer.get_mut(&mut guard) *= 2;
    }

    for i in 0..SIZE {
        let mut guard = SequenceGuard::new(i);
        assert_eq!(*buffer.get_mut(&mut guard), i * 2);
    }
}

#[test]
fn slots_start_out_as_the_default() {
    let buffer: RingBuffer<i64> = RingBuffer::new(8);
    assert_eq!(buffer.buffer_size(), 8);
    for i in 0..8 {
        assert_eq!(*buffer.get(&SequenceGuard::new(i)), 0);
    }
}

#[test]
fn a_sequence_one_lap_on_has_the_same_slot() {
    let mut buffer: RingBuffer<i64> = RingBuffer::new(4);
    *buffer.get_mut(&mut SequenceGuard::new(1)) = 11;
    assert_eq!(*buffer.get(&SequenceGuard::new(5)), 11);
    assert_eq!(*buffer.get(&SequenceGuard::new(9)), 11);
    assert_eq!(*buffer.get(&SequenceGuard::new(4)), 0);
    *buffer.get_mut(&mut SequenceGuard::new(6)) = 66;
    assert_eq!(*buffer.get(&SequenceGuard::new(2)), 66);
    assert_eq!(*buffer.get(&SequenceGuard::new(1)), 11);
}

#[test]
fn sequences_of_one_lap_have_slots_of_their_own() {
    let mut buffer: RingBuffer<i64> = RingBuffer::new(16);
    for i in 100..116 {
        *buffer.get_mut(&mut SequenceGuard::new(i)) = i;
    }
    for i in 100..116 {
        assert_eq!(*buffer.get(&SequenceGuard::new(i)), i);
    }
}

#[test]
fn the_mask_also_places_negative_sequences() {
    let mut buffer: RingBuffer<i64> = RingBuffer::new(4);
    *buffer.get_mut(&mut SequenceGuard::new(-1)) = 5;
    assert_eq!(*buffer.get(&SequenceGuard::new(3)), 5);
}

#[test]
fn a_ring_of_one_slot_holds_every_sequence_in_it() {
    let mut buffer: RingBuffer<i64> = RingBuffer::new(1);
    assert_eq!(buffer.buffer_size(), 1);
    *buffer.get_mut(&mut SequenceGuard::new(0)) = 3;
    assert_eq!(*buffer.get(&SequenceGuard::new(7)), 3);
}

#[test]
fn the_guard_is_left_as_it_was() {
    let mut buffer: RingBuffer<i64> = RingBuffer::new(2);
    let mut guard = SequenceGuard::new(5);
    *buffer.get_mut(&mut guard) = 1;
    assert_eq!(i64::from(&guard), 5);
}

#[test]
fn power_of_two_tells_ring_sizes_from_other_numbers() {
    assert!(!power_of_two(0));
    assert!(power_of_two(1));
    assert!(power_of_two(2));
    assert!(!power_of_two(3));
    assert!(power_of_two(4));
    assert!(!power_of_two(100));
    assert!(power_of_two(1024));
    assert!(!power_of_two(1023));
    assert!(!power_of_two(usize::MAX));
}

#[test]
fn a_slot_is_the_sequence_under_the_mask() {
    assert_eq!(slot_of(0, 15), 0);
    assert_eq!(slot_of(15, 15), 15);
    assert_eq!(slot_of(16, 15), 0);
    assert_eq!(slot_of(999, 15), 7);
    assert_eq!(slot_of(-1, 15), 15);
    assert_eq!(slot_of(12345, 0), 0);
    assert_eq!(slot_of(i64::MAX, 1023), 1023);
}
