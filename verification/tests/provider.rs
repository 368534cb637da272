use disrustor::ringbuffer::DataProvider;
use disrustor::sequence::SequenceGuard;

/// A store of two slots, written by hand.
struct Pair {
    slots: [i64; 2],
}

impl DataProvider<i64> for Pair {
    fn buffer_size(&self) -> usize {
        2
    }

    fn get(&self, guard: &SequenceGuard) -> &i64 {
        &self.slots[(i64::from(guard) & 1) as usize]
    }

    fn get_mut(&mut self, guard: &mut SequenceGuard) -> &mut i64 {
        &mut self.slots[(i64::from(&*guard) & 1) as usize]
    }
}

#[test]
fn a_store_of_ones_own_can_stand_in() {
    let mut pair = Pair { slots: [0, 0] };
    *pair.get_mut(&mut SequenceGuard::new(3)) = 7;
    assert_eq!(*pair.get(&SequenceGuard::new(1)), 7);
    assert_eq!(*pair.get(&SequenceGuard::new(0)), 0);
    assert_eq!(pair.buffer_size(), 2);
}
