use disrustor::barrier::SequenceBarrier;
use disrustor::producer::claim_after;
use disrustor::producer::cursor_move;
use disrustor::producer::marks_to_read;
use disrustor::producer::move_over;
use disrustor::producer::next_attempt;
use disrustor::producer::passed_by;
use disrustor::producer::run_length;
use disrustor::producer::ClaimCounter;
use disrustor::producer::MultiProducerSequencer;
use disrustor::producer::SingleProducerSequencer;
use disrustor::sequence::Sequence;
use disrustor::sequencer::drained;
use disrustor::sequencer::fits;
use disrustor::sequencer::ClaimedRange;
use disrustor::sequencer::Sequencer;
use disrustor::strategy::BlockingWaitStrategy;
use disrustor::strategy::BusySpinWaitStrategy;
use disrustor::strategy::WaitOutcome;
use disrustor::strategy::WaitStrategy;
use std::sync::Arc;

fn bounds(claim: Option<ClaimedRange>) -> Option<(i64, i64)> {
    claim.map(|range| (range.start(), range.end()))
}

#[test]
fn a_claim_fits_within_one_lap_beyond_the_gate() {
    assert!(fits(3, -1, 4));
    assert!(!fits(4, -1, 4));
    assert!(fits(4, 0, 4));
    assert!(fits(0, -1, 1));
    assert!(!fits(1, -1, 1));
    assert!(fits(1, 0, 1));
    assert!(fits(107, 99, 8));
    assert!(!fits(108, 99, 8));
    assert!(!fits(i64::MAX, i64::MIN, u32::MAX as usize));
    assert!(fits(i64::MIN, i64::MAX, 1));
}

#[test]
fn a_claim_larger_than_the_ring_never_fits_behind_what_was_claimed() {
    for last_claimed in -1..20i64 {
        for gate in -1..=last_claimed {
            assert!(!fits(last_claimed + 5, gate, 4));
        }
    }
}

#[test]
fn a_producer_may_stop_when_caught_up_or_alerted() {
    assert!(drained(false, 9, 9));
    assert!(drained(false, 10, 9));
    assert!(!drained(false, 8, 9));
    assert!(drained(true, 8, 9));
    assert!(drained(false, -1, -1));
    assert!(drained(false, 0, -1));
}

#[test]
fn claims_follow_each_other_without_gap_or_repeat() {
    let mut counter = ClaimCounter::new(8);
    assert_eq!(counter.last_claimed(), -1);
    assert_eq!(bounds(counter.claim_at(3, -1)), Some((0, 2)));
    assert_eq!(bounds(counter.claim_at(1, -1)), Some((3, 3)));
    assert_eq!(bounds(counter.claim_at(4, -1)), Some((4, 7)));
    assert_eq!(counter.last_claimed(), 7);
    assert_eq!(bounds(counter.claim_at(1, -1)), None);
    assert_eq!(counter.last_claimed(), 7);
    assert_eq!(bounds(counter.claim_at(1, 0)), Some((8, 8)));
    assert_eq!(counter.gate(), 0);
    assert_eq!(bounds(counter.claim_at(8, 8)), Some((9, 16)));
    assert_eq!(counter.gate(), 8);
}

#[test]
fn the_cached_gate_decides_without_a_reading() {
    let mut counter = ClaimCounter::new(4);
    assert_eq!(counter.gate(), -1);
    assert!(counter.fits_cached(4));
    assert_eq!(bounds(counter.claim_at(2, -1)), Some((0, 1)));
    assert!(counter.fits_cached(2));
    assert!(!counter.fits_cached(3));
    assert_eq!(bounds(counter.claim_at(3, 1)), Some((2, 4)));
    assert!(counter.fits_cached(1));
    assert!(!counter.fits_cached(2));
}

#[test]
fn single_producer_claims_are_gated_by_the_slowest_consumer() {
    let mut sequencer = SingleProducerSequencer::new(4, BusySpinWaitStrategy::new());
    let fast = Arc::new(Sequence::default());
    let slow = Arc::new(Sequence::default());
    sequencer.add_gating_sequence(&fast);
    sequencer.add_gating_sequence(&slow);
    assert_eq!(bounds(sequencer.try_next(2)), Some((0, 1)));
    assert_eq!(bounds(sequencer.try_next(2)), Some((2, 3)));
    assert_eq!(bounds(sequencer.try_next(1)), None);
    fast.set(3);
    assert_eq!(bounds(sequencer.try_next(1)), None);
    slow.set(0);
    assert_eq!(bounds(sequencer.try_next(2)), None);
    assert_eq!(bounds(sequencer.try_next(1)), Some((4, 4)));
    slow.set(3);
    assert_eq!(bounds(sequencer.try_next(3)), Some((5, 7)));
    assert_eq!(bounds(sequencer.try_next(1)), None);
}

#[test]
fn a_batch_of_the_whole_ring_fits_once_and_then_gates_the_next_claim() {
    let mut sequencer = SingleProducerSequencer::new(8, BusySpinWaitStrategy::new());
    let consumer = Arc::new(Sequence::default());
    sequencer.add_gating_sequence(&consumer);
    assert_eq!(bounds(sequencer.try_next(8)), Some((0, 7)));
    assert_eq!(bounds(sequencer.try_next(1)), None);
    assert_eq!(bounds(sequencer.try_next(1)), None);
    consumer.set(0);
    assert_eq!(bounds(sequencer.try_next(1)), Some((8, 8)));
    assert_eq!(bounds(sequencer.try_next(1)), None);
}

#[test]
fn a_ring_of_one_slot_takes_one_sequence_at_a_time() {
    let mut sequencer = SingleProducerSequencer::new(1, BusySpinWaitStrategy::new());
    let consumer = Arc::new(Sequence::default());
    sequencer.add_gating_sequence(&consumer);
    for sequence in 0..10i64 {
        assert_eq!(bounds(sequencer.try_next(1)), Some((sequence, sequence)));
        assert_eq!(bounds(sequencer.try_next(1)), None);
        consumer.set(sequence);
    }
}

#[test]
fn with_no_consumer_registered_the_gate_reads_as_zero() {
    let mut sequencer = SingleProducerSequencer::new(4, BusySpinWaitStrategy::new());
    assert_eq!(bounds(sequencer.try_next(4)), Some((0, 3)));
    assert_eq!(bounds(sequencer.try_next(1)), Some((4, 4)));
    assert_eq!(bounds(sequencer.try_next(1)), None);
}

#[test]
fn single_producer_publish_moves_the_cursor_to_the_end_of_the_range() {
    let mut sequencer = SingleProducerSequencer::new(8, BlockingWaitStrategy::new());
    let cursor = sequencer.get_cursor();
    assert_eq!(cursor.get(), -1);
    let range = sequencer.try_next(3).unwrap();
    assert_eq!(cursor.get(), -1);
    sequencer.publish(range);
    assert_eq!(cursor.get(), 2);
    let range = sequencer.try_next(1).unwrap();
    sequencer.publish(range);
    assert_eq!(cursor.get(), 3);
    assert!(Arc::ptr_eq(&cursor, &sequencer.get_cursor()));
}

#[test]
fn single_producer_drain_waits_for_the_consumers_and_then_alerts() {
    let mut sequencer = SingleProducerSequencer::new(8, BusySpinWaitStrategy::new());
    let consumer = Arc::new(Sequence::default());
    let barrier = sequencer.create_barrier(&[sequencer.get_cursor()]);
    sequencer.add_gating_sequence(&consumer);
    let range = sequencer.try_next(3).unwrap();
    sequencer.publish(range);
    assert!(!sequencer.try_drain());
    assert_eq!(barrier.wait_once(0), WaitOutcome::Ready(2));
    assert_eq!(barrier.wait_once(3), WaitOutcome::Pending);
    consumer.set(1);
    assert!(!sequencer.try_drain());
    consumer.set(2);
    assert!(sequencer.try_drain());
    assert_eq!(barrier.wait_once(3), WaitOutcome::Alerted);
    assert!(sequencer.try_drain());
}

#[test]
fn drain_returns_once_the_barriers_were_alerted_from_outside() {
    let mut sequencer = SingleProducerSequencer::new(8, BusySpinWaitStrategy::new());
    let consumer = Arc::new(Sequence::default());
    let barrier = sequencer.create_barrier(&[sequencer.get_cursor()]);
    sequencer.add_gating_sequence(&consumer);
    let range = sequencer.try_next(3).unwrap();
    sequencer.publish(range);
    assert!(!sequencer.try_drain());
    barrier.alert();
    assert!(sequencer.try_drain());
}

#[test]
fn a_claim_behind_the_watermark_takes_the_next_sequences() {
    assert_eq!(bounds(claim_after(-1, 4, -1, 4)), Some((0, 3)));
    assert_eq!(bounds(claim_after(-1, 5, -1, 4)), None);
    assert_eq!(bounds(claim_after(3, 1, -1, 4)), None);
    assert_eq!(bounds(claim_after(3, 1, 0, 4)), Some((4, 4)));
    assert_eq!(bounds(claim_after(99, 20, 99, 32)), Some((100, 119)));
    assert_eq!(bounds(claim_after(99, 20, 86, 32)), None);
    assert_eq!(bounds(claim_after(99, 20, 87, 32)), Some((100, 119)));
    assert_eq!(bounds(claim_after(i64::MAX, 1, i64::MAX, 4)), None);
    assert_eq!(bounds(claim_after(i64::MAX - 1, 1, i64::MAX, 4)), Some((i64::MAX, i64::MAX)));
}

#[test]
fn a_failed_move_is_tried_again_only_from_further_on() {
    assert_eq!(next_attempt(3, 5, 9), Some(5));
    assert_eq!(next_attempt(3, 8, 9), Some(8));
    assert_eq!(next_attempt(3, 9, 9), None);
    assert_eq!(next_attempt(3, 12, 9), None);
    assert_eq!(next_attempt(3, 3, 9), None);
    assert_eq!(next_attempt(3, 2, 9), None);
}

#[test]
fn multi_producer_has_capacity_within_one_lap_of_the_gate() {
    let sequencer = MultiProducerSequencer::new(8, BusySpinWaitStrategy::new());
    assert!(sequencer.has_capacity(-1, 8, -1));
    assert!(!sequencer.has_capacity(-1, 9, -1));
    assert!(!sequencer.has_capacity(7, 1, -1));
    assert!(sequencer.has_capacity(7, 1, 0));
    assert!(sequencer.has_capacity(7, 8, 7));
}

#[test]
fn claims_of_two_producers_never_overlap() {
    let mut first = MultiProducerSequencer::new(64, BusySpinWaitStrategy::new());
    let consumer = Arc::new(Sequence::default());
    first.add_gating_sequence(&consumer);
    let mut second = first.handle();
    let mut claimed: Vec<(i64, i64)> = Vec::new();
    for round in 0..8usize {
        claimed.push(bounds(first.try_next(1 + round % 3)).unwrap());
        claimed.push(bounds(second.try_next(2)).unwrap());
    }
    let mut expected_start = 0;
    for (start, end) in claimed {
        assert_eq!(start, expected_start);
        assert!(start <= end);
        expected_start = end + 1;
    }
}

#[test]
fn multi_producer_claims_are_gated_by_the_consumers() {
    let mut first = MultiProducerSequencer::new(4, BusySpinWaitStrategy::new());
    let consumer = Arc::new(Sequence::default());
    first.add_gating_sequence(&consumer);
    let mut second = first.handle();
    assert_eq!(bounds(first.try_next(3)), Some((0, 2)));
    assert_eq!(bounds(second.try_next(2)), None);
    assert_eq!(bounds(second.try_next(1)), Some((3, 3)));
    assert_eq!(bounds(first.try_next(1)), None);
    consumer.set(1);
    assert_eq!(bounds(first.try_next(3)), None);
    assert_eq!(bounds(first.try_next(2)), Some((4, 5)));
}

#[test]
fn the_cursor_moves_only_over_what_is_published_without_a_gap() {
    let mut first = MultiProducerSequencer::new(16, BusySpinWaitStrategy::new());
    let mut second = first.handle();
    let cursor = first.get_cursor();
    let early = first.try_next(3).unwrap();
    let middle = second.try_next(2).unwrap();
    let late = first.try_next(4).unwrap();
    assert_eq!(cursor.get(), -1);
    assert_eq!(second.publish(middle), None);
    assert_eq!(cursor.get(), -1);
    assert_eq!(first.publish(late), None);
    assert_eq!(cursor.get(), -1);
    assert_eq!(first.publish(early), Some(8));
    assert_eq!(cursor.get(), 8);
    let next = second.try_next(1).unwrap();
    assert_eq!(second.publish(next), Some(9));
    assert_eq!(cursor.get(), 9);
}

#[test]
fn a_single_published_sequence_moves_the_cursor() {
    let mut sequencer = MultiProducerSequencer::new(8, BusySpinWaitStrategy::new());
    let cursor = sequencer.get_cursor();
    let range = sequencer.try_next(1).unwrap();
    assert_eq!(sequencer.publish(range), Some(0));
    assert_eq!(cursor.get(), 0);
    let range = sequencer.try_next(1).unwrap();
    assert_eq!(sequencer.publish(range), Some(1));
    assert_eq!(cursor.get(), 1);
}

#[test]
fn the_marks_of_a_lap_are_free_again_for_the_next_lap() {
    let mut sequencer = MultiProducerSequencer::new(4, BusySpinWaitStrategy::new());
    let consumer = Arc::new(Sequence::default());
    sequencer.add_gating_sequence(&consumer);
    let cursor = sequencer.get_cursor();
    for lap in 0..5i64 {
        let range = sequencer.try_next(4).unwrap();
        assert_eq!((range.start(), range.end()), (lap * 4, lap * 4 + 3));
        assert_eq!(sequencer.published_marks(lap * 4 - 1, 4), vec![false]);
        sequencer.publish(range);
        assert_eq!(cursor.get(), lap * 4 + 3);
        assert_eq!(sequencer.published_marks(lap * 4 - 1, 4), vec![false]);
        consumer.set(lap * 4 + 3);
    }
}

#[test]
fn a_scan_ends_on_the_first_sequence_that_is_not_published() {
    let mut first = MultiProducerSequencer::new(8, BusySpinWaitStrategy::new());
    let mut second = first.handle();
    let early = first.try_next(2).unwrap();
    let late = second.try_next(3).unwrap();
    second.publish(late);
    assert_eq!(first.published_marks(-1, 5), vec![false]);
    assert_eq!(first.published_marks(1, 3), vec![true, true, true]);
    assert_eq!(first.published_marks(1, 2), vec![true, true]);
    assert_eq!(first.published_marks(1, 6), vec![true, true, true, false]);
    assert_eq!(first.published_marks(1, 0), Vec::<bool>::new());
    first.publish(early);
    assert_eq!(first.get_cursor().get(), 4);
    assert_eq!(first.published_marks(-1, 5), vec![false]);
}

#[test]
fn a_run_ends_before_the_first_mark_that_is_not_set() {
    assert_eq!(run_length(&[]), 0);
    assert_eq!(run_length(&[false]), 0);
    assert_eq!(run_length(&[true]), 1);
    assert_eq!(run_length(&[true, true, true]), 3);
    assert_eq!(run_length(&[true, true, false, true]), 2);
    assert_eq!(run_length(&[false, true, true]), 0);
}

#[test]
fn the_cursor_moves_forward_or_not_at_all() {
    assert_eq!(cursor_move(-1, 0), Some((-1, 0)));
    assert_eq!(cursor_move(-1, 3), Some((-1, 3)));
    assert_eq!(cursor_move(7, 7), None);
    assert_eq!(cursor_move(7, 6), None);
    assert_eq!(cursor_move(7, 8), Some((7, 8)));
    assert_eq!(cursor_move(i64::MAX, i64::MAX), None);
}

#[test]
fn a_scan_reads_up_to_the_watermark_and_not_over_a_lap() {
    assert_eq!(marks_to_read(-1, -1, 8), 0);
    assert_eq!(marks_to_read(-1, 0, 8), 1);
    assert_eq!(marks_to_read(-1, 7, 8), 8);
    assert_eq!(marks_to_read(-1, 20, 8), 8);
    assert_eq!(marks_to_read(5, 3, 8), 0);
    assert_eq!(marks_to_read(5, 9, 8), 4);
    assert_eq!(marks_to_read(i64::MIN, i64::MAX, 16), 16);
}

#[test]
fn out_of_order_publication_moves_the_cursor_with_the_last_gap() {
    let mut sequencer = MultiProducerSequencer::new(8, BusySpinWaitStrategy::new());
    let consumer = Arc::new(Sequence::default());
    sequencer.add_gating_sequence(&consumer);
    let cursor = sequencer.get_cursor();
    let first = sequencer.try_next(2).unwrap();
    let second = sequencer.try_next(2).unwrap();
    assert_eq!((first.start(), first.end()), (0, 1));
    assert_eq!((second.start(), second.end()), (2, 3));
    assert_eq!(sequencer.publish(second), None);
    assert_eq!(cursor.get(), -1);
    assert_eq!(sequencer.publish(first), Some(3));
    assert_eq!(cursor.get(), 3);
}

#[test]
fn the_cursor_goes_to_the_last_sequence_of_the_run_of_marks() {
    assert_eq!(move_over(-1, &[true]), Some((-1, 0)));
    assert_eq!(move_over(-1, &[true, true, true, true]), Some((-1, 3)));
    assert_eq!(move_over(-1, &[false]), None);
    assert_eq!(move_over(-1, &[]), None);
    assert_eq!(move_over(7, &[true, true, false]), Some((7, 9)));
    assert_eq!(move_over(7, &[false, true, true]), None);
    assert_eq!(move_over(7, &[true, false, true]), Some((7, 8)));
    assert_eq!(move_over(i64::MAX - 2, &[true, true]), Some((i64::MAX - 2, i64::MAX)));
    assert_eq!(move_over(i64::MIN, &[true]), Some((i64::MIN, i64::MIN + 1)));
}

#[test]
fn a_move_passes_the_sequences_behind_where_it_starts() {
    let passed = passed_by(-1, 0);
    assert_eq!((passed.start(), passed.end()), (0, 0));
    let passed = passed_by(-1, 3);
    assert_eq!((passed.start(), passed.end()), (0, 3));
    let passed = passed_by(7, 9);
    assert_eq!((passed.start(), passed.end()), (8, 9));
}

#[test]
fn a_move_clears_the_marks_it_passes_and_not_the_one_a_lap_ahead() {
    let mut first = MultiProducerSequencer::new(4, BusySpinWaitStrategy::new());
    let consumer = Arc::new(Sequence::default());
    first.add_gating_sequence(&consumer);
    let mut second = first.handle();
    let mut third = first.handle();
    let lap = first.try_next(4).unwrap();
    assert_eq!(first.publish(lap), Some(3));
    assert_eq!(first.published_marks(-1, 4), vec![false]);
    assert_eq!(first.published_marks(0, 3), vec![false]);
    assert_eq!(first.published_marks(2, 1), vec![false]);
    consumer.set(3);
    let early = first.try_next(1).unwrap();
    let middle = second.try_next(2).unwrap();
    let late = third.try_next(1).unwrap();
    assert_eq!((early.start(), early.end()), (4, 4));
    assert_eq!((middle.start(), middle.end()), (5, 6));
    assert_eq!((late.start(), late.end()), (7, 7));
    assert_eq!(third.publish(late), None);
    assert_eq!(first.publish(early), Some(4));
    assert_eq!(first.published_marks(6, 1), vec![true]);
    assert_eq!(second.publish(middle), Some(7));
    assert_eq!(first.get_cursor().get(), 7);
}

#[test]
fn a_single_producer_sets_out_for_the_end_of_its_range() {
    let mut sequencer = SingleProducerSequencer::new(8, BusySpinWaitStrategy::new());
    let cursor = sequencer.get_cursor();
    let range = sequencer.try_next(3).unwrap();
    assert_eq!(sequencer.publish(range), Some(2));
    assert_eq!(cursor.get(), 2);
    let range = sequencer.try_next(1).unwrap();
    assert_eq!(sequencer.publish(range), Some(3));
    assert_eq!(cursor.get(), 3);
}

#[test]
fn multi_producer_drain_waits_for_the_consumers_and_then_alerts() {
    let mut sequencer = MultiProducerSequencer::new(8, BlockingWaitStrategy::new());
    let consumer = Arc::new(Sequence::default());
    let barrier = sequencer.create_barrier(&[sequencer.get_cursor()]);
    sequencer.add_gating_sequence(&consumer);
    let range = sequencer.try_next(2).unwrap();
    sequencer.publish(range);
    assert!(!sequencer.try_drain());
    assert_eq!(barrier.wait_once(0), WaitOutcome::Ready(1));
    consumer.set(1);
    assert!(sequencer.try_drain());
    assert_eq!(barrier.wait_once(2), WaitOutcome::Alerted);
}

#[test]
fn a_producer_that_has_claimed_nothing_is_drained_at_once() {
    let sequencer = SingleProducerSequencer::new(8, BusySpinWaitStrategy::new());
    assert!(sequencer.try_drain());
    let mut gated = SingleProducerSequencer::new(8, BusySpinWaitStrategy::new());
    let consumer = Arc::new(Sequence::default());
    gated.add_gating_sequence(&consumer);
    assert!(gated.try_drain());
}
