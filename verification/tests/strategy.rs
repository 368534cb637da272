use disrustor::barrier::AlertFlag;
use disrustor::barrier::ProcessingSequenceBarrier;
use disrustor::barrier::SequenceBarrier;
use disrustor::sequence::Sequence;
use disrustor::strategy::BlockingWaitStrategy;
use disrustor::strategy::BusySpinWaitStrategy;
use disrustor::strategy::SpinLoopWaitStrategy;
use disrustor::strategy::WaitOutcome;
use disrustor::strategy::WaitStrategy;
use std::sync::Arc;

#[test]
fn a_spinning_round_looks_at_the_cursors_first() {
    assert_eq!(WaitOutcome::of_spin(5, 5, false), WaitOutcome::Ready(5));
    assert_eq!(WaitOutcome::of_spin(5, 9, false), WaitOutcome::Ready(9));
    assert_eq!(WaitOutcome::of_spin(5, 9, true), WaitOutcome::Ready(9));
    assert_eq!(WaitOutcome::of_spin(5, 4, true), WaitOutcome::Alerted);
    assert_eq!(WaitOutcome::of_spin(5, 4, false), WaitOutcome::Pending);
}

#[test]
fn a_blocking_round_looks_at_the_alert_first() {
    assert_eq!(WaitOutcome::of_blocking(5, 5, false), WaitOutcome::Ready(5));
    assert_eq!(WaitOutcome::of_blocking(5, 9, false), WaitOutcome::Ready(9));
    assert_eq!(WaitOutcome::of_blocking(5, 9, true), WaitOutcome::Alerted);
    assert_eq!(WaitOutcome::of_blocking(5, 4, true), WaitOutcome::Alerted);
    assert_eq!(WaitOutcome::of_blocking(5, 4, false), WaitOutcome::Pending);
}

#[test]
fn spin_wait_reports_the_lowest_cursor_once_it_has_reached_the_target() {
    let strategy = BusySpinWaitStrategy::new();
    let fast = Arc::new(Sequence::new(10));
    let slow = Arc::new(Sequence::new(2));
    let deps = vec![fast.clone(), slow.clone()];
    assert_eq!(strategy.wait_once(3, &deps, || false), WaitOutcome::Pending);
    assert_eq!(strategy.wait_once(3, &deps, || true), WaitOutcome::Alerted);
    slow.set(3);
    assert_eq!(strategy.wait_once(3, &deps, || false), WaitOutcome::Ready(3));
    slow.set(20);
    assert_eq!(strategy.wait_once(3, &deps, || true), WaitOutcome::Ready(10));
    strategy.signal();
}

#[test]
fn the_spinning_strategy_goes_by_two_names() {
    let strategy: SpinLoopWaitStrategy = SpinLoopWaitStrategy::new();
    let cursor = Arc::new(Sequence::new(0));
    assert_eq!(strategy.wait_once(0, &[cursor], || false), WaitOutcome::Ready(0));
}

#[test]
fn blocking_wait_returns_without_parking_when_ready_or_alerted() {
    let strategy = BlockingWaitStrategy::new();
    let cursor = Arc::new(Sequence::new(7));
    let deps = vec![cursor.clone()];
    assert_eq!(strategy.wait_once(7, &deps, || false), WaitOutcome::Ready(7));
    assert_eq!(strategy.wait_once(4, &deps, || false), WaitOutcome::Ready(7));
    assert_eq!(strategy.wait_once(4, &deps, || true), WaitOutcome::Alerted);
    assert_eq!(strategy.wait_once(8, &deps, || true), WaitOutcome::Alerted);
    strategy.signal();
    assert_eq!(strategy.wait_once(7, &deps, || false), WaitOutcome::Ready(7));
}

#[test]
fn a_barrier_waits_on_its_cursors_until_it_is_alerted() {
    let upstream = Arc::new(Sequence::default());
    let barrier = ProcessingSequenceBarrier::new(
        Arc::new(BusySpinWaitStrategy::new()),
        vec![upstream.clone()],
        Arc::new(AlertFlag::new()),
    );
    assert_eq!(barrier.wait_once(0), WaitOutcome::Pending);
    upstream.set(4);
    assert_eq!(barrier.wait_once(0), WaitOutcome::Ready(4));
    assert_eq!(barrier.wait_once(5), WaitOutcome::Pending);
    barrier.alert();
    assert_eq!(barrier.wait_once(5), WaitOutcome::Alerted);
    barrier.alert();
    assert_eq!(barrier.wait_once(5), WaitOutcome::Alerted);
    assert_eq!(barrier.wait_once(4), WaitOutcome::Ready(4));
    barrier.signal();
}

#[test]
fn an_alert_flag_stays_raised() {
    let flag = AlertFlag::new();
    assert!(!flag.is_raised());
    flag.raise();
    assert!(flag.is_raised());
    flag.raise();
    assert!(flag.is_raised());
}

#[test]
fn barriers_of_one_flag_are_alerted_together() {
    let flag = Arc::new(AlertFlag::new());
    let cursor = Arc::new(Sequence::default());
    let first = ProcessingSequenceBarrier::new(
        Arc::new(BlockingWaitStrategy::new()),
        vec![cursor.clone()],
        flag.clone(),
    );
    let second = ProcessingSequenceBarrier::new(
        Arc::new(BusySpinWaitStrategy::new()),
        vec![cursor.clone()],
        flag.clone(),
    );
    first.alert();
    assert_eq!(first.wait_once(0), WaitOutcome::Alerted);
    assert_eq!(second.wait_once(0), WaitOutcome::Alerted);
}

#[test]
fn a_round_on_no_cursor_reads_zero() {
    let strategy = BusySpinWaitStrategy::new();
    let none: Vec<Arc<Sequence>> = Vec::new();
    assert_eq!(strategy.wait_once(0, &none, || false), WaitOutcome::Ready(0));
    assert_eq!(strategy.wait_once(-3, &none, || true), WaitOutcome::Ready(0));
    assert_eq!(strategy.wait_once(1, &none, || false), WaitOutcome::Pending);
    assert_eq!(strategy.wait_once(1, &none, || true), WaitOutcome::Alerted);
    let blocking = BlockingWaitStrategy::new();
    assert_eq!(blocking.wait_once(0, &none, || false), WaitOutcome::Ready(0));
    assert_eq!(blocking.wait_once(0, &none, || true), WaitOutcome::Alerted);
}
