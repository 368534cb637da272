use disrustor::sequence::lowest;
use disrustor::sequence::min_cursor_sequence;
use disrustor::sequence::read_cursors;
use disrustor::sequence::share_all;
use disrustor::sequence::Sequence;
use disrustor::sequence::SequenceGuard;
use disrustor::sequence::INITIAL_CURSOR;
use std::sync::Arc;

#[test]
fn offset_can_be_used_as_i64() {
    let o = SequenceGuard::new(42);
    assert_eq!(i64::from(&o), 42);
}

#[test]
fn offset_renders_like_i64() {
    let o = SequenceGuard::new(42);
    assert_eq!(format!("{}", o.render()), "42");
    assert_eq!(format!("{:?}", i64::from(&o)), "42");
    assert_eq!(format!("{:#?}", i64::from(&o)), "42");
}

#[test]
fn guard_can_be_used_as_i64_through_a_mutable_borrow() {
    let mut o = SequenceGuard::new(-7);
    assert_eq!(i64::from(&mut o), -7);
    assert_eq!(o.render(), "-7");
}

#[test]
fn a_new_sequence_starts_before_the_first_event() {
    assert_eq!(INITIAL_CURSOR, -1);
    assert_eq!(Sequence::default().get(), -1);
    assert_eq!(Sequence::new(5).get(), 5);
}

#[test]
fn set_is_what_get_then_reads() {
    let s = Sequence::default();
    s.set(17);
    assert_eq!(s.get(), 17);
    s.set(18);
    assert_eq!(s.get(), 18);
}

#[test]
fn compare_exchange_stores_only_on_the_expected_value() {
    let s = Sequence::new(3);
    assert!(!s.compare_exchange(2, 9));
    assert_eq!(s.get(), 3);
    assert!(s.compare_exchange(3, 9));
    assert_eq!(s.get(), 9);
    assert!(s.compare_exchange(9, 9));
    assert_eq!(s.get(), 9);
}

#[test]
fn lowest_of_no_values_is_zero() {
    assert_eq!(lowest(&[]), 0);
}

#[test]
fn lowest_finds_the_minimum_wherever_it_stands() {
    assert_eq!(lowest(&[5]), 5);
    assert_eq!(lowest(&[5, 3, 9]), 3);
    assert_eq!(lowest(&[-1, 3, 9]), -1);
    assert_eq!(lowest(&[7, 7, 2]), 2);
    assert_eq!(lowest(&[i64::MAX, i64::MIN]), i64::MIN);
}

#[test]
fn min_cursor_sequence_reads_the_slowest_cursor() {
    let a = Arc::new(Sequence::new(12));
    let b = Arc::new(Sequence::new(4));
    let c = Arc::new(Sequence::new(8));
    let all = vec![a.clone(), b.clone(), c.clone()];
    assert_eq!(min_cursor_sequence(&all), 4);
    b.set(20);
    assert_eq!(min_cursor_sequence(&all), 8);
    assert_eq!(min_cursor_sequence(&all[..1]), 12);
}

#[test]
fn min_cursor_sequence_of_no_cursor_is_zero() {
    let none: Vec<Arc<Sequence>> = Vec::new();
    assert_eq!(min_cursor_sequence(&none), 0);
}

#[test]
fn shared_handles_are_the_same_counters() {
    let a = Arc::new(Sequence::new(1));
    let b = Arc::new(Sequence::new(2));
    let same = share_all(&[a.clone(), b.clone()]);
    assert_eq!(same.len(), 2);
    assert!(Arc::ptr_eq(&same[0], &a));
    assert!(Arc::ptr_eq(&same[1], &b));
    a.set(10);
    assert_eq!(same[0].get(), 10);
}

#[test]
fn the_cursors_are_read_in_their_order() {
    let a = Arc::new(Sequence::new(12));
    let b = Arc::new(Sequence::new(4));
    let c = Arc::new(Sequence::default());
    assert_eq!(read_cursors(&[a.clone(), b.clone(), c.clone()]), vec![12, 4, -1]);
    c.set(30);
    assert_eq!(read_cursors(&[c, a]), vec![30, 12]);
    assert_eq!(read_cursors(&[]), Vec::<i64>::new());
}
