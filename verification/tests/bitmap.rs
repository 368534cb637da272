use disrustor::bitmap::clearing_mask;
use disrustor::bitmap::empty_word;
use disrustor::bitmap::locate;
use disrustor::bitmap::log2;
use disrustor::bitmap::word_has;
use disrustor::bitmap::BitMap;

#[test]
fn is_unset_by_default() {
    let bitmap = BitMap::new(100);
    for n in 0..100 {
        assert!(!bitmap.is_set(n));
    }
}

#[test]
fn sets_and_gets_individual_bits() {
    let bitmap = BitMap::new(100);
    for n in 0..100 {
        if n % 2 == 0 {
            bitmap.set(n);
        } else {
            bitmap.unset(n);
        }
    }

    for n in 0..100 {
        assert_eq!(bitmap.is_set(n), n % 2 == 0);
    }
}

#[test]
fn every_sequence_of_a_lap_has_a_bit_of_its_own() {
    let bitmap = BitMap::new(256);
    for n in 0..256 {
        bitmap.set(n);
        for m in 0..256 {
            assert_eq!(bitmap.is_set(m), m == n);
        }
        bitmap.unset(n);
    }
}

#[test]
fn unset_clears_one_bit_and_leaves_the_others() {
    let bitmap = BitMap::new(128);
    for n in 0..128 {
        bitmap.set(n);
    }
    bitmap.unset(64);
    bitmap.unset(3);
    for n in 0..128 {
        assert_eq!(bitmap.is_set(n), n != 64 && n != 3);
    }
}

#[test]
fn a_sequence_one_lap_on_has_the_same_bit() {
    let bitmap = BitMap::new(64);
    bitmap.set(5);
    assert!(bitmap.is_set(69));
    bitmap.unset(133);
    assert!(!bitmap.is_set(5));
}

#[test]
fn a_map_of_one_bit_works() {
    let bitmap = BitMap::new(1);
    assert!(!bitmap.is_set(0));
    bitmap.set(0);
    assert!(bitmap.is_set(0));
    assert!(bitmap.is_set(9));
    bitmap.unset(0);
    assert!(!bitmap.is_set(0));
}

#[test]
fn log2_is_the_whole_part_of_the_logarithm() {
    assert_eq!(log2(1), 0);
    assert_eq!(log2(2), 1);
    assert_eq!(log2(3), 1);
    assert_eq!(log2(4), 2);
    assert_eq!(log2(64), 6);
    assert_eq!(log2(65), 6);
    assert_eq!(log2(127), 6);
    assert_eq!(log2(128), 7);
    assert_eq!(log2(i64::MAX), 62);
}

#[test]
fn locate_splits_a_sequence_into_word_and_bit() {
    assert_eq!(locate(0, 255, 6, 63), (0, 1));
    assert_eq!(locate(1, 255, 6, 63), (0, 2));
    assert_eq!(locate(63, 255, 6, 63), (0, 1u64 << 63));
    assert_eq!(locate(64, 255, 6, 63), (1, 1));
    assert_eq!(locate(130, 255, 6, 63), (2, 4));
    assert_eq!(locate(255, 255, 6, 63), (3, 1u64 << 63));
    assert_eq!(locate(256, 255, 6, 63), (0, 1));
    assert_eq!(locate(70, 63, 6, 63), (0, 64));
}

#[test]
fn a_word_has_a_bit_where_the_two_overlap() {
    assert!(word_has(1, 1));
    assert!(!word_has(0, 1));
    assert!(!word_has(2, 1));
    assert!(word_has(0b1010, 0b1000));
    assert!(!word_has(0b1010, 0b0100));
    assert!(word_has(u64::MAX, 1u64 << 63));
    assert!(!word_has(u64::MAX >> 1, 1u64 << 63));
    assert!(!word_has(u64::MAX, 0));
}

#[test]
fn a_clearing_mask_takes_out_its_bit_and_no_other() {
    assert_eq!(clearing_mask(1), u64::MAX - 1);
    assert_eq!(clearing_mask(1u64 << 63), u64::MAX >> 1);
    assert_eq!(clearing_mask(0), u64::MAX);
    assert_eq!(0b1111 & clearing_mask(0b0100), 0b1011);
    assert_eq!(0b1011 & clearing_mask(0b0100), 0b1011);
    for n in 0..64 {
        let bit = 1u64 << n;
        assert_eq!(u64::MAX & clearing_mask(bit), u64::MAX - bit);
        assert!(!word_has(u64::MAX & clearing_mask(bit), bit));
    }
}

#[test]
fn a_map_starts_from_words_without_a_bit() {
    assert_eq!(empty_word(), 0);
    for n in 0..64 {
        assert!(!word_has(empty_word(), 1u64 << n));
    }
}

#[test]
fn set_touches_the_one_bit_of_its_sequence() {
    let bitmap = BitMap::new(128);
    bitmap.set(0);
    assert!(bitmap.is_set(0));
    assert!(!bitmap.is_set(1));
    assert!(!bitmap.is_set(2));
    assert!(!bitmap.is_set(64));
    assert!(!bitmap.is_set(127));
}
