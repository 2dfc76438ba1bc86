use bloomset::filter::{filter_position, probe, record, FILTER_BITS};
use bloomset::word::{read_filter_fragment, read_value};

#[test]
fn position_is_the_hash_modulo_the_width() {
    assert_eq!(FILTER_BITS, 112);
    assert_eq!(filter_position(0), 0);
    assert_eq!(filter_position(111), 111);
    assert_eq!(filter_position(112), 0);
    assert_eq!(filter_position(113), 1);
    assert_eq!(filter_position(223), 111);
    assert_eq!(filter_position(224), 0);
    assert_eq!(filter_position(255), 31);
    assert_eq!(filter_position(u64::MAX), 15);
}

#[test]
fn empty_filter_denies_every_position() {
    for index in 0..112u64 {
        assert!(!probe(0, 0, index));
        assert!(!probe(0xFF, 0xFF, index));
    }
}

#[test]
fn low_positions_live_in_the_capacity_word() {
    let mut count_word = 3u64;
    let mut capacity_word = 8u64;
    assert!(!record(&mut count_word, &mut capacity_word, 0));
    assert_eq!(count_word, 3);
    assert_eq!(capacity_word, 0x108);
    assert!(!record(&mut count_word, &mut capacity_word, 55));
    assert_eq!(count_word, 3);
    assert_eq!(capacity_word, 0x8000_0000_0000_0108);
    assert!(probe(count_word, capacity_word, 0));
    assert!(probe(count_word, capacity_word, 55));
    assert!(!probe(count_word, capacity_word, 56));
    assert!(!probe(count_word, capacity_word, 111));
}

#[test]
fn high_positions_live_in_the_count_word() {
    let mut count_word = 3u64;
    let mut capacity_word = 8u64;
    assert!(!record(&mut count_word, &mut capacity_word, 56));
    assert_eq!(count_word, 0x103);
    assert_eq!(capacity_word, 8);
    assert!(!record(&mut count_word, &mut capacity_word, 111));
    assert_eq!(count_word, 0x8000_0000_0000_0103);
    assert_eq!(capacity_word, 8);
    assert!(probe(count_word, capacity_word, 56));
    assert!(probe(count_word, capacity_word, 111));
    assert!(!probe(count_word, capacity_word, 0));
    assert!(!probe(count_word, capacity_word, 55));
}

#[test]
fn record_says_whether_the_bit_was_set() {
    let mut count_word = 0u64;
    let mut capacity_word = 0u64;
    for index in 0..112u64 {
        assert!(!record(&mut count_word, &mut capacity_word, index));
        assert!(record(&mut count_word, &mut capacity_word, index));
        for other in 0..112u64 {
            assert_eq!(probe(count_word, capacity_word, other), other <= index);
        }
        assert_eq!(read_value(count_word), 0);
        assert_eq!(read_value(capacity_word), 0);
    }
    assert_eq!(read_filter_fragment(count_word), 0x00FF_FFFF_FFFF_FFFF);
    assert_eq!(read_filter_fragment(capacity_word), 0x00FF_FFFF_FFFF_FFFF);
}
