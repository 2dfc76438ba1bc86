use bloomset::word::{
    read_filter_fragment, read_value, set_filter_bits, write_value, FILTER_MASK, FRAGMENT_BITS,
    MAX_FRAGMENT, MAX_VALUE, VALUE_BITS, VALUE_MASK,
};

#[test]
fn constants_split_the_word() {
    assert_eq!(VALUE_BITS + FRAGMENT_BITS, 64);
    assert_eq!(VALUE_MASK, (1u64 << VALUE_BITS) - 1);
    assert_eq!(FILTER_MASK, !VALUE_MASK);
    assert_eq!(MAX_VALUE as u64, VALUE_MASK);
    assert_eq!(MAX_FRAGMENT, FILTER_MASK >> VALUE_BITS);
}

#[test]
fn read_value_masks_the_low_bits() {
    assert_eq!(read_value(0), 0);
    assert_eq!(read_value(0xABCD_EF01_2345_6789), 0x89);
    assert_eq!(read_value(0xFFFF_FFFF_FFFF_FF00), 0);
    assert_eq!(read_value(u64::MAX), 255);
}

#[test]
fn write_value_keeps_the_fragment() {
    assert_eq!(write_value(0, 0), 0);
    assert_eq!(write_value(0, 255), 255);
    assert_eq!(write_value(0xFFFF_FFFF_FFFF_FF00, 7), 0xFFFF_FFFF_FFFF_FF07);
    assert_eq!(write_value(0xABCD_EF01_2345_6789, 0x10), 0xABCD_EF01_2345_6710);
    assert_eq!(write_value(u64::MAX, 0), 0xFFFF_FFFF_FFFF_FF00);
}

#[test]
fn read_filter_fragment_takes_the_high_bits() {
    assert_eq!(read_filter_fragment(0), 0);
    assert_eq!(read_filter_fragment(0xFF), 0);
    assert_eq!(read_filter_fragment(0x100), 1);
    assert_eq!(read_filter_fragment(0xABCD_EF01_2345_6789), 0x00AB_CDEF_0123_4567);
    assert_eq!(read_filter_fragment(u64::MAX), MAX_FRAGMENT);
}

#[test]
fn set_filter_bits_only_adds_bits() {
    assert_eq!(set_filter_bits(0, 0), 0);
    assert_eq!(set_filter_bits(0x1234, 0b101), 0x1734);
    assert_eq!(set_filter_bits(0x42, 1), 0x142);
    assert_eq!(set_filter_bits(0x142, 1), 0x142);
    assert_eq!(set_filter_bits(0xFF, MAX_FRAGMENT), u64::MAX);
    assert_eq!(set_filter_bits(0x07, 1 << 55), 0x8000_0000_0000_0007);
}

#[test]
fn value_and_fragment_do_not_disturb_each_other() {
    let mut word = 0u64;
    for step in 0..56u64 {
        word = set_filter_bits(word, 1 << step);
        word = write_value(word, (step as usize * 5) % 256);
        assert_eq!(read_value(word), (step as usize * 5) % 256);
        assert_eq!(read_filter_fragment(word), (1u64 << (step + 1)) - 1);
    }
}
