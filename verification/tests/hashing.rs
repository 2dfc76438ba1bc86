use bloomset::element::{hash, same};
use bloomset::{BloomHasher, Element};
use std::hash::{Hash, Hasher};

fn std_hash<T: Hash>(value: &T) -> u64 {
    let mut hasher = BloomHasher::default();
    value.hash(&mut hasher);
    hasher.finish()
}

#[test]
fn fresh_hasher_finishes_with_zero() {
    assert_eq!(BloomHasher::default().finish(), 0);
}

#[test]
fn hasher_folds_bytes_by_exclusive_or() {
    let mut hasher = BloomHasher::default();
    hasher.write(&[1, 2, 4]);
    assert_eq!(hasher.finish(), 7);
    hasher.write(&[]);
    assert_eq!(hasher.finish(), 7);
    hasher.write(&[0xF0]);
    assert_eq!(hasher.finish(), 0xF7);
    hasher.write(&[0xF7]);
    assert_eq!(hasher.finish(), 0);
}

#[test]
fn hasher_forgets_the_order_of_bytes() {
    let mut forward = BloomHasher::default();
    forward.write(&[3, 200, 17]);
    let mut backward = BloomHasher::default();
    backward.write(&[17]);
    backward.write(&[200, 3]);
    assert_eq!(forward.finish(), backward.finish());
    assert_eq!(forward.finish(), 3 ^ 200 ^ 17);
}

#[test]
fn feeding_adds_the_digest_to_the_state() {
    let mut hasher = BloomHasher::default();
    hasher.write(&[0x55]);
    0x0F0Fu16.feed(&mut hasher);
    assert_eq!(hasher.finish(), 0x55);
    7u8.feed(&mut hasher);
    assert_eq!(hasher.finish(), 0x52);
}

#[test]
fn hash_of_small_numbers() {
    assert_eq!(hash(&0u8), 0);
    assert_eq!(hash(&255u8), 255);
    assert_eq!(hash(&0x0102u16), 3);
    assert_eq!(hash(&0x0102_0408u32), 15);
    assert_eq!(hash(&0x8040_2010_0804_0201u64), 255);
    assert_eq!(hash(&0x0101usize), 0);
    assert_eq!(hash(&-1i8), 255);
    assert_eq!(hash(&-1i16), 0);
    assert_eq!(hash(&-1i32), 0);
    assert_eq!(hash(&-2i64), 1);
    assert_eq!(hash(&-256isize), 255);
    assert_eq!(hash(&31i32), 31);
}

#[test]
fn hash_is_what_the_hasher_gets_from_std() {
    for value in [0u8, 1, 2, 127, 128, 255] {
        assert_eq!(hash(&value), std_hash(&value));
    }
    for value in [0u16, 1, 255, 256, 0x1234, u16::MAX] {
        assert_eq!(hash(&value), std_hash(&value));
    }
    for value in [0u32, 1, 0x0102_0304, 0xDEAD_BEEF, u32::MAX] {
        assert_eq!(hash(&value), std_hash(&value));
    }
    for value in [0u64, 1, 0x0102_0304_0506_0708, 0xDEAD_BEEF_CAFE_F00D, u64::MAX] {
        assert_eq!(hash(&value), std_hash(&value));
    }
    for value in [0usize, 1, 0x0102_0304, usize::MAX] {
        assert_eq!(hash(&value), std_hash(&value));
    }
    for value in [0i8, 1, -1, i8::MIN, i8::MAX] {
        assert_eq!(hash(&value), std_hash(&value));
    }
    for value in [0i16, 1, -1, -300, i16::MIN, i16::MAX] {
        assert_eq!(hash(&value), std_hash(&value));
    }
    for value in [0i32, 1, -1, -70000, i32::MIN, i32::MAX] {
        assert_eq!(hash(&value), std_hash(&value));
    }
    for value in [0i64, 1, -1, -5_000_000_000, i64::MIN, i64::MAX] {
        assert_eq!(hash(&value), std_hash(&value));
    }
    for value in [0isize, 1, -1, -70000, isize::MIN, isize::MAX] {
        assert_eq!(hash(&value), std_hash(&value));
    }
}

#[test]
fn same_is_equality() {
    assert!(same(&3u8, &3u8));
    assert!(!same(&3u8, &4u8));
    assert!(same(&-1i64, &-1i64));
    assert!(!same(&0x0100u16, &0x0001u16));
}
