use bit_fiddler::Direction::{Forward, Reversed};
use bit_fiddler::Selector;
use bit_fiddler::{
    check_bitmap_impl_by_type, check_bitmap_impl_by_value, is_set, mask, max_bits, max_bits_of,
    set_in_place, toggle, toggle_in_place, unset, unset_in_place,
};

#[test]
fn set_then_is_set_every_position() {
    for p in 0..8u32 {
        let w = bit_fiddler::ops::set(0u8, &Selector::Single(p), Forward);
        assert!(is_set(w, &Selector::Single(p), Forward));
        assert_eq!(w, 1u8 << p);
    }
    for p in 0..128u32 {
        let w = bit_fiddler::ops::set(0u128, &Selector::Single(p), Forward);
        assert!(is_set(w, &Selector::Single(p), Forward));
        assert_eq!(w, 1u128 << p);
    }
}

#[test]
fn unset_after_set_matches_unset() {
    let words: [u8; 4] = [0, 0b_1010_0101, 0b_0001_0000, 0xFF];
    for w in words {
        for p in 0..8u32 {
            let sel = Selector::Single(p);
            let after = unset(bit_fiddler::ops::set(w, &sel, Forward), &sel, Forward);
            assert_eq!(after, unset(w, &sel, Forward));
            assert_eq!(after, w & !(1u8 << p));
        }
    }
}

#[test]
fn toggle_twice_gives_back_the_word() {
    let sels = vec![
        Selector::Single(3),
        Selector::List(vec![1, 6, 6, 2]),
        Selector::Range(2, 7),
        Selector::RangeFrom(5),
        Selector::RangeTo(3),
        Selector::RangeFull,
        Selector::StartCount(1, 4),
    ];
    for sel in &sels {
        for dir in [Forward, Reversed] {
            for w in [0u8, 0b_1001_0110, 0xFF] {
                assert_eq!(toggle(toggle(w, sel, dir), sel, dir), w);
            }
            let s: i16 = -12345;
            assert_eq!(toggle(toggle(s, sel, dir), sel, dir), s);
        }
    }
}

#[test]
fn set_is_idempotent() {
    let w: u16 = 0b_0100_0000_1000_0001;
    let sel = Selector::List(vec![0, 4, 15]);
    let once = bit_fiddler::ops::set(w, &sel, Forward);
    assert_eq!(once | mask::<u16>(&sel, Forward), once);
    assert_eq!(bit_fiddler::ops::set(once, &sel, Forward), once);
    assert_eq!(once, 0b_1100_0000_1001_0001);
}

#[test]
fn reversed_single_bit_is_the_top_bit() {
    assert_eq!(bit_fiddler::ops::set(0u8, &Selector::Single(0), Reversed), 0b_1000_0000);
    assert_eq!(bit_fiddler::ops::set(0u32, &Selector::Single(0), Reversed), 1u32 << 31);
    assert_eq!(bit_fiddler::ops::set(0i128, &Selector::Single(0), Reversed), i128::MIN);
}

#[test]
fn full_masks() {
    assert_eq!(mask::<u8>(&Selector::Range(0, 8), Forward), 0xFF);
    assert_eq!(mask::<u8>(&Selector::RangeFull, Forward), 0xFF);
    assert_eq!(mask::<u64>(&Selector::Range(0, 64), Forward), u64::MAX);
    assert_eq!(mask::<u128>(&Selector::Range(0, 128), Reversed), u128::MAX);
    assert_eq!(mask::<i8>(&Selector::RangeFull, Forward), -1);
}

#[test]
fn list_tests_need_every_bit() {
    assert!(is_set(0b_0011_1000u8, &Selector::List(vec![3, 4, 5]), Forward));
    assert!(!is_set(0b_0101_0101u8, &Selector::List(vec![1, 5]), Forward));
    assert!(!is_set(0b_0000_1000u8, &Selector::List(vec![3, 4]), Forward));
    assert!(is_set(0b_0000_1000u8, &Selector::List(vec![]), Forward));
}

#[test]
fn duplicate_positions() {
    assert_eq!(toggle(0u8, &Selector::List(vec![2, 2]), Forward), 0);
    assert_eq!(toggle(0u8, &Selector::List(vec![2, 2, 2]), Forward), 0b_0000_0100);
    assert_eq!(bit_fiddler::ops::set(0u8, &Selector::List(vec![2, 2]), Forward), 0b_0000_0100);
    assert_eq!(unset(0xFFu8, &Selector::List(vec![2, 2]), Forward), 0b_1111_1011);
    assert_eq!(mask::<u8>(&Selector::List(vec![2, 2]), Forward), 0b_0000_0100);
    let mut w: u8 = 0b_0000_0001;
    toggle_in_place(&mut w, &Selector::List(vec![0, 1, 0]), Forward);
    assert_eq!(w, 0b_0000_0011);
}

#[test]
fn set_unset_toggle_in_sequence() {
    let mut bitmap: u8 = 0;
    set_in_place(&mut bitmap, &Selector::Range(3, 6), Forward);
    assert_eq!(bitmap, 0b_0011_1000);
    unset_in_place(&mut bitmap, &Selector::Single(4), Forward);
    assert_eq!(bitmap, 0b_0010_1000);
    toggle_in_place(&mut bitmap, &Selector::RangeFull, Forward);
    assert_eq!(bitmap, 0b_1101_0111);
}

#[test]
fn reversed_range_counts_from_the_top() {
    assert_eq!(mask::<u8>(&Selector::Range(2, 4), Reversed), 0b_0011_0000);
    assert_eq!(mask::<u16>(&Selector::Range(2, 4), Reversed), 0b_0011_0000_0000_0000);
    assert_eq!(mask::<u8>(&Selector::RangeTo(3), Reversed), 0b_1110_0000);
    assert_eq!(mask::<u8>(&Selector::RangeFrom(6), Reversed), 0b_0000_0011);
}

#[test]
fn start_count_is_a_range() {
    for start in 0..8u32 {
        for count in 1..=(8 - start) {
            for dir in [Forward, Reversed] {
                assert_eq!(
                    mask::<u8>(&Selector::StartCount(start, count), dir),
                    mask::<u8>(&Selector::Range(start, start + count), dir)
                );
            }
        }
    }
    assert_eq!(mask::<u32>(&Selector::StartCount(4, 8), Forward), 0x0000_0FF0);
}

#[test]
fn signed_words() {
    assert_eq!(bit_fiddler::ops::set(0i8, &Selector::Single(7), Forward), -128);
    assert_eq!(unset(-1i8, &Selector::Single(0), Reversed), 0b_0111_1111);
    assert_eq!(toggle(-1i32, &Selector::RangeFull, Forward), 0);
    assert!(is_set(-1i64, &Selector::RangeFrom(60), Forward));
    assert!(!is_set(1i64, &Selector::Single(0), Reversed));
    assert_eq!(mask::<i16>(&Selector::RangeFrom(15), Forward), i16::MIN);
}

#[test]
fn wide_words() {
    let w = bit_fiddler::ops::set(0u128, &Selector::RangeFrom(64), Forward);
    assert_eq!(w, u128::MAX << 64);
    assert_eq!(unset(w, &Selector::RangeTo(120), Forward), 0xFFu128 << 120);
    assert_eq!(toggle(0u64, &Selector::StartCount(0, 64), Reversed), u64::MAX);
    assert!(is_set(u128::MAX, &Selector::List(vec![0, 64, 127]), Reversed));
}

#[test]
fn word_widths() {
    assert_eq!(max_bits::<u8>(), 8);
    assert_eq!(max_bits::<i16>(), 16);
    assert_eq!(max_bits::<u32>(), 32);
    assert_eq!(max_bits::<i128>(), 128);
    assert_eq!(max_bits_of(5i64), 64);
    check_bitmap_impl_by_type::<i32>();
    check_bitmap_impl_by_value(12);
}
