use bit_fiddler::set_in_place;
use bit_fiddler::Direction::{Forward, Reversed};
use bit_fiddler::Selector;

#[test]
fn set_single_bit() {
    let mut bitmap: u8 = 0;

    let res = bit_fiddler::ops::set(bitmap, &Selector::Single(7), Forward);
    assert_eq!(res, 0b_1000_0000);
    assert_eq!(bitmap, 0);

    set_in_place(&mut bitmap, &Selector::Single(0), Forward);
    assert_eq!(bitmap, 0b_0000_0001);
}

#[test]
fn set_single_bit_rev() {
    let mut bitmap: u8 = 0;

    let res = bit_fiddler::ops::set(bitmap, &Selector::Single(7), Reversed);
    assert_eq!(res, 0b_0000_0001);
    assert_eq!(bitmap, 0);

    set_in_place(&mut bitmap, &Selector::Single(0), Reversed);
    assert_eq!(bitmap, 0b_1000_0000);
}

#[test]
fn set_multiple_bits() {
    let mut bitmap: u8 = 0;

    let res = bit_fiddler::ops::set(bitmap, &Selector::List(vec![3, 0, 5]), Forward);
    assert_eq!(res, 0b_0010_1001);
    assert_eq!(bitmap, 0);

    set_in_place(&mut bitmap, &Selector::List(vec![1, 7, 5]), Forward);
    assert_eq!(bitmap, 0b_1010_0010);
}

#[test]
fn set_multiple_bits_rev() {
    let mut bitmap: u8 = 0;

    let res = bit_fiddler::ops::set(bitmap, &Selector::List(vec![1, 7, 4]), Reversed);
    assert_eq!(res, 0b_0100_1001);
    assert_eq!(bitmap, 0);

    set_in_place(&mut bitmap, &Selector::List(vec![5, 1, 0]), Reversed);
    assert_eq!(bitmap, 0b_1100_0100);
}

#[test]
fn set_range() {
    let mut bitmap: u8 = 0;

    let res = bit_fiddler::ops::set(bitmap, &Selector::Range(0, 8), Forward);
    assert_eq!(res, 0b_1111_1111);
    assert_eq!(bitmap, 0);

    set_in_place(&mut bitmap, &Selector::Range(1, 5), Forward);
    assert_eq!(bitmap, 0b_0001_1110);
}

#[test]
fn set_range_rev() {
    let mut bitmap: u8 = 0;

    let res = bit_fiddler::ops::set(bitmap, &Selector::Range(1, 8), Reversed);
    assert_eq!(res, 0b_0111_1111);
    assert_eq!(bitmap, 0);

    set_in_place(&mut bitmap, &Selector::Range(0, 1), Reversed);
    assert_eq!(bitmap, 0b_1000_0000);
}

#[test]
fn set_counted_range() {
    let mut bitmap: u8 = 0;

    let res = bit_fiddler::ops::set(bitmap, &Selector::StartCount(0, 8), Forward);
    assert_eq!(res, 0b_1111_1111);
    assert_eq!(bitmap, 0);

    set_in_place(&mut bitmap, &Selector::StartCount(5, 2), Forward);
    assert_eq!(bitmap, 0b_0110_0000);
}

#[test]
fn set_counted_range_rev() {
    let mut bitmap: u8 = 0;

    let res = bit_fiddler::ops::set(bitmap, &Selector::StartCount(6, 1), Reversed);
    assert_eq!(res, 0b_0000_0010);
    assert_eq!(bitmap, 0);

    set_in_place(&mut bitmap, &Selector::StartCount(1, 5), Reversed);
    assert_eq!(bitmap, 0b_0111_1100);
}
