use bit_fiddler::mask;
use bit_fiddler::Direction::{Forward, Reversed};
use bit_fiddler::Selector;

#[test]
fn range_with_bit_count() {
    let bitmap: u8 = 0b_1111_1111;

    let masked_bitmap = bitmap & mask::<u8>(&Selector::Range(0, 5), Forward);
    assert_eq!(masked_bitmap, 0b_0001_1111);

    let masked_bitmap = bitmap & mask::<u8>(&Selector::Range(0, 8), Forward);
    assert_eq!(masked_bitmap, 0b_1111_1111);

    let masked_bitmap = bitmap & mask::<u8>(&Selector::Range(2, 8), Forward);
    assert_eq!(masked_bitmap, 0b_1111_1100);

    let masked_bitmap = bitmap & mask::<u8>(&Selector::Range(3, 7), Forward);
    assert_eq!(masked_bitmap, 0b_0111_1000);

    let masked_bitmap = bitmap & mask::<u8>(&Selector::RangeFrom(3), Forward);
    assert_eq!(masked_bitmap, 0b_1111_1000);

    let masked_bitmap = bitmap & mask::<u8>(&Selector::RangeTo(5), Forward);
    assert_eq!(masked_bitmap, 0b_0001_1111);

    let masked_bitmap = bitmap & mask::<u8>(&Selector::RangeFull, Forward);
    assert_eq!(masked_bitmap, 0b_1111_1111);
}

#[test]
fn range_with_bit_count_rev() {
    let bitmap: u8 = 0b_1111_1111;

    let masked_bitmap = bitmap & mask::<u8>(&Selector::Range(0, 5), Reversed);
    assert_eq!(masked_bitmap, 0b_1111_1000);

    let masked_bitmap = bitmap & mask::<u8>(&Selector::Range(0, 8), Reversed);
    assert_eq!(masked_bitmap, 0b_1111_1111);

    let masked_bitmap = bitmap & mask::<u8>(&Selector::Range(2, 8), Reversed);
    assert_eq!(masked_bitmap, 0b_0011_1111);

    let masked_bitmap = bitmap & mask::<u8>(&Selector::Range(0, 7), Reversed);
    assert_eq!(masked_bitmap, 0b_1111_1110);

    let masked_bitmap = bitmap & mask::<u8>(&Selector::Range(2, 7), Reversed);
    assert_eq!(masked_bitmap, 0b_0011_1110);

    let masked_bitmap = bitmap & mask::<u8>(&Selector::RangeFrom(3), Reversed);
    assert_eq!(masked_bitmap, 0b_0001_1111);

    let masked_bitmap = bitmap & mask::<u8>(&Selector::RangeTo(4), Reversed);
    assert_eq!(masked_bitmap, 0b_1111_0000);

    let masked_bitmap = bitmap & mask::<u8>(&Selector::RangeFull, Reversed);
    assert_eq!(masked_bitmap, 0b_1111_1111);
}

#[test]
fn counted_range_with_bit_count() {
    let bitmap: u8 = 0b_1111_1111;

    let masked_bitmap = bitmap & mask::<u8>(&Selector::StartCount(0, 5), Forward);
    assert_eq!(masked_bitmap, 0b_0001_1111);

    let masked_bitmap = bitmap & mask::<u8>(&Selector::StartCount(0, 8), Forward);
    assert_eq!(masked_bitmap, 0b_1111_1111);
}

#[test]
fn counted_range_with_bit_count_rev() {
    let bitmap: u8 = 0b_1111_1111;

    let masked_bitmap = bitmap & mask::<u8>(&Selector::StartCount(0, 5), Reversed);
    assert_eq!(masked_bitmap, 0b_1111_1000);

    let masked_bitmap = bitmap & mask::<u8>(&Selector::StartCount(0, 8), Reversed);
    assert_eq!(masked_bitmap, 0b_1111_1111);
}
