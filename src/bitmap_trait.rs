use vstd::prelude::*;
use crate::bits::fits;
use crate::selector::is_word_width;
use crate::trait_seal::TraitSeal;

verus! {

/// A fixed-width integer word used as a vector of bits. Implemented for the
/// primitive integer types only.
pub trait Bitmap: TraitSeal + Copy {
    /// Number of bits in a word.
    spec fn spec_bit_count() -> u32;

    /// Number of bits in a word.
    fn bit_count() -> (r: u32)
        ensures
            r == Self::spec_bit_count(),
    ;

    /// The word's bits as an unsigned number (two's complement for the signed
    /// types).
    spec fn bits(&self) -> u128;

    /// The word whose bits are the low `spec_bit_count()` bits of `b`.
    spec fn from_bits_spec(b: u128) -> Self;

    /// `bits` and `from_bits_spec` are inverse on words of `spec_bit_count()` bits.
    proof fn lemma_bits_model(x: Self, b: u128)
        ensures
            is_word_width(Self::spec_bit_count()),
            fits(x.bits(), Self::spec_bit_count()),
            Self::from_bits_spec(x.bits()) == x,
            fits(b, Self::spec_bit_count()) ==> Self::from_bits_spec(b).bits() == b,
    ;

    /// The word's bits as an unsigned number.
    fn to_bits(self) -> (r: u128)
        ensures
            r == self.bits(),
    ;

    /// The word whose bits are the low `spec_bit_count()` bits of `b`.
    fn from_bits(b: u128) -> (r: Self)
        ensures
            r == Self::from_bits_spec(b),
    ;
}

impl Bitmap for u8 {
    open spec fn spec_bit_count() -> u32 {
        8
    }

    fn bit_count() -> (r: u32) {
        8
    }

    open spec fn bits(&self) -> u128 {
        *self as u128
    }

    open spec fn from_bits_spec(b: u128) -> Self {
        b as u8
    }

    proof fn lemma_bits_model(x: Self, b: u128) {
        assert((x as u128) >> 8u32 == 0
            && (x as u128) as u8 == x
            && (b >> 8u32 == 0 ==> (b as u8) as u128 == b)) by (bit_vector);
    }

    fn to_bits(self) -> (r: u128) {
        self as u128
    }

    fn from_bits(b: u128) -> (r: Self) {
        b as u8
    }
}

impl Bitmap for i8 {
    open spec fn spec_bit_count() -> u32 {
        8
    }

    fn bit_count() -> (r: u32) {
        8
    }

    open spec fn bits(&self) -> u128 {
        *self as u8 as u128
    }

    open spec fn from_bits_spec(b: u128) -> Self {
        b as u8 as i8
    }

    proof fn lemma_bits_model(x: Self, b: u128) {
        assert((x as u8 as u128) >> 8u32 == 0
            && (x as u8 as u128) as u8 as i8 == x
            && (b >> 8u32 == 0 ==> (b as u8 as i8) as u8 as u128 == b)) by (bit_vector);
    }

    fn to_bits(self) -> (r: u128) {
        self as u8 as u128
    }

    fn from_bits(b: u128) -> (r: Self) {
        b as u8 as i8
    }
}

impl Bitmap for u16 {
    open spec fn spec_bit_count() -> u32 {
        16
    }

    fn bit_count() -> (r: u32) {
        16
    }

    open spec fn bits(&self) -> u128 {
        *self as u128
    }

    open spec fn from_bits_spec(b: u128) -> Self {
        b as u16
    }

    proof fn lemma_bits_model(x: Self, b: u128) {
        assert((x as u128) >> 16u32 == 0
            && (x as u128) as u16 == x
            && (b >> 16u32 == 0 ==> (b as u16) as u128 == b)) by (bit_vector);
    }

    fn to_bits(self) -> (r: u128) {
        self as u128
    }

    fn from_bits(b: u128) -> (r: Self) {
        b as u16
    }
}

impl Bitmap for i16 {
    open spec fn spec_bit_count() -> u32 {
        16
    }

    fn bit_count() -> (r: u32) {
        16
    }

    open spec fn bits(&self) -> u128 {
        *self as u16 as u128
    }

    open spec fn from_bits_spec(b: u128) -> Self {
        b as u16 as i16
    }

    proof fn lemma_bits_model(x: Self, b: u128) {
        assert((x as u16 as u128) >> 16u32 == 0
            && (x as u16 as u128) as u16 as i16 == x
            && (b >> 16u32 == 0 ==> (b as u16 as i16) as u16 as u128 == b)) by (bit_vector);
    }

    fn to_bits(self) -> (r: u128) {
        self as u16 as u128
    }

    fn from_bits(b: u128) -> (r: Self) {
        b as u16 as i16
    }
}

impl Bitmap for u32 {
    open spec fn spec_bit_count() -> u32 {
        32
    }

    fn bit_count() -> (r: u32) {
        32
    }

    open spec fn bits(&self) -> u128 {
        *self as u128
    }

    open spec fn from_bits_spec(b: u128) -> Self {
        b as u32
    }

    proof fn lemma_bits_model(x: Self, b: u128) {
        assert((x as u128) >> 32u32 == 0
            && (x as u128) as u32 == x
            && (b >> 32u32 == 0 ==> (b as u32) as u128 == b)) by (bit_vector);
    }

    fn to_bits(self) -> (r: u128) {
        self as u128
    }

    fn from_bits(b: u128) -> (r: Self) {
        b as u32
    }
}

impl Bitmap for i32 {
    open spec fn spec_bit_count() -> u32 {
        32
    }

    fn bit_count() -> (r: u32) {
        32
    }

    open spec fn bits(&self) -> u128 {
        *self as u32 as u128
    }

    open spec fn from_bits_spec(b: u128) -> Self {
        b as u32 as i32
    }

    proof fn lemma_bits_model(x: Self, b: u128) {
        assert((x as u32 as u128) >> 32u32 == 0
            && (x as u32 as u128) as u32 as i32 == x
            && (b >> 32u32 == 0 ==> (b as u32 as i32) as u32 as u128 == b)) by (bit_vector);
    }

    fn to_bits(self) -> (r: u128) {
        self as u32 as u128
    }

    fn from_bits(b: u128) -> (r: Self) {
        b as u32 as i32
    }
}

impl Bitmap for u64 {
    open spec fn spec_bit_count() -> u32 {
        64
    }

    fn bit_count() -> (r: u32) {
        64
    }

    open spec fn bits(&self) -> u128 {
        *self as u128
    }

    open spec fn from_bits_spec(b: u128) -> Self {
        b as u64
    }

    proof fn lemma_bits_model(x: Self, b: u128) {
        assert((x as u128) >> 64u32 == 0
            && (x as u128) as u64 == x
            && (b >> 64u32 == 0 ==> (b as u64) as u128 == b)) by (bit_vector);
    }

    fn to_bits(self) -> (r: u128) {
        self as u128
    }

    fn from_bits(b: u128) -> (r: Self) {
        b as u64
    }
}

impl Bitmap for i64 {
    open spec fn spec_bit_count() -> u32 {
        64
    }

    fn bit_count() -> (r: u32) {
        64
    }

    open spec fn bits(&self) -> u128 {
        *self as u64 as u128
    }

    open spec fn from_bits_spec(b: u128) -> Self {
        b as u64 as i64
    }

    proof fn lemma_bits_model(x: Self, b: u128) {
        assert((x as u64 as u128) >> 64u32 == 0
            && (x as u64 as u128) as u64 as i64 == x
            && (b >> 64u32 == 0 ==> (b as u64 as i64) as u64 as u128 == b)) by (bit_vector);
    }

    fn to_bits(self) -> (r: u128) {
        self as u64 as u128
    }

    fn from_bits(b: u128) -> (r: Self) {
        b as u64 as i64
    }
}

impl Bitmap for u128 {
    open spec fn spec_bit_count() -> u32 {
        128
    }

    fn bit_count() -> (r: u32) {
        128
    }

    open spec fn bits(&self) -> u128 {
        *self as u128
    }

    open spec fn from_bits_spec(b: u128) -> Self {
        b as u128
    }

    proof fn lemma_bits_model(x: Self, b: u128) {
        assert((x as u128) >> 128u32 == 0
            && (x as u128) as u128 == x
            && (b >> 128u32 == 0 ==> (b as u128) as u128 == b)) by (bit_vector);
    }

    fn to_bits(self) -> (r: u128) {
        self as u128
    }

    fn from_bits(b: u128) -> (r: Self) {
        b as u128
    }
}

impl Bitmap for i128 {
    open spec fn spec_bit_count() -> u32 {
        128
    }

    fn bit_count() -> (r: u32) {
        128
    }

    open spec fn bits(&self) -> u128 {
        *self as u128 as u128
    }

    open spec fn from_bits_spec(b: u128) -> Self {
        b as u128 as i128
    }

    proof fn lemma_bits_model(x: Self, b: u128) {
        assert((x as u128 as u128) >> 128u32 == 0
            && (x as u128 as u128) as u128 as i128 == x
            && (b >> 128u32 == 0 ==> (b as u128 as i128) as u128 as u128 == b)) by (bit_vector);
    }

    fn to_bits(self) -> (r: u128) {
        self as u128 as u128
    }

    fn from_bits(b: u128) -> (r: Self) {
        b as u128 as i128
    }
}

/// Accepts any type that implements `Bitmap`; does nothing.
pub fn check_bitmap_impl_by_type<T: Bitmap>() {
}

/// Accepts any value whose type implements `Bitmap`; does nothing.
pub fn check_bitmap_impl_by_value<T: Bitmap>(_arg: T) {
}

} // verus!
