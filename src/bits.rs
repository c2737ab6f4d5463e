//! Bit-level facts about `u128` words, which every supported word type is
//! widened to.
use vstd::prelude::*;

verus! {

/// Bit `i` of `x`, counted from the least significant bit.
pub open spec fn bit_at(x: u128, i: u32) -> bool {
    (x >> i) & 1 == 1
}

/// `x` has no bit set at position `width` or above.
pub open spec fn fits(x: u128, width: u32) -> bool {
    x >> width == 0
}

/// The word with only bit `i` set.
pub open spec fn single_bit(i: u32) -> u128 {
    1u128 << i
}

/// Bit `i` of an or.
pub proof fn lemma_bit_or(a: u128, b: u128, i: u32)
    requires
        i < 128,
    ensures
        bit_at(a | b, i) == (bit_at(a, i) || bit_at(b, i)),
{
    assert(((a | b) >> i) & 1 == 1 <==> ((a >> i) & 1 == 1 || (b >> i) & 1 == 1)) by (bit_vector)
        requires
            i < 128,
    ;
}

/// Bit `i` of a xor.
pub proof fn lemma_bit_xor(a: u128, b: u128, i: u32)
    requires
        i < 128,
    ensures
        bit_at(a ^ b, i) == (bit_at(a, i) != bit_at(b, i)),
{
    assert(((a ^ b) >> i) & 1 == 1 <==> ((a >> i) & 1 == 1) != ((b >> i) & 1 == 1)) by (bit_vector)
        requires
            i < 128,
    ;
}

/// Bit `i` of an and, and of an and-not.
pub proof fn lemma_bit_and(a: u128, b: u128, i: u32)
    requires
        i < 128,
    ensures
        bit_at(a & b, i) == (bit_at(a, i) && bit_at(b, i)),
        bit_at(a & !b, i) == (bit_at(a, i) && !bit_at(b, i)),
{
    assert((((a & b) >> i) & 1 == 1 <==> ((a >> i) & 1 == 1 && (b >> i) & 1 == 1)) && (((a & !b)
        >> i) & 1 == 1 <==> ((a >> i) & 1 == 1 && (b >> i) & 1 != 1))) by (bit_vector)
        requires
            i < 128,
    ;
}

/// `single_bit(j)` has bit `j` set and no other.
pub proof fn lemma_single_bit(j: u32, i: u32)
    requires
        i < 128,
        j < 128,
    ensures
        bit_at(single_bit(j), i) == (i == j),
{
    assert(((1u128 << j) >> i) & 1 == 1 <==> i == j) by (bit_vector)
        requires
            i < 128,
            j < 128,
    ;
}

/// Shifting left by `s` moves bit `i - s` to bit `i`.
pub proof fn lemma_bit_shl(x: u128, s: u32, i: u32)
    requires
        s < 128,
        i < 128,
    ensures
        bit_at(x << s, i) == (s <= i && bit_at(x, (i - s) as u32)),
{
    if s <= i {
        let j = (i - s) as u32;
        assert(((x << s) >> i) & 1 == (x >> j) & 1) by (bit_vector)
            requires
                s < 128,
                i < 128,
                j == i - s,
        ;
    } else {
        assert(((x << s) >> i) & 1 == 0) by (bit_vector)
            requires
                i < s < 128,
        ;
    }
}

/// `!0 >> shift` has its low `128 - shift` bits set.
pub proof fn lemma_bit_low_ones(shift: u32, i: u32)
    requires
        shift < 128,
        i < 128,
    ensures
        bit_at(!0u128 >> shift, i) == (i + shift < 128),
{
    assert(((!0u128 >> shift) >> i) & 1 == 1 <==> i + shift < 128) by (bit_vector)
        requires
            shift < 128,
            i < 128,
    ;
}

/// A bit below `width`, and zero, stay inside `width` bits.
pub proof fn lemma_fits_single(j: u32, width: u32)
    requires
        j < width <= 128,
    ensures
        fits(single_bit(j), width),
        fits(0, width),
{
    assert((1u128 << j) >> width == 0 && 0u128 >> width == 0) by (bit_vector)
        requires
            j < width <= 128,
    ;
}

/// Or, xor and and-not keep a word inside `width` bits.
pub proof fn lemma_fits_ops(a: u128, b: u128, width: u32)
    requires
        fits(a, width),
        fits(b, width),
    ensures
        fits(a | b, width),
        fits(a ^ b, width),
        fits(a & !b, width),
{
    assert((a | b) >> width == 0 && (a ^ b) >> width == 0 && (a & !b) >> width == 0) by (bit_vector)
        requires
            a >> width == 0,
            b >> width == 0,
    ;
}

/// Against a one-bit mask, "some selected bit is set" and "all selected bits
/// are set" agree.
pub proof fn lemma_single_bit_and(x: u128, j: u32)
    requires
        j < 128,
    ensures
        (x & single_bit(j) != 0) == (x & single_bit(j) == single_bit(j)),
{
    assert((x & (1u128 << j) != 0) == (x & (1u128 << j) == (1u128 << j))) by (bit_vector)
        requires
            j < 128,
    ;
}

/// How or, and-not and xor with the same mask combine.
pub proof fn lemma_mask_algebra(w: u128, m: u128)
    ensures
        (w | m) & m == m,
        (w | m) | m == w | m,
        (w | m) & !m == w & !m,
        (w ^ m) ^ m == w,
{
    assert((w | m) & m == m && (w | m) | m == w | m && (w | m) & !m == w & !m && (w ^ m) ^ m == w)
        by (bit_vector);
}

/// Words with the same bits are equal.
pub proof fn lemma_bits_ext(a: u128, b: u128)
    requires
        forall|i: u32| i < 128 ==> bit_at(a, i) == bit_at(b, i),
    ensures
        a == b,
{
    assert(a >> 128u32 == 0 && b >> 128u32 == 0) by (bit_vector);
    lemma_shifted_ext(a, b, 128);
    assert(a >> 0u32 == a && b >> 0u32 == b) by (bit_vector);
}

proof fn lemma_shifted_ext(a: u128, b: u128, k: u32)
    requires
        k <= 128,
        a >> k == b >> k,
        forall|i: u32| i < 128 ==> bit_at(a, i) == bit_at(b, i),
    ensures
        a >> 0u32 == b >> 0u32,
    decreases k,
{
    if k > 0 {
        let j = (k - 1) as u32;
        assert(bit_at(a, j) == bit_at(b, j));
        assert(a >> j == b >> j) by (bit_vector)
            requires
                j < 128,
                k == j + 1,
                a >> k == b >> k,
                ((a >> j) & 1 == 1) == ((b >> j) & 1 == 1),
        ;
        lemma_shifted_ext(a, b, j);
    }
}

} // verus!
