//! Laws that relate the operations to one another.
use vstd::prelude::*;
use crate::bitmap_trait::Bitmap;
use crate::bits::{
    bit_at, lemma_bit_and, lemma_bit_or, lemma_bit_xor, lemma_bits_ext, lemma_fits_ops,
    lemma_mask_algebra,
};
use crate::mask::{
    flip_bits, lemma_flip_bits_flips, lemma_mask_bits_fit, lemma_mask_bits_selects, mask_bits,
};
use crate::ops::{all_set, mask_of, with_set, with_toggled, with_unset};
use crate::selector::{Direction, Selector};

verus! {

/// The bits of `word` with those of `sel` set are `word`'s bits or-ed with
/// the mask.
proof fn lemma_with_set_bits<T: Bitmap>(word: T, sel: Selector, dir: Direction)
    requires
        sel.is_valid_for(T::spec_bit_count()),
    ensures
        with_set(word, sel, dir).bits() == word.bits() | mask_bits(sel, T::spec_bit_count(), dir),
{
    let m = mask_bits(sel, T::spec_bit_count(), dir);
    T::lemma_bits_model(word, word.bits() | m);
    lemma_mask_bits_fit(sel, T::spec_bit_count(), dir);
    lemma_fits_ops(word.bits(), m, T::spec_bit_count());
    T::lemma_bits_model(word, word.bits() | m);
}

/// Bit `i` is set after setting when it was set before or is selected.
pub proof fn lemma_with_set_selects<T: Bitmap>(word: T, sel: Selector, dir: Direction, i: u32)
    requires
        sel.is_valid_for(T::spec_bit_count()),
        i < 128,
    ensures
        bit_at(with_set(word, sel, dir).bits(), i) == (bit_at(word.bits(), i) || sel.selects(
            T::spec_bit_count(),
            dir,
            i as int,
        )),
{
    let m = mask_bits(sel, T::spec_bit_count(), dir);
    T::lemma_bits_model(word, 0);
    lemma_with_set_bits(word, sel, dir);
    lemma_bit_or(word.bits(), m, i);
    lemma_mask_bits_selects(sel, T::spec_bit_count(), dir, i);
}

/// Bit `i` is set after unsetting when it was set before and is not selected.
pub proof fn lemma_with_unset_selects<T: Bitmap>(word: T, sel: Selector, dir: Direction, i: u32)
    requires
        sel.is_valid_for(T::spec_bit_count()),
        i < 128,
    ensures
        bit_at(with_unset(word, sel, dir).bits(), i) == (bit_at(word.bits(), i) && !sel.selects(
            T::spec_bit_count(),
            dir,
            i as int,
        )),
{
    let m = mask_bits(sel, T::spec_bit_count(), dir);
    T::lemma_bits_model(word, word.bits() & !m);
    lemma_mask_bits_fit(sel, T::spec_bit_count(), dir);
    lemma_fits_ops(word.bits(), m, T::spec_bit_count());
    T::lemma_bits_model(word, word.bits() & !m);
    lemma_bit_and(word.bits(), m, i);
    lemma_mask_bits_selects(sel, T::spec_bit_count(), dir, i);
}

/// Bit `i` changes under toggling exactly when the selector flips it.
pub proof fn lemma_with_toggled_flips<T: Bitmap>(word: T, sel: Selector, dir: Direction, i: u32)
    requires
        sel.is_valid_for(T::spec_bit_count()),
        i < 128,
    ensures
        bit_at(with_toggled(word, sel, dir).bits(), i) == (bit_at(word.bits(), i) != sel.flips(
            T::spec_bit_count(),
            dir,
            i as int,
        )),
{
    let f = flip_bits(sel, T::spec_bit_count(), dir);
    T::lemma_bits_model(word, word.bits() ^ f);
    lemma_mask_bits_fit(sel, T::spec_bit_count(), dir);
    lemma_fits_ops(word.bits(), f, T::spec_bit_count());
    T::lemma_bits_model(word, word.bits() ^ f);
    lemma_bit_xor(word.bits(), f, i);
    lemma_flip_bits_flips(sel, T::spec_bit_count(), dir, i);
}

/// The test holds exactly when every selected bit of the word is set.
pub proof fn lemma_all_set_selects<T: Bitmap>(word: T, sel: Selector, dir: Direction)
    requires
        sel.is_valid_for(T::spec_bit_count()),
    ensures
        all_set(word, sel, dir) == forall|i: u32|
            i < 128 && sel.selects(T::spec_bit_count(), dir, i as int) ==> #[trigger] bit_at(word.bits(), i),
{
    let m = mask_bits(sel, T::spec_bit_count(), dir);
    T::lemma_bits_model(word, 0);
    assert forall|i: u32| i < 128 implies bit_at(word.bits() & m, i) == (bit_at(word.bits(), i)
        && bit_at(m, i)) && bit_at(m, i) == sel.selects(T::spec_bit_count(), dir, i as int) by {
        lemma_bit_and(word.bits(), m, i);
        lemma_mask_bits_selects(sel, T::spec_bit_count(), dir, i);
    }
    if word.bits() & m == m {
        assert forall|i: u32| i < 128 && sel.selects(T::spec_bit_count(), dir, i as int) implies #[trigger] bit_at(
            word.bits(),
            i,
        ) by {
            lemma_bit_and(word.bits(), m, i);
            lemma_mask_bits_selects(sel, T::spec_bit_count(), dir, i);
        }
    } else if forall|i: u32|
        i < 128 && sel.selects(T::spec_bit_count(), dir, i as int) ==> #[trigger] bit_at(word.bits(), i) {
        lemma_bits_ext(word.bits() & m, m);
    }
}

/// Setting bit `p` of the zero word, then testing bit `p`, finds it set.
pub proof fn lemma_set_then_is_set<T: Bitmap>(p: u32)
    requires
        p < T::spec_bit_count(),
    ensures
        all_set(
            with_set(T::from_bits_spec(0), Selector::Single(p), Direction::Forward),
            Selector::Single(p),
            Direction::Forward,
        ),
{
    let sel = Selector::Single(p);
    let zero = T::from_bits_spec(0);
    lemma_with_set_bits(zero, sel, Direction::Forward);
    lemma_mask_algebra(zero.bits(), mask_bits(sel, T::spec_bit_count(), Direction::Forward));
}

/// Unsetting bits right after setting them gives what unsetting them alone
/// gives.
pub proof fn lemma_unset_after_set<T: Bitmap>(word: T, sel: Selector, dir: Direction)
    requires
        sel.is_valid_for(T::spec_bit_count()),
    ensures
        with_unset(with_set(word, sel, dir), sel, dir) == with_unset(word, sel, dir),
{
    lemma_with_set_bits(word, sel, dir);
    lemma_mask_algebra(word.bits(), mask_bits(sel, T::spec_bit_count(), dir));
}

/// Toggling the same bits twice gives back the word.
pub proof fn lemma_toggle_involution<T: Bitmap>(word: T, sel: Selector, dir: Direction)
    requires
        sel.is_valid_for(T::spec_bit_count()),
    ensures
        with_toggled(with_toggled(word, sel, dir), sel, dir) == word,
{
    let f = flip_bits(sel, T::spec_bit_count(), dir);
    let once = with_toggled(word, sel, dir);
    T::lemma_bits_model(word, word.bits() ^ f);
    lemma_mask_bits_fit(sel, T::spec_bit_count(), dir);
    lemma_fits_ops(word.bits(), f, T::spec_bit_count());
    T::lemma_bits_model(once, word.bits() ^ f);
    lemma_mask_algebra(word.bits(), f);
    T::lemma_bits_model(word, word.bits());
}

/// After setting bits, or-ing in their mask changes nothing, and neither does
/// setting them again.
pub proof fn lemma_set_idempotent<T: Bitmap>(word: T, sel: Selector, dir: Direction)
    requires
        sel.is_valid_for(T::spec_bit_count()),
    ensures
        with_set(word, sel, dir).bits() | mask_of::<T>(sel, dir).bits() == with_set(word, sel, dir).bits(),
        with_set(with_set(word, sel, dir), sel, dir) == with_set(word, sel, dir),
{
    let m = mask_bits(sel, T::spec_bit_count(), dir);
    let once = with_set(word, sel, dir);
    lemma_with_set_bits(word, sel, dir);
    lemma_with_set_bits(once, sel, dir);
    T::lemma_bits_model(word, m);
    lemma_mask_bits_fit(sel, T::spec_bit_count(), dir);
    lemma_mask_algebra(word.bits(), m);
    T::lemma_bits_model(once, once.bits());
}

/// A start and a count name the same bits as the range
/// `[start, start + count)`.
pub proof fn lemma_start_count_is_range(start: u32, count: u32, width: u32, dir: Direction)
    requires
        start + count <= u32::MAX,
    ensures
        mask_bits(Selector::StartCount(start, count), width, dir) == mask_bits(
            Selector::Range(start, (start + count) as u32),
            width,
            dir,
        ),
{
}

} // verus!
