//! Set, unset, toggle and test the selected bits of a word, returning a new
//! word or changing the word in place.
use vstd::prelude::*;
use crate::bitmap_trait::Bitmap;
use crate::bits::{bit_at, lemma_single_bit_and};
use crate::mask::{build_flip_mask, build_mask, flip_bits, lemma_mask_bits_selects, mask_bits};
use crate::selector::{Direction, Selector};

verus! {

/// The mask of `sel` as a word of type `T`.
pub open spec fn mask_of<T: Bitmap>(sel: Selector, dir: Direction) -> T {
    T::from_bits_spec(mask_bits(sel, T::spec_bit_count(), dir))
}

/// `word` with the selected bits set.
pub open spec fn with_set<T: Bitmap>(word: T, sel: Selector, dir: Direction) -> T {
    T::from_bits_spec(word.bits() | mask_bits(sel, T::spec_bit_count(), dir))
}

/// `word` with the selected bits cleared.
pub open spec fn with_unset<T: Bitmap>(word: T, sel: Selector, dir: Direction) -> T {
    T::from_bits_spec(word.bits() & !mask_bits(sel, T::spec_bit_count(), dir))
}

/// `word` with the selected bits flipped, a listed position once for each
/// time it is listed.
pub open spec fn with_toggled<T: Bitmap>(word: T, sel: Selector, dir: Direction) -> T {
    T::from_bits_spec(word.bits() ^ flip_bits(sel, T::spec_bit_count(), dir))
}

/// Every selected bit of `word` is set.
pub open spec fn all_set<T: Bitmap>(word: T, sel: Selector, dir: Direction) -> bool {
    word.bits() & mask_bits(sel, T::spec_bit_count(), dir) == mask_bits(sel, T::spec_bit_count(), dir)
}

/// Number of bits in a word of type `T`.
pub fn max_bits<T: Bitmap>() -> (r: u32)
    ensures
        r == T::spec_bit_count(),
{
    T::bit_count()
}

/// Number of bits in `word`'s type.
pub fn max_bits_of<T: Bitmap>(_word: T) -> (r: u32)
    ensures
        r == T::spec_bit_count(),
{
    T::bit_count()
}

/// The word of type `T` with exactly the selected bits set.
pub fn mask<T: Bitmap>(sel: &Selector, dir: Direction) -> (r: T)
    requires
        sel.is_valid_for(T::spec_bit_count()),
    ensures
        r == mask_of::<T>(*sel, dir),
        forall|i: u32| i < 128 ==> bit_at(r.bits(), i) == sel.selects(T::spec_bit_count(), dir, i as int),
{
    proof {
        T::lemma_bits_model(T::from_bits_spec(0), mask_bits(*sel, T::spec_bit_count(), dir));
    }
    let m = build_mask(sel, T::bit_count(), dir);
    proof {
        assert forall|i: u32| i < 128 implies bit_at(m, i) == sel.selects(T::spec_bit_count(), dir, i as int) by {
            lemma_mask_bits_selects(*sel, T::spec_bit_count(), dir, i);
        }
    }
    T::from_bits(m)
}

/// `word` with the selected bits set.
pub fn set<T: Bitmap>(word: T, sel: &Selector, dir: Direction) -> (r: T)
    requires
        sel.is_valid_for(T::spec_bit_count()),
    ensures
        r == with_set(word, *sel, dir),
{
    proof {
        T::lemma_bits_model(word, 0);
    }
    let m = build_mask(sel, T::bit_count(), dir);
    T::from_bits(word.to_bits() | m)
}

/// Sets the selected bits of `word`.
pub fn set_in_place<T: Bitmap>(word: &mut T, sel: &Selector, dir: Direction)
    requires
        sel.is_valid_for(T::spec_bit_count()),
    ensures
        *final(word) == with_set(*old(word), *sel, dir),
{
    *word = set(*word, sel, dir);
}

/// `word` with the selected bits cleared.
pub fn unset<T: Bitmap>(word: T, sel: &Selector, dir: Direction) -> (r: T)
    requires
        sel.is_valid_for(T::spec_bit_count()),
    ensures
        r == with_unset(word, *sel, dir),
{
    proof {
        T::lemma_bits_model(word, 0);
    }
    let m = build_mask(sel, T::bit_count(), dir);
    T::from_bits(word.to_bits() & !m)
}

/// Clears the selected bits of `word`.
pub fn unset_in_place<T: Bitmap>(word: &mut T, sel: &Selector, dir: Direction)
    requires
        sel.is_valid_for(T::spec_bit_count()),
    ensures
        *final(word) == with_unset(*old(word), *sel, dir),
{
    *word = unset(*word, sel, dir);
}

/// `word` with the selected bits flipped; a position listed twice is flipped
/// twice.
pub fn toggle<T: Bitmap>(word: T, sel: &Selector, dir: Direction) -> (r: T)
    requires
        sel.is_valid_for(T::spec_bit_count()),
    ensures
        r == with_toggled(word, *sel, dir),
{
    proof {
        T::lemma_bits_model(word, 0);
    }
    let m = build_flip_mask(sel, T::bit_count(), dir);
    T::from_bits(word.to_bits() ^ m)
}

/// Flips the selected bits of `word`; a position listed twice is flipped
/// twice.
pub fn toggle_in_place<T: Bitmap>(word: &mut T, sel: &Selector, dir: Direction)
    requires
        sel.is_valid_for(T::spec_bit_count()),
    ensures
        *final(word) == with_toggled(*old(word), *sel, dir),
{
    *word = toggle(*word, sel, dir);
}

/// Whether every selected bit of `word` is set.
pub fn is_set<T: Bitmap>(word: T, sel: &Selector, dir: Direction) -> (r: bool)
    requires
        sel.is_valid_for(T::spec_bit_count()),
    ensures
        r == all_set(word, *sel, dir),
{
    proof {
        T::lemma_bits_model(word, 0);
    }
    let m = build_mask(sel, T::bit_count(), dir);
    let w = word.to_bits();
    match sel {
        Selector::Single(p) => {
            proof {
                lemma_single_bit_and(w, dir.place(*p, T::spec_bit_count()) as u32);
            }
            w & m != 0
        },
        _ => w & m == m,
    }
}

} // verus!
