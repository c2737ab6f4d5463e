//! The mask of a selector: the word with exactly the selected bits set.
use vstd::prelude::*;
use crate::bits::{
    bit_at, fits, lemma_bit_low_ones, lemma_bit_or, lemma_bit_shl, lemma_bit_xor, lemma_bits_ext,
    lemma_fits_ops, lemma_fits_single, lemma_single_bit, single_bit,
};
use crate::selector::{hits, Direction, Selector};

verus! {

/// The word with bits `lo` up to, not including, `hi` set.
pub open spec fn run_bits(lo: int, hi: int) -> u128
    decreases hi - lo,
{
    if hi <= lo {
        0
    } else {
        run_bits(lo, hi - 1) | single_bit((hi - 1) as u32)
    }
}

/// The bits that the positions `ps` name, or-ed together.
pub open spec fn list_bits(ps: Seq<u32>, width: u32, dir: Direction) -> u128
    decreases ps.len(),
{
    if ps.len() == 0 {
        0
    } else {
        list_bits(ps.drop_last(), width, dir) | single_bit(dir.place(ps.last(), width) as u32)
    }
}

/// The bits that the positions `ps` name, xor-ed together: each bit named an
/// odd number of times.
pub open spec fn list_flip_bits(ps: Seq<u32>, width: u32, dir: Direction) -> u128
    decreases ps.len(),
{
    if ps.len() == 0 {
        0
    } else {
        list_flip_bits(ps.drop_last(), width, dir) ^ single_bit(dir.place(ps.last(), width) as u32)
    }
}

/// The mask of `sel` over a word of `width` bits: the selected bits set.
pub open spec fn mask_bits(sel: Selector, width: u32, dir: Direction) -> u128 {
    match sel {
        Selector::Single(p) => single_bit(dir.place(p, width) as u32),
        Selector::List(ps) => list_bits(ps@, width, dir),
        _ => run_bits(sel.run(width, dir).0, sel.run(width, dir).1),
    }
}

/// What toggling `sel` xors into a word: the mask, except that a listed
/// position toggles its bit once each time it is listed.
pub open spec fn flip_bits(sel: Selector, width: u32, dir: Direction) -> u128 {
    match sel {
        Selector::List(ps) => list_flip_bits(ps@, width, dir),
        _ => mask_bits(sel, width, dir),
    }
}

proof fn lemma_run_bits(lo: int, hi: int, i: u32)
    requires
        0 <= lo,
        hi <= 128,
        i < 128,
    ensures
        bit_at(run_bits(lo, hi), i) == (lo <= i < hi),
    decreases hi - lo,
{
    if hi <= lo {
        assert((0u128 >> i) & 1 != 1) by (bit_vector);
    } else {
        lemma_run_bits(lo, hi - 1, i);
        lemma_bit_or(run_bits(lo, hi - 1), single_bit((hi - 1) as u32), i);
        lemma_single_bit((hi - 1) as u32, i);
    }
}

proof fn lemma_run_bits_fit(lo: int, hi: int, width: u32)
    requires
        0 <= lo,
        hi <= width <= 128,
    ensures
        fits(run_bits(lo, hi), width),
    decreases hi - lo,
{
    if hi <= lo {
        assert(0u128 >> width == 0) by (bit_vector);
    } else {
        lemma_run_bits_fit(lo, hi - 1, width);
        lemma_fits_single((hi - 1) as u32, width);
        lemma_fits_ops(run_bits(lo, hi - 1), single_bit((hi - 1) as u32), width);
    }
}

proof fn lemma_list_bits_fit(ps: Seq<u32>, width: u32, dir: Direction)
    requires
        0 < width <= 128,
        forall|k: int| 0 <= k < ps.len() ==> #[trigger] ps[k] < width,
    ensures
        fits(list_bits(ps, width, dir), width),
        fits(list_flip_bits(ps, width, dir), width),
    decreases ps.len(),
{
    if ps.len() == 0 {
        lemma_fits_single(0, width);
    } else {
        let rest = ps.drop_last();
        let b = single_bit(dir.place(ps.last(), width) as u32);
        assert(ps.last() == ps[ps.len() - 1]);
        lemma_list_bits_fit(rest, width, dir);
        lemma_fits_single(dir.place(ps.last(), width) as u32, width);
        lemma_fits_ops(list_bits(rest, width, dir), b, width);
        lemma_fits_ops(list_flip_bits(rest, width, dir), b, width);
    }
}

/// A mask, and what toggling xors in, stay inside the word.
pub proof fn lemma_mask_bits_fit(sel: Selector, width: u32, dir: Direction)
    requires
        0 < width <= 128,
        sel.is_valid_for(width),
    ensures
        fits(mask_bits(sel, width, dir), width),
        fits(flip_bits(sel, width, dir), width),
{
    match sel {
        Selector::Single(p) => lemma_fits_single(dir.place(p, width) as u32, width),
        Selector::List(ps) => lemma_list_bits_fit(ps@, width, dir),
        _ => lemma_run_bits_fit(sel.run(width, dir).0, sel.run(width, dir).1, width),
    }
}

proof fn lemma_list_bits(ps: Seq<u32>, width: u32, dir: Direction, i: u32)
    requires
        0 < width <= 128,
        forall|k: int| 0 <= k < ps.len() ==> #[trigger] ps[k] < width,
        i < 128,
    ensures
        bit_at(list_bits(ps, width, dir), i) == exists|k: int|
            0 <= k < ps.len() && i == dir.place(#[trigger] ps[k], width),
        bit_at(list_flip_bits(ps, width, dir), i) == (hits(ps, width, dir, i as int) % 2 == 1),
    decreases ps.len(),
{
    if ps.len() == 0 {
        assert((0u128 >> i) & 1 != 1) by (bit_vector);
    } else {
        let rest = ps.drop_last();
        let last = ps.last();
        let j = dir.place(last, width) as u32;
        assert(last == ps[ps.len() - 1]);
        assert(forall|k: int| 0 <= k < rest.len() ==> #[trigger] rest[k] == ps[k]);
        lemma_list_bits(rest, width, dir, i);
        lemma_single_bit(j, i);
        lemma_bit_or(list_bits(rest, width, dir), single_bit(j), i);
        lemma_bit_xor(list_flip_bits(rest, width, dir), single_bit(j), i);
        if exists|k: int| 0 <= k < ps.len() && i == dir.place(#[trigger] ps[k], width) {
            let k = choose|k: int| 0 <= k < ps.len() && i == dir.place(#[trigger] ps[k], width);
            if k < rest.len() {
                assert(i == dir.place(rest[k], width));
            }
        }
    }
}

/// A mask has exactly the selected bits set.
pub proof fn lemma_mask_bits_selects(sel: Selector, width: u32, dir: Direction, i: u32)
    requires
        0 < width <= 128,
        sel.is_valid_for(width),
        i < 128,
    ensures
        bit_at(mask_bits(sel, width, dir), i) == sel.selects(width, dir, i as int),
{
    match sel {
        Selector::Single(p) => lemma_single_bit(dir.place(p, width) as u32, i),
        Selector::List(ps) => lemma_list_bits(ps@, width, dir, i),
        _ => lemma_run_bits(sel.run(width, dir).0, sel.run(width, dir).1, i),
    }
}

/// Toggling flips exactly the bits that the selector names, a listed bit once
/// for each time it is listed.
pub proof fn lemma_flip_bits_flips(sel: Selector, width: u32, dir: Direction, i: u32)
    requires
        0 < width <= 128,
        sel.is_valid_for(width),
        i < 128,
    ensures
        bit_at(flip_bits(sel, width, dir), i) == sel.flips(width, dir, i as int),
{
    match sel {
        Selector::List(ps) => lemma_list_bits(ps@, width, dir, i),
        _ => lemma_mask_bits_selects(sel, width, dir, i),
    }
}

fn run_mask(lo: u32, hi: u32) -> (r: u128)
    requires
        lo < hi <= 128,
    ensures
        r == run_bits(lo as int, hi as int),
{
    let shift: u32 = 128 - (hi - lo);
    let r = (!0u128 >> shift) << lo;
    proof {
    assert forall|i: u32| i < 128 implies bit_at(r, i) == bit_at(run_bits(lo as int, hi as int), i) by {
        lemma_run_bits(lo as int, hi as int, i);
        lemma_bit_shl(!0u128 >> shift, lo, i);
        if lo <= i {
            lemma_bit_low_ones(shift, (i - lo) as u32);
        }
    }
    lemma_bits_ext(r, run_bits(lo as int, hi as int));
    }
    r
}

fn single_mask(p: u32, width: u32, dir: Direction) -> (r: u128)
    requires
        p < width <= 128,
    ensures
        r == single_bit(dir.place(p, width) as u32),
{
    match dir {
        Direction::Forward => 1u128 << p,
        Direction::Reversed => 1u128 << (width - p - 1),
    }
}

fn list_mask(ps: &Vec<u32>, width: u32, dir: Direction) -> (r: u128)
    requires
        width <= 128,
        forall|k: int| 0 <= k < ps@.len() ==> #[trigger] ps@[k] < width,
    ensures
        r == list_bits(ps@, width, dir),
{
    let mut m: u128 = 0;
    let mut k: usize = 0;
    while k < ps.len()
        invariant
            k <= ps@.len(),
            width <= 128,
            forall|j: int| 0 <= j < ps@.len() ==> #[trigger] ps@[j] < width,
            m == list_bits(ps@.take(k as int), width, dir),
        decreases ps@.len() - k,
    {
        assert(ps@.take(k + 1).drop_last() == ps@.take(k as int));
        m = m | single_mask(ps[k], width, dir);
        k = k + 1;
    }
    assert(ps@.take(k as int) == ps@);
    m
}

fn list_flip_mask(ps: &Vec<u32>, width: u32, dir: Direction) -> (r: u128)
    requires
        width <= 128,
        forall|k: int| 0 <= k < ps@.len() ==> #[trigger] ps@[k] < width,
    ensures
        r == list_flip_bits(ps@, width, dir),
{
    let mut m: u128 = 0;
    let mut k: usize = 0;
    while k < ps.len()
        invariant
            k <= ps@.len(),
            width <= 128,
            forall|j: int| 0 <= j < ps@.len() ==> #[trigger] ps@[j] < width,
            m == list_flip_bits(ps@.take(k as int), width, dir),
        decreases ps@.len() - k,
    {
        assert(ps@.take(k + 1).drop_last() == ps@.take(k as int));
        m = m ^ single_mask(ps[k], width, dir);
        k = k + 1;
    }
    assert(ps@.take(k as int) == ps@);
    m
}

/// Bounds `[lo, hi)`, counted from the least significant bit, of the run of
/// bits that a range selector names.
fn run_bounds(sel: &Selector, width: u32, dir: Direction) -> (r: (u32, u32))
    requires
        0 < width <= 128,
        sel.is_valid_for(width),
        !(sel is Single),
        !(sel is List),
    ensures
        r.0 == sel.run(width, dir).0,
        r.1 == sel.run(width, dir).1,
        r.0 < r.1 <= width,
{
    let (start, end): (u32, u32) = match sel {
        Selector::Range(start, end) => (*start, *end),
        Selector::RangeFrom(start) => (*start, width),
        Selector::RangeTo(end) => (0, *end),
        Selector::StartCount(start, count) => (*start, *start + *count),
        _ => (0, width),
    };
    match dir {
        Direction::Forward => (start, end),
        Direction::Reversed => (width - end, width - start),
    }
}

/// The mask of `sel` over a word of `width` bits.
pub fn build_mask(sel: &Selector, width: u32, dir: Direction) -> (r: u128)
    requires
        0 < width <= 128,
        sel.is_valid_for(width),
    ensures
        r == mask_bits(*sel, width, dir),
        fits(r, width),
{
    let r = match sel {
        Selector::Single(p) => single_mask(*p, width, dir),
        Selector::List(ps) => list_mask(ps, width, dir),
        _ => {
            let (lo, hi) = run_bounds(sel, width, dir);
            run_mask(lo, hi)
        },
    };
    proof {
        lemma_mask_bits_fit(*sel, width, dir);
    }
    r
}

/// What toggling `sel` xors into a word of `width` bits.
pub fn build_flip_mask(sel: &Selector, width: u32, dir: Direction) -> (r: u128)
    requires
        0 < width <= 128,
        sel.is_valid_for(width),
    ensures
        r == flip_bits(*sel, width, dir),
        fits(r, width),
{
    match sel {
        Selector::List(ps) => {
            proof {
                lemma_mask_bits_fit(*sel, width, dir);
            }
            list_flip_mask(ps, width, dir)
        },
        _ => build_mask(sel, width, dir),
    }
}

} // verus!
