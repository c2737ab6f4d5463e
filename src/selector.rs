//! Which bits an operation targets, and from which end positions count.
use vstd::prelude::*;

verus! {

/// Whether bit positions count from the least significant bit (`Forward`)
/// or from the most significant bit of the word (`Reversed`).
#[derive(Clone, Copy, Debug, PartialEq, Eq, Structural)]
pub enum Direction {
    Forward,
    Reversed,
}

/// The bits an operation targets, as positions counted in some `Direction`.
#[derive(Debug)]
pub enum Selector {
    /// One bit.
    Single(u32),
    /// Any number of bits; a position may be listed more than once.
    List(Vec<u32>),
    /// The half-open range `[start, end)`.
    Range(u32, u32),
    /// `[start, width)`.
    RangeFrom(u32),
    /// `[0, end)`.
    RangeTo(u32),
    /// Every bit of the word.
    RangeFull,
    /// `count` bits starting at `start`: the range `[start, start + count)`.
    StartCount(u32, u32),
}

/// The widths of the supported word types.
pub open spec fn is_word_width(width: u32) -> bool {
    width == 8 || width == 16 || width == 32 || width == 64 || width == 128
}

impl Direction {
    /// Position, counted from the least significant bit, of the bit that
    /// position `p` names in a word of `width` bits.
    pub open spec fn place(self, p: u32, width: u32) -> int {
        match self {
            Direction::Forward => p as int,
            Direction::Reversed => width - 1 - p,
        }
    }
}

impl Selector {
    /// Every position that the selector names lies inside a word of `width`
    /// bits, and a range holds at least one bit.
    pub open spec fn is_valid_for(&self, width: u32) -> bool {
        match self {
            Selector::Single(p) => *p < width,
            Selector::List(ps) => forall|k: int| 0 <= k < ps@.len() ==> #[trigger] ps@[k] < width,
            Selector::Range(start, end) => *start < *end <= width,
            Selector::RangeFrom(start) => *start < width,
            Selector::RangeTo(end) => 0 < *end <= width,
            Selector::RangeFull => true,
            Selector::StartCount(start, count) => 0 < *count && *start + *count <= width,
        }
    }

    /// For the range selectors: the bounds `[lo, hi)` of the run of bits they
    /// name, counted from the least significant bit.
    pub open spec fn run(&self, width: u32, dir: Direction) -> (int, int) {
        let (start, end): (int, int) = match self {
            Selector::Range(start, end) => (*start as int, *end as int),
            Selector::RangeFrom(start) => (*start as int, width as int),
            Selector::RangeTo(end) => (0, *end as int),
            Selector::StartCount(start, count) => (*start as int, *start + *count),
            _ => (0, width as int),
        };
        match dir {
            Direction::Forward => (start, end),
            Direction::Reversed => (width - end, width - start),
        }
    }

    /// Bit `i`, counted from the least significant bit, is one that the
    /// selector names.
    pub open spec fn selects(&self, width: u32, dir: Direction, i: int) -> bool {
        match self {
            Selector::Single(p) => i == dir.place(*p, width),
            Selector::List(ps) => exists|k: int|
                0 <= k < ps@.len() && i == dir.place(#[trigger] ps@[k], width),
            _ => self.run(width, dir).0 <= i < self.run(width, dir).1,
        }
    }

    /// Bit `i` changes when every named position is toggled in turn: for a
    /// list, when it is named an odd number of times.
    pub open spec fn flips(&self, width: u32, dir: Direction, i: int) -> bool {
        match self {
            Selector::List(ps) => hits(ps@, width, dir, i) % 2 == 1,
            _ => self.selects(width, dir, i),
        }
    }
}

/// How many of the positions `ps` name bit `i`.
pub open spec fn hits(ps: Seq<u32>, width: u32, dir: Direction, i: int) -> nat
    decreases ps.len(),
{
    if ps.len() == 0 {
        0
    } else {
        hits(ps.drop_last(), width, dir, i) + if dir.place(ps.last(), width) == i {
            1nat
        } else {
            0nat
        }
    }
}

} // verus!
