//! Bit operations on fixed-width integer words: set, unset, toggle and test
//! single bits, lists of bit positions and ranges of bits, counted from the
//! least significant bit or, reversed, from the most significant one.
//!
//! Positions are not checked at run time: every operation requires that the
//! selector fits the word (`Selector::is_valid_for`), and a range must hold at
//! least one bit.
//!
//! ```
//! use bit_fiddler::{set_in_place, Direction, Selector};
//!
//! let mut bitmap: u8 = 0b_0000_0000;
//! set_in_place(&mut bitmap, &Selector::Range(3, 6), Direction::Forward);
//! assert_eq!(bitmap, 0b_0011_1000);
//! ```

pub mod bitmap_trait;
pub mod bits;
pub mod laws;
pub mod mask;
pub mod ops;
pub mod selector;
mod trait_seal;

pub use bitmap_trait::{check_bitmap_impl_by_type, check_bitmap_impl_by_value, Bitmap};
pub use ops::{
    is_set, mask, max_bits, max_bits_of, set_in_place, toggle, toggle_in_place, unset,
    unset_in_place,
};
pub use selector::{Direction, Selector};
