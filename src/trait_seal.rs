use vstd::prelude::*;

verus! {

/// Restricts `Bitmap` to the primitive integer types.
pub trait TraitSeal {}

impl TraitSeal for u8 {}

impl TraitSeal for i8 {}

impl TraitSeal for u16 {}

impl TraitSeal for i16 {}

impl TraitSeal for u32 {}

impl TraitSeal for i32 {}

impl TraitSeal for u64 {}

impl TraitSeal for i64 {}

impl TraitSeal for u128 {}

impl TraitSeal for i128 {}

} // verus!
