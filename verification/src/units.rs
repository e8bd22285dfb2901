//! The fixed-point scale shared by all fractional quantities.
use vstd::prelude::*;

verus! {

/// One whole unit, in thousandths.
pub const WHOLE: u32 = 1000;

/// Half a unit, in thousandths: what each player gets of a contested fruit.
pub const HALF: u32 = 500;

/// What the winner of a finished match is credited with, in thousandths.
pub const WIN_REWARD: i64 = 10000;

/// What a round that does not finish the match costs the first player when
/// the caller names no other amount, in thousandths.
pub const STEP_COST: i32 = -100;

} // verus!
