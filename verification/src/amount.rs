//! Fixed-point quantities.
//!
//! Calories, servings, weights and heights are stored as whole numbers of
//! thousandths: `95_000` is 95 kcal, `1_500` is one and a half servings.
//! Sums and products saturate at `u64::MAX` instead of wrapping.

use vstd::prelude::*;

verus! {

/// How many stored units make one whole kilocalorie, serving, kilogram or centimetre.
pub const UNITS_PER_WHOLE: u64 = 1000;

/// `value` limited to what a `u64` holds.
pub open spec fn saturate(value: nat) -> nat {
    if value > u64::MAX {
        u64::MAX as nat
    } else {
        value
    }
}

/// Calories in `servings` thousandths of a serving of a food that has
/// `calories` thousandths of a kilocalorie per whole serving, rounded down
/// and saturated.
pub open spec fn portion(calories: nat, servings: nat) -> nat {
    saturate((calories * servings) / 1000)
}

/// Saturating sum of two amounts.
pub fn add_amounts(a: u64, b: u64) -> (sum: u64)
    ensures
        sum == saturate((a + b) as nat),
{
    if a > u64::MAX - b {
        u64::MAX
    } else {
        a + b
    }
}

/// Calories of a portion: `calories * servings / 1000`, rounded down and saturated.
pub fn portion_calories(calories: u64, servings: u64) -> (result: u64)
    ensures
        result == portion(calories as nat, servings as nat),
{
    let wide: u128 = calories as u128;
    let factor: u128 = servings as u128;
    assert(wide * factor <= u64::MAX * u64::MAX) by (nonlinear_arith)
        requires
            wide <= u64::MAX,
            factor <= u64::MAX,
    ;
    let scaled: u128 = (wide * factor) / 1000;
    if scaled > u64::MAX as u128 {
        u64::MAX
    } else {
        scaled as u64
    }
}

/// A saturated running total absorbs a further term exactly as the exact
/// total does: saturating early loses nothing.
pub proof fn lemma_saturate_absorbs(total: nat, term: nat)
    ensures
        saturate(saturate(total) + term) == saturate(total + term),
{
}

} // verus!
