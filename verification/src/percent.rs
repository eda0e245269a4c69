//! Parts per hundred of an amount, rounded down.
use crate::types::Balance;
use sp_arithmetic::Percent;
use vstd::prelude::*;

verus! {

/// A percentage as the arithmetic takes it: anything above one hundred counts
/// as one hundred.
pub open spec fn capped(percent: u8) -> int {
    if percent > 100 {
        100
    } else {
        percent as int
    }
}

/// A percentage given as a wider number, capped at one hundred.
pub open spec fn as_percent(percent: u32) -> u8 {
    if percent > 100 {
        100u8
    } else {
        percent as u8
    }
}

/// `percent` hundredths of `amount`, rounded down.
pub open spec fn percent_of(percent: u8, amount: Balance) -> int {
    (capped(percent) * amount) / 100
}

/// `Percent::from_percent(percent).mul_floor(amount)` of sp-arithmetic.
///
/// `from_percent` caps its argument at one hundred, and `mul_floor` multiplies
/// the whole hundreds and the remainder of `amount` separately, which gives the
/// exact product divided by one hundred and rounded down, without overflow for
/// any `amount`. The contract claims that value.
#[verifier::external_body]
fn mul_floor(percent: u8, amount: Balance) -> (part: Balance)
    ensures
        part == percent_of(percent, amount),
{
    Percent::from_percent(percent).mul_floor(amount)
}

/// A share of an amount never exceeds the amount.
pub proof fn lemma_percent_of_bounded(percent: u8, amount: Balance)
    ensures
        0 <= percent_of(percent, amount) <= amount,
{
    let p = capped(percent);
    let a = amount as int;
    assert(0 <= p * a <= 100 * a) by (nonlinear_arith)
        requires
            0 <= p <= 100,
            0 <= a,
    ;
}

/// Shares taken separately never add up to more than the share of the summed
/// percentages.
pub proof fn lemma_percent_of_subadditive(x: int, y: int, amount: Balance)
    requires
        0 <= x,
        0 <= y,
    ensures
        (x * amount) / 100 + (y * amount) / 100 <= ((x + y) * amount) / 100,
{
    let a = amount as int;
    assert((x + y) * a == x * a + y * a) by (nonlinear_arith);
    assert(0 <= x * a && 0 <= y * a) by (nonlinear_arith)
        requires
            0 <= x,
            0 <= y,
            0 <= a,
    ;
}

/// A percentage given as a wider number, capped at one hundred.
pub fn to_percent(percent: u32) -> (capped: u8)
    ensures
        capped == as_percent(percent),
{
    if percent > 100 {
        100
    } else {
        percent as u8
    }
}

/// `percent` hundredths of `amount`, rounded down; a percentage above one
/// hundred is taken as one hundred.
pub fn mul_percent(percent: u8, amount: Balance) -> (part: Balance)
    ensures
        part == percent_of(percent, amount),
        part <= amount,
{
    proof {
        lemma_percent_of_bounded(percent, amount);
    }
    mul_floor(percent, amount)
}

} // verus!
