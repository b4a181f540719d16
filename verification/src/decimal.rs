//! The two operations on decimals that this crate takes from `rust_decimal`:
//! the order of two decimals and their sum.
//!
//! Nothing in this file is proved. Each function states what the crate
//! believes of the outside function it calls; everything else in the crate is
//! verified against these statements.

use crate::amount::{in_range, sums_plainly, value_of};
use rust_decimal::Decimal;
use std::cmp::Ordering;
use vstd::prelude::*;

verus! {

/// What `Decimal::checked_add` returns for the decimals `am / 10^a_scale` and
/// `bm / 10^b_scale`: the mantissa and the scale of the sum, or `None` where
/// the sum overflows. Where the scales differ the sum may be rounded, so this
/// crate states nothing of its value in general: `Amount::checked_add` tests
/// it.
pub uninterp spec fn decimal_sum(am: i128, a_scale: u32, bm: i128, b_scale: u32) -> Option<
    (i128, u32),
>;

/// Calls `Ord::cmp` of `rust_decimal::Decimal` on `am / 10^a_scale` and
/// `bm / 10^b_scale`. The contract claims that decimals are ordered by their
/// numerical value, whatever their scales.
#[verifier::external_body]
pub(crate) fn decimal_order(am: i128, a_scale: u32, bm: i128, b_scale: u32) -> (r: Ordering)
    requires
        in_range(am, a_scale),
        in_range(bm, b_scale),
    ensures
        r is Less <==> value_of(am, a_scale) < value_of(bm, b_scale),
        r is Equal <==> value_of(am, a_scale) == value_of(bm, b_scale),
        r is Greater <==> value_of(am, a_scale) > value_of(bm, b_scale),
{
    let a = Decimal::from_i128_with_scale(am, a_scale);
    let b = Decimal::from_i128_with_scale(bm, b_scale);
    a.cmp(&b)
}

/// Calls `Decimal::checked_add` on `am / 10^a_scale` and `bm / 10^b_scale`
/// and hands back the mantissa and the scale of what it returns. The contract
/// claims that the result depends on the four arguments alone, and that two
/// decimals of one scale whose mantissas add up to one that a decimal can hold
/// give that mantissa at that scale: nothing is rescaled or rounded then.
#[verifier::external_body]
pub(crate) fn decimal_checked_add(am: i128, a_scale: u32, bm: i128, b_scale: u32) -> (r: Option<
    (i128, u32),
>)
    requires
        in_range(am, a_scale),
        in_range(bm, b_scale),
    ensures
        r == decimal_sum(am, a_scale, bm, b_scale),
        sums_plainly(am, a_scale, bm, b_scale) ==> r == Some(((am + bm) as i128, a_scale)),
{
    let a = Decimal::from_i128_with_scale(am, a_scale);
    let b = Decimal::from_i128_with_scale(bm, b_scale);
    match a.checked_add(b) {
        Some(sum) => Some((sum.mantissa(), sum.scale())),
        None => None,
    }
}

} // verus!
