//! The numeric identities and checked operations of the `num` crate, on the
//! integer types that the runtime uses. Their contracts are taken on trust.

use vstd::prelude::*;

verus! {

/// `num::traits::Zero::zero` for `u32`. Trusted: the crate's impl returns the literal 0.
#[verifier::external_body]
pub(crate) fn zero_u32() -> (r: u32)
    ensures
        r == 0,
{
    let r: u32 = num::traits::Zero::zero();
    r
}

/// `num::traits::One::one` for `u32`. Trusted: the crate's impl returns the literal 1.
#[verifier::external_body]
pub(crate) fn one_u32() -> (r: u32)
    ensures
        r == 1,
{
    let r: u32 = num::traits::One::one();
    r
}

/// `num::traits::Zero::zero` for `u128`. Trusted: the crate's impl returns the literal 0.
#[verifier::external_body]
pub(crate) fn zero_u128() -> (r: u128)
    ensures
        r == 0,
{
    let r: u128 = num::traits::Zero::zero();
    r
}

/// `num::traits::CheckedAdd::checked_add` for `u128`. Trusted: the crate's impl
/// forwards to `u128::checked_add`, which gives the sum where it fits the type
/// and `None` where it does not.
#[verifier::external_body]
pub(crate) fn checked_add_u128(a: &u128, b: &u128) -> (r: Option<u128>)
    ensures
        r == (if *a + *b <= u128::MAX {
            Some((*a + *b) as u128)
        } else {
            None
        }),
{
    num::traits::CheckedAdd::checked_add(a, b)
}

/// `num::traits::CheckedSub::checked_sub` for `u128`. Trusted: the crate's impl
/// forwards to `u128::checked_sub`, which gives the difference where it is not
/// negative and `None` where it is.
#[verifier::external_body]
pub(crate) fn checked_sub_u128(a: &u128, b: &u128) -> (r: Option<u128>)
    ensures
        r == (if *a >= *b {
            Some((*a - *b) as u128)
        } else {
            None
        }),
{
    num::traits::CheckedSub::checked_sub(a, b)
}

} // verus!
