//! Integer helpers of the builtin runners.

use num_integer::Integer;
use num_traits::ToPrimitive;
use vstd::prelude::*;

verus! {

/// `x / y` rounded up, for a positive `y` and an `x` that is not negative.
pub open spec fn ceil_div(x: int, y: int) -> int {
    if x % y == 0 {
        x / y
    } else {
        x / y + 1
    }
}

/// `num_integer::div_ceil` on `usize`: the quotient, one more where the
/// division leaves a remainder. It panics on a zero divisor.
#[verifier::external_body]
pub(crate) fn div_ceil(x: usize, y: usize) -> (quotient: usize)
    requires
        y != 0,
    ensures
        quotient == ceil_div(x as int, y as int),
{
    num_integer::div_ceil(x, y)
}

/// `num_integer::Integer::mod_floor` on `usize`: the remainder of the
/// division. It panics on a zero divisor.
#[verifier::external_body]
pub(crate) fn mod_floor(x: usize, y: usize) -> (remainder: usize)
    requires
        y != 0,
    ensures
        remainder == x as int % y as int,
{
    x.mod_floor(&y)
}

/// `num_traits::ToPrimitive::to_usize` on `isize`: the same number, unless
/// it is negative.
#[verifier::external_body]
pub(crate) fn isize_to_usize(x: isize) -> (converted: Option<usize>)
    ensures
        converted == if x >= 0 {
            Some(x as usize)
        } else {
            None
        },
{
    x.to_usize()
}

} // verus!
