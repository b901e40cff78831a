//! Integer arithmetic that reports failure instead of wrapping.
//!
//! The operations come from the `safe_arith` crate. Each function below hands its operands to one
//! method of `safe_arith::SafeArith` and turns the crate's error into [`ArithError`].

use safe_arith::SafeArith;
use vstd::prelude::*;

verus! {

/// The failure of an arithmetic operation.
#[derive(Clone, Copy, Debug, PartialEq, Eq, Structural)]
pub enum ArithError {
    Overflow,
    DivisionByZero,
}

impl ArithError {
    /// The name of the variant.
    pub open spec fn spec_name(self) -> Seq<char> {
        match self {
            ArithError::Overflow => "Overflow"@,
            ArithError::DivisionByZero => "DivisionByZero"@,
        }
    }

    /// The name of the variant.
    pub fn name(self) -> (r: &'static str)
        ensures
            r@ == self.spec_name(),
    {
        match self {
            ArithError::Overflow => "Overflow",
            ArithError::DivisionByZero => "DivisionByZero",
        }
    }
}

/// `a` as a `u64`, or an overflow.
pub open spec fn fits_u64(a: int) -> Result<u64, ArithError> {
    if 0 <= a <= u64::MAX {
        Ok(a as u64)
    } else {
        Err(ArithError::Overflow)
    }
}

/// The quotient of `a` by `b`, defined when `b` is not zero.
pub open spec fn quotient(a: u64, b: u64) -> Result<u64, ArithError> {
    if b == 0 {
        Err(ArithError::DivisionByZero)
    } else {
        Ok((a / b) as u64)
    }
}

/// The remainder of `a` by `b`, defined when `b` is not zero.
pub open spec fn remainder(a: usize, b: usize) -> Result<usize, ArithError> {
    if b == 0 {
        Err(ArithError::DivisionByZero)
    } else {
        Ok((a % b) as usize)
    }
}

/// `<u64 as safe_arith::SafeArith>::safe_add`: the sum, or an overflow when it exceeds `u64::MAX`.
#[verifier::external_body]
pub(crate) fn safe_add(a: u64, b: u64) -> (r: Result<u64, ArithError>)
    ensures
        r == fits_u64(a + b),
{
    match a.safe_add(b) {
        Ok(v) => Ok(v),
        Err(safe_arith::ArithError::Overflow) => Err(ArithError::Overflow),
        Err(safe_arith::ArithError::DivisionByZero) => Err(ArithError::DivisionByZero),
    }
}

/// `<u64 as safe_arith::SafeArith>::safe_add_assign`: adds in place, or reports an overflow and
/// leaves the target as it was.
#[verifier::external_body]
pub(crate) fn safe_add_assign(a: &mut u64, b: u64) -> (r: Result<(), ArithError>)
    ensures
        match fits_u64(*old(a) + b) {
            Ok(v) => r == Ok::<(), ArithError>(()) && *final(a) == v,
            Err(e) => r == Err::<(), ArithError>(e) && *final(a) == *old(a),
        },
{
    match a.safe_add_assign(b) {
        Ok(()) => Ok(()),
        Err(safe_arith::ArithError::Overflow) => Err(ArithError::Overflow),
        Err(safe_arith::ArithError::DivisionByZero) => Err(ArithError::DivisionByZero),
    }
}

/// `<u64 as safe_arith::SafeArith>::safe_sub`: the difference, or an overflow when it is negative.
#[verifier::external_body]
pub(crate) fn safe_sub(a: u64, b: u64) -> (r: Result<u64, ArithError>)
    ensures
        r == fits_u64(a - b),
{
    match a.safe_sub(b) {
        Ok(v) => Ok(v),
        Err(safe_arith::ArithError::Overflow) => Err(ArithError::Overflow),
        Err(safe_arith::ArithError::DivisionByZero) => Err(ArithError::DivisionByZero),
    }
}

/// `<u64 as safe_arith::SafeArith>::safe_mul`: the product, or an overflow when it exceeds
/// `u64::MAX`.
#[verifier::external_body]
pub(crate) fn safe_mul(a: u64, b: u64) -> (r: Result<u64, ArithError>)
    ensures
        r == fits_u64(a * b),
{
    match a.safe_mul(b) {
        Ok(v) => Ok(v),
        Err(safe_arith::ArithError::Overflow) => Err(ArithError::Overflow),
        Err(safe_arith::ArithError::DivisionByZero) => Err(ArithError::DivisionByZero),
    }
}

/// `<u64 as safe_arith::SafeArith>::safe_div`: the quotient rounded down, or a division by zero.
#[verifier::external_body]
pub(crate) fn safe_div(a: u64, b: u64) -> (r: Result<u64, ArithError>)
    ensures
        r == quotient(a, b),
{
    match a.safe_div(b) {
        Ok(v) => Ok(v),
        Err(safe_arith::ArithError::Overflow) => Err(ArithError::Overflow),
        Err(safe_arith::ArithError::DivisionByZero) => Err(ArithError::DivisionByZero),
    }
}

/// `<usize as safe_arith::SafeArith>::safe_add`: the sum, or an overflow when it exceeds
/// `usize::MAX`.
#[verifier::external_body]
pub(crate) fn safe_add_usize(a: usize, b: usize) -> (r: Result<usize, ArithError>)
    ensures
        r == (if a + b <= usize::MAX {
            Ok::<usize, ArithError>((a + b) as usize)
        } else {
            Err(ArithError::Overflow)
        }),
{
    match a.safe_add(b) {
        Ok(v) => Ok(v),
        Err(safe_arith::ArithError::Overflow) => Err(ArithError::Overflow),
        Err(safe_arith::ArithError::DivisionByZero) => Err(ArithError::DivisionByZero),
    }
}

/// `<usize as safe_arith::SafeArith>::safe_rem`: the remainder, or a division by zero.
#[verifier::external_body]
pub(crate) fn safe_rem_usize(a: usize, b: usize) -> (r: Result<usize, ArithError>)
    ensures
        r == remainder(a, b),
{
    match a.safe_rem(b) {
        Ok(v) => Ok(v),
        Err(safe_arith::ArithError::Overflow) => Err(ArithError::Overflow),
        Err(safe_arith::ArithError::DivisionByZero) => Err(ArithError::DivisionByZero),
    }
}

} // verus!
