//! Widening multiply-then-divide on 128-bit amounts.
//!
//! Every proportional quantity in the ledger is a floor of `a * n / d` whose
//! product may need up to 256 bits. The widening arithmetic is done by
//! `cosmwasm_std`; this module states what it returns and proves the facts
//! about floors that the rest of the crate builds on.

use crate::error::ArithmeticError;
use cosmwasm_std::{CheckedMultiplyRatioError, Uint128};
use vstd::arithmetic::div_mod::*;
use vstd::prelude::*;

verus! {

/// The floor of `a * n / d` over the naturals.
pub open spec fn ratio_floor(a: nat, n: nat, d: nat) -> nat
    recommends
        d > 0,
{
    (a * n) / d
}

/// What `checked_multiply_ratio` answers for the operands `a`, `n`, `d`.
pub open spec fn checked_ratio(a: u128, n: u128, d: u128) -> Result<u128, ArithmeticError> {
    if d == 0 {
        Err(ArithmeticError::DivideByZero)
    } else if ratio_floor(a as nat, n as nat, d as nat) > u128::MAX {
        Err(ArithmeticError::Overflow)
    } else {
        Ok(ratio_floor(a as nat, n as nat, d as nat) as u128)
    }
}

/// Calls `cosmwasm_std::Uint128::checked_multiply_ratio`.
///
/// Trusted: that method multiplies into 256 bits, divides by the denominator
/// rounding down, and reports a zero denominator or a quotient above
/// `u128::MAX` as its two error variants. The contract claims exactly that.
#[verifier::external_body]
pub(crate) fn checked_multiply_ratio(a: u128, n: u128, d: u128) -> (r: Result<u128, ArithmeticError>)
    ensures
        r == checked_ratio(a, n, d),
{
    match Uint128::new(a).checked_multiply_ratio(n, d) {
        Ok(v) => Ok(v.u128()),
        Err(CheckedMultiplyRatioError::DivideByZero) => Err(ArithmeticError::DivideByZero),
        Err(CheckedMultiplyRatioError::Overflow) => Err(ArithmeticError::Overflow),
    }
}

/// Floor of `a * n / d`, or the reason it cannot be had.
pub fn mul_ratio(a: u128, n: u128, d: u128) -> (r: Result<u128, ArithmeticError>)
    ensures
        r == checked_ratio(a, n, d),
        d != 0 && n <= d ==> r is Ok,
{
    proof {
        if d != 0 && n <= d {
            lemma_ratio_at_most_amount(a as nat, n as nat, d as nat);
        }
    }
    checked_multiply_ratio(a, n, d)
}

/// A ratio with `n <= d` never exceeds the amount it is taken of.
pub proof fn lemma_ratio_at_most_amount(a: nat, n: nat, d: nat)
    requires
        d > 0,
        n <= d,
    ensures
        ratio_floor(a, n, d) <= a,
{
    assert(a * n <= a * d) by (nonlinear_arith)
        requires
            n <= d,
    ;
    lemma_div_is_ordered((a * n) as int, (a * d) as int, d as int);
    lemma_div_multiples_vanish(a as int, d as int);
    assert(a * d == d * a) by (nonlinear_arith);
}

/// A ratio with `a < d` stays strictly below `n`.
pub proof fn lemma_ratio_below_numerator(a: nat, n: nat, d: nat)
    requires
        d > 0,
        a < d,
        n > 0,
    ensures
        ratio_floor(a, n, d) < n,
{
    assert(a * n < n * d) by (nonlinear_arith)
        requires
            a < d,
            n > 0,
    ;
    lemma_div_by_multiple_is_strongly_ordered((a * n) as int, (n * d) as int, n as int, d as int);
    lemma_div_multiples_vanish(n as int, d as int);
    assert(n * d == d * n) by (nonlinear_arith);
}

/// Multiplying the floor back never exceeds the product it came from.
pub proof fn lemma_ratio_times_denominator(a: nat, n: nat, d: nat)
    requires
        d > 0,
    ensures
        ratio_floor(a, n, d) * d <= a * n,
        a * n < ratio_floor(a, n, d) * d + d,
{
    lemma_fundamental_div_mod((a * n) as int, d as int);
    lemma_mod_bound((a * n) as int, d as int);
    assert(d * ((a * n) / d) == ((a * n) / d) * d) by (nonlinear_arith);
}

/// Splitting the amount into a multiple of the denominator and a rest splits the floor.
pub proof fn lemma_ratio_split(q: nat, r: nat, n: nat, d: nat)
    requires
        d > 0,
    ensures
        ratio_floor(q * d + r, n, d) == q * n + ratio_floor(r, n, d),
{
    assert((q * d + r) * n == d * (q * n) + r * n) by (nonlinear_arith);
    lemma_div_multiples_vanish_fancy((q * n) as int, ((r * n) % d) as int, d as int);
    lemma_fundamental_div_mod((r * n) as int, d as int);
    lemma_mod_bound((r * n) as int, d as int);
    let x = (r * n) as int;
    let dd = d as int;
    assert(dd * (q * n) + x == dd * (q * n + x / dd) + x % dd) by (nonlinear_arith)
        requires
            x == dd * (x / dd) + x % dd,
    ;
    lemma_fundamental_div_mod_converse_div(dd * (q * n) + x, dd, q * n + x / dd, x % dd);
}

/// A floored ratio grows with the amount and with the numerator.
pub proof fn lemma_ratio_monotone(a: nat, b: nat, n: nat, k: nat, d: nat)
    requires
        d > 0,
        a <= b,
        n <= k,
    ensures
        ratio_floor(a, n, d) <= ratio_floor(b, k, d),
{
    assert(a * n <= b * k) by (nonlinear_arith)
        requires
            a <= b,
            n <= k,
    ;
    lemma_div_is_ordered((a * n) as int, (b * k) as int, d as int);
}

/// The floored ratios of two amounts add up to at most the floored ratio of their sum.
pub proof fn lemma_ratio_superadditive(a: nat, b: nat, n: nat, d: nat)
    requires
        d > 0,
    ensures
        ratio_floor(a, n, d) + ratio_floor(b, n, d) <= ratio_floor(a + b, n, d),
{
    lemma_ratio_times_denominator(a, n, d);
    lemma_ratio_times_denominator(b, n, d);
    let q = ratio_floor(a, n, d) + ratio_floor(b, n, d);
    assert(q * d <= (a + b) * n) by (nonlinear_arith)
        requires
            ratio_floor(a, n, d) * d <= a * n,
            ratio_floor(b, n, d) * d <= b * n,
            q == ratio_floor(a, n, d) + ratio_floor(b, n, d),
    ;
    lemma_div_is_ordered((q * d) as int, ((a + b) * n) as int, d as int);
    lemma_div_multiples_vanish(q as int, d as int);
    assert(q * d == d * q) by (nonlinear_arith);
}

} // verus!
