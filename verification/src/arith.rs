//! Saturating `u64` arithmetic, stated over mathematical integers.

use vstd::prelude::*;

verus! {

/// `x * y`, or `u64::MAX` where the product does not fit.
pub open spec fn sat_mul(x: u64, y: u64) -> u64 {
    if x * y > u64::MAX { u64::MAX } else { (x * y) as u64 }
}

/// `base` raised to `exp`, as a mathematical integer.
pub open spec fn pow(base: int, exp: nat) -> int
    decreases exp,
{
    if exp == 0 { 1 } else { base * pow(base, (exp - 1) as nat) }
}

/// `base` raised to `exp`, or `u64::MAX` where the power does not fit.
pub open spec fn sat_pow(base: u64, exp: nat) -> u64 {
    if pow(base as int, exp) > u64::MAX { u64::MAX } else { pow(base as int, exp) as u64 }
}

/// The smaller of two values.
pub open spec fn min_u64(x: u64, y: u64) -> u64 {
    if x <= y { x } else { y }
}

/// Saturating multiplication of two `u64`.
pub fn saturating_mul(x: u64, y: u64) -> (r: u64)
    ensures
        r == sat_mul(x, y),
{
    match x.checked_mul(y) {
        Some(p) => p,
        None => u64::MAX,
    }
}

/// Calls `u64::saturating_pow`, which raises `base` to `exp`, saturating at
/// `u64::MAX` instead of overflowing.
#[verifier::external_body]
pub(crate) fn saturating_pow(base: u64, exp: u32) -> (r: u64)
    ensures
        r == sat_pow(base, exp as nat),
{
    base.saturating_pow(exp)
}

/// Powers of a natural number are natural numbers.
pub proof fn lemma_pow_nonneg(base: int, exp: nat)
    requires
        base >= 0,
    ensures
        pow(base, exp) >= 0,
    decreases exp,
{
    if exp > 0 {
        lemma_pow_nonneg(base, (exp - 1) as nat);
        assert(base * pow(base, (exp - 1) as nat) >= 0) by (nonlinear_arith)
            requires
                base >= 0,
                pow(base, (exp - 1) as nat) >= 0,
        ;
    }
}

/// `x` capped at `u64::MAX`, as an integer.
pub open spec fn cap_u64(x: int) -> int {
    if x > u64::MAX { u64::MAX as int } else { x }
}

/// Powers of a base of at least 1 grow with the exponent.
pub proof fn lemma_pow_monotone(base: int, e1: nat, e2: nat)
    requires
        base >= 1,
        e1 <= e2,
    ensures
        1 <= pow(base, e1) <= pow(base, e2),
    decreases e2,
{
    if e2 > 0 {
        if e1 == e2 {
            lemma_pow_monotone(base, (e2 - 1) as nat, (e2 - 1) as nat);
        } else {
            lemma_pow_monotone(base, e1, (e2 - 1) as nat);
        }
        let q = pow(base, (e2 - 1) as nat);
        assert(base * q >= q) by (nonlinear_arith)
            requires
                base >= 1,
                q >= 1,
        ;
    }
}

/// Any positive power of zero is zero.
pub proof fn lemma_pow_zero_base(exp: nat)
    requires
        exp >= 1,
    ensures
        pow(0, exp) == 0,
{
}

/// A saturated product with a saturated power is the saturated product with
/// the exact power.
pub proof fn lemma_sat_mul_sat_pow(x: u64, base: u64, exp: nat)
    ensures
        sat_mul(x, sat_pow(base, exp)) as int == cap_u64(x * pow(base as int, exp)),
{
    lemma_pow_nonneg(base as int, exp);
    let p = pow(base as int, exp);
    if p > u64::MAX && x >= 1 {
        assert(x * (u64::MAX as int) >= u64::MAX) by (nonlinear_arith)
            requires
                x >= 1,
        ;
        assert(x * p > u64::MAX) by (nonlinear_arith)
            requires
                x >= 1,
                p > u64::MAX,
        ;
    }
}

/// A product of naturals grows with its second factor.
pub proof fn lemma_mul_monotone(x: int, y1: int, y2: int)
    requires
        x >= 0,
        0 <= y1 <= y2,
    ensures
        x * y1 <= x * y2,
{
    assert(x * y1 <= x * y2) by (nonlinear_arith)
        requires
            x >= 0,
            y1 <= y2,
    ;
}

} // verus!
