//! A tip that grows geometrically with the attempt number, up to a cap.

use vstd::prelude::*;
use crate::arith::{
    lemma_mul_monotone, lemma_pow_monotone, lemma_pow_nonneg, lemma_sat_mul_sat_pow, min_u64, pow,
    sat_mul, sat_pow, saturating_mul, saturating_pow,
};

verus! {

/// The tip to pay on one attempt.
#[derive(Clone, Debug)]
pub struct TipConfiguration {
    pub tip: u64,
}

impl Default for TipConfiguration {
    fn default() -> (r: Self)
        ensures
            r.tip == 0,
    {
        TipConfiguration { tip: 0 }
    }
}

/// How the tip grows from one attempt to the next.
#[derive(Clone, Debug)]
pub struct TipPolicy {
    pub tip_min: u64,
    pub tip_max: u64,
    pub multiplier_per_attempt: u64,
}

/// The tip on attempt `attempt`: `tip_min * multiplier^attempt`, each step
/// saturating at `u64::MAX`, then capped at `tip_max`.
pub open spec fn tip_at(policy: TipPolicy, attempt: nat) -> u64 {
    min_u64(sat_mul(policy.tip_min, sat_pow(policy.multiplier_per_attempt, attempt)), policy.tip_max)
}

impl Default for TipPolicy {
    fn default() -> (r: Self)
        ensures
            r.tip_min == 1000,
            r.tip_max == 200000,
            r.multiplier_per_attempt == 4,
    {
        TipPolicy { tip_min: 1000, tip_max: 200000, multiplier_per_attempt: 4 }
    }
}

impl TipPolicy {
    /// The tip to pay on attempt number `attempt`.
    pub fn get_tip_configuration(&self, attempt: u32) -> (r: TipConfiguration)
        ensures
            r.tip == tip_at(*self, attempt as nat),
    {
        let grown = saturating_mul(self.tip_min, saturating_pow(self.multiplier_per_attempt, attempt));
        let tip = if grown <= self.tip_max { grown } else { self.tip_max };
        TipConfiguration { tip }
    }
}

/// The tip of an attempt, in closed form: `tip_min * multiplier^attempt`,
/// capped at `tip_max`.
pub proof fn lemma_tip_closed_form(policy: TipPolicy, attempt: nat)
    ensures
        tip_at(policy, attempt) as int == if policy.tip_min * pow(policy.multiplier_per_attempt as int, attempt)
            <= policy.tip_max {
            policy.tip_min * pow(policy.multiplier_per_attempt as int, attempt)
        } else {
            policy.tip_max as int
        },
{
    lemma_sat_mul_sat_pow(policy.tip_min, policy.multiplier_per_attempt, attempt);
    lemma_pow_nonneg(policy.multiplier_per_attempt as int, attempt);
    assert(policy.tip_min * pow(policy.multiplier_per_attempt as int, attempt) >= 0) by (nonlinear_arith)
        requires
            pow(policy.multiplier_per_attempt as int, attempt) >= 0,
    ;
}

/// No attempt pays more than `tip_max`.
pub proof fn lemma_tip_capped(policy: TipPolicy, attempt: nat)
    ensures
        tip_at(policy, attempt) <= policy.tip_max,
{
}

/// The first attempt pays `tip_min`, unless that is above `tip_max`.
pub proof fn lemma_first_tip(policy: TipPolicy)
    ensures
        tip_at(policy, 0) == min_u64(policy.tip_min, policy.tip_max),
{
    assert(pow(policy.multiplier_per_attempt as int, 0) == 1);
    assert(sat_pow(policy.multiplier_per_attempt, 0) == 1);
    assert(policy.tip_min * 1 == policy.tip_min);
}

/// With a multiplier of at least 1, a later attempt never pays less.
pub proof fn lemma_tip_grows(policy: TipPolicy, a1: nat, a2: nat)
    requires
        policy.multiplier_per_attempt >= 1,
        a1 <= a2,
    ensures
        tip_at(policy, a1) <= tip_at(policy, a2),
{
    let m = policy.multiplier_per_attempt as int;
    lemma_pow_monotone(m, a1, a2);
    lemma_mul_monotone(policy.tip_min as int, pow(m, a1), pow(m, a2));
    lemma_tip_closed_form(policy, a1);
    lemma_tip_closed_form(policy, a2);
}

} // verus!
