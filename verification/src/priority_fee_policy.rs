//! A compute-unit price that grows from attempt to attempt, up to a cap, and
//! the compute-budget instruction that sets it.

use vstd::prelude::*;
use crate::arith::{lemma_pow_nonneg, lemma_pow_zero_base, min_u64, pow, sat_mul, saturating_mul};
use crate::tip_policy::{TipPolicy, lemma_tip_closed_form, lemma_tip_grows, tip_at};

verus! {

/// An account that an instruction reads or writes.
#[derive(Clone, Copy, Debug, PartialEq, Eq)]
pub struct AccountRef {
    pub pubkey: [u8; 32],
    pub is_signer: bool,
    pub is_writable: bool,
}

/// An instruction to put in front of a transaction: the program it calls, the
/// accounts it names and its data.
#[derive(Clone, Debug, PartialEq, Eq)]
pub struct PreInstruction {
    pub program_id: [u8; 32],
    pub accounts: Vec<AccountRef>,
    pub data: Vec<u8>,
}

/// The address of the compute-budget program
/// (`ComputeBudget111111111111111111111111111111`).
pub open spec fn compute_budget_program_id() -> Seq<u8> {
    seq![
        3u8, 6, 70, 111, 229, 33, 23, 50, 255, 236, 173, 186, 114, 195, 155, 231,
        188, 140, 229, 187, 197, 247, 18, 107, 44, 67, 155, 58, 64, 0, 0, 0,
    ]
}

/// The eight little-endian bytes of `x`.
pub open spec fn u64_le_bytes(x: u64) -> Seq<u8> {
    Seq::new(8, |i: int| ((x as int / pow(256, i as nat)) % 256) as u8)
}

/// The data of the instruction that sets the compute-unit price: the variant
/// tag 3 followed by the price.
pub open spec fn compute_unit_price_data(micro_lamports: u64) -> Seq<u8> {
    seq![3u8] + u64_le_bytes(micro_lamports)
}

/// Calls `ComputeBudgetInstruction::set_compute_unit_price` and hands its
/// instruction back as plain values: an instruction for the compute-budget
/// program that names no account, whose data is the borsh encoding of
/// `SetComputeUnitPrice(micro_lamports)` (the variant index 3 as one byte,
/// then the price in little-endian order).
#[verifier::external_body]
fn set_compute_unit_price(micro_lamports: u64) -> (r: PreInstruction)
    ensures
        r.program_id@ == compute_budget_program_id(),
        r.accounts@.len() == 0,
        r.data@ == compute_unit_price_data(micro_lamports),
{
    let ins = solana_sdk::compute_budget::ComputeBudgetInstruction::set_compute_unit_price(micro_lamports);
    let mut accounts = Vec::new();
    for meta in ins.accounts {
        accounts.push(AccountRef { pubkey: meta.pubkey.to_bytes(), is_signer: meta.is_signer, is_writable: meta.is_writable });
    }
    PreInstruction { program_id: ins.program_id.to_bytes(), accounts, data: ins.data }
}

/// The compute-unit price of one attempt.
#[derive(Clone, Debug, Default)]
pub struct PriorityFeeConfiguration {
    pub micro_lamports_per_cu: u64,
}

impl PriorityFeeConfiguration {
    /// The instructions that set this price: one compute-budget instruction.
    pub fn build_pre_instructions(&self) -> (r: Vec<PreInstruction>)
        ensures
            r@.len() == 1,
            r@[0].program_id@ == compute_budget_program_id(),
            r@[0].accounts@.len() == 0,
            r@[0].data@ == compute_unit_price_data(self.micro_lamports_per_cu),
    {
        let mut r = Vec::new();
        r.push(set_compute_unit_price(self.micro_lamports_per_cu));
        r
    }
}

/// How the compute-unit price grows from one attempt to the next.
#[derive(Clone, Debug, Default)]
pub struct PriorityFeePolicy {
    pub micro_lamports_per_cu_min: u64,
    pub micro_lamports_per_cu_max: u64,
    pub multiplier_per_attempt: u64,
}

/// The price of attempt `n` (counting from 0): the minimum first, then each
/// price is the one before times the multiplier (saturating at `u64::MAX`),
/// capped at the maximum.
pub open spec fn fee_at(policy: PriorityFeePolicy, n: nat) -> u64
    decreases n,
{
    if n == 0 {
        policy.micro_lamports_per_cu_min
    } else {
        min_u64(
            sat_mul(fee_at(policy, (n - 1) as nat), policy.multiplier_per_attempt),
            policy.micro_lamports_per_cu_max,
        )
    }
}

impl PriorityFeePolicy {
    /// The prices of the first `count` attempts, in order.
    pub fn iter_priority_fee_configuration(&self, count: usize) -> (r: Vec<PriorityFeeConfiguration>)
        ensures
            r@.len() == count,
            forall|i: int| 0 <= i < count ==> #[trigger] r@[i].micro_lamports_per_cu == fee_at(*self, i as nat),
    {
        let mut r: Vec<PriorityFeeConfiguration> = Vec::new();
        let mut fee = self.micro_lamports_per_cu_min;
        let mut i: usize = 0;
        while i < count
            invariant
                i <= count,
                r@.len() == i,
                fee == fee_at(*self, i as nat),
                forall|j: int| 0 <= j < i ==> #[trigger] r@[j].micro_lamports_per_cu == fee_at(*self, j as nat),
            decreases count - i,
        {
            r.push(PriorityFeeConfiguration { micro_lamports_per_cu: fee });
            let grown = saturating_mul(fee, self.multiplier_per_attempt);
            fee = if grown <= self.micro_lamports_per_cu_max { grown } else { self.micro_lamports_per_cu_max };
            i = i + 1;
        }
        r
    }
}

/// The tip policy with the same bounds and multiplier as a fee policy.
pub open spec fn as_tip_policy(policy: PriorityFeePolicy) -> TipPolicy {
    TipPolicy {
        tip_min: policy.micro_lamports_per_cu_min,
        tip_max: policy.micro_lamports_per_cu_max,
        multiplier_per_attempt: policy.multiplier_per_attempt,
    }
}

/// The first price is the minimum, as given (even above the maximum).
pub proof fn lemma_first_fee(policy: PriorityFeePolicy)
    ensures
        fee_at(policy, 0) == policy.micro_lamports_per_cu_min,
{
}

/// Every price after the first is at most the maximum.
pub proof fn lemma_fee_capped(policy: PriorityFeePolicy, n: nat)
    requires
        n >= 1,
    ensures
        fee_at(policy, n) <= policy.micro_lamports_per_cu_max,
{
}

/// From the second attempt on, the price is `min * multiplier^n` capped at the
/// maximum: the same as the tip of a tip policy with the same numbers.
pub proof fn lemma_fee_closed_form(policy: PriorityFeePolicy, n: nat)
    requires
        n >= 1,
    ensures
        fee_at(policy, n) == tip_at(as_tip_policy(policy), n),
    decreases n,
{
    let tp = as_tip_policy(policy);
    let lo = policy.micro_lamports_per_cu_min as int;
    let hi = policy.micro_lamports_per_cu_max as int;
    let m = policy.multiplier_per_attempt as int;
    lemma_tip_closed_form(tp, n);
    let q = pow(m, (n - 1) as nat);
    lemma_pow_nonneg(m, (n - 1) as nat);
    assert(pow(m, n) == m * q);
    assert(lo * pow(m, n) == (lo * q) * m) by (nonlinear_arith)
        requires
            pow(m, n) == m * q,
    ;
    if n == 1 {
        assert(q == 1);
        assert(lo * q == lo);
        assert(lo * pow(m, n) == lo * m);
        assert(fee_at(policy, 0) == policy.micro_lamports_per_cu_min);
    } else {
        lemma_fee_closed_form(policy, (n - 1) as nat);
        lemma_tip_closed_form(tp, (n - 1) as nat);
        let prev = lo * q;
        assert(prev >= 0) by (nonlinear_arith)
            requires
                lo >= 0,
                q >= 0,
                prev == lo * q,
        ;
        let f = fee_at(policy, (n - 1) as nat);
        if prev <= hi {
            assert(f as int == prev);
            assert(f * m == lo * pow(m, n));
        } else {
            assert(f as int == hi);
            if m == 0 {
                lemma_pow_zero_base((n - 1) as nat);
                assert(lo * 0 == 0);
            } else {
                assert(hi * m >= hi) by (nonlinear_arith)
                    requires
                        m >= 1,
                        hi >= 0,
                ;
                assert(prev * m >= prev) by (nonlinear_arith)
                    requires
                        m >= 1,
                        prev >= 0,
                ;
                assert(lo * pow(m, n) > hi);
            }
        }
    }
}

/// Once a price (from any attempt) stands at the maximum, with a multiplier of
/// at least 1 every later price stays there.
pub proof fn lemma_fee_stays_at_cap(policy: PriorityFeePolicy, n: nat)
    requires
        policy.multiplier_per_attempt >= 1,
        fee_at(policy, n) == policy.micro_lamports_per_cu_max,
    ensures
        fee_at(policy, n + 1) == policy.micro_lamports_per_cu_max,
{
    let hi = policy.micro_lamports_per_cu_max as int;
    let m = policy.multiplier_per_attempt as int;
    assert(hi * m >= hi) by (nonlinear_arith)
        requires
            m >= 1,
            hi >= 0,
    ;
}

/// With the minimum at most the maximum and a multiplier of at least 1, prices
/// never go down from one attempt to a later one.
pub proof fn lemma_fee_grows(policy: PriorityFeePolicy, n1: nat, n2: nat)
    requires
        policy.micro_lamports_per_cu_min <= policy.micro_lamports_per_cu_max,
        policy.multiplier_per_attempt >= 1,
        n1 <= n2,
    ensures
        fee_at(policy, n1) <= fee_at(policy, n2),
{
    if n2 >= 1 {
        lemma_fee_closed_form(policy, n2);
        if n1 >= 1 {
            lemma_fee_closed_form(policy, n1);
            lemma_tip_grows(as_tip_policy(policy), n1, n2);
        } else {
            lemma_fee_closed_form(policy, 1);
            lemma_tip_grows(as_tip_policy(policy), 1, n2);
            let lo = policy.micro_lamports_per_cu_min as int;
            let m = policy.multiplier_per_attempt as int;
            assert(lo * m >= lo) by (nonlinear_arith)
                requires
                    m >= 1,
                    lo >= 0,
            ;
        }
    }
}

} // verus!
