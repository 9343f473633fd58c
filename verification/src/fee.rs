//! The block-to-block base-fee adjustment formula.
//!
//! The deterministic part moves the base fee toward gas usage by an
//! eighth of its proportional distance from the target; a small random
//! perturbation is added on top, so the result is an approximate
//! admission threshold rather than a reproducible on-chain value.

use vstd::arithmetic::div_mod::{
    lemma_div_is_ordered, lemma_div_multiples_vanish, lemma_div_nonincreasing,
};
use vstd::arithmetic::mul::lemma_mul_inequality;
use vstd::prelude::*;

verus! {

/// Target gas for a block: half the gas limit, floored at one so the
/// adjustment below never divides by zero.
pub open spec fn spec_target_gas(gas_limit: u64) -> int {
    if gas_limit as int / 2 == 0 {
        1
    } else {
        gas_limit as int / 2
    }
}

/// The deterministic part of the next-base-fee formula, with
/// truncating division at each step.
pub open spec fn spec_next_base_fee(gas_used: u64, gas_limit: u64, base_fee_per_gas: u64) -> int {
    let target = spec_target_gas(gas_limit);
    if gas_used > target {
        base_fee_per_gas + ((base_fee_per_gas * (gas_used - target)) / target) / 8
    } else {
        base_fee_per_gas - ((base_fee_per_gas * (target - gas_used)) / target) / 8
    }
}

/// The target never reaches zero, so the formula never divides by
/// zero, whatever the gas limit.
pub proof fn lemma_target_gas_positive(gas_limit: u64)
    ensures
        spec_target_gas(gas_limit) >= 1,
{
}

/// Relies on rand::Rng::gen_range over the half-open range 0..9: the
/// draw always lies below nine.
#[verifier::external_body]
fn random_perturbation() -> (r: u64)
    ensures
        r < 9,
{
    rand::Rng::gen_range(&mut rand::thread_rng(), 0..9u64)
}

/// Predicts the next block's base fee from the last block's gas usage,
/// gas limit and base fee: the deterministic adjustment plus a random
/// perturbation below nine.
pub fn calculate_next_block_base_fee(gas_used: u64, gas_limit: u64, base_fee_per_gas: u64) -> (r:
    u128)
    ensures
        spec_next_base_fee(gas_used, gas_limit, base_fee_per_gas) <= r < spec_next_base_fee(
            gas_used,
            gas_limit,
            base_fee_per_gas,
        ) + 9,
{
    let mut target: u64 = gas_limit / 2;
    if target == 0 {
        target = 1;
    }
    let base: u128 = base_fee_per_gas as u128;
    let t: u128 = target as u128;
    let new_base_fee: u128 = if gas_used > target {
        let diff: u128 = (gas_used - target) as u128;
        proof {
            lemma_mul_inequality(base as int, u64::MAX as int, diff as int);
            lemma_mul_inequality(diff as int, u64::MAX as int, u64::MAX as int);
            lemma_div_nonincreasing(base as int * diff as int, t as int);
            lemma_div_nonincreasing((base as int * diff as int) / (t as int), 8);
        }
        let prod: u128 = base * diff;
        base + (prod / t) / 8
    } else {
        let diff: u128 = (target - gas_used) as u128;
        proof {
            lemma_mul_inequality(diff as int, t as int, base as int);
            lemma_mul_inequality(base as int, u64::MAX as int, t as int);
            lemma_mul_inequality(t as int, u64::MAX as int, u64::MAX as int);
            lemma_div_multiples_vanish(base as int, t as int);
            lemma_div_is_ordered(base as int * diff as int, base as int * t as int, t as int);
            lemma_div_nonincreasing((base as int * diff as int) / (t as int), 8);
        }
        let prod: u128 = base * diff;
        base - (prod / t) / 8
    };
    let seed: u64 = random_perturbation();
    new_base_fee + seed as u128
}

} // verus!
