//! Per-delegator reward derivation and annualised yield, over
//! arbitrary-precision stake values.

use vstd::prelude::*;
use num_bigint::BigInt;
use crate::amount::{valid_bigint_str, bigint_str_value, canonical_dec_str, str_value_or_zero};
use crate::bigint::{
    big_add, big_div, big_from_str, big_from_u64, big_is_negative, big_is_zero, big_lt,
    big_mul, big_sub, big_to_string, big_to_u64, big_value, big_zero,
};
use crate::strutil::is_digit_char;
use vstd::arithmetic::div_mod::{lemma_basic_div, lemma_div_is_ordered, lemma_div_pos_is_pos};
use vstd::arithmetic::mul::lemma_mul_inequality;

verus! {

/// Epochs in a year: two epochs per day over 365 days.
pub const EPOCHS_PER_YEAR: u64 = 730;

/// Hundredths of a percent per unit of per-epoch growth ratio over a year:
/// the epochs of a year, times 100 for percent, times 100 for hundredths.
pub const APY_CENTI_PER_RATIO: u64 = EPOCHS_PER_YEAR * 100 * 100;

/// The reward owed for an epoch: the growth of the staked balance beyond
/// what transactions account for, clamped to zero. A delegator with no
/// previous snapshot entry and a non-zero balance is a first stake, which
/// is no reward; a recorded previous balance — zero included — falls under
/// the general rule.
pub open spec fn rewards_value(current: int, previous: Option<int>, tx_total: int) -> int {
    if previous is None && current != 0 {
        0
    } else {
        let p = match previous {
            Option::Some(v) => v,
            Option::None => 0,
        };
        if current - (p + tx_total) >= 0 {
            current - (p + tx_total)
        } else {
            0
        }
    }
}

/// Value of an optional previous-stake string: absent stays absent, an
/// unreadable one reads as zero.
pub open spec fn opt_prev_value(s: Option<&String>) -> Option<int> {
    match s {
        Option::None => None,
        Option::Some(p) => Some(str_value_or_zero(p@)),
    }
}

/// Value of an optional transaction total; absent reads as zero.
pub open spec fn opt_big_value(t: Option<&BigInt>) -> int {
    match t {
        Option::None => 0,
        Option::Some(b) => big_value(*b),
    }
}

/// Derives the reward for one delegator and one epoch, as a decimal string.
pub fn calculate_rewards(
    current_stake: &str,
    previous_stake: Option<&String>,
    transaction_total: Option<&BigInt>,
) -> (r: String)
    ensures
        valid_bigint_str(r@),
        canonical_dec_str(r@),
        bigint_str_value(r@) == rewards_value(
            str_value_or_zero(current_stake@),
            opt_prev_value(previous_stake),
            opt_big_value(transaction_total),
        ),
        bigint_str_value(r@) >= 0,
        forall|i: int| 0 <= i < r@.len() ==> is_digit_char(r@[i]),
{
    let current = match big_from_str(current_stake) {
        Some(b) => b,
        None => big_zero(),
    };
    let mut has_previous = false;
    let previous = match previous_stake {
        Some(p) => {
            has_previous = true;
            match big_from_str(p.as_str()) {
                Some(b) => b,
                None => big_zero(),
            }
        },
        None => big_zero(),
    };
    if !has_previous && !big_is_zero(&current) {
        // A first stake is not a reward.
        let z = big_zero();
        return big_to_string(&z);
    }
    let base = match transaction_total {
        Some(t) => big_add(&previous, t),
        None => previous,
    };
    let rewards = big_sub(&current, &base);
    if big_is_negative(&rewards) {
        let z = big_zero();
        big_to_string(&z)
    } else {
        big_to_string(&rewards)
    }
}

/// Reward non-negativity: a derived reward is never negative, and a
/// delegator whose whole balance is accounted for by transactions over a
/// zero (or absent) previous stake earns nothing.
pub proof fn lemma_reward_non_negativity(current: int, previous: Option<int>, tx_total: int)
    ensures
        rewards_value(current, previous, tx_total) >= 0,
        (previous is None || previous == Some(0int)) && tx_total >= current ==> rewards_value(
            current,
            previous,
            tx_total,
        ) == 0,
{
}

/// The annualised yield, in hundredths of a percent: the per-epoch growth
/// ratio `rewards / stake` scaled by `APY_CENTI_PER_RATIO` and rounded to
/// the nearest integer. Zero stake, or a reward that does not read as a
/// non-negative number, gives zero.
pub open spec fn apy_value(rewards: int, stake: int) -> int {
    if stake <= 0 || rewards < 0 {
        0
    } else {
        (2 * APY_CENTI_PER_RATIO * rewards + stake) / (2 * stake)
    }
}

/// Derives the annualised yield in hundredths of a percent, saturating at
/// `u64::MAX`.
pub fn calculate_apy(rewards: &str, stake_amount: &str) -> (r: u64)
    ensures
        r as int == {
            let v = apy_value(str_value_or_zero(rewards@), str_value_or_zero(stake_amount@));
            if v <= u64::MAX { v } else { u64::MAX as int }
        },
{
    let rewards_big = match big_from_str(rewards) {
        Some(b) => b,
        None => big_zero(),
    };
    let stake_big = match big_from_str(stake_amount) {
        Some(b) => b,
        None => big_zero(),
    };
    let z = big_zero();
    if !big_lt(&z, &stake_big) {
        // stake <= 0
        return 0;
    }
    if big_lt(&rewards_big, &z) {
        return 0;
    }
    let factor = big_from_u64(2 * APY_CENTI_PER_RATIO);
    let scaled = big_mul(&factor, &rewards_big);
    proof {
        lemma_mul_inequality(0, big_value(rewards_big), 2 * APY_CENTI_PER_RATIO as int);
        assert(big_value(scaled) >= 0) by {
            assert(0 * (2 * APY_CENTI_PER_RATIO as int) == 0) by (nonlinear_arith);
            assert(big_value(scaled) == (2 * APY_CENTI_PER_RATIO as int) * big_value(
                rewards_big,
            ));
            assert((2 * APY_CENTI_PER_RATIO as int) * big_value(rewards_big) == big_value(
                rewards_big,
            ) * (2 * APY_CENTI_PER_RATIO as int)) by (nonlinear_arith);
        }
    }
    let num = big_add(&scaled, &stake_big);
    let two = big_from_u64(2);
    let den = big_mul(&two, &stake_big);
    proof {
        assert(big_value(den) > 0) by {
            assert(2 * big_value(stake_big) > 0) by (nonlinear_arith)
                requires
                    big_value(stake_big) > 0,
            ;
        }
    }
    let q = big_div(&num, &den);
    proof {
        lemma_div_pos_is_pos(big_value(num), big_value(den));
    }
    match big_to_u64(&q) {
        Some(v) => v,
        None => u64::MAX,
    }
}

/// APY monotonicity: for a fixed positive stake the annualised yield is
/// monotone non-decreasing in the reward; a zero reward gives zero, and a
/// zero stake gives zero whatever the reward.
pub proof fn lemma_apy_monotone(r1: int, r2: int, stake: int)
    requires
        0 <= r1 <= r2,
        stake > 0,
    ensures
        apy_value(r1, stake) <= apy_value(r2, stake),
        apy_value(0, stake) == 0,
        apy_value(r1, 0) == 0,
{
    let k = 2 * APY_CENTI_PER_RATIO as int;
    assert(k * r1 <= k * r2) by {
        lemma_mul_inequality(r1, r2, k);
        assert(r1 * k == k * r1) by (nonlinear_arith);
        assert(r2 * k == k * r2) by (nonlinear_arith);
    }
    assert(2 * stake > 0);
    lemma_div_is_ordered(k * r1 + stake, k * r2 + stake, 2 * stake);
    assert(k * 0 == 0) by (nonlinear_arith);
    lemma_basic_div(stake, 2 * stake);
}

} // verus!
