//! Reward accrual: the amount owed on a principal for an elapsed time.

use crate::errors::StakingError;
use crate::state::{GlobalState, UserStakeInfo};
use vstd::arithmetic::div_mod::lemma_div_is_ordered;
use vstd::prelude::*;

verus! {

/// Seconds in one day, the period the reward rate refers to.
pub const SECONDS_PER_DAY: u64 = 86400;

/// The scale of the reward rate: a rate of `RATE_PRECISION` pays the whole
/// principal once a day.
pub const RATE_PRECISION: u64 = 10000;

/// The seconds from `start` to `end`, zero where `end` lies before `start`.
pub open spec fn elapsed_seconds(start: i64, end: i64) -> nat {
    if end >= start {
        (end - start) as nat
    } else {
        0
    }
}

/// The reward owed on `amount` for the time from `start` to `end` at `rate`
/// parts in `RATE_PRECISION` a day, rounded down. It accrues by the second.
pub open spec fn accrued_reward(amount: u64, start: i64, end: i64, rate: u64) -> nat {
    (amount as nat * rate as nat * elapsed_seconds(start, end)) / (SECONDS_PER_DAY as nat
        * RATE_PRECISION as nat)
}

/// Computes the seconds from `start` to `end`, clamped at zero.
pub fn elapsed(start: i64, end: i64) -> (secs: u64)
    ensures
        secs == elapsed_seconds(start, end),
{
    if end >= start {
        let wide: i128 = end as i128 - start as i128;
        wide as u64
    } else {
        0
    }
}

proof fn lemma_rate_product_fits(amount: u64, rate: u64)
    ensures
        amount as nat * rate as nat <= u128::MAX,
{
    assert(amount as nat * rate as nat <= 0xffff_ffff_ffff_ffff * 0xffff_ffff_ffff_ffff)
        by (nonlinear_arith)
        requires
            amount <= 0xffff_ffff_ffff_ffff,
            rate <= 0xffff_ffff_ffff_ffff,
    ;
}

/// A numerator beyond 128 bits gives a reward beyond 64 bits.
proof fn lemma_wide_numerator_overflows(numerator: nat)
    requires
        numerator > u128::MAX,
    ensures
        numerator / (SECONDS_PER_DAY as nat * RATE_PRECISION as nat) > u64::MAX,
{
    let d: int = 864_000_000;
    assert(SECONDS_PER_DAY as nat * RATE_PRECISION as nat == d);
    lemma_div_is_ordered(u128::MAX as int, numerator as int, d);
    assert(u128::MAX as int / d > u64::MAX);
}

/// A principal of zero earns nothing.
pub proof fn lemma_no_principal_no_reward(start: i64, end: i64, rate: u64)
    ensures
        accrued_reward(0, start, end, rate) == 0,
{
    assert(0nat * rate as nat * elapsed_seconds(start, end) == 0) by (nonlinear_arith);
}

/// No time, no reward.
pub proof fn lemma_no_time_no_reward(amount: u64, start: i64, end: i64, rate: u64)
    requires
        end <= start,
    ensures
        accrued_reward(amount, start, end, rate) == 0,
{
    assert(amount as nat * rate as nat * 0nat == 0) by (nonlinear_arith);
}

/// The reward owed on `amount` staked from `start_timestamp` to
/// `end_timestamp` at `reward_rate`. An end before the start counts as no
/// time at all. Fails where the reward does not fit 64 bits.
pub fn calculate_rewards(
    amount: u64,
    start_timestamp: i64,
    end_timestamp: i64,
    reward_rate: u64,
) -> (res: Result<u64, StakingError>)
    ensures
        accrued_reward(amount, start_timestamp, end_timestamp, reward_rate) <= u64::MAX ==> res
            == Ok::<u64, StakingError>(
            accrued_reward(amount, start_timestamp, end_timestamp, reward_rate) as u64,
        ),
        accrued_reward(amount, start_timestamp, end_timestamp, reward_rate) > u64::MAX ==> res
            == Err::<u64, StakingError>(StakingError::ArithmeticOverflow),
{
    let duration = elapsed(start_timestamp, end_timestamp);
    proof {
        lemma_rate_product_fits(amount, reward_rate);
    }
    let amount_rate = match (amount as u128).checked_mul(reward_rate as u128) {
        Some(product) => product,
        None => { return Err(StakingError::ArithmeticOverflow); },
    };
    let numerator = match amount_rate.checked_mul(duration as u128) {
        Some(product) => product,
        None => {
            proof {
                lemma_wide_numerator_overflows(
                    amount as nat * reward_rate as nat * duration as nat,
                );
            }
            return Err(StakingError::ArithmeticOverflow);
        },
    };
    let denominator: u128 = (SECONDS_PER_DAY as u128) * (RATE_PRECISION as u128);
    let rewards = match numerator.checked_div(denominator) {
        Some(quotient) => quotient,
        None => { return Err(StakingError::ArithmeticOverflow); },
    };
    match u64::try_from(rewards) {
        Ok(narrow) => Ok(narrow),
        Err(_) => Err(StakingError::ArithmeticOverflow),
    }
}

impl UserStakeInfo {
    /// The time from which rewards are still owed: the last settlement, or
    /// the first stake where there was none.
    pub open spec fn accrual_start(&self) -> i64 {
        if self.last_claim_time != 0 {
            self.last_claim_time
        } else {
            self.stake_timestamp
        }
    }

    /// The reward owed at `now` and not yet paid.
    pub open spec fn pending_reward(&self, rate: u64, now: i64) -> nat {
        accrued_reward(self.amount, self.accrual_start(), now, rate)
    }

    /// Whether the rewards owed at `now` can be settled: together with all
    /// rewards paid before they fit 64 bits.
    pub open spec fn can_settle(&self, rate: u64, now: i64) -> bool {
        self.reward_debt + self.pending_reward(rate, now) <= u64::MAX
    }

    /// The record once the rewards owed at `now` are paid.
    pub open spec fn settled(&self, rate: u64, now: i64) -> UserStakeInfo {
        UserStakeInfo {
            reward_debt: (self.reward_debt + self.pending_reward(rate, now)) as u64,
            last_claim_time: now,
            ..*self
        }
    }
}

/// Settles the rewards that `user_stake` is owed at `now`: counts them as
/// paid and moves the time of the last settlement to `now`. Returns the
/// amount, which the caller has to pay out of the reward vault. Where the
/// amount or the sum of all rewards paid does not fit 64 bits, the record
/// stays as it was.
pub fn claim_pending_rewards(state: &GlobalState, user_stake: &mut UserStakeInfo, now: i64) -> (res:
    Result<u64, StakingError>)
    ensures
        old(user_stake).can_settle(state.reward_rate, now) ==> {
            &&& res == Ok::<u64, StakingError>(
                old(user_stake).pending_reward(state.reward_rate, now) as u64,
            )
            &&& *final(user_stake) == old(user_stake).settled(state.reward_rate, now)
        },
        !old(user_stake).can_settle(state.reward_rate, now) ==> {
            &&& res == Err::<u64, StakingError>(StakingError::ArithmeticOverflow)
            &&& *final(user_stake) == *old(user_stake)
        },
{
    let last_claim = if user_stake.last_claim_time != 0 {
        user_stake.last_claim_time
    } else {
        user_stake.stake_timestamp
    };
    let rewards = match calculate_rewards(user_stake.amount, last_claim, now, state.reward_rate) {
        Ok(rewards) => rewards,
        Err(e) => { return Err(e); },
    };
    let reward_debt = match user_stake.reward_debt.checked_add(rewards) {
        Some(sum) => sum,
        None => { return Err(StakingError::ArithmeticOverflow); },
    };
    user_stake.reward_debt = reward_debt;
    user_stake.last_claim_time = now;
    Ok(rewards)
}

} // verus!
