//! Withdrawing principal.

use crate::address::Address;
use crate::errors::StakingError;
use crate::events::Unstaked;
use crate::rewards::claim_pending_rewards;
use crate::state::{BlacklistEntry, GlobalState, UserStakeInfo};
use crate::transfers::Transfer;
use vstd::prelude::*;

verus! {

/// What a withdrawal works on: the caller, the pool, the caller's record,
/// the caller's entry on the blacklist if there is one, and the time.
#[derive(Clone, Copy, Debug, PartialEq, Eq)]
pub struct Unstake {
    pub user: Address,
    pub state: GlobalState,
    pub user_stake_info: UserStakeInfo,
    pub blacklist_entry: Option<BlacklistEntry>,
    pub clock: i64,
}

/// What a withdrawal that succeeded asks of its caller.
#[derive(Clone, Copy, Debug, PartialEq, Eq)]
pub struct UnstakeOutcome {
    /// The payment of the rewards settled, if there were any.
    pub reward_transfer: Option<Transfer>,
    /// The payment of the principal back to the caller.
    pub withdrawal: Transfer,
    pub event: Unstaked,
}

impl Unstake {
    /// Why a withdrawal of `amount` is refused, if it is. The reasons are
    /// tried in this order.
    pub open spec fn rejection(&self, amount: u64) -> Option<StakingError> {
        if amount == 0 {
            Some(StakingError::InvalidUnstakeAmount)
        } else if self.blacklist_entry is Some {
            Some(StakingError::AddressBlacklisted)
        } else if amount > self.user_stake_info.amount {
            Some(StakingError::InsufficientStakedAmount)
        } else if !self.user_stake_info.can_settle(self.state.reward_rate, self.clock) {
            Some(StakingError::ArithmeticOverflow)
        } else if amount > self.state.total_staked {
            Some(StakingError::ArithmeticOverflow)
        } else {
            None
        }
    }

    /// The rewards that the withdrawal settles.
    pub open spec fn rewards(&self) -> u64 {
        self.user_stake_info.pending_reward(self.state.reward_rate, self.clock) as u64
    }

    /// The pool and the record once a withdrawal of `amount` is carried
    /// out: the rewards are settled first, then the principal and the
    /// pool's total go down by `amount`.
    pub open spec fn applied(&self, amount: u64) -> Unstake {
        Unstake {
            state: GlobalState {
                total_staked: (self.state.total_staked - amount) as u64,
                ..self.state
            },
            user_stake_info: UserStakeInfo {
                amount: (self.user_stake_info.amount - amount) as u64,
                ..self.user_stake_info.settled(self.state.reward_rate, self.clock)
            },
            ..*self
        }
    }

    /// The pool and the record after the call: changed where the
    /// withdrawal is carried out, as they were where it is refused.
    pub open spec fn after(&self, amount: u64) -> Unstake {
        if self.rejection(amount) is None {
            self.applied(amount)
        } else {
            *self
        }
    }

    /// What a withdrawal of `amount` hands back once carried out.
    pub open spec fn outcome(&self, amount: u64) -> UnstakeOutcome {
        UnstakeOutcome {
            reward_transfer: Transfer::reward_if_any(self.rewards()),
            withdrawal: Transfer::withdrawal(amount),
            event: Unstaked {
                user: self.user,
                amount,
                rewards: self.rewards(),
                timestamp: self.clock,
            },
        }
    }

    /// What the call returns.
    pub open spec fn result(&self, amount: u64) -> Result<UnstakeOutcome, StakingError> {
        match self.rejection(amount) {
            Some(e) => Err(e),
            None => Ok(self.outcome(amount)),
        }
    }
}

/// Withdraws `amount` of the caller's principal. The rewards owed are
/// settled first, whatever they amount to. A withdrawal that is refused
/// changes nothing.
pub fn unstake_handler(ctx: &mut Unstake, amount: u64) -> (res: Result<UnstakeOutcome, StakingError>)
    ensures
        res == old(ctx).result(amount),
        *final(ctx) == old(ctx).after(amount),
{
    if amount == 0 {
        return Err(StakingError::InvalidUnstakeAmount);
    }
    if ctx.blacklist_entry.is_some() {
        return Err(StakingError::AddressBlacklisted);
    }
    if ctx.user_stake_info.amount < amount {
        return Err(StakingError::InsufficientStakedAmount);
    }
    let mut user_stake = ctx.user_stake_info;
    let rewards = match claim_pending_rewards(&ctx.state, &mut user_stake, ctx.clock) {
        Ok(rewards) => rewards,
        Err(e) => { return Err(e); },
    };
    let remaining = match user_stake.amount.checked_sub(amount) {
        Some(difference) => difference,
        None => { return Err(StakingError::ArithmeticOverflow); },
    };
    let total_staked = match ctx.state.total_staked.checked_sub(amount) {
        Some(difference) => difference,
        None => { return Err(StakingError::ArithmeticOverflow); },
    };
    user_stake.amount = remaining;
    ctx.user_stake_info = user_stake;
    ctx.state.total_staked = total_staked;
    Ok(
        UnstakeOutcome {
            reward_transfer: Transfer::reward_if_any(rewards),
            withdrawal: Transfer::withdrawal(amount),
            event: Unstaked { user: ctx.user, amount, rewards, timestamp: ctx.clock },
        },
    )
}

} // verus!
