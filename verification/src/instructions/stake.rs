//! Staking principal.

use crate::address::Address;
use crate::errors::StakingError;
use crate::events::Staked;
use crate::rewards::{claim_pending_rewards, lemma_no_principal_no_reward};
use crate::state::{BlacklistEntry, GlobalState, UserStakeInfo};
use crate::transfers::Transfer;
use vstd::prelude::*;

verus! {

/// What a stake works on: the caller, the pool, the caller's record (an
/// empty one before the first stake), the caller's entry on the blacklist
/// if there is one, and the time.
#[derive(Clone, Copy, Debug, PartialEq, Eq)]
pub struct Stake {
    pub user: Address,
    pub state: GlobalState,
    pub user_stake_info: UserStakeInfo,
    pub blacklist_entry: Option<BlacklistEntry>,
    pub clock: i64,
}

/// What a stake that succeeded asks of its caller.
#[derive(Clone, Copy, Debug, PartialEq, Eq)]
pub struct StakeOutcome {
    /// The payment of the rewards settled, if there were any.
    pub reward_transfer: Option<Transfer>,
    /// The payment of the new principal into the staking vault.
    pub deposit: Transfer,
    pub event: Staked,
}

impl Stake {
    /// Why a stake of `amount` is refused, if it is. The reasons are tried
    /// in this order.
    pub open spec fn rejection(&self, amount: u64) -> Option<StakingError> {
        if amount == 0 {
            Some(StakingError::InvalidStakeAmount)
        } else if self.blacklist_entry is Some {
            Some(StakingError::AddressBlacklisted)
        } else if !self.user_stake_info.can_settle(self.state.reward_rate, self.clock) {
            Some(StakingError::ArithmeticOverflow)
        } else if self.user_stake_info.amount + amount > u64::MAX {
            Some(StakingError::ArithmeticOverflow)
        } else if self.state.total_staked + amount > u64::MAX {
            Some(StakingError::ArithmeticOverflow)
        } else {
            None
        }
    }

    /// The rewards that the stake settles: those owed on the principal so
    /// far.
    pub open spec fn rewards(&self) -> u64 {
        self.user_stake_info.pending_reward(self.state.reward_rate, self.clock) as u64
    }

    /// The pool and the record once a stake of `amount` is carried out:
    /// the rewards are settled first, then the principal and the pool's
    /// total go up by `amount`. The first stake fixes the time of the first
    /// stake.
    pub open spec fn applied(&self, amount: u64) -> Stake {
        let settled = self.user_stake_info.settled(self.state.reward_rate, self.clock);
        Stake {
            state: GlobalState {
                total_staked: (self.state.total_staked + amount) as u64,
                ..self.state
            },
            user_stake_info: UserStakeInfo {
                owner: self.user,
                amount: (self.user_stake_info.amount + amount) as u64,
                stake_timestamp: if self.user_stake_info.stake_timestamp == 0 {
                    self.clock
                } else {
                    self.user_stake_info.stake_timestamp
                },
                ..settled
            },
            ..*self
        }
    }

    /// The pool and the record after the call: changed where the stake is
    /// carried out, as they were where it is refused.
    pub open spec fn after(&self, amount: u64) -> Stake {
        if self.rejection(amount) is None {
            self.applied(amount)
        } else {
            *self
        }
    }

    /// What a stake of `amount` hands back once carried out.
    pub open spec fn outcome(&self, amount: u64) -> StakeOutcome {
        StakeOutcome {
            reward_transfer: Transfer::reward_if_any(self.rewards()),
            deposit: Transfer::deposit(amount),
            event: Staked { user: self.user, amount, timestamp: self.clock },
        }
    }

    /// What the call returns.
    pub open spec fn result(&self, amount: u64) -> Result<StakeOutcome, StakingError> {
        match self.rejection(amount) {
            Some(e) => Err(e),
            None => Ok(self.outcome(amount)),
        }
    }
}

/// Stakes `amount` for the caller. Where the caller has a principal
/// already, the rewards owed on it are settled first. A stake that is
/// refused changes nothing.
pub fn stake_handler(ctx: &mut Stake, amount: u64) -> (res: Result<StakeOutcome, StakingError>)
    ensures
        res == old(ctx).result(amount),
        *final(ctx) == old(ctx).after(amount),
{
    if amount == 0 {
        return Err(StakingError::InvalidStakeAmount);
    }
    if ctx.blacklist_entry.is_some() {
        return Err(StakingError::AddressBlacklisted);
    }
    let mut user_stake = ctx.user_stake_info;
    let mut rewards: u64 = 0;
    if user_stake.amount > 0 {
        rewards = match claim_pending_rewards(&ctx.state, &mut user_stake, ctx.clock) {
            Ok(rewards) => rewards,
            Err(e) => { return Err(e); },
        };
    } else {
        proof {
            lemma_no_principal_no_reward(
                user_stake.accrual_start(),
                ctx.clock,
                ctx.state.reward_rate,
            );
        }
    }
    let staked = match user_stake.amount.checked_add(amount) {
        Some(sum) => sum,
        None => { return Err(StakingError::ArithmeticOverflow); },
    };
    let total_staked = match ctx.state.total_staked.checked_add(amount) {
        Some(sum) => sum,
        None => { return Err(StakingError::ArithmeticOverflow); },
    };
    user_stake.owner = ctx.user;
    user_stake.amount = staked;
    if user_stake.stake_timestamp == 0 {
        user_stake.stake_timestamp = ctx.clock;
    }
    user_stake.last_claim_time = ctx.clock;
    ctx.user_stake_info = user_stake;
    ctx.state.total_staked = total_staked;
    Ok(
        StakeOutcome {
            reward_transfer: Transfer::reward_if_any(rewards),
            deposit: Transfer::deposit(amount),
            event: Staked { user: ctx.user, amount, timestamp: ctx.clock },
        },
    )
}

} // verus!
