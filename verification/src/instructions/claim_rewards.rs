//! Claiming rewards.

use crate::address::Address;
use crate::errors::StakingError;
use crate::events::RewardsClaimed;
use crate::rewards::claim_pending_rewards;
use crate::state::{BlacklistEntry, GlobalState, UserStakeInfo};
use crate::transfers::Transfer;
use vstd::prelude::*;

verus! {

/// What a claim works on: the caller, the pool, the caller's record, the
/// caller's entry on the blacklist if there is one, and the time.
#[derive(Clone, Copy, Debug, PartialEq, Eq)]
pub struct ClaimRewards {
    pub user: Address,
    pub state: GlobalState,
    pub user_stake_info: UserStakeInfo,
    pub blacklist_entry: Option<BlacklistEntry>,
    pub clock: i64,
}

/// What a claim that succeeded asks of its caller. Where no reward was
/// owed, there is nothing to pay and nothing to tell.
#[derive(Clone, Copy, Debug, PartialEq, Eq)]
pub struct ClaimOutcome {
    pub reward_transfer: Option<Transfer>,
    pub event: Option<RewardsClaimed>,
}

impl ClaimRewards {
    /// Why a claim is refused, if it is. The reasons are tried in this
    /// order.
    pub open spec fn rejection(&self) -> Option<StakingError> {
        if self.blacklist_entry is Some {
            Some(StakingError::AddressBlacklisted)
        } else if !self.user_stake_info.can_settle(self.state.reward_rate, self.clock) {
            Some(StakingError::ArithmeticOverflow)
        } else {
            None
        }
    }

    /// The rewards that the claim settles.
    pub open spec fn rewards(&self) -> u64 {
        self.user_stake_info.pending_reward(self.state.reward_rate, self.clock) as u64
    }

    /// The record once the claim is carried out. The principal and the
    /// pool stay.
    pub open spec fn applied(&self) -> ClaimRewards {
        ClaimRewards {
            user_stake_info: self.user_stake_info.settled(self.state.reward_rate, self.clock),
            ..*self
        }
    }

    /// The record after the call: changed where the claim is carried out,
    /// as it was where it is refused.
    pub open spec fn after(&self) -> ClaimRewards {
        if self.rejection() is None {
            self.applied()
        } else {
            *self
        }
    }

    /// What the claim hands back once carried out.
    pub open spec fn outcome(&self) -> ClaimOutcome {
        ClaimOutcome {
            reward_transfer: Transfer::reward_if_any(self.rewards()),
            event: if self.rewards() > 0 {
                Some(RewardsClaimed { user: self.user, amount: self.rewards(), timestamp: self.clock })
            } else {
                None
            },
        }
    }

    /// What the call returns.
    pub open spec fn result(&self) -> Result<ClaimOutcome, StakingError> {
        match self.rejection() {
            Some(e) => Err(e),
            None => Ok(self.outcome()),
        }
    }
}

/// Settles the rewards that the caller is owed. That none are owed is no
/// error. A claim that is refused changes nothing.
pub fn claim_rewards_handler(ctx: &mut ClaimRewards) -> (res: Result<ClaimOutcome, StakingError>)
    ensures
        res == old(ctx).result(),
        *final(ctx) == old(ctx).after(),
{
    if ctx.blacklist_entry.is_some() {
        return Err(StakingError::AddressBlacklisted);
    }
    let mut user_stake = ctx.user_stake_info;
    let rewards = match claim_pending_rewards(&ctx.state, &mut user_stake, ctx.clock) {
        Ok(rewards) => rewards,
        Err(e) => { return Err(e); },
    };
    ctx.user_stake_info = user_stake;
    let event = if rewards > 0 {
        Some(RewardsClaimed { user: ctx.user, amount: rewards, timestamp: ctx.clock })
    } else {
        None
    };
    Ok(ClaimOutcome { reward_transfer: Transfer::reward_if_any(rewards), event })
}

} // verus!
