//! Setting up the pool.

use crate::address::Address;
use crate::errors::StakingError;
use crate::events::Initialized;
use crate::state::{valid_reward_rate, GlobalState, MAX_REWARD_RATE, MIN_REWARD_RATE};
use vstd::prelude::*;

verus! {

/// What the set-up works on: the administrator, the record of the pool to
/// fill, the two tokens and the two vaults, the layout byte, and the time.
#[derive(Clone, Copy, Debug, PartialEq, Eq)]
pub struct Initialize {
    pub admin: Address,
    pub state: GlobalState,
    pub staking_mint: Address,
    pub reward_mint: Address,
    pub staking_vault: Address,
    pub reward_vault: Address,
    pub bump: u8,
    pub clock: i64,
}

impl Initialize {
    /// Why a set-up with `reward_rate` is refused, if it is.
    pub open spec fn rejection(&self, reward_rate: u64) -> Option<StakingError> {
        if !valid_reward_rate(reward_rate) {
            Some(StakingError::InvalidRewardRate)
        } else {
            None
        }
    }

    /// The pool once it is set up: nothing is staked yet.
    pub open spec fn applied(&self, reward_rate: u64) -> Initialize {
        Initialize {
            state: GlobalState {
                admin: self.admin,
                staking_mint: self.staking_mint,
                reward_mint: self.reward_mint,
                staking_vault: self.staking_vault,
                reward_vault: self.reward_vault,
                reward_rate,
                total_staked: 0,
                bump: self.bump,
            },
            ..*self
        }
    }

    /// The pool after the call: set up, or as it was where the set-up is
    /// refused.
    pub open spec fn after(&self, reward_rate: u64) -> Initialize {
        if self.rejection(reward_rate) is None {
            self.applied(reward_rate)
        } else {
            *self
        }
    }

    /// What the set-up tells once carried out.
    pub open spec fn outcome(&self, reward_rate: u64) -> Initialized {
        Initialized {
            authority: self.admin,
            staking_mint: self.staking_mint,
            reward_mint: self.reward_mint,
            reward_rate,
            timestamp: self.clock,
        }
    }

    /// What the call returns.
    pub open spec fn result(&self, reward_rate: u64) -> Result<Initialized, StakingError> {
        match self.rejection(reward_rate) {
            Some(e) => Err(e),
            None => Ok(self.outcome(reward_rate)),
        }
    }
}

/// Sets up the pool with `reward_rate`, which has to lie between
/// `MIN_REWARD_RATE` and `MAX_REWARD_RATE`. A set-up that is refused
/// changes nothing.
pub fn initialize_handler(ctx: &mut Initialize, reward_rate: u64) -> (res: Result<
    Initialized,
    StakingError,
>)
    ensures
        res == old(ctx).result(reward_rate),
        *final(ctx) == old(ctx).after(reward_rate),
{
    if !(reward_rate >= MIN_REWARD_RATE && reward_rate <= MAX_REWARD_RATE) {
        return Err(StakingError::InvalidRewardRate);
    }
    ctx.state.admin = ctx.admin;
    ctx.state.staking_mint = ctx.staking_mint;
    ctx.state.reward_mint = ctx.reward_mint;
    ctx.state.staking_vault = ctx.staking_vault;
    ctx.state.reward_vault = ctx.reward_vault;
    ctx.state.reward_rate = reward_rate;
    ctx.state.total_staked = 0;
    ctx.state.bump = ctx.bump;
    Ok(
        Initialized {
            authority: ctx.admin,
            staking_mint: ctx.staking_mint,
            reward_mint: ctx.reward_mint,
            reward_rate,
            timestamp: ctx.clock,
        },
    )
}

} // verus!
