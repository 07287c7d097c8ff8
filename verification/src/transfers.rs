//! Requests to move tokens. The pool never moves tokens itself: an
//! operation that succeeds hands back the transfers that belong to it, and
//! whoever called it carries them out.

use vstd::prelude::*;

verus! {

/// A token account that takes part in an operation.
#[derive(Clone, Copy, Debug, PartialEq, Eq, Structural)]
pub enum TokenAccount {
    /// The caller's account of the staked token.
    UserToken,
    /// The caller's account of the reward token.
    UserReward,
    /// The pool's account of staked tokens.
    StakingVault,
    /// The pool's account of reward tokens.
    RewardVault,
}

/// Who signs for a transfer.
#[derive(Clone, Copy, Debug, PartialEq, Eq, Structural)]
pub enum Authority {
    /// The caller, for what leaves the caller's accounts.
    User,
    /// The pool, for what leaves its vaults.
    Pool,
}

/// A request to move `amount` tokens.
#[derive(Clone, Copy, Debug, PartialEq, Eq, Structural)]
pub struct Transfer {
    pub from: TokenAccount,
    pub to: TokenAccount,
    pub authority: Authority,
    pub amount: u64,
}

impl Transfer {
    /// The caller pays `amount` into the staking vault.
    pub open spec fn spec_deposit(amount: u64) -> Transfer {
        Transfer {
            from: TokenAccount::UserToken,
            to: TokenAccount::StakingVault,
            authority: Authority::User,
            amount,
        }
    }

    /// The staking vault pays `amount` back to the caller.
    pub open spec fn spec_withdrawal(amount: u64) -> Transfer {
        Transfer {
            from: TokenAccount::StakingVault,
            to: TokenAccount::UserToken,
            authority: Authority::Pool,
            amount,
        }
    }

    /// The reward vault pays `amount` to the caller.
    pub open spec fn spec_reward(amount: u64) -> Transfer {
        Transfer {
            from: TokenAccount::RewardVault,
            to: TokenAccount::UserReward,
            authority: Authority::Pool,
            amount,
        }
    }

    /// The payment of a reward, if there is any reward to pay.
    pub open spec fn spec_reward_if_any(amount: u64) -> Option<Transfer> {
        if amount > 0 {
            Some(Transfer::spec_reward(amount))
        } else {
            None
        }
    }

    #[verifier::when_used_as_spec(spec_deposit)]
    pub fn deposit(amount: u64) -> (transfer: Transfer)
        ensures
            transfer == Transfer::spec_deposit(amount),
    {
        Transfer {
            from: TokenAccount::UserToken,
            to: TokenAccount::StakingVault,
            authority: Authority::User,
            amount,
        }
    }

    #[verifier::when_used_as_spec(spec_withdrawal)]
    pub fn withdrawal(amount: u64) -> (transfer: Transfer)
        ensures
            transfer == Transfer::spec_withdrawal(amount),
    {
        Transfer {
            from: TokenAccount::StakingVault,
            to: TokenAccount::UserToken,
            authority: Authority::Pool,
            amount,
        }
    }

    #[verifier::when_used_as_spec(spec_reward)]
    pub fn reward(amount: u64) -> (transfer: Transfer)
        ensures
            transfer == Transfer::spec_reward(amount),
    {
        Transfer {
            from: TokenAccount::RewardVault,
            to: TokenAccount::UserReward,
            authority: Authority::Pool,
            amount,
        }
    }

    #[verifier::when_used_as_spec(spec_reward_if_any)]
    pub fn reward_if_any(amount: u64) -> (transfer: Option<Transfer>)
        ensures
            transfer == Transfer::spec_reward_if_any(amount),
    {
        if amount > 0 {
            Some(Transfer::reward(amount))
        } else {
            None
        }
    }
}

} // verus!
