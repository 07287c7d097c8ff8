//! The records that the pool keeps.

use crate::address::Address;
use vstd::prelude::*;

verus! {

/// The lowest reward rate a pool accepts.
pub const MIN_REWARD_RATE: u64 = 1;

/// The highest reward rate a pool accepts: a tenth of the principal a day.
pub const MAX_REWARD_RATE: u64 = 1000;

/// The pool itself. There is one for each deployment.
#[derive(Clone, Copy, Debug, PartialEq, Eq)]
pub struct GlobalState {
    /// Who may change the blacklist.
    pub admin: Address,
    /// The token that is staked.
    pub staking_mint: Address,
    /// The token that rewards are paid in.
    pub reward_mint: Address,
    /// The account that holds the staked tokens.
    pub staking_vault: Address,
    /// The account that rewards are paid from.
    pub reward_vault: Address,
    /// Parts in ten thousand of the principal that are paid each day.
    pub reward_rate: u64,
    /// The sum of all principals.
    pub total_staked: u64,
    /// The byte that tells the layout of the stored record.
    pub bump: u8,
}

/// What one address has staked. The record is made by the first stake and
/// stays when the principal returns to zero.
#[derive(Clone, Copy, Debug, PartialEq, Eq)]
pub struct UserStakeInfo {
    /// The address the record belongs to.
    pub owner: Address,
    /// The principal.
    pub amount: u64,
    /// The time of the first stake.
    pub stake_timestamp: i64,
    /// The time up to which rewards were settled; zero before the first
    /// settlement.
    pub last_claim_time: i64,
    /// All rewards paid out so far.
    pub reward_debt: u64,
}

/// An address that is shut out of the pool, and since when.
#[derive(Clone, Copy, Debug, PartialEq, Eq)]
pub struct BlacklistEntry {
    pub address: Address,
    pub added_at: i64,
}

/// Whether `rate` is one that a pool accepts.
pub open spec fn valid_reward_rate(rate: u64) -> bool {
    MIN_REWARD_RATE <= rate <= MAX_REWARD_RATE
}

impl UserStakeInfo {
    /// The record of `owner` before the first stake: nothing staked,
    /// nothing paid, no time set.
    pub open spec fn spec_new(owner: Address) -> UserStakeInfo {
        UserStakeInfo { owner, amount: 0, stake_timestamp: 0, last_claim_time: 0, reward_debt: 0 }
    }

    #[verifier::when_used_as_spec(spec_new)]
    pub fn new(owner: Address) -> (record: UserStakeInfo)
        ensures
            record == UserStakeInfo::spec_new(owner),
    {
        UserStakeInfo { owner, amount: 0, stake_timestamp: 0, last_claim_time: 0, reward_debt: 0 }
    }
}

} // verus!
