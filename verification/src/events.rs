//! What the pool tells the outside world after an operation.

use crate::address::Address;
use vstd::prelude::*;

verus! {

/// Tokens were staked.
#[derive(Clone, Copy, Debug, PartialEq, Eq)]
pub struct Staked {
    pub user: Address,
    pub amount: u64,
    pub timestamp: i64,
}

/// Tokens were withdrawn, and the rewards owed until then were paid.
#[derive(Clone, Copy, Debug, PartialEq, Eq)]
pub struct Unstaked {
    pub user: Address,
    pub amount: u64,
    pub rewards: u64,
    pub timestamp: i64,
}

/// Rewards were paid.
#[derive(Clone, Copy, Debug, PartialEq, Eq)]
pub struct RewardsClaimed {
    pub user: Address,
    pub amount: u64,
    pub timestamp: i64,
}

/// The pool was set up.
#[derive(Clone, Copy, Debug, PartialEq, Eq)]
pub struct Initialized {
    pub authority: Address,
    pub staking_mint: Address,
    pub reward_mint: Address,
    pub reward_rate: u64,
    pub timestamp: i64,
}

/// An address was put on the blacklist.
#[derive(Clone, Copy, Debug, PartialEq, Eq)]
pub struct AddedToBlacklist {
    pub address: Address,
    pub admin: Address,
    pub timestamp: i64,
}

/// An address was taken off the blacklist.
#[derive(Clone, Copy, Debug, PartialEq, Eq)]
pub struct RemovedFromBlacklist {
    pub address: Address,
    pub admin: Address,
    pub timestamp: i64,
}

} // verus!
