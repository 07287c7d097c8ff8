//! The operations of the pool, each on the records of one call.

pub mod add_to_blacklist;
pub mod claim_rewards;
pub mod initialize;
pub mod remove_from_blacklist;
pub mod stake;
pub mod unstake;
