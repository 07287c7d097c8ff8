//! A staking ledger: deposits of a fungible token earn rewards that accrue
//! every second at a rate fixed by the pool's administrator, who may also
//! shut addresses out of the pool.
//!
//! `rewards` holds the arithmetic, `instructions` the operations on the
//! records of one call, `blacklist` and `ledger` the pool with all its
//! records, `model` the pool as a mathematical value and `laws` what holds
//! of it whatever is done with it.

pub mod address;
pub mod blacklist;
pub mod errors;
pub mod events;
pub mod instructions;
pub mod laws;
pub mod ledger;
pub mod model;
pub mod rewards;
pub mod state;
pub mod transfers;
