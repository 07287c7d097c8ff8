//! The pool with all its records, and the operations on it. Each operation
//! either is carried out as a whole or changes nothing.

use crate::address::Address;
use crate::blacklist::{add_context, entry_of, remove_context, BlacklistRegistry};
use crate::errors::StakingError;
use crate::events::{AddedToBlacklist, Initialized, RemovedFromBlacklist};
use crate::instructions::claim_rewards::{claim_rewards_handler, ClaimOutcome, ClaimRewards};
use crate::instructions::initialize::{initialize_handler, Initialize};
use crate::instructions::stake::{stake_handler, Stake, StakeOutcome};
use crate::instructions::unstake::{unstake_handler, Unstake, UnstakeOutcome};
use crate::model::{
    distinct_owners,
    has_record,
    lemma_blacklist_change_is_wf,
    lemma_claimed_is_wf,
    lemma_record_index_is_unique,
    lemma_staked_is_wf,
    lemma_unstaked_is_wf,
    record_of,
    with_record,
    LedgerModel,
};
use crate::state::{valid_reward_rate, BlacklistEntry, GlobalState, UserStakeInfo};
use vstd::prelude::*;

verus! {

/// A pool: its own record, the records of all who ever staked, and the
/// blacklist.
#[derive(Clone, Debug, PartialEq, Eq)]
pub struct StakeLedger {
    state: GlobalState,
    stakes: Vec<UserStakeInfo>,
    blacklist: BlacklistRegistry,
}

impl View for StakeLedger {
    type V = LedgerModel;

    closed spec fn view(&self) -> LedgerModel {
        LedgerModel {
            pool: self.state,
            stakes: self.stakes@,
            blacklist: self.blacklist.entries(),
        }
    }
}

impl StakeLedger {
    /// What holds of a pool at all times.
    pub open spec fn wf(&self) -> bool {
        self@.wf()
    }

    /// The pool's own record.
    pub fn state(&self) -> (state: GlobalState)
        ensures
            state == self@.pool,
    {
        self.state
    }

    /// The number of addresses that ever staked.
    pub fn stakers(&self) -> (n: usize)
        ensures
            n == self@.stakes.len(),
    {
        self.stakes.len()
    }

    fn find(&self, owner: Address) -> (found: Option<usize>)
        ensures
            match found {
                Some(i) => i < self@.stakes.len() && self@.stakes[i as int].owner == owner,
                None => !has_record(self@.stakes, owner),
            },
    {
        let mut i: usize = 0;
        while i < self.stakes.len()
            invariant
                i <= self.stakes.len(),
                forall|j: int| 0 <= j < i ==> self.stakes@[j].owner != owner,
            decreases self.stakes.len() - i,
        {
            if self.stakes[i].owner == owner {
                return Some(i);
            }
            i += 1;
        }
        None
    }

    /// The record of `owner`, if `owner` ever staked.
    pub fn user_stake(&self, owner: Address) -> (found: Option<UserStakeInfo>)
        requires
            self.wf(),
        ensures
            found == if has_record(self@.stakes, owner) {
                Some(record_of(self@.stakes, owner))
            } else {
                None
            },
    {
        match self.find(owner) {
            Some(i) => {
                proof {
                    lemma_record_index_is_unique(self.stakes@, owner, i as int);
                }
                Some(self.stakes[i])
            },
            None => None,
        }
    }

    /// Whether `address` is on the blacklist.
    pub fn is_blacklisted(&self, address: Address) -> (yes: bool)
        ensures
            yes == self@.is_blacklisted(address),
    {
        self.blacklist.is_blacklisted(address)
    }

    /// The entry of `address` on the blacklist, if it has one.
    pub fn blacklist_entry(&self, address: Address) -> (found: Option<BlacklistEntry>)
        requires
            self.wf(),
        ensures
            found == entry_of(self@.blacklist, address),
    {
        self.blacklist.entry(address)
    }

    /// Puts `record` where the record of its owner stands, `at` that place
    /// if there is one, else at the end.
    fn store(&mut self, at: Option<usize>, record: UserStakeInfo)
        requires
            match at {
                Some(i) => i < old(self)@.stakes.len() && old(self)@.stakes[i as int].owner
                    == record.owner,
                None => !has_record(old(self)@.stakes, record.owner),
            },
            distinct_owners(old(self)@.stakes),
        ensures
            final(self)@.stakes == with_record(old(self)@.stakes, record),
            final(self)@.pool == old(self)@.pool,
            final(self)@.blacklist == old(self)@.blacklist,
    {
        match at {
            Some(i) => {
                proof {
                    lemma_record_index_is_unique(self.stakes@, record.owner, i as int);
                }
                self.stakes[i] = record;
            },
            None => {
                self.stakes.push(record);
            },
        }
    }
}

/// Sets up a pool for `admin` in which `staking_mint` is staked and
/// rewards are paid in `reward_mint` at `reward_rate`, which has to be a
/// valid rate. Nothing is staked in the new pool and nobody is on its
/// blacklist.
pub fn initialize(
    admin: Address,
    staking_mint: Address,
    reward_mint: Address,
    staking_vault: Address,
    reward_vault: Address,
    bump: u8,
    reward_rate: u64,
    now: i64,
) -> (res: Result<(StakeLedger, Initialized), StakingError>)
    ensures
        match res {
            Ok((ledger, event)) => {
                &&& valid_reward_rate(reward_rate)
                &&& ledger.wf()
                &&& ledger@.pool == (GlobalState {
                    admin,
                    staking_mint,
                    reward_mint,
                    staking_vault,
                    reward_vault,
                    reward_rate,
                    total_staked: 0,
                    bump,
                })
                &&& ledger@.stakes == Seq::<UserStakeInfo>::empty()
                &&& ledger@.blacklist == Seq::<BlacklistEntry>::empty()
                &&& event == (Initialized {
                    authority: admin,
                    staking_mint,
                    reward_mint,
                    reward_rate,
                    timestamp: now,
                })
            },
            Err(e) => !valid_reward_rate(reward_rate) && e
                == StakingError::InvalidRewardRate,
        },
{
    let blank = GlobalState {
        admin,
        staking_mint,
        reward_mint,
        staking_vault,
        reward_vault,
        reward_rate: 0,
        total_staked: 0,
        bump,
    };
    let mut ctx = Initialize {
        admin,
        state: blank,
        staking_mint,
        reward_mint,
        staking_vault,
        reward_vault,
        bump,
        clock: now,
    };
    let event = match initialize_handler(&mut ctx, reward_rate) {
        Ok(event) => event,
        Err(e) => { return Err(e); },
    };
    let ledger = StakeLedger {
        state: ctx.state,
        stakes: Vec::new(),
        blacklist: BlacklistRegistry::new(),
    };
    Ok((ledger, event))
}

/// Stakes `amount` for `user` at the time `now`. The stake is refused
/// where `amount` is zero, where `user` is on the blacklist, and where a
/// sum would not fit 64 bits; then nothing changes.
pub fn stake(ledger: &mut StakeLedger, user: Address, amount: u64, now: i64) -> (res: Result<
    StakeOutcome,
    StakingError,
>)
    requires
        old(ledger).wf(),
    ensures
        final(ledger).wf(),
        final(ledger)@ == old(ledger)@.staked(user, amount, now),
        res == old(ledger)@.stake_context(user, now).result(amount),
{
    let found = ledger.find(user);
    let record = match found {
        Some(i) => {
            proof {
                lemma_record_index_is_unique(ledger.stakes@, user, i as int);
            }
            ledger.stakes[i]
        },
        None => UserStakeInfo::new(user),
    };
    let mut ctx = Stake {
        user,
        state: ledger.state,
        user_stake_info: record,
        blacklist_entry: ledger.blacklist.entry(user),
        clock: now,
    };
    proof {
        lemma_staked_is_wf(ledger@, user, amount, now);
    }
    let outcome = match stake_handler(&mut ctx, amount) {
        Ok(outcome) => outcome,
        Err(e) => { return Err(e); },
    };
    ledger.state = ctx.state;
    ledger.store(found, ctx.user_stake_info);
    Ok(outcome)
}

/// Withdraws `amount` of the principal of `user` at the time `now`, after
/// settling the rewards owed. The withdrawal is refused where `amount` is
/// zero, where `user` is on the blacklist, where `amount` is more than the
/// principal, and where the rewards would not fit 64 bits; then nothing
/// changes.
pub fn unstake(ledger: &mut StakeLedger, user: Address, amount: u64, now: i64) -> (res: Result<
    UnstakeOutcome,
    StakingError,
>)
    requires
        old(ledger).wf(),
    ensures
        final(ledger).wf(),
        final(ledger)@ == old(ledger)@.unstaked(user, amount, now),
        res == old(ledger)@.unstake_context(user, now).result(amount),
{
    let found = ledger.find(user);
    let record = match found {
        Some(i) => {
            proof {
                lemma_record_index_is_unique(ledger.stakes@, user, i as int);
            }
            ledger.stakes[i]
        },
        None => UserStakeInfo::new(user),
    };
    let mut ctx = Unstake {
        user,
        state: ledger.state,
        user_stake_info: record,
        blacklist_entry: ledger.blacklist.entry(user),
        clock: now,
    };
    proof {
        lemma_unstaked_is_wf(ledger@, user, amount, now);
    }
    let outcome = match unstake_handler(&mut ctx, amount) {
        Ok(outcome) => outcome,
        Err(e) => { return Err(e); },
    };
    ledger.state = ctx.state;
    ledger.store(found, ctx.user_stake_info);
    Ok(outcome)
}

/// Settles the rewards that `user` is owed at the time `now`. The claim is
/// refused where `user` is on the blacklist and where the rewards would
/// not fit 64 bits; then nothing changes. An address that never staked is
/// owed nothing, and gets no record.
pub fn claim_rewards(ledger: &mut StakeLedger, user: Address, now: i64) -> (res: Result<
    ClaimOutcome,
    StakingError,
>)
    requires
        old(ledger).wf(),
    ensures
        final(ledger).wf(),
        final(ledger)@ == old(ledger)@.claimed(user, now),
        res == old(ledger)@.claim_context(user, now).result(),
{
    let found = ledger.find(user);
    let record = match found {
        Some(i) => {
            proof {
                lemma_record_index_is_unique(ledger.stakes@, user, i as int);
            }
            ledger.stakes[i]
        },
        None => UserStakeInfo::new(user),
    };
    let mut ctx = ClaimRewards {
        user,
        state: ledger.state,
        user_stake_info: record,
        blacklist_entry: ledger.blacklist.entry(user),
        clock: now,
    };
    proof {
        lemma_claimed_is_wf(ledger@, user, now);
    }
    let outcome = match claim_rewards_handler(&mut ctx) {
        Ok(outcome) => outcome,
        Err(e) => { return Err(e); },
    };
    if found.is_some() {
        ledger.store(found, ctx.user_stake_info);
    }
    Ok(outcome)
}

/// Puts `address` on the blacklist at the time `now`, in the name of the
/// pool's administrator. The zero address and an address that is on the
/// blacklist already are refused; then nothing changes.
pub fn add_to_blacklist(ledger: &mut StakeLedger, address: Address, now: i64) -> (res: Result<
    AddedToBlacklist,
    StakingError,
>)
    requires
        old(ledger).wf(),
    ensures
        final(ledger).wf(),
        final(ledger)@ == old(ledger)@.blacklisted(address, now),
        res == add_context(old(ledger)@.blacklist, old(ledger)@.pool.admin, address, now).result(
            address,
        ),
{
    proof {
        lemma_blacklist_change_is_wf(ledger@, address, now);
    }
    ledger.blacklist.add(ledger.state.admin, address, now)
}

/// Takes `address` off the blacklist at the time `now`, in the name of the
/// pool's administrator. An address that is not on the blacklist is
/// refused; then nothing changes.
pub fn remove_from_blacklist(ledger: &mut StakeLedger, address: Address, now: i64) -> (res: Result<
    RemovedFromBlacklist,
    StakingError,
>)
    requires
        old(ledger).wf(),
    ensures
        final(ledger).wf(),
        final(ledger)@ == old(ledger)@.unblacklisted(address),
        res == remove_context(old(ledger)@.blacklist, old(ledger)@.pool.admin, address, now).result(
            address,
        ),
{
    proof {
        lemma_blacklist_change_is_wf(ledger@, address, now);
    }
    ledger.blacklist.remove(ledger.state.admin, address, now)
}

} // verus!
