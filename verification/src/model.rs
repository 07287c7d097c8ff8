//! The pool as a whole, as a mathematical value: the pool's record, the
//! records of all who ever staked, and the blacklist. The operations are
//! functions from one such value to the next.

use crate::address::Address;
use crate::blacklist::{
    added,
    entry_of,
    lemma_added_is_valid,
    lemma_removed_is_valid,
    listed,
    removed,
    valid_blacklist,
};
use crate::instructions::claim_rewards::ClaimRewards;
use crate::instructions::stake::Stake;
use crate::instructions::unstake::Unstake;
use crate::state::{valid_reward_rate, BlacklistEntry, GlobalState, UserStakeInfo};
use vstd::prelude::*;

verus! {

/// Whether `stakes` holds a record of `owner`.
pub open spec fn has_record(stakes: Seq<UserStakeInfo>, owner: Address) -> bool {
    exists|i: int| 0 <= i < stakes.len() && (#[trigger] stakes[i]).owner == owner
}

/// Where in `stakes` the record of `owner` stands, if there is one.
pub open spec fn record_index(stakes: Seq<UserStakeInfo>, owner: Address) -> int {
    choose|i: int| 0 <= i < stakes.len() && (#[trigger] stakes[i]).owner == owner
}

/// The record of `owner`: the one in `stakes`, or that of an address that
/// never staked.
pub open spec fn record_of(stakes: Seq<UserStakeInfo>, owner: Address) -> UserStakeInfo {
    if has_record(stakes, owner) {
        stakes[record_index(stakes, owner)]
    } else {
        UserStakeInfo::new(owner)
    }
}

/// `stakes` with `record` in the place of its owner's record, or at the
/// end where the owner had none.
pub open spec fn with_record(stakes: Seq<UserStakeInfo>, record: UserStakeInfo) -> Seq<
    UserStakeInfo,
> {
    if has_record(stakes, record.owner) {
        stakes.update(record_index(stakes, record.owner), record)
    } else {
        stakes.push(record)
    }
}

/// No address has two records.
pub open spec fn distinct_owners(stakes: Seq<UserStakeInfo>) -> bool {
    forall|i: int, j: int|
        0 <= i < j < stakes.len() ==> (#[trigger] stakes[i]).owner != (#[trigger] stakes[j]).owner
}

/// The sum of the principals of all records.
pub open spec fn total_principal(stakes: Seq<UserStakeInfo>) -> nat
    decreases stakes.len(),
{
    if stakes.len() == 0 {
        0
    } else {
        total_principal(stakes.drop_last()) + stakes.last().amount as nat
    }
}

/// One more record adds its principal to the sum.
pub proof fn lemma_total_push(stakes: Seq<UserStakeInfo>, record: UserStakeInfo)
    ensures
        total_principal(stakes.push(record)) == total_principal(stakes) + record.amount,
{
    assert(stakes.push(record).drop_last() =~= stakes);
}

/// A record that changes moves the sum by the change of its principal.
pub proof fn lemma_total_update(stakes: Seq<UserStakeInfo>, i: int, record: UserStakeInfo)
    requires
        0 <= i < stakes.len(),
    ensures
        total_principal(stakes.update(i, record)) == total_principal(stakes) - stakes[i].amount
            + record.amount,
    decreases stakes.len(),
{
    let updated = stakes.update(i, record);
    if i == stakes.len() - 1 {
        assert(updated.drop_last() =~= stakes.drop_last());
    } else {
        assert(updated.drop_last() =~= stakes.drop_last().update(i, record));
        lemma_total_update(stakes.drop_last(), i, record);
    }
}

/// No principal is larger than the sum of all.
pub proof fn lemma_principal_within_total(stakes: Seq<UserStakeInfo>, i: int)
    requires
        0 <= i < stakes.len(),
    ensures
        stakes[i].amount <= total_principal(stakes),
    decreases stakes.len(),
{
    if i < stakes.len() - 1 {
        lemma_principal_within_total(stakes.drop_last(), i);
    }
}

/// Where no address has two records, the record of an address stands at
/// one place only.
pub proof fn lemma_record_index_is_unique(stakes: Seq<UserStakeInfo>, owner: Address, i: int)
    requires
        distinct_owners(stakes),
        0 <= i < stakes.len(),
        stakes[i].owner == owner,
    ensures
        has_record(stakes, owner),
        record_index(stakes, owner) == i,
        record_of(stakes, owner) == stakes[i],
{
    let p = record_index(stakes, owner);
    assert(0 <= p < stakes.len() && stakes[p].owner == owner);
    if p < i {
        assert(stakes[p].owner != stakes[i].owner);
    } else if i < p {
        assert(stakes[i].owner != stakes[p].owner);
    }
}

/// Putting in a record leaves the records of all others alone, and no
/// address gets a second one.
pub proof fn lemma_with_record(stakes: Seq<UserStakeInfo>, record: UserStakeInfo)
    requires
        distinct_owners(stakes),
    ensures
        distinct_owners(with_record(stakes, record)),
        has_record(with_record(stakes, record), record.owner),
        record_of(with_record(stakes, record), record.owner) == record,
        forall|other: Address|
            other != record.owner ==> has_record(with_record(stakes, record), other) == has_record(
                stakes,
                other,
            ) && record_of(with_record(stakes, record), other) == record_of(stakes, other),
        total_principal(with_record(stakes, record)) == total_principal(stakes) - record_of(
            stakes,
            record.owner,
        ).amount + record.amount,
{
    let after = with_record(stakes, record);
    let n = stakes.len() as int;
    let at = if has_record(stakes, record.owner) {
        record_index(stakes, record.owner)
    } else {
        n
    };
    if has_record(stakes, record.owner) {
        lemma_total_update(stakes, at, record);
    } else {
        lemma_total_push(stakes, record);
    }
    assert(after[at] == record);
    assert forall|i: int| 0 <= i < after.len() && i != at implies #[trigger] after[i]
        == stakes[i] && stakes[i].owner != record.owner by {
        if has_record(stakes, record.owner) {
            lemma_record_index_is_unique(stakes, record.owner, at);
            if stakes[i].owner == record.owner {
                lemma_record_index_is_unique(stakes, record.owner, i);
            }
        }
    }
    assert forall|i: int, j: int| 0 <= i < j < after.len() implies (#[trigger] after[i]).owner != (
    #[trigger] after[j]).owner by {
        if i != at && j != at {
            assert(after[i] == stakes[i] && after[j] == stakes[j]);
        } else if i == at {
            assert(after[j] == stakes[j]);
        } else {
            assert(after[i] == stakes[i]);
        }
    }
    lemma_record_index_is_unique(after, record.owner, at);
    assert forall|other: Address| other != record.owner implies has_record(after, other)
        == has_record(stakes, other) && record_of(after, other) == record_of(stakes, other) by {
        if has_record(stakes, other) {
            let i = record_index(stakes, other);
            assert(i != at);
            assert(after[i] == stakes[i]);
            lemma_record_index_is_unique(after, other, i);
        }
        if has_record(after, other) {
            let i = record_index(after, other);
            assert(i != at);
            assert(after[i] == stakes[i]);
            lemma_record_index_is_unique(stakes, other, i);
        }
    }
}

/// The pool as a whole.
pub struct LedgerModel {
    /// The pool's own record.
    pub pool: GlobalState,
    /// The records of all who ever staked, in the order of their first
    /// stakes.
    pub stakes: Seq<UserStakeInfo>,
    /// The blacklist, in the order in which its entries were made.
    pub blacklist: Seq<BlacklistEntry>,
}

impl LedgerModel {
    /// What holds of the pool at all times: its rate is one it accepts, no
    /// address has two records or two entries on the blacklist, the zero
    /// address has no entry, and the pool's total is the sum of all
    /// principals.
    pub open spec fn wf(self) -> bool {
        &&& valid_reward_rate(self.pool.reward_rate)
        &&& distinct_owners(self.stakes)
        &&& valid_blacklist(self.blacklist)
        &&& self.pool.total_staked == total_principal(self.stakes)
    }

    /// Whether `address` is on the blacklist.
    pub open spec fn is_blacklisted(self, address: Address) -> bool {
        listed(self.blacklist, address)
    }

    /// What a stake by `user` at `now` works on.
    pub open spec fn stake_context(self, user: Address, now: i64) -> Stake {
        Stake {
            user,
            state: self.pool,
            user_stake_info: record_of(self.stakes, user),
            blacklist_entry: entry_of(self.blacklist, user),
            clock: now,
        }
    }

    /// What a withdrawal by `user` at `now` works on.
    pub open spec fn unstake_context(self, user: Address, now: i64) -> Unstake {
        Unstake {
            user,
            state: self.pool,
            user_stake_info: record_of(self.stakes, user),
            blacklist_entry: entry_of(self.blacklist, user),
            clock: now,
        }
    }

    /// What a claim by `user` at `now` works on.
    pub open spec fn claim_context(self, user: Address, now: i64) -> ClaimRewards {
        ClaimRewards {
            user,
            state: self.pool,
            user_stake_info: record_of(self.stakes, user),
            blacklist_entry: entry_of(self.blacklist, user),
            clock: now,
        }
    }

    /// The pool after `user` tried to stake `amount` at `now`. The first
    /// stake of an address makes its record.
    pub open spec fn staked(self, user: Address, amount: u64, now: i64) -> LedgerModel {
        let ctx = self.stake_context(user, now);
        if ctx.rejection(amount) is None {
            LedgerModel {
                pool: ctx.after(amount).state,
                stakes: with_record(self.stakes, ctx.after(amount).user_stake_info),
                ..self
            }
        } else {
            self
        }
    }

    /// The pool after `user` tried to withdraw `amount` at `now`.
    pub open spec fn unstaked(self, user: Address, amount: u64, now: i64) -> LedgerModel {
        let ctx = self.unstake_context(user, now);
        if ctx.rejection(amount) is None {
            LedgerModel {
                pool: ctx.after(amount).state,
                stakes: with_record(self.stakes, ctx.after(amount).user_stake_info),
                ..self
            }
        } else {
            self
        }
    }

    /// The pool after `user` tried to claim rewards at `now`. An address
    /// that never staked gets no record by claiming.
    pub open spec fn claimed(self, user: Address, now: i64) -> LedgerModel {
        let ctx = self.claim_context(user, now);
        if ctx.rejection() is None && has_record(self.stakes, user) {
            LedgerModel { stakes: with_record(self.stakes, ctx.after().user_stake_info), ..self }
        } else {
            self
        }
    }

    /// The pool after an attempt to put `address` on the blacklist at
    /// `now`.
    pub open spec fn blacklisted(self, address: Address, now: i64) -> LedgerModel {
        LedgerModel { blacklist: added(self.blacklist, address, now), ..self }
    }

    /// The pool after an attempt to take `address` off the blacklist.
    pub open spec fn unblacklisted(self, address: Address) -> LedgerModel {
        LedgerModel { blacklist: removed(self.blacklist, address), ..self }
    }
}

/// A stake keeps the pool well-formed.
pub proof fn lemma_staked_is_wf(m: LedgerModel, user: Address, amount: u64, now: i64)
    requires
        m.wf(),
    ensures
        m.staked(user, amount, now).wf(),
{
    let ctx = m.stake_context(user, now);
    if ctx.rejection(amount) is None {
        lemma_with_record(m.stakes, ctx.after(amount).user_stake_info);
    }
}

/// A withdrawal keeps the pool well-formed.
pub proof fn lemma_unstaked_is_wf(m: LedgerModel, user: Address, amount: u64, now: i64)
    requires
        m.wf(),
    ensures
        m.unstaked(user, amount, now).wf(),
{
    let ctx = m.unstake_context(user, now);
    if ctx.rejection(amount) is None {
        lemma_with_record(m.stakes, ctx.after(amount).user_stake_info);
    }
}

/// A claim keeps the pool well-formed.
pub proof fn lemma_claimed_is_wf(m: LedgerModel, user: Address, now: i64)
    requires
        m.wf(),
    ensures
        m.claimed(user, now).wf(),
{
    let ctx = m.claim_context(user, now);
    if ctx.rejection() is None && has_record(m.stakes, user) {
        lemma_with_record(m.stakes, ctx.after().user_stake_info);
    }
}

/// A change of the blacklist keeps the pool well-formed.
pub proof fn lemma_blacklist_change_is_wf(m: LedgerModel, address: Address, now: i64)
    requires
        m.wf(),
    ensures
        m.blacklisted(address, now).wf(),
        m.unblacklisted(address).wf(),
{
    lemma_added_is_valid(m.blacklist, address, now);
    lemma_removed_is_valid(m.blacklist, address);
}

} // verus!
