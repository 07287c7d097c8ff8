//! What holds of the pool whatever is done with it.

use crate::address::Address;
use crate::blacklist::{add_context, lemma_added_is_valid, lemma_removed_is_valid, position};
use crate::errors::StakingError;
use crate::events::AddedToBlacklist;
use crate::instructions::claim_rewards::{ClaimOutcome, ClaimRewards};
use crate::instructions::stake::StakeOutcome;
use crate::instructions::unstake::UnstakeOutcome;
use crate::model::{
    has_record,
    lemma_blacklist_change_is_wf,
    lemma_claimed_is_wf,
    lemma_principal_within_total,
    lemma_staked_is_wf,
    lemma_unstaked_is_wf,
    lemma_with_record,
    record_index,
    record_of,
    total_principal,
    with_record,
    LedgerModel,
};
use crate::rewards::{
    accrued_reward,
    lemma_no_principal_no_reward,
    lemma_no_time_no_reward,
    RATE_PRECISION,
    SECONDS_PER_DAY,
};
use crate::state::GlobalState;
use vstd::arithmetic::div_mod::lemma_div_multiples_vanish_quotient;
use vstd::prelude::*;

verus! {

/// One call of one operation of the pool.
pub enum Operation {
    Stake { user: Address, amount: u64, now: i64 },
    Unstake { user: Address, amount: u64, now: i64 },
    ClaimRewards { user: Address, now: i64 },
    AddToBlacklist { address: Address, now: i64 },
    RemoveFromBlacklist { address: Address, now: i64 },
}

impl Operation {
    /// The address that the operation is about.
    pub open spec fn address(self) -> Address {
        match self {
            Operation::Stake { user, .. } => user,
            Operation::Unstake { user, .. } => user,
            Operation::ClaimRewards { user, .. } => user,
            Operation::AddToBlacklist { address, .. } => address,
            Operation::RemoveFromBlacklist { address, .. } => address,
        }
    }

    /// The time of the call.
    pub open spec fn now(self) -> i64 {
        match self {
            Operation::Stake { now, .. } => now,
            Operation::Unstake { now, .. } => now,
            Operation::ClaimRewards { now, .. } => now,
            Operation::AddToBlacklist { now, .. } => now,
            Operation::RemoveFromBlacklist { now, .. } => now,
        }
    }
}

impl LedgerModel {
    /// The pool after `op`.
    pub open spec fn apply(self, op: Operation) -> LedgerModel {
        match op {
            Operation::Stake { user, amount, now } => self.staked(user, amount, now),
            Operation::Unstake { user, amount, now } => self.unstaked(user, amount, now),
            Operation::ClaimRewards { user, now } => self.claimed(user, now),
            Operation::AddToBlacklist { address, now } => self.blacklisted(address, now),
            Operation::RemoveFromBlacklist { address, .. } => self.unblacklisted(address),
        }
    }

    /// The pool after all of `ops`, one after the other.
    pub open spec fn run(self, ops: Seq<Operation>) -> LedgerModel
        decreases ops.len(),
    {
        if ops.len() == 0 {
            self
        } else {
            self.run(ops.drop_last()).apply(ops.last())
        }
    }
}

/// After any operations whatever, carried out or refused, the pool's total
/// is the sum of the principals of all records, no address has two
/// records, and but for its total the pool's own record is as it was set
/// up, its rate above all.
pub proof fn law_total_is_sum_of_principals(m: LedgerModel, ops: Seq<Operation>)
    requires
        m.wf(),
    ensures
        m.run(ops).wf(),
        m.run(ops).pool.total_staked == total_principal(m.run(ops).stakes),
        m.run(ops).pool == (GlobalState { total_staked: m.run(ops).pool.total_staked, ..m.pool }),
        m.run(ops).pool.reward_rate == m.pool.reward_rate,
    decreases ops.len(),
{
    if ops.len() > 0 {
        law_total_is_sum_of_principals(m, ops.drop_last());
        let before = m.run(ops.drop_last());
        match ops.last() {
            Operation::Stake { user, amount, now } => {
                lemma_staked_is_wf(before, user, amount, now);
            },
            Operation::Unstake { user, amount, now } => {
                lemma_unstaked_is_wf(before, user, amount, now);
            },
            Operation::ClaimRewards { user, now } => {
                lemma_claimed_is_wf(before, user, now);
            },
            Operation::AddToBlacklist { address, now } => {
                lemma_blacklist_change_is_wf(before, address, now);
            },
            Operation::RemoveFromBlacklist { address, now } => {
                lemma_blacklist_change_is_wf(before, address, now);
            },
        }
    }
}

/// Rewards accrue by the second, in proportion to the time: a whole day
/// pays `rate` parts in ten thousand of the principal, and half a day pays
/// half of that, whenever the day begins.
pub proof fn law_reward_in_proportion_to_time(amount: u64, start: i64, rate: u64)
    requires
        start + SECONDS_PER_DAY <= i64::MAX,
    ensures
        accrued_reward(amount, start, (start + SECONDS_PER_DAY) as i64, rate) == (amount as nat
            * rate as nat) / (RATE_PRECISION as nat),
        accrued_reward(amount, start, (start + SECONDS_PER_DAY / 2) as i64, rate) == (amount as nat
            * rate as nat) / (2 * RATE_PRECISION as nat),
{
    let product = amount as nat * rate as nat;
    assert(0 <= product) by (nonlinear_arith)
        requires
            product == amount as nat * rate as nat,
    ;
    assert(product * 86400 == 86400 * product && product * 43200 == 43200 * product)
        by (nonlinear_arith);
    lemma_div_multiples_vanish_quotient(86400, product as int, 10000);
    lemma_div_multiples_vanish_quotient(43200, product as int, 20000);
}

/// An address that is put on the blacklist is on it afterwards, and an
/// address that is taken off is not.
pub proof fn law_blacklist_holds_what_was_put(m: LedgerModel, address: Address, now: i64)
    requires
        m.wf(),
    ensures
        add_context(m.blacklist, m.pool.admin, address, now).rejection(address) is None
            ==> m.blacklisted(address, now).is_blacklisted(address),
        !m.unblacklisted(address).is_blacklisted(address),
{
    lemma_added_is_valid(m.blacklist, address, now);
    lemma_removed_is_valid(m.blacklist, address);
}

/// An address on the blacklist can neither stake nor withdraw nor claim:
/// each is refused and changes nothing, and the reason given is the
/// blacklist. (A stake or a withdrawal of nothing is refused for its
/// amount first.)
pub proof fn law_blacklisted_is_shut_out(m: LedgerModel, address: Address, amount: u64, now: i64)
    requires
        m.wf(),
        m.is_blacklisted(address),
    ensures
        m.staked(address, amount, now) == m,
        m.unstaked(address, amount, now) == m,
        m.claimed(address, now) == m,
        amount > 0 ==> m.stake_context(address, now).result(amount) == Err::<
            StakeOutcome,
            StakingError,
        >(StakingError::AddressBlacklisted),
        amount > 0 ==> m.unstake_context(address, now).result(amount) == Err::<
            UnstakeOutcome,
            StakingError,
        >(StakingError::AddressBlacklisted),
        m.claim_context(address, now).result() == Err::<ClaimOutcome, StakingError>(
            StakingError::AddressBlacklisted,
        ),
{
}

/// An address that is not on the blacklist, be it that it never was or
/// that it was taken off, is never refused on account of the blacklist:
/// what it tries is carried out unless something else is wrong with it.
pub proof fn law_unlisted_is_let_in(m: LedgerModel, address: Address, amount: u64, now: i64)
    requires
        m.wf(),
        !m.is_blacklisted(address),
    ensures
        m.stake_context(address, now).blacklist_entry is None,
        m.unstake_context(address, now).blacklist_entry is None,
        m.claim_context(address, now).blacklist_entry is None,
        m.stake_context(address, now).rejection(amount) != Some(StakingError::AddressBlacklisted),
        m.unstake_context(address, now).rejection(amount) != Some(
            StakingError::AddressBlacklisted,
        ),
        m.claim_context(address, now).rejection() != Some(StakingError::AddressBlacklisted),
{
}

/// Putting an address on the blacklist shuts it out, and taking it off
/// lets it in again.
pub proof fn law_blacklist_gates(
    m: LedgerModel,
    address: Address,
    since: i64,
    amount: u64,
    now: i64,
)
    requires
        m.wf(),
        add_context(m.blacklist, m.pool.admin, address, since).rejection(address) is None,
        amount > 0,
    ensures
        m.blacklisted(address, since).stake_context(address, now).result(amount) == Err::<
            StakeOutcome,
            StakingError,
        >(StakingError::AddressBlacklisted),
        m.blacklisted(address, since).unstake_context(address, now).result(amount) == Err::<
            UnstakeOutcome,
            StakingError,
        >(StakingError::AddressBlacklisted),
        m.blacklisted(address, since).claim_context(address, now).result() == Err::<
            ClaimOutcome,
            StakingError,
        >(StakingError::AddressBlacklisted),
        m.blacklisted(address, since).unblacklisted(address).stake_context(address, now)
            == m.stake_context(address, now),
        m.blacklisted(address, since).unblacklisted(address).unstake_context(address, now)
            == m.unstake_context(address, now),
        m.blacklisted(address, since).unblacklisted(address).claim_context(address, now)
            == m.claim_context(address, now),
{
    let shut = m.blacklisted(address, since);
    lemma_added_is_valid(m.blacklist, address, since);
    lemma_blacklist_change_is_wf(m, address, since);
    law_blacklisted_is_shut_out(shut, address, amount, now);
    lemma_removed_is_valid(shut.blacklist, address);
}

/// A second claim at the time of the first pays nothing and changes
/// nothing. The one clock value for which this can fail is zero, which in
/// a record means "never settled": there the law asks that nothing had
/// accrued between the first stake and then.
pub proof fn law_claim_twice_pays_once(ctx: ClaimRewards)
    requires
        ctx.rejection() is None,
        ctx.clock == 0 ==> accrued_reward(
            ctx.user_stake_info.amount,
            ctx.user_stake_info.stake_timestamp,
            0,
            ctx.state.reward_rate,
        ) == 0,
    ensures
        ctx.after().result() == Ok::<ClaimOutcome, StakingError>(
            ClaimOutcome { reward_transfer: None, event: None },
        ),
        ctx.after().after() == ctx.after(),
        ctx.after().user_stake_info.last_claim_time == ctx.clock,
{
    let once = ctx.after();
    if ctx.clock != 0 {
        lemma_no_time_no_reward(
            once.user_stake_info.amount,
            ctx.clock,
            ctx.clock,
            ctx.state.reward_rate,
        );
    }
}

/// The same for the pool as a whole: after a claim that was carried out, a
/// second claim by the same address at the same time pays nothing and
/// leaves the pool as it is.
pub proof fn law_claim_twice_pays_once_in_pool(m: LedgerModel, user: Address, now: i64)
    requires
        m.wf(),
        m.claim_context(user, now).rejection() is None,
        now == 0 ==> accrued_reward(
            record_of(m.stakes, user).amount,
            record_of(m.stakes, user).stake_timestamp,
            0,
            m.pool.reward_rate,
        ) == 0,
    ensures
        m.claimed(user, now).claim_context(user, now).result() == Ok::<ClaimOutcome, StakingError>(
            ClaimOutcome { reward_transfer: None, event: None },
        ),
        m.claimed(user, now).claimed(user, now) == m.claimed(user, now),
{
    let ctx = m.claim_context(user, now);
    law_claim_twice_pays_once(ctx);
    if has_record(m.stakes, user) {
        lemma_with_record(m.stakes, ctx.after().user_stake_info);
        let once = m.claimed(user, now);
        assert(once.claim_context(user, now) == ctx.after());
        assert(with_record(once.stakes, record_of(once.stakes, user)) =~= once.stakes);
    } else {
        lemma_no_principal_no_reward(0, now, m.pool.reward_rate);
    }
}

/// A stake of `amount` followed by a withdrawal of `amount` brings the
/// principal and the pool's total back to what they were, so the whole of
/// a first stake leaves a principal of zero; and the rewards paid out
/// never go down on the way.
pub proof fn law_stake_then_unstake(
    m: LedgerModel,
    user: Address,
    amount: u64,
    staked_at: i64,
    unstaked_at: i64,
)
    requires
        m.wf(),
        m.stake_context(user, staked_at).rejection(amount) is None,
        m.staked(user, amount, staked_at).unstake_context(user, unstaked_at).rejection(amount)
            is None,
    ensures
        record_of(m.staked(user, amount, staked_at).stakes, user).amount == record_of(
            m.stakes,
            user,
        ).amount + amount,
        m.staked(user, amount, staked_at).pool.total_staked == m.pool.total_staked + amount,
        record_of(
            m.staked(user, amount, staked_at).unstaked(user, amount, unstaked_at).stakes,
            user,
        ).amount == record_of(m.stakes, user).amount,
        m.staked(user, amount, staked_at).unstaked(user, amount, unstaked_at).pool.total_staked
            == m.pool.total_staked,
        record_of(m.stakes, user).reward_debt <= record_of(
            m.staked(user, amount, staked_at).stakes,
            user,
        ).reward_debt <= record_of(
            m.staked(user, amount, staked_at).unstaked(user, amount, unstaked_at).stakes,
            user,
        ).reward_debt,
{
    let m1 = m.staked(user, amount, staked_at);
    lemma_staked_is_wf(m, user, amount, staked_at);
    lemma_with_record(m.stakes, m.stake_context(user, staked_at).after(amount).user_stake_info);
    lemma_with_record(
        m1.stakes,
        m1.unstake_context(user, unstaked_at).after(amount).user_stake_info,
    );
}

/// A withdrawal of the whole principal is carried out, unless the address
/// is on the blacklist or the rewards do not fit, and leaves a principal
/// of zero. A withdrawal of more than the principal is refused as
/// insufficient, unless the address is on the blacklist.
pub proof fn law_unstake_at_the_boundary(m: LedgerModel, user: Address, more: u64, now: i64)
    requires
        m.wf(),
        !m.is_blacklisted(user),
        more > record_of(m.stakes, user).amount,
    ensures
        record_of(m.stakes, user).amount > 0 && record_of(m.stakes, user).can_settle(
            m.pool.reward_rate,
            now,
        ) ==> {
            &&& m.unstake_context(user, now).rejection(record_of(m.stakes, user).amount) is None
            &&& record_of(
                m.unstaked(user, record_of(m.stakes, user).amount, now).stakes,
                user,
            ).amount == 0
        },
        m.unstake_context(user, now).result(more) == Err::<UnstakeOutcome, StakingError>(
            StakingError::InsufficientStakedAmount,
        ),
        m.unstaked(user, more, now) == m,
{
    let record = record_of(m.stakes, user);
    if record.amount > 0 && record.can_settle(m.pool.reward_rate, now) {
        assert(has_record(m.stakes, user));
        lemma_principal_within_total(m.stakes, record_index(m.stakes, user));
        lemma_with_record(
            m.stakes,
            m.unstake_context(user, now).after(record.amount).user_stake_info,
        );
    }
}

/// The zero address cannot be put on the blacklist: the attempt is refused
/// and the blacklist stays as it is.
pub proof fn law_zero_address_is_refused(m: LedgerModel, address: Address, now: i64)
    requires
        address.is_zero(),
    ensures
        add_context(m.blacklist, m.pool.admin, address, now).result(address) == Err::<
            AddedToBlacklist,
            StakingError,
        >(StakingError::CannotBlacklistZeroAddress),
        m.blacklisted(address, now) == m,
        m.wf() ==> !m.is_blacklisted(address),
{
    if m.wf() && m.is_blacklisted(address) {
        let i = position(m.blacklist, address);
        assert(!m.blacklist[i].address.is_zero());
    }
}

/// What becomes of a record: it is never dropped, its owner and the time
/// of the first stake stay, and the rewards paid never go down. While the
/// clock does not go back, the time of the last settlement does not go
/// back either and never lies after the clock.
pub proof fn law_record_moves_forward(m: LedgerModel, op: Operation, user: Address)
    requires
        m.wf(),
        has_record(m.stakes, user),
    ensures
        has_record(m.apply(op).stakes, user),
        record_of(m.apply(op).stakes, user).owner == user,
        record_of(m.stakes, user).stake_timestamp != 0 ==> record_of(
            m.apply(op).stakes,
            user,
        ).stake_timestamp == record_of(m.stakes, user).stake_timestamp,
        record_of(m.apply(op).stakes, user).reward_debt >= record_of(m.stakes, user).reward_debt,
        op.now() >= record_of(m.stakes, user).last_claim_time ==> record_of(
            m.stakes,
            user,
        ).last_claim_time <= record_of(m.apply(op).stakes, user).last_claim_time <= op.now(),
{
    match op {
        Operation::Stake { user: who, amount, now } => {
            lemma_with_record(m.stakes, m.stake_context(who, now).after(amount).user_stake_info);
        },
        Operation::Unstake { user: who, amount, now } => {
            lemma_with_record(m.stakes, m.unstake_context(who, now).after(amount).user_stake_info);
        },
        Operation::ClaimRewards { user: who, now } => {
            lemma_with_record(m.stakes, m.claim_context(who, now).after().user_stake_info);
        },
        _ => {},
    }
}

/// An operation is about one address: for every other address the record
/// and the place on or off the blacklist stay as they are.
pub proof fn law_operation_is_by_address(m: LedgerModel, op: Operation, other: Address)
    requires
        m.wf(),
        other != op.address(),
    ensures
        has_record(m.apply(op).stakes, other) == has_record(m.stakes, other),
        record_of(m.apply(op).stakes, other) == record_of(m.stakes, other),
        m.apply(op).is_blacklisted(other) == m.is_blacklisted(other),
{
    match op {
        Operation::Stake { user: who, amount, now } => {
            lemma_with_record(m.stakes, m.stake_context(who, now).after(amount).user_stake_info);
        },
        Operation::Unstake { user: who, amount, now } => {
            lemma_with_record(m.stakes, m.unstake_context(who, now).after(amount).user_stake_info);
        },
        Operation::ClaimRewards { user: who, now } => {
            lemma_with_record(m.stakes, m.claim_context(who, now).after().user_stake_info);
        },
        Operation::AddToBlacklist { address, now } => {
            lemma_added_is_valid(m.blacklist, address, now);
        },
        Operation::RemoveFromBlacklist { address, .. } => {
            lemma_removed_is_valid(m.blacklist, address);
        },
    }
}

} // verus!
