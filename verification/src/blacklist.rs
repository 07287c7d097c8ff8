//! The blacklist: the addresses that are shut out of the pool.

use crate::address::Address;
use crate::errors::StakingError;
use crate::events::{AddedToBlacklist, RemovedFromBlacklist};
use crate::instructions::add_to_blacklist::{add_to_blacklist_handler, AddToBlacklist};
use crate::instructions::remove_from_blacklist::{
    remove_from_blacklist_handler,
    RemoveFromBlacklist,
};
use crate::state::BlacklistEntry;
use vstd::prelude::*;

verus! {

/// Whether `entries` holds an entry for `address`.
pub open spec fn listed(entries: Seq<BlacklistEntry>, address: Address) -> bool {
    exists|i: int| 0 <= i < entries.len() && (#[trigger] entries[i]).address == address
}

/// Where in `entries` the entry for `address` stands, if there is one.
pub open spec fn position(entries: Seq<BlacklistEntry>, address: Address) -> int {
    choose|i: int| 0 <= i < entries.len() && (#[trigger] entries[i]).address == address
}

/// The entry for `address`, if there is one.
pub open spec fn entry_of(entries: Seq<BlacklistEntry>, address: Address) -> Option<
    BlacklistEntry,
> {
    if listed(entries, address) {
        Some(entries[position(entries, address)])
    } else {
        None
    }
}

/// What a blacklist has to be: no address has two entries, and the zero
/// address has none.
pub open spec fn valid_blacklist(entries: Seq<BlacklistEntry>) -> bool {
    &&& forall|i: int| 0 <= i < entries.len() ==> !(#[trigger] entries[i]).address.is_zero()
    &&& forall|i: int, j: int|
        0 <= i < j < entries.len() ==> (#[trigger] entries[i]).address != (
        #[trigger] entries[j]).address
}

/// What putting `address` on the blacklist starts from.
pub open spec fn add_context(
    entries: Seq<BlacklistEntry>,
    admin: Address,
    address: Address,
    now: i64,
) -> AddToBlacklist {
    AddToBlacklist { admin, blacklist_entry: entry_of(entries, address), clock: now }
}

/// The blacklist after an attempt to put `address` on it: with a new entry
/// at its end, or as it was where the attempt is refused.
pub open spec fn added(entries: Seq<BlacklistEntry>, address: Address, now: i64) -> Seq<
    BlacklistEntry,
> {
    if address.is_zero() || listed(entries, address) {
        entries
    } else {
        entries.push(BlacklistEntry { address, added_at: now })
    }
}

/// What taking `address` off the blacklist starts from.
pub open spec fn remove_context(
    entries: Seq<BlacklistEntry>,
    admin: Address,
    address: Address,
    now: i64,
) -> RemoveFromBlacklist {
    RemoveFromBlacklist { admin, blacklist_entry: entry_of(entries, address), clock: now }
}

/// The blacklist after an attempt to take `address` off it: without its
/// entry, the others in their order.
pub open spec fn removed(entries: Seq<BlacklistEntry>, address: Address) -> Seq<BlacklistEntry> {
    if listed(entries, address) {
        entries.remove(position(entries, address))
    } else {
        entries
    }
}

/// In a valid blacklist the entry of an address stands at one place only.
pub proof fn lemma_position_is_unique(entries: Seq<BlacklistEntry>, address: Address, i: int)
    requires
        valid_blacklist(entries),
        0 <= i < entries.len(),
        entries[i].address == address,
    ensures
        listed(entries, address),
        position(entries, address) == i,
        entry_of(entries, address) == Some(entries[i]),
{
    let p = position(entries, address);
    assert(0 <= p < entries.len() && entries[p].address == address);
    if p < i {
        assert(entries[p].address != entries[i].address);
    } else if i < p {
        assert(entries[i].address != entries[p].address);
    }
}

/// Putting an address on a valid blacklist leaves it valid, and the
/// address on it.
pub proof fn lemma_added_is_valid(entries: Seq<BlacklistEntry>, address: Address, now: i64)
    requires
        valid_blacklist(entries),
    ensures
        valid_blacklist(added(entries, address, now)),
        !address.is_zero() ==> listed(added(entries, address, now), address),
        forall|other: Address|
            other != address ==> listed(added(entries, address, now), other) == listed(
                entries,
                other,
            ),
{
    let after = added(entries, address, now);
    if !address.is_zero() && !listed(entries, address) {
        let n = entries.len() as int;
        assert(after[n].address == address);
        assert forall|i: int, j: int| 0 <= i < j < after.len() implies (#[trigger] after[i]).address
            != (#[trigger] after[j]).address by {
            if j == n {
                assert(after[i] == entries[i]);
            } else {
                assert(after[i] == entries[i] && after[j] == entries[j]);
            }
        }
        assert forall|i: int| 0 <= i < after.len() implies !(#[trigger] after[i]).address.is_zero() by {
            if i < n {
                assert(after[i] == entries[i]);
            }
        }
        assert forall|other: Address| other != address implies listed(after, other) == listed(
            entries,
            other,
        ) by {
            if listed(entries, other) {
                let i = position(entries, other);
                assert(after[i].address == other);
            }
            if listed(after, other) {
                let i = position(after, other);
                assert(i != n);
                assert(entries[i].address == other);
            }
        }
    }
}

/// Taking an address off a valid blacklist leaves it valid, and the
/// address off it.
pub proof fn lemma_removed_is_valid(entries: Seq<BlacklistEntry>, address: Address)
    requires
        valid_blacklist(entries),
    ensures
        valid_blacklist(removed(entries, address)),
        !listed(removed(entries, address), address),
        forall|other: Address|
            other != address ==> listed(removed(entries, address), other) == listed(entries, other),
        forall|other: Address|
            other != address ==> entry_of(removed(entries, address), other) == entry_of(
                entries,
                other,
            ),
{
    let after = removed(entries, address);
    if listed(entries, address) {
        let p = position(entries, address);
        assert forall|i: int| 0 <= i < after.len() implies after[i] == entries[if i < p {
            i
        } else {
            i + 1
        }] by {}
        assert forall|i: int, j: int| 0 <= i < j < after.len() implies (#[trigger] after[i]).address
            != (#[trigger] after[j]).address by {
            let i0 = if i < p { i } else { i + 1 };
            let j0 = if j < p { j } else { j + 1 };
            assert(after[i] == entries[i0] && after[j] == entries[j0]);
        }
        assert forall|i: int| 0 <= i < after.len() implies !(#[trigger] after[i]).address.is_zero() by {
            let i0 = if i < p { i } else { i + 1 };
            assert(after[i] == entries[i0]);
        }
        if listed(after, address) {
            let i = position(after, address);
            let i0 = if i < p { i } else { i + 1 };
            assert(after[i] == entries[i0]);
            lemma_position_is_unique(entries, address, i0);
        }
        assert forall|other: Address| other != address implies listed(after, other) == listed(
            entries,
            other,
        ) && entry_of(after, other) == entry_of(entries, other) by {
            if listed(entries, other) {
                let i = position(entries, other);
                let i1 = if i < p { i } else { i - 1 };
                assert(after[i1] == entries[i]);
                lemma_position_is_unique(after, other, i1);
            }
            if listed(after, other) {
                let i = position(after, other);
                let i0 = if i < p { i } else { i + 1 };
                assert(after[i] == entries[i0]);
                lemma_position_is_unique(entries, other, i0);
            }
        }
    }
}

/// Whether an account that may hold an entry of the blacklist holds a
/// live one: it has data, and a balance that keeps it alive.
pub fn entry_is_live(data_is_empty: bool, lamports: u64) -> (live: bool)
    ensures
        live == (!data_is_empty && lamports > 0),
{
    !(data_is_empty || lamports == 0)
}

/// The addresses that are shut out of the pool, each with the time since
/// when.
#[derive(Clone, Debug, PartialEq, Eq)]
pub struct BlacklistRegistry {
    entries: Vec<BlacklistEntry>,
}

impl BlacklistRegistry {
    /// The entries, in the order in which they were made.
    pub closed spec fn entries(&self) -> Seq<BlacklistEntry> {
        self.entries@
    }

    /// Whether the registry is a valid blacklist.
    pub open spec fn wf(&self) -> bool {
        valid_blacklist(self.entries())
    }

    /// A blacklist with no address on it.
    pub fn new() -> (registry: BlacklistRegistry)
        ensures
            registry.entries() == Seq::<BlacklistEntry>::empty(),
            registry.wf(),
    {
        BlacklistRegistry { entries: Vec::new() }
    }

    /// The number of addresses on the blacklist.
    pub fn len(&self) -> (n: usize)
        ensures
            n == self.entries().len(),
    {
        self.entries.len()
    }

    fn find(&self, address: Address) -> (found: Option<usize>)
        ensures
            match found {
                Some(i) => i < self.entries().len() && self.entries()[i as int].address == address,
                None => !listed(self.entries(), address),
            },
    {
        let mut i: usize = 0;
        while i < self.entries.len()
            invariant
                i <= self.entries.len(),
                forall|j: int| 0 <= j < i ==> self.entries@[j].address != address,
            decreases self.entries.len() - i,
        {
            if self.entries[i].address == address {
                return Some(i);
            }
            i += 1;
        }
        None
    }

    /// The entry for `address`, if it is on the blacklist.
    pub fn entry(&self, address: Address) -> (found: Option<BlacklistEntry>)
        requires
            self.wf(),
        ensures
            found == entry_of(self.entries(), address),
    {
        match self.find(address) {
            Some(i) => {
                proof {
                    lemma_position_is_unique(self.entries@, address, i as int);
                }
                Some(self.entries[i])
            },
            None => None,
        }
    }

    /// Whether `address` is on the blacklist.
    pub fn is_blacklisted(&self, address: Address) -> (yes: bool)
        ensures
            yes == listed(self.entries(), address),
    {
        self.find(address).is_some()
    }

    /// Puts `address` on the blacklist, at the time `now` and in the name
    /// of `admin`. The zero address and an address that is on the
    /// blacklist already are refused, and then nothing changes.
    pub fn add(&mut self, admin: Address, address: Address, now: i64) -> (res: Result<
        AddedToBlacklist,
        StakingError,
    >)
        requires
            old(self).wf(),
        ensures
            final(self).wf(),
            final(self).entries() == added(old(self).entries(), address, now),
            res == add_context(old(self).entries(), admin, address, now).result(address),
    {
        let mut ctx = AddToBlacklist { admin, blacklist_entry: self.entry(address), clock: now };
        proof {
            lemma_added_is_valid(self.entries@, address, now);
        }
        let event = match add_to_blacklist_handler(&mut ctx, address) {
            Ok(event) => event,
            Err(e) => { return Err(e); },
        };
        match ctx.blacklist_entry {
            Some(entry) => { self.entries.push(entry); },
            None => {},
        }
        Ok(event)
    }

    /// Takes `address` off the blacklist, at the time `now` and in the
    /// name of `admin`. Where it is not on it, the operation is refused
    /// and nothing changes.
    pub fn remove(&mut self, admin: Address, address: Address, now: i64) -> (res: Result<
        RemovedFromBlacklist,
        StakingError,
    >)
        requires
            old(self).wf(),
        ensures
            final(self).wf(),
            final(self).entries() == removed(old(self).entries(), address),
            res == remove_context(old(self).entries(), admin, address, now).result(address),
    {
        let found = self.find(address);
        let entry = match found {
            Some(i) => {
                proof {
                    lemma_position_is_unique(self.entries@, address, i as int);
                }
                Some(self.entries[i])
            },
            None => None,
        };
        let mut ctx = RemoveFromBlacklist { admin, blacklist_entry: entry, clock: now };
        proof {
            lemma_removed_is_valid(self.entries@, address);
        }
        let event = match remove_from_blacklist_handler(&mut ctx, address) {
            Ok(event) => event,
            Err(e) => { return Err(e); },
        };
        match found {
            Some(i) => { self.entries.remove(i); },
            None => {},
        }
        Ok(event)
    }
}

} // verus!
