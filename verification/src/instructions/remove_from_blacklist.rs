//! Taking an address off the blacklist.

use crate::address::Address;
use crate::errors::StakingError;
use crate::events::RemovedFromBlacklist;
use crate::state::BlacklistEntry;
use vstd::prelude::*;

verus! {

/// What the operation works on: the administrator, the entry to remove if
/// there is one, and the time.
#[derive(Clone, Copy, Debug, PartialEq, Eq)]
pub struct RemoveFromBlacklist {
    pub admin: Address,
    pub blacklist_entry: Option<BlacklistEntry>,
    pub clock: i64,
}

impl RemoveFromBlacklist {
    /// Why `address` is not taken off the blacklist, if it is not: there
    /// is no entry, or the entry is that of another address.
    pub open spec fn rejection(&self, address: Address) -> Option<StakingError> {
        match self.blacklist_entry {
            Some(entry) if entry.address == address => None,
            _ => Some(StakingError::AddressNotBlacklisted),
        }
    }

    /// Once the address is taken off the blacklist there is no entry.
    pub open spec fn applied(&self) -> RemoveFromBlacklist {
        RemoveFromBlacklist { blacklist_entry: None, ..*self }
    }

    /// The entry after the call: gone, or as it was where the operation is
    /// refused.
    pub open spec fn after(&self, address: Address) -> RemoveFromBlacklist {
        if self.rejection(address) is None {
            self.applied()
        } else {
            *self
        }
    }

    /// What the operation tells once carried out.
    pub open spec fn outcome(&self, address: Address) -> RemovedFromBlacklist {
        RemovedFromBlacklist { address, admin: self.admin, timestamp: self.clock }
    }

    /// What the call returns.
    pub open spec fn result(&self, address: Address) -> Result<
        RemovedFromBlacklist,
        StakingError,
    > {
        match self.rejection(address) {
            Some(e) => Err(e),
            None => Ok(self.outcome(address)),
        }
    }
}

/// Takes `address` off the blacklist. Where it is not on it, the
/// operation is refused and nothing changes.
pub fn remove_from_blacklist_handler(ctx: &mut RemoveFromBlacklist, address: Address) -> (res:
    Result<RemovedFromBlacklist, StakingError>)
    ensures
        res == old(ctx).result(address),
        *final(ctx) == old(ctx).after(address),
{
    let live = match ctx.blacklist_entry {
        Some(entry) => entry.address == address,
        None => false,
    };
    if !live {
        return Err(StakingError::AddressNotBlacklisted);
    }
    ctx.blacklist_entry = None;
    Ok(RemovedFromBlacklist { address, admin: ctx.admin, timestamp: ctx.clock })
}

} // verus!
