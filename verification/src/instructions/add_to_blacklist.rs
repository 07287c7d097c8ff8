//! Putting an address on the blacklist.

use crate::address::Address;
use crate::errors::StakingError;
use crate::events::AddedToBlacklist;
use crate::state::BlacklistEntry;
use vstd::prelude::*;

verus! {

/// What the operation works on: the administrator, the entry of the
/// address if it has one, and the time.
#[derive(Clone, Copy, Debug, PartialEq, Eq)]
pub struct AddToBlacklist {
    pub admin: Address,
    pub blacklist_entry: Option<BlacklistEntry>,
    pub clock: i64,
}

impl AddToBlacklist {
    /// Why `address` is not put on the blacklist, if it is not. The
    /// reasons are tried in this order.
    pub open spec fn rejection(&self, address: Address) -> Option<StakingError> {
        if address.is_zero() {
            Some(StakingError::CannotBlacklistZeroAddress)
        } else if self.blacklist_entry is Some {
            Some(StakingError::AddressAlreadyBlacklisted)
        } else {
            None
        }
    }

    /// The entry of `address` once it is put on the blacklist.
    pub open spec fn applied(&self, address: Address) -> AddToBlacklist {
        AddToBlacklist {
            blacklist_entry: Some(BlacklistEntry { address, added_at: self.clock }),
            ..*self
        }
    }

    /// The entry after the call: new, or as it was where the operation
    /// is refused.
    pub open spec fn after(&self, address: Address) -> AddToBlacklist {
        if self.rejection(address) is None {
            self.applied(address)
        } else {
            *self
        }
    }

    /// What the operation tells once carried out.
    pub open spec fn outcome(&self, address: Address) -> AddedToBlacklist {
        AddedToBlacklist { address, admin: self.admin, timestamp: self.clock }
    }

    /// What the call returns.
    pub open spec fn result(&self, address: Address) -> Result<AddedToBlacklist, StakingError> {
        match self.rejection(address) {
            Some(e) => Err(e),
            None => Ok(self.outcome(address)),
        }
    }
}

/// Puts `address` on the blacklist. The zero address and an address that
/// is on the blacklist already are refused, and then nothing changes.
pub fn add_to_blacklist_handler(ctx: &mut AddToBlacklist, address: Address) -> (res: Result<
    AddedToBlacklist,
    StakingError,
>)
    ensures
        res == old(ctx).result(address),
        *final(ctx) == old(ctx).after(address),
{
    if address.is_zero() {
        return Err(StakingError::CannotBlacklistZeroAddress);
    }
    if ctx.blacklist_entry.is_some() {
        return Err(StakingError::AddressAlreadyBlacklisted);
    }
    ctx.blacklist_entry = Some(BlacklistEntry { address, added_at: ctx.clock });
    Ok(AddedToBlacklist { address, admin: ctx.admin, timestamp: ctx.clock })
}

} // verus!
