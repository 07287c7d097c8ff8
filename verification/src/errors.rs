//! The ways in which an operation on the pool can fail.

use vstd::prelude::*;

verus! {

/// Why an operation was refused. A refused operation changes nothing.
#[derive(Clone, Copy, Debug, PartialEq, Eq, Structural)]
pub enum StakingError {
    /// A stake of zero tokens.
    InvalidStakeAmount,
    /// A withdrawal of zero tokens.
    InvalidUnstakeAmount,
    /// A withdrawal of more than the principal.
    InsufficientStakedAmount,
    /// A reward rate outside the accepted range.
    InvalidRewardRate,
    /// A sum, difference or product that does not fit its type.
    ArithmeticOverflow,
    /// The caller is on the blacklist.
    AddressBlacklisted,
    /// The address to take off the blacklist is not on it.
    AddressNotBlacklisted,
    /// The zero address cannot be put on the blacklist.
    CannotBlacklistZeroAddress,
    /// The address to put on the blacklist is on it already.
    AddressAlreadyBlacklisted,
}

impl StakingError {
    /// The text shown to a caller for each error.
    pub open spec fn spec_message(&self) -> &'static str {
        match self {
            StakingError::InvalidStakeAmount => "Cannot stake 0 tokens",
            StakingError::InvalidUnstakeAmount => "Cannot unstake 0 tokens",
            StakingError::InsufficientStakedAmount => "Insufficient staked amount",
            StakingError::InvalidRewardRate => "Invalid reward rate",
            StakingError::ArithmeticOverflow => "Arithmetic overflow",
            StakingError::AddressBlacklisted => "Address is blacklisted",
            StakingError::AddressNotBlacklisted => "Address not found in blacklist",
            StakingError::CannotBlacklistZeroAddress => "Cannot blacklist zero address",
            StakingError::AddressAlreadyBlacklisted => "Address is already in blacklist",
        }
    }

    #[verifier::when_used_as_spec(spec_message)]
    pub fn message(&self) -> (text: &'static str)
        ensures
            text == self.spec_message(),
    {
        match self {
            StakingError::InvalidStakeAmount => "Cannot stake 0 tokens",
            StakingError::InvalidUnstakeAmount => "Cannot unstake 0 tokens",
            StakingError::InsufficientStakedAmount => "Insufficient staked amount",
            StakingError::InvalidRewardRate => "Invalid reward rate",
            StakingError::ArithmeticOverflow => "Arithmetic overflow",
            StakingError::AddressBlacklisted => "Address is blacklisted",
            StakingError::AddressNotBlacklisted => "Address not found in blacklist",
            StakingError::CannotBlacklistZeroAddress => "Cannot blacklist zero address",
            StakingError::AddressAlreadyBlacklisted => "Address is already in blacklist",
        }
    }
}

} // verus!
