use anchor_lang::prelude::Pubkey;
use solana_staking::address::Address;
use solana_staking::blacklist::entry_is_live;
use solana_staking::errors::StakingError;
use solana_staking::state::UserStakeInfo;
use solana_staking::transfers::{Authority, TokenAccount, Transfer};

#[test]
fn each_error_has_its_message() {
    assert_eq!(StakingError::InvalidStakeAmount.message(), "Cannot stake 0 tokens");
    assert_eq!(StakingError::InvalidUnstakeAmount.message(), "Cannot unstake 0 tokens");
    assert_eq!(StakingError::InsufficientStakedAmount.message(), "Insufficient staked amount");
    assert_eq!(StakingError::InvalidRewardRate.message(), "Invalid reward rate");
    assert_eq!(StakingError::ArithmeticOverflow.message(), "Arithmetic overflow");
    assert_eq!(StakingError::AddressBlacklisted.message(), "Address is blacklisted");
    assert_eq!(StakingError::AddressNotBlacklisted.message(), "Address not found in blacklist");
    assert_eq!(
        StakingError::CannotBlacklistZeroAddress.message(),
        "Cannot blacklist zero address"
    );
    assert_eq!(
        StakingError::AddressAlreadyBlacklisted.message(),
        "Address is already in blacklist"
    );
}

#[test]
fn the_zero_address_is_all_zero_bytes() {
    assert_eq!(Address::zero().bytes, [0u8; 32]);
    assert!(Address::zero().is_zero());
    assert!(Address::new([0u8; 32]).is_zero());
    for i in 0..32 {
        let mut bytes = [0u8; 32];
        bytes[i] = 1;
        assert!(!Address::new(bytes).is_zero());
    }
}

#[test]
fn addresses_are_equal_byte_by_byte() {
    let mut bytes = [7u8; 32];
    let a = Address::new(bytes);
    assert_eq!(a.bytes, bytes);
    assert!(a == Address::new([7u8; 32]));
    for i in 0..32 {
        bytes = [7u8; 32];
        bytes[i] = 8;
        assert!(a != Address::new(bytes));
        assert!(!(a == Address::new(bytes)));
    }
}

#[test]
fn a_new_record_holds_nothing() {
    let owner = Address::new([3u8; 32]);
    assert_eq!(
        UserStakeInfo::new(owner),
        UserStakeInfo { owner, amount: 0, stake_timestamp: 0, last_claim_time: 0, reward_debt: 0 }
    );
}

#[test]
fn transfers_name_their_accounts() {
    assert_eq!(
        Transfer::deposit(5),
        Transfer {
            from: TokenAccount::UserToken,
            to: TokenAccount::StakingVault,
            authority: Authority::User,
            amount: 5,
        }
    );
    assert_eq!(
        Transfer::withdrawal(6),
        Transfer {
            from: TokenAccount::StakingVault,
            to: TokenAccount::UserToken,
            authority: Authority::Pool,
            amount: 6,
        }
    );
    assert_eq!(
        Transfer::reward(7),
        Transfer {
            from: TokenAccount::RewardVault,
            to: TokenAccount::UserReward,
            authority: Authority::Pool,
            amount: 7,
        }
    );
    assert_eq!(Transfer::reward_if_any(0), None);
    assert_eq!(Transfer::reward_if_any(1), Some(Transfer::reward(1)));
    assert_eq!(Transfer::reward_if_any(u64::MAX), Some(Transfer::reward(u64::MAX)));
}

#[test]
fn an_entry_is_live_with_data_and_balance() {
    assert!(entry_is_live(false, 1));
    assert!(entry_is_live(false, u64::MAX));
    assert!(!entry_is_live(true, 1));
    assert!(!entry_is_live(false, 0));
    assert!(!entry_is_live(true, 0));
}

#[test]
fn the_zero_address_is_the_default_key() {
    assert_eq!(Address::zero().bytes, Pubkey::default().to_bytes());
    assert!(Address::new(Pubkey::default().to_bytes()).is_zero());
    assert_eq!(Pubkey::new_from_array(Address::zero().bytes), Pubkey::default());
}

#[test]
fn addresses_are_equal_where_keys_are() {
    let keys = [
        Pubkey::default(),
        Pubkey::new_from_array([1u8; 32]),
        Pubkey::new_from_array([2u8; 32]),
        Pubkey::new_from_array({
            let mut bytes = [1u8; 32];
            bytes[31] = 2;
            bytes
        }),
    ];
    for a in keys.iter() {
        for b in keys.iter() {
            assert_eq!(Address::new(a.to_bytes()) == Address::new(b.to_bytes()), a == b);
        }
        assert_eq!(Address::new(a.to_bytes()).is_zero(), *a == Pubkey::default());
        assert_eq!(Pubkey::new_from_array(Address::new(a.to_bytes()).bytes), *a);
    }
}
