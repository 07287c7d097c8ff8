use solana_staking::address::Address;
use solana_staking::errors::StakingError;
use solana_staking::events::{
    AddedToBlacklist, Initialized, RemovedFromBlacklist, RewardsClaimed, Staked, Unstaked,
};
use solana_staking::instructions::claim_rewards::ClaimOutcome;
use solana_staking::instructions::stake::StakeOutcome;
use solana_staking::instructions::unstake::UnstakeOutcome;
use solana_staking::ledger::{
    add_to_blacklist, claim_rewards, initialize, remove_from_blacklist, stake, unstake,
    StakeLedger,
};
use solana_staking::state::{BlacklistEntry, GlobalState, UserStakeInfo};
use solana_staking::transfers::Transfer;

const DAY: i64 = 86400;

fn address(tag: u8) -> Address {
    let mut bytes = [0u8; 32];
    bytes[0] = tag;
    bytes[31] = 1;
    Address::new(bytes)
}

fn admin() -> Address {
    address(1)
}

fn alice() -> Address {
    address(10)
}

fn bob() -> Address {
    address(11)
}

fn carol() -> Address {
    address(12)
}

fn pool(reward_rate: u64) -> StakeLedger {
    let (ledger, _) =
        initialize(admin(), address(2), address(3), address(4), address(5), 254, reward_rate, 0)
            .unwrap();
    ledger
}

fn sum_of_principals(ledger: &StakeLedger, users: &[Address]) -> u64 {
    let mut sum: u64 = 0;
    for user in users {
        if let Some(record) = ledger.user_stake(*user) {
            sum += record.amount;
        }
    }
    sum
}

#[test]
fn a_new_pool_holds_nothing() {
    let (ledger, event) =
        initialize(admin(), address(2), address(3), address(4), address(5), 254, 100, 1234)
            .unwrap();
    assert_eq!(
        event,
        Initialized {
            authority: admin(),
            staking_mint: address(2),
            reward_mint: address(3),
            reward_rate: 100,
            timestamp: 1234,
        }
    );
    assert_eq!(
        ledger.state(),
        GlobalState {
            admin: admin(),
            staking_mint: address(2),
            reward_mint: address(3),
            staking_vault: address(4),
            reward_vault: address(5),
            reward_rate: 100,
            total_staked: 0,
            bump: 254,
        }
    );
    assert_eq!(ledger.stakers(), 0);
    assert_eq!(ledger.user_stake(alice()), None);
    assert!(!ledger.is_blacklisted(alice()));
    assert_eq!(ledger.blacklist_entry(alice()), None);
}

#[test]
fn a_pool_takes_rates_from_one_to_a_thousand_only() {
    for rate in [1u64, 2, 500, 999, 1000] {
        let made = initialize(admin(), address(2), address(3), address(4), address(5), 0, rate, 0);
        assert_eq!(made.unwrap().0.state().reward_rate, rate);
    }
    for rate in [0u64, 1001, 1002, u64::MAX] {
        let made = initialize(admin(), address(2), address(3), address(4), address(5), 0, rate, 0);
        assert_eq!(made.err(), Some(StakingError::InvalidRewardRate));
    }
}

#[test]
fn the_total_is_the_sum_of_all_principals() {
    let users = [alice(), bob(), carol()];
    let mut ledger = pool(100);
    let mut now: i64 = 1000;
    assert_eq!(ledger.state().total_staked, sum_of_principals(&ledger, &users));

    assert!(stake(&mut ledger, alice(), 1000, now).is_ok());
    assert_eq!(ledger.state().total_staked, 1000);
    assert_eq!(ledger.state().total_staked, sum_of_principals(&ledger, &users));

    now += DAY;
    assert!(stake(&mut ledger, bob(), 250, now).is_ok());
    assert_eq!(ledger.state().total_staked, 1250);
    assert_eq!(ledger.state().total_staked, sum_of_principals(&ledger, &users));

    now += DAY;
    assert!(stake(&mut ledger, alice(), 500, now).is_ok());
    assert_eq!(ledger.state().total_staked, 1750);
    assert_eq!(ledger.state().total_staked, sum_of_principals(&ledger, &users));

    assert!(unstake(&mut ledger, bob(), 251, now).is_err());
    assert_eq!(ledger.state().total_staked, 1750);
    assert_eq!(ledger.state().total_staked, sum_of_principals(&ledger, &users));

    now += 3600;
    assert!(unstake(&mut ledger, bob(), 100, now).is_ok());
    assert_eq!(ledger.state().total_staked, 1650);
    assert_eq!(ledger.state().total_staked, sum_of_principals(&ledger, &users));

    assert!(claim_rewards(&mut ledger, alice(), now).is_ok());
    assert!(stake(&mut ledger, carol(), 0, now).is_err());
    assert!(unstake(&mut ledger, carol(), 5, now).is_err());
    assert_eq!(ledger.state().total_staked, 1650);
    assert_eq!(ledger.state().total_staked, sum_of_principals(&ledger, &users));

    assert!(add_to_blacklist(&mut ledger, bob(), now).is_ok());
    assert!(unstake(&mut ledger, bob(), 150, now).is_err());
    assert!(stake(&mut ledger, carol(), 7, now).is_ok());
    assert_eq!(ledger.state().total_staked, 1657);
    assert_eq!(ledger.state().total_staked, sum_of_principals(&ledger, &users));

    assert!(remove_from_blacklist(&mut ledger, bob(), now).is_ok());
    assert!(unstake(&mut ledger, bob(), 150, now).is_ok());
    assert!(unstake(&mut ledger, alice(), 1500, now).is_ok());
    assert!(unstake(&mut ledger, carol(), 7, now).is_ok());
    assert_eq!(ledger.state().total_staked, 0);
    assert_eq!(ledger.state().total_staked, sum_of_principals(&ledger, &users));
    assert_eq!(ledger.stakers(), 3);
    assert_eq!(ledger.state().reward_rate, 100);
}

#[test]
fn staking_through_the_pool_keeps_the_records() {
    let mut ledger = pool(100);
    assert_eq!(
        stake(&mut ledger, alice(), 1000, 1000),
        Ok(StakeOutcome {
            reward_transfer: None,
            deposit: Transfer::deposit(1000),
            event: Staked { user: alice(), amount: 1000, timestamp: 1000 },
        })
    );
    assert_eq!(
        ledger.user_stake(alice()),
        Some(UserStakeInfo {
            owner: alice(),
            amount: 1000,
            stake_timestamp: 1000,
            last_claim_time: 1000,
            reward_debt: 0,
        })
    );
    assert_eq!(
        stake(&mut ledger, alice(), 500, 1000 + DAY),
        Ok(StakeOutcome {
            reward_transfer: Some(Transfer::reward(10)),
            deposit: Transfer::deposit(500),
            event: Staked { user: alice(), amount: 500, timestamp: 1000 + DAY },
        })
    );
    assert_eq!(
        ledger.user_stake(alice()),
        Some(UserStakeInfo {
            owner: alice(),
            amount: 1500,
            stake_timestamp: 1000,
            last_claim_time: 1000 + DAY,
            reward_debt: 10,
        })
    );
    assert_eq!(ledger.user_stake(bob()), None);
    assert_eq!(ledger.stakers(), 1);
    assert_eq!(ledger.state().total_staked, 1500);
}

#[test]
fn withdrawing_through_the_pool_settles_first() {
    let mut ledger = pool(100);
    assert!(stake(&mut ledger, alice(), 1000, 1000).is_ok());
    assert!(stake(&mut ledger, bob(), 40, 1000).is_ok());
    assert_eq!(
        unstake(&mut ledger, alice(), 400, 1000 + DAY),
        Ok(UnstakeOutcome {
            reward_transfer: Some(Transfer::reward(10)),
            withdrawal: Transfer::withdrawal(400),
            event: Unstaked { user: alice(), amount: 400, rewards: 10, timestamp: 1000 + DAY },
        })
    );
    assert_eq!(
        ledger.user_stake(alice()),
        Some(UserStakeInfo {
            owner: alice(),
            amount: 600,
            stake_timestamp: 1000,
            last_claim_time: 1000 + DAY,
            reward_debt: 10,
        })
    );
    assert_eq!(
        ledger.user_stake(bob()),
        Some(UserStakeInfo {
            owner: bob(),
            amount: 40,
            stake_timestamp: 1000,
            last_claim_time: 1000,
            reward_debt: 0,
        })
    );
    assert_eq!(ledger.state().total_staked, 640);
}

#[test]
fn claiming_through_the_pool_pays_what_is_owed() {
    let mut ledger = pool(250);
    assert!(stake(&mut ledger, alice(), 5000, 100).is_ok());
    assert_eq!(
        claim_rewards(&mut ledger, alice(), 100 + 3 * DAY),
        Ok(ClaimOutcome {
            reward_transfer: Some(Transfer::reward(375)),
            event: Some(RewardsClaimed { user: alice(), amount: 375, timestamp: 100 + 3 * DAY }),
        })
    );
    assert_eq!(
        ledger.user_stake(alice()),
        Some(UserStakeInfo {
            owner: alice(),
            amount: 5000,
            stake_timestamp: 100,
            last_claim_time: 100 + 3 * DAY,
            reward_debt: 375,
        })
    );
    assert_eq!(ledger.state().total_staked, 5000);
}

#[test]
fn a_blacklisted_address_is_shut_out() {
    let mut ledger = pool(100);
    assert!(stake(&mut ledger, alice(), 1000, 1000).is_ok());
    assert_eq!(
        add_to_blacklist(&mut ledger, alice(), 2000),
        Ok(AddedToBlacklist { address: alice(), admin: admin(), timestamp: 2000 })
    );
    assert!(ledger.is_blacklisted(alice()));
    assert_eq!(
        ledger.blacklist_entry(alice()),
        Some(BlacklistEntry { address: alice(), added_at: 2000 })
    );
    let before = ledger.clone();
    let now = 1000 + DAY;
    assert_eq!(stake(&mut ledger, alice(), 5, now), Err(StakingError::AddressBlacklisted));
    assert_eq!(unstake(&mut ledger, alice(), 5, now), Err(StakingError::AddressBlacklisted));
    assert_eq!(unstake(&mut ledger, alice(), 1000, now), Err(StakingError::AddressBlacklisted));
    assert_eq!(unstake(&mut ledger, alice(), 1001, now), Err(StakingError::AddressBlacklisted));
    assert_eq!(claim_rewards(&mut ledger, alice(), now), Err(StakingError::AddressBlacklisted));
    assert_eq!(ledger, before);
    assert_eq!(stake(&mut ledger, alice(), 0, now), Err(StakingError::InvalidStakeAmount));
    assert_eq!(unstake(&mut ledger, alice(), 0, now), Err(StakingError::InvalidUnstakeAmount));
    assert_eq!(ledger, before);
    assert!(stake(&mut ledger, bob(), 5, now).is_ok());
}

#[test]
fn an_address_that_never_staked_can_be_shut_out() {
    let mut ledger = pool(100);
    assert!(add_to_blacklist(&mut ledger, bob(), 10).is_ok());
    let before = ledger.clone();
    assert_eq!(stake(&mut ledger, bob(), 5, 20), Err(StakingError::AddressBlacklisted));
    assert_eq!(unstake(&mut ledger, bob(), 5, 20), Err(StakingError::AddressBlacklisted));
    assert_eq!(claim_rewards(&mut ledger, bob(), 20), Err(StakingError::AddressBlacklisted));
    assert_eq!(ledger, before);
    assert_eq!(ledger.user_stake(bob()), None);
}

#[test]
fn an_address_taken_off_the_blacklist_is_let_in_again() {
    let mut ledger = pool(100);
    assert!(stake(&mut ledger, alice(), 1000, 1000).is_ok());
    assert!(add_to_blacklist(&mut ledger, alice(), 2000).is_ok());
    assert_eq!(
        claim_rewards(&mut ledger, alice(), 1000 + DAY),
        Err(StakingError::AddressBlacklisted)
    );
    assert_eq!(
        remove_from_blacklist(&mut ledger, alice(), 3000),
        Ok(RemovedFromBlacklist { address: alice(), admin: admin(), timestamp: 3000 })
    );
    assert!(!ledger.is_blacklisted(alice()));
    assert_eq!(ledger.blacklist_entry(alice()), None);
    assert_eq!(
        claim_rewards(&mut ledger, alice(), 1000 + DAY),
        Ok(ClaimOutcome {
            reward_transfer: Some(Transfer::reward(10)),
            event: Some(RewardsClaimed { user: alice(), amount: 10, timestamp: 1000 + DAY }),
        })
    );
    assert!(stake(&mut ledger, alice(), 5, 1000 + DAY).is_ok());
    assert!(unstake(&mut ledger, alice(), 1005, 1000 + DAY).is_ok());
    assert_eq!(ledger.user_stake(alice()).unwrap().amount, 0);
}

#[test]
fn the_blacklist_of_the_pool_refuses_what_it_must() {
    let mut ledger = pool(100);
    let before = ledger.clone();
    assert_eq!(
        add_to_blacklist(&mut ledger, Address::zero(), 10),
        Err(StakingError::CannotBlacklistZeroAddress)
    );
    assert_eq!(ledger, before);
    assert!(!ledger.is_blacklisted(Address::zero()));
    assert_eq!(ledger.blacklist_entry(Address::zero()), None);
    assert_eq!(
        remove_from_blacklist(&mut ledger, alice(), 10),
        Err(StakingError::AddressNotBlacklisted)
    );
    assert_eq!(ledger, before);
    assert!(add_to_blacklist(&mut ledger, alice(), 10).is_ok());
    let once = ledger.clone();
    assert_eq!(
        add_to_blacklist(&mut ledger, alice(), 11),
        Err(StakingError::AddressAlreadyBlacklisted)
    );
    assert_eq!(ledger, once);
}

#[test]
fn claiming_twice_at_once_pays_once() {
    let mut ledger = pool(100);
    assert!(stake(&mut ledger, alice(), 1000, 1000).is_ok());
    let now = 1000 + DAY;
    assert_eq!(
        claim_rewards(&mut ledger, alice(), now).unwrap().reward_transfer,
        Some(Transfer::reward(10))
    );
    let once = ledger.clone();
    assert_eq!(once.user_stake(alice()).unwrap().last_claim_time, now);
    assert_eq!(
        claim_rewards(&mut ledger, alice(), now),
        Ok(ClaimOutcome { reward_transfer: None, event: None })
    );
    assert_eq!(ledger, once);
    assert_eq!(ledger.user_stake(alice()).unwrap().last_claim_time, now);
    assert_eq!(ledger.user_stake(alice()).unwrap().reward_debt, 10);
}

#[test]
fn claiming_twice_when_the_clock_stands_at_zero() {
    let mut ledger = pool(100);
    assert!(stake(&mut ledger, alice(), 1000, 0).is_ok());
    assert_eq!(
        claim_rewards(&mut ledger, alice(), 0),
        Ok(ClaimOutcome { reward_transfer: None, event: None })
    );
    let once = ledger.clone();
    assert_eq!(
        claim_rewards(&mut ledger, alice(), 0),
        Ok(ClaimOutcome { reward_transfer: None, event: None })
    );
    assert_eq!(ledger, once);

    let mut early = pool(100);
    assert!(stake(&mut early, bob(), 1000, -DAY).is_ok());
    assert!(unstake(&mut early, bob(), 1, -DAY).is_ok());
    assert_eq!(early.user_stake(bob()).unwrap().last_claim_time, -DAY);
    assert_eq!(
        claim_rewards(&mut early, bob(), 0).unwrap().reward_transfer,
        Some(Transfer::reward(9))
    );
    assert_eq!(early.user_stake(bob()).unwrap().last_claim_time, 0);
    assert_eq!(
        claim_rewards(&mut early, bob(), 0).unwrap().reward_transfer,
        Some(Transfer::reward(9))
    );
    assert_eq!(early.user_stake(bob()).unwrap().reward_debt, 18);
}

#[test]
fn a_claim_by_an_address_that_never_staked_makes_no_record() {
    let mut ledger = pool(100);
    assert!(stake(&mut ledger, alice(), 1000, 1000).is_ok());
    let before = ledger.clone();
    assert_eq!(
        claim_rewards(&mut ledger, bob(), 5000),
        Ok(ClaimOutcome { reward_transfer: None, event: None })
    );
    assert_eq!(ledger, before);
    assert_eq!(ledger.user_stake(bob()), None);
    assert_eq!(ledger.stakers(), 1);
}

#[test]
fn a_withdrawal_by_an_address_that_never_staked_is_insufficient() {
    let mut ledger = pool(100);
    assert!(stake(&mut ledger, alice(), 1000, 1000).is_ok());
    let before = ledger.clone();
    assert_eq!(unstake(&mut ledger, bob(), 1, 5000), Err(StakingError::InsufficientStakedAmount));
    assert_eq!(unstake(&mut ledger, bob(), 0, 5000), Err(StakingError::InvalidUnstakeAmount));
    assert_eq!(ledger, before);
    assert_eq!(ledger.user_stake(bob()), None);
}

#[test]
fn staking_and_withdrawing_the_same_amount_comes_back_to_zero() {
    let mut ledger = pool(100);
    assert!(stake(&mut ledger, bob(), 77, 500).is_ok());
    let total_before = ledger.state().total_staked;
    assert!(stake(&mut ledger, alice(), 1000, 1000).is_ok());
    assert_eq!(ledger.state().total_staked, total_before + 1000);
    let debt_staked = ledger.user_stake(alice()).unwrap().reward_debt;
    assert!(unstake(&mut ledger, alice(), 1000, 1000 + 2 * DAY).is_ok());
    let record = ledger.user_stake(alice()).unwrap();
    assert_eq!(record.amount, 0);
    assert_eq!(ledger.state().total_staked, total_before);
    assert!(record.reward_debt >= debt_staked);
    assert_eq!(record.reward_debt, 20);
    assert_eq!(record.stake_timestamp, 1000);
    assert_eq!(record.last_claim_time, 1000 + 2 * DAY);
    assert_eq!(ledger.stakers(), 2);
}

#[test]
fn a_record_with_nothing_left_is_kept_and_can_be_staked_on_again() {
    let mut ledger = pool(100);
    assert!(stake(&mut ledger, alice(), 1000, 1000).is_ok());
    assert!(unstake(&mut ledger, alice(), 1000, 1000 + DAY).is_ok());
    assert_eq!(
        ledger.user_stake(alice()),
        Some(UserStakeInfo {
            owner: alice(),
            amount: 0,
            stake_timestamp: 1000,
            last_claim_time: 1000 + DAY,
            reward_debt: 10,
        })
    );
    assert_eq!(
        stake(&mut ledger, alice(), 300, 1000 + 9 * DAY).unwrap().reward_transfer,
        None
    );
    assert_eq!(
        ledger.user_stake(alice()),
        Some(UserStakeInfo {
            owner: alice(),
            amount: 300,
            stake_timestamp: 1000,
            last_claim_time: 1000 + 9 * DAY,
            reward_debt: 10,
        })
    );
    assert_eq!(
        claim_rewards(&mut ledger, alice(), 1000 + 10 * DAY).unwrap().reward_transfer,
        Some(Transfer::reward(3))
    );
}

#[test]
fn the_whole_principal_can_be_withdrawn_and_not_one_more() {
    let mut ledger = pool(100);
    assert!(stake(&mut ledger, alice(), 1000, 1000).is_ok());
    assert!(stake(&mut ledger, bob(), 5000, 1000).is_ok());
    let before = ledger.clone();
    assert_eq!(
        unstake(&mut ledger, alice(), 1001, 2000),
        Err(StakingError::InsufficientStakedAmount)
    );
    assert_eq!(ledger, before);
    assert!(unstake(&mut ledger, alice(), 1000, 2000).is_ok());
    assert_eq!(ledger.user_stake(alice()).unwrap().amount, 0);
    assert_eq!(ledger.state().total_staked, 5000);
    assert_eq!(unstake(&mut ledger, alice(), 1, 2000), Err(StakingError::InsufficientStakedAmount));
}

#[test]
fn a_stake_that_overflows_the_total_changes_nothing() {
    let mut ledger = pool(100);
    assert!(stake(&mut ledger, alice(), u64::MAX - 10, 1000).is_ok());
    let before = ledger.clone();
    assert_eq!(stake(&mut ledger, bob(), 11, 1000), Err(StakingError::ArithmeticOverflow));
    assert_eq!(stake(&mut ledger, alice(), 11, 1000), Err(StakingError::ArithmeticOverflow));
    assert_eq!(ledger, before);
    assert_eq!(ledger.user_stake(bob()), None);
    assert!(stake(&mut ledger, bob(), 10, 1000).is_ok());
    assert_eq!(ledger.state().total_staked, u64::MAX);
}

#[test]
fn rewards_that_overflow_change_nothing() {
    let mut ledger = pool(1000);
    assert!(stake(&mut ledger, alice(), u64::MAX, 0).is_ok());
    let before = ledger.clone();
    let now = 365 * DAY;
    assert_eq!(claim_rewards(&mut ledger, alice(), now), Err(StakingError::ArithmeticOverflow));
    assert_eq!(unstake(&mut ledger, alice(), 1, now), Err(StakingError::ArithmeticOverflow));
    assert_eq!(ledger, before);
    assert!(unstake(&mut ledger, alice(), u64::MAX - 1000, 1).is_ok());
    assert_eq!(ledger.state().total_staked, 1000);
}

#[test]
fn the_time_of_the_last_settlement_follows_the_clock() {
    let mut ledger = pool(100);
    let mut last = 0;
    let mut debt = 0;
    let mut now: i64 = 1000;
    assert!(stake(&mut ledger, alice(), 1000, now).is_ok());
    for step in 0..6 {
        now += DAY / 2 + step;
        match step % 3 {
            0 => assert!(stake(&mut ledger, alice(), 100, now).is_ok()),
            1 => assert!(unstake(&mut ledger, alice(), 50, now).is_ok()),
            _ => assert!(claim_rewards(&mut ledger, alice(), now).is_ok()),
        }
        let record = ledger.user_stake(alice()).unwrap();
        assert!(record.last_claim_time >= last);
        assert_eq!(record.last_claim_time, now);
        assert!(record.reward_debt >= debt);
        assert_eq!(record.stake_timestamp, 1000);
        last = record.last_claim_time;
        debt = record.reward_debt;
    }
    assert!(debt > 0);
}
