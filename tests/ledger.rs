use staking_contract::reward::accrue;
use staking_contract::{Config, StakingContract, StakingError};

fn contract_with_rate(numerator: u64, denominator: u64, block: u64) -> StakingContract {
    let config = Config::new(numerator, denominator).unwrap();
    StakingContract::new("owner.near".to_string(), "token.near".to_string(), config, block).unwrap()
}

fn registered(contract: &mut StakingContract, id: &str, block: u64) -> String {
    let id = id.to_string();
    assert!(contract.storage_deposit(id.clone(), block));
    id
}

#[test]
fn accrue_scenario_one_million_over_ten_blocks() {
    assert_eq!(accrue(1_000_000, 1, 1_000_000, 10), Some(10));
}

#[test]
fn accrue_rounds_down() {
    assert_eq!(accrue(999_999, 1, 1_000_000, 1), Some(0));
    assert_eq!(accrue(7, 3, 2, 1), Some(10));
    assert_eq!(accrue(0, 5, 3, 1000), Some(0));
    assert_eq!(accrue(1000, 5, 3, 0), Some(0));
}

#[test]
fn accrue_overflow_is_reported() {
    assert_eq!(accrue(u128::MAX, 2, 1, 1), None);
    assert_eq!(accrue(u128::MAX, 1, 7, 1), Some(u128::MAX / 7));
}

#[test]
fn accrue_is_monotone() {
    let base = accrue(5000, 3, 100, 20).unwrap();
    assert!(accrue(6000, 3, 100, 20).unwrap() >= base);
    assert!(accrue(5000, 4, 100, 20).unwrap() >= base);
    assert!(accrue(5000, 3, 100, 21).unwrap() >= base);
    assert!(accrue(5000, 3, 101, 20).unwrap() <= base);
}

#[test]
fn split_realizations_never_overpay() {
    let whole = accrue(10, 1, 3, 10).unwrap();
    let mut parts = 0u128;
    for _ in 0..10 {
        parts += accrue(10, 1, 3, 1).unwrap();
    }
    assert_eq!(whole, 33);
    assert_eq!(parts, 30);
    assert!(parts <= whole);
}

#[test]
fn split_realizations_through_the_ledger() {
    let mut split = contract_with_rate(1, 3, 0);
    let a = registered(&mut split, "a.near", 0);
    split.stake(&a, 10, 0).unwrap();
    for block in 1..=10u64 {
        split.stake(&a, 0, block).unwrap();
    }
    let mut whole = contract_with_rate(1, 3, 0);
    let b = registered(&mut whole, "b.near", 0);
    whole.stake(&b, 10, 0).unwrap();
    let split_reward = split.get_account_reward(&a, 10).unwrap();
    let whole_reward = whole.get_account_reward(&b, 10).unwrap();
    assert_eq!(split_reward, 30);
    assert_eq!(whole_reward, 33);
}

#[test]
fn stake_reward_scenario() {
    let mut c = contract_with_rate(1, 1_000_000, 0);
    let id = registered(&mut c, "alice.near", 0);
    c.stake(&id, 1_000_000, 0).unwrap();
    assert_eq!(c.get_account_reward(&id, 10), Ok(10));
    let info = c.get_pool_info(10).unwrap();
    assert_eq!(info.total_reward, 10);
    assert_eq!(info.total_stake_balance, 1_000_000);
}

#[test]
fn request_unstake_scenario() {
    let mut c = contract_with_rate(1, 1_000_000, 0);
    let alice = registered(&mut c, "alice.near", 0);
    let bob = registered(&mut c, "bob.near", 0);
    c.stake(&alice, 1000, 0).unwrap();
    c.stake(&bob, 4000, 0).unwrap();
    assert_eq!(c.pool.total_stake_balance, 5000);
    c.request_unstake(&alice, 300, 5, 7, 123).unwrap();
    let view = c.get_account_id(alice.clone(), 5, 7).unwrap();
    assert_eq!(view.stake_balance, 700);
    assert_eq!(view.unstake_balance, 300);
    assert_eq!(view.unstake_start_timestamp, 123);
    assert_eq!(view.unstake_available_epoch, 8);
    assert!(!view.can_withdraw);
    assert_eq!(c.pool.total_stake_balance, 4700);
}

#[test]
fn withdraw_before_lockup_fails() {
    let mut c = contract_with_rate(1, 1_000_000, 0);
    let alice = registered(&mut c, "alice.near", 0);
    c.stake(&alice, 1000, 0).unwrap();
    c.request_unstake(&alice, 400, 1, 10, 0).unwrap();
    assert_eq!(c.withdraw(&alice, 10), Err(StakingError::NotYetWithdrawable));
    let view = c.get_account_id(alice.clone(), 1, 10).unwrap();
    assert_eq!(view.unstake_balance, 400);
}

#[test]
fn withdraw_after_lockup_pays_out() {
    let mut c = contract_with_rate(1, 1_000_000, 0);
    let alice = registered(&mut c, "alice.near", 0);
    c.stake(&alice, 1000, 0).unwrap();
    c.request_unstake(&alice, 400, 1, 10, 0).unwrap();
    assert!(c.get_account_id(alice.clone(), 1, 11).unwrap().can_withdraw);
    assert_eq!(c.withdraw(&alice, 11), Ok(400));
    let view = c.get_account_id(alice.clone(), 1, 11).unwrap();
    assert_eq!(view.unstake_balance, 0);
    assert_eq!(view.stake_balance, 600);
    assert_eq!(c.withdraw(&alice, 12), Err(StakingError::NothingToWithdraw));
}

#[test]
fn paused_pool_query_is_frozen() {
    let mut c = contract_with_rate(1, 10, 0);
    let alice = registered(&mut c, "alice.near", 0);
    c.stake(&alice, 1000, 0).unwrap();
    c.pause(100);
    assert!(c.is_paused());
    let at_150 = c.get_pool_info(150).unwrap();
    let at_9000 = c.get_pool_info(9000).unwrap();
    assert_eq!(at_150, at_9000);
    assert_eq!(at_150.total_reward, 10_000);
    assert!(at_150.is_paused);
}

#[test]
fn pause_skips_the_gap_for_untouched_accounts() {
    let mut c = contract_with_rate(1, 3, 0);
    let alice = registered(&mut c, "alice.near", 0);
    c.stake(&alice, 10, 1).unwrap();
    c.pause(8);
    c.unpause(50).unwrap();
    assert!(!c.is_paused());
    // 10 * 7 / 3 before the pause, 10 * 5 / 3 after it
    assert_eq!(c.get_account_reward(&alice, 55), Ok(23 + 16));
    assert_ne!(c.get_account_reward(&alice, 55).ok(), accrue(10, 1, 3, 54));
    let info = c.get_pool_info(55).unwrap();
    assert_eq!(info.total_reward, 23 + 16);
}

#[test]
fn realizing_twice_in_one_block_changes_nothing() {
    let mut c = contract_with_rate(1, 7, 0);
    let alice = registered(&mut c, "alice.near", 0);
    c.stake(&alice, 1000, 0).unwrap();
    c.stake(&alice, 0, 20).unwrap();
    let first = c.get_account_reward(&alice, 20).unwrap();
    c.stake(&alice, 0, 20).unwrap();
    assert_eq!(c.get_account_reward(&alice, 20), Ok(first));
    assert_eq!(first, 2857);
}

#[test]
fn total_stake_matches_accounts() {
    let mut c = contract_with_rate(1, 100, 0);
    let a = registered(&mut c, "a.near", 0);
    let b = registered(&mut c, "b.near", 0);
    c.stake(&a, 500, 1).unwrap();
    c.stake(&b, 250, 2).unwrap();
    c.request_unstake(&a, 100, 3, 0, 0).unwrap();
    c.stake(&b, 50, 4).unwrap();
    let sa = c.get_account_id(a.clone(), 4, 0).unwrap().stake_balance;
    let sb = c.get_account_id(b.clone(), 4, 0).unwrap().stake_balance;
    assert_eq!(sa + sb, c.pool.total_stake_balance);
    assert_eq!(c.pool.total_stake_balance, 700);
    assert_eq!(c.get_pool_info(4).unwrap().total_stakers, 2);
    c.request_unstake(&b, 300, 5, 0, 0).unwrap();
    assert_eq!(c.get_pool_info(5).unwrap().total_stakers, 1);
}

#[test]
fn unknown_account_is_rejected() {
    let mut c = contract_with_rate(1, 100, 0);
    let ghost = "nobody.near".to_string();
    assert_eq!(c.stake(&ghost, 1, 0), Err(StakingError::AccountNotFound));
    assert_eq!(c.request_unstake(&ghost, 1, 0, 0, 0), Err(StakingError::AccountNotFound));
    assert_eq!(c.withdraw(&ghost, 0), Err(StakingError::AccountNotFound));
    assert_eq!(c.get_account_reward(&ghost, 0), Err(StakingError::AccountNotFound));
    assert!(c.get_account_id(ghost.clone(), 0, 0).is_err());
    assert_eq!(c.storage_balance_of(&ghost), 0);
}

#[test]
fn unstaking_more_than_staked_is_rejected() {
    let mut c = contract_with_rate(1, 100, 0);
    let a = registered(&mut c, "a.near", 0);
    c.stake(&a, 100, 0).unwrap();
    assert_eq!(c.request_unstake(&a, 101, 1, 0, 0), Err(StakingError::InsufficientStakeBalance));
    assert_eq!(c.pool.total_stake_balance, 100);
}

#[test]
fn zero_denominator_is_rejected() {
    assert_eq!(Config::new(1, 0), Err(StakingError::InvalidConfig));
    let bad = Config { reward_numerator: 1, reward_denominator: 0 };
    assert!(matches!(
        StakingContract::new("o".to_string(), "t".to_string(), bad, 0),
        Err(StakingError::InvalidConfig)
    ));
}

#[test]
fn clock_regression_is_reported() {
    let mut c = contract_with_rate(1, 100, 0);
    let a = registered(&mut c, "a.near", 50);
    assert_eq!(c.stake(&a, 10, 40), Err(StakingError::ClockRegression));
    assert_eq!(c.get_account_reward(&a, 40), Err(StakingError::ClockRegression));
    c.pause(60);
    assert_eq!(c.unpause(59), Err(StakingError::ClockRegression));
    assert!(c.is_paused());
}

#[test]
fn overflow_is_reported() {
    let mut c = contract_with_rate(2, 1, 0);
    let a = registered(&mut c, "a.near", 0);
    c.stake(&a, u128::MAX, 0).unwrap();
    assert_eq!(c.get_account_reward(&a, 1), Err(StakingError::ArithmeticOverflow));
    assert_eq!(c.stake(&a, 1, 0), Err(StakingError::ArithmeticOverflow));
}

#[test]
fn registration_is_once_per_identity() {
    let mut c = StakingContract::new_default_config("o".to_string(), "t".to_string(), 3);
    assert_eq!(c.config, Config::default());
    let id = "a.near".to_string();
    assert!(c.storage_deposit(id.clone(), 3));
    assert!(!c.storage_deposit(id.clone(), 4));
    assert_eq!(c.storage_balance_of(&id), 1);
    let view = c.get_account_id(id.clone(), 9, 2).unwrap();
    assert_eq!(view.account_id, id);
    assert_eq!(view.reward, 0);
    assert_eq!(view.current_epoch, 2);
}

#[test]
fn effective_block_freezes_while_paused() {
    let mut c = contract_with_rate(1, 100, 0);
    assert_eq!(c.effective_block(42), 42);
    c.pause(30);
    c.pause(35);
    assert_eq!(c.effective_block(42), 30);
    c.unpause(40).unwrap();
    assert_eq!(c.effective_block(42), 42);
    assert_eq!(c.pause_history, vec![(30, 40)]);
}
