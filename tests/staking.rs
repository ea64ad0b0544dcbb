use std::collections::HashMap;

use staking_rewards::accrual::Position;
use staking_rewards::contract::{Account, StakingContract, Transfer};
use staking_rewards::engine::penalty;
use staking_rewards::tier::{compute_shares, Tier, TierRegistry};
use staking_rewards::StakingError;

const ADMIN: u64 = 1;
const USER: u64 = 2;
const OTHER: u64 = 3;
const TOKEN: u64 = 10;
const REWARD_TOKEN: u64 = 11;
const DAY: u64 = 24 * 60 * 60;

struct Ledger {
    balances: HashMap<(u64, Account), i128>,
}

impl Ledger {
    fn new() -> Ledger {
        Ledger { balances: HashMap::new() }
    }

    fn balance(&self, asset: u64, who: Account) -> i128 {
        *self.balances.get(&(asset, who)).unwrap_or(&0)
    }

    fn mint(&mut self, asset: u64, who: Account, amount: i128) {
        *self.balances.entry((asset, who)).or_insert(0) += amount;
    }

    fn apply(&mut self, t: Transfer) {
        assert!(self.balance(t.asset, t.from) >= t.amount, "insufficient balance");
        self.mint(t.asset, t.from, -t.amount);
        self.mint(t.asset, t.to, t.amount);
    }
}

fn system_with_tier(rate: i128, reward_asset: u64) -> StakingContract {
    let mut c = StakingContract::new();
    c.initialize(ADMIN, TOKEN, reward_asset, rate, 0).unwrap();
    c.set_tier(ADMIN, 1, 1000, 150).unwrap();
    c
}

fn sum_of_shares(c: &StakingContract, ids: &[u64]) -> i128 {
    ids.iter().map(|id| c.get_position(*id).map(|p| p.shares).unwrap_or(0)).sum()
}

#[test]
fn test_staking_lifecycle() {
    let user = Account::Participant(USER);
    let mut ledger = Ledger::new();
    ledger.mint(TOKEN, user, 1_000_000);

    let mut c = StakingContract::new();
    c.initialize(ADMIN, TOKEN, TOKEN, 10, 0).unwrap();
    c.set_tier(ADMIN, 1, 1000, 150).unwrap();

    let lock_duration = 30 * 24 * 60 * 60;
    ledger.apply(c.stake(USER, 2000, lock_duration, 1, 0).unwrap());
    assert_eq!(ledger.balance(TOKEN, user), 1_000_000 - 2000);
    assert_eq!(ledger.balance(TOKEN, Account::System), 2000);

    ledger.mint(TOKEN, Account::System, 100_000);
    ledger.apply(c.claim(USER, false, 10).unwrap().unwrap());
    assert_eq!(ledger.balance(TOKEN, user), 998_100);

    ledger.apply(c.unstake(USER, 1000, 20).unwrap());
    assert_eq!(ledger.balance(TOKEN, user), 998_900);

    c.slash(ADMIN, USER, 500, 20).unwrap();

    ledger.apply(c.emergency_withdraw(USER).unwrap());
    assert_eq!(ledger.balance(TOKEN, user), 999_300);
}

#[test]
fn stake_claim_scenario_pays_one_hundred() {
    let mut c = system_with_tier(10, TOKEN);
    let t = c.stake(USER, 2000, 2_592_000, 1, 0).unwrap();
    assert_eq!(t, Transfer { asset: TOKEN, from: Account::Participant(USER), to: Account::System, amount: 2000 });
    let p = c.get_position(USER).unwrap();
    assert_eq!(p.shares, 3200);
    assert_eq!(c.get_accumulator().total_shares, 3200);
    let paid = c.claim(USER, false, 10).unwrap().unwrap();
    assert_eq!(paid, Transfer { asset: TOKEN, from: Account::System, to: Account::Participant(USER), amount: 100 });
    assert_eq!(c.get_position(USER).unwrap().rewards, 0);
}

#[test]
fn early_unstake_keeps_a_fifth() {
    let mut c = system_with_tier(10, TOKEN);
    c.stake(USER, 2000, 2_592_000, 1, 0).unwrap();
    c.claim(USER, false, 10).unwrap();
    let t = c.unstake(USER, 1000, 20).unwrap();
    assert_eq!(t.amount, 800);
    assert_eq!(t.from, Account::System);
    assert_eq!(t.to, Account::Participant(USER));
    let p = c.get_position(USER).unwrap();
    assert_eq!(p.amount, 1000);
    assert_eq!(p.tier_id, 1);
    assert_eq!(p.shares, 1600);
    // 10 more seconds of reward at 3200 shares were settled before the change.
    assert_eq!(p.rewards, 100);
}

#[test]
fn unstake_after_lock_has_no_penalty() {
    let mut c = system_with_tier(10, TOKEN);
    c.stake(USER, 2000, DAY, 1, 0).unwrap();
    let t = c.unstake(USER, 1000, DAY).unwrap();
    assert_eq!(t.amount, 1000);
}

#[test]
fn slash_to_zero_then_emergency_exit_fails() {
    let mut c = system_with_tier(10, TOKEN);
    c.stake(USER, 500, 0, 0, 0).unwrap();
    assert_eq!(c.slash(ADMIN, USER, 500, 5), Ok(()));
    let p = c.get_position(USER).unwrap();
    assert_eq!(p.amount, 0);
    assert_eq!(p.shares, 0);
    assert_eq!(c.get_accumulator().total_shares, 0);
    assert_eq!(c.emergency_withdraw(USER), Err(StakingError::ZeroBalance));
}

#[test]
fn stake_below_tier_minimum_changes_nothing() {
    let mut c = system_with_tier(10, TOKEN);
    c.stake(OTHER, 100, 0, 0, 0).unwrap();
    let before = c.get_accumulator();
    assert_eq!(c.stake(USER, 500, 0, 1, 5), Err(StakingError::TierViolation));
    assert_eq!(c.get_position(USER), None);
    assert_eq!(c.get_accumulator(), before);
    assert_eq!(c.get_accumulator().total_shares, 100);

    c.stake(USER, 600, 0, 0, 5).unwrap();
    let p = c.get_position(USER).unwrap();
    assert_eq!(c.stake(USER, 300, 0, 1, 6), Err(StakingError::TierViolation));
    assert_eq!(c.get_position(USER), Some(p));
    assert_eq!(c.get_accumulator().total_shares, 700);
}

#[test]
fn second_claim_at_same_time_pays_nothing() {
    let mut c = system_with_tier(10, TOKEN);
    c.stake(USER, 2000, 2_592_000, 1, 0).unwrap();
    assert_eq!(c.claim(USER, false, 10).unwrap().map(|t| t.amount), Some(100));
    let after_first = c.get_position(USER);
    assert_eq!(c.claim(USER, false, 10), Ok(None));
    assert_eq!(c.get_position(USER), after_first);
}

#[test]
fn longer_lock_gives_more_shares() {
    let tier = Tier { min_amount: 0, reward_multiplier: 100 };
    assert_eq!(compute_shares(2000, &tier, 0), Ok(2000));
    assert_eq!(compute_shares(2000, &tier, 2_592_000), Ok(2200));
    assert_eq!(compute_shares(2000, &tier, 2 * 2_592_000), Ok(2400));
    assert_eq!(compute_shares(2000, &tier, 2_591_999), Ok(2000));
    assert_eq!(compute_shares(7, &tier, 30 * 2_592_000 + 5), Ok(28));
    assert_eq!(compute_shares(i128::MAX, &tier, 0), Err(StakingError::Overflow));
}

#[test]
fn claim_moves_reward_between_system_and_participant() {
    let mut ledger = Ledger::new();
    ledger.mint(REWARD_TOKEN, Account::System, 1_000);
    ledger.mint(TOKEN, Account::Participant(USER), 2000);
    let mut c = system_with_tier(10, REWARD_TOKEN);
    ledger.apply(c.stake(USER, 2000, 2_592_000, 1, 0).unwrap());
    let t = c.claim(USER, false, 10).unwrap().unwrap();
    assert_eq!(t.asset, REWARD_TOKEN);
    ledger.apply(t);
    assert_eq!(ledger.balance(REWARD_TOKEN, Account::System), 900);
    assert_eq!(ledger.balance(REWARD_TOKEN, Account::Participant(USER)), 100);
    assert_eq!(ledger.balance(TOKEN, Account::System), 2000);
}

#[test]
fn total_shares_is_sum_of_positions() {
    let mut c = system_with_tier(7, TOKEN);
    let ids = [USER, OTHER];
    c.stake(USER, 2000, 2_592_000, 1, 0).unwrap();
    assert_eq!(c.get_accumulator().total_shares, sum_of_shares(&c, &ids));
    c.stake(OTHER, 333, 0, 0, 3).unwrap();
    assert_eq!(c.get_accumulator().total_shares, sum_of_shares(&c, &ids));
    c.claim(USER, true, 9).unwrap();
    assert_eq!(c.get_accumulator().total_shares, sum_of_shares(&c, &ids));
    c.unstake(USER, 1500, 11).unwrap();
    assert_eq!(c.get_accumulator().total_shares, sum_of_shares(&c, &ids));
    c.slash(ADMIN, OTHER, 33, 12).unwrap();
    assert_eq!(c.get_accumulator().total_shares, sum_of_shares(&c, &ids));
    c.emergency_withdraw(USER).unwrap();
    assert_eq!(c.get_accumulator().total_shares, sum_of_shares(&c, &ids));
    assert_eq!(c.get_accumulator().total_shares, 300);
}

#[test]
fn reward_per_share_never_decreases() {
    let mut c = system_with_tier(3, TOKEN);
    let mut last = c.get_accumulator().reward_per_share_stored;
    let mut check = |c: &StakingContract| {
        let now = c.get_accumulator().reward_per_share_stored;
        assert!(now >= last);
        last = now;
    };
    c.stake(USER, 1000, 0, 0, 1).unwrap();
    check(&c);
    c.stake(OTHER, 3000, 0, 0, 4).unwrap();
    check(&c);
    c.claim(USER, false, 9).unwrap();
    check(&c);
    c.unstake(OTHER, 1000, 20).unwrap();
    check(&c);
    c.emergency_withdraw(USER).unwrap();
    check(&c);
    assert_eq!(c.get_accumulator().reward_per_share_stored, 9_000_000 + 3_750_000 + 8_250_000);
}

#[test]
fn accrual_skips_intervals_without_shares() {
    let mut c = system_with_tier(10, TOKEN);
    c.stake(USER, 100, 0, 0, 50).unwrap();
    let acc = c.get_accumulator();
    assert_eq!(acc.last_update_time, 50);
    assert_eq!(acc.reward_per_share_stored, 0);
    c.claim(USER, false, 60).unwrap();
    assert_eq!(c.get_accumulator().reward_per_share_stored, 1_000_000_000);
}

#[test]
fn compound_claim_adds_reward_to_principal() {
    let mut c = system_with_tier(10, TOKEN);
    c.stake(USER, 2000, 2_592_000, 1, 0).unwrap();
    assert_eq!(c.claim(USER, true, 10), Ok(None));
    let p = c.get_position(USER).unwrap();
    assert_eq!(p.amount, 2100);
    assert_eq!(p.rewards, 0);
    assert_eq!(p.shares, 3360);
    assert_eq!(c.get_accumulator().total_shares, 3360);
}

#[test]
fn compound_needs_one_asset() {
    let mut c = system_with_tier(10, REWARD_TOKEN);
    c.stake(USER, 2000, 2_592_000, 1, 0).unwrap();
    let before = c.get_position(USER);
    assert_eq!(c.claim(USER, true, 10), Err(StakingError::IncompatibleCompound));
    assert_eq!(c.get_position(USER), before);
}

#[test]
fn partial_unstake_below_minimum_demotes_tier() {
    let mut c = system_with_tier(10, TOKEN);
    c.stake(USER, 2000, 0, 1, 0).unwrap();
    assert_eq!(c.get_position(USER).unwrap().shares, 3000);
    c.unstake(USER, 1500, 0).unwrap();
    let p = c.get_position(USER).unwrap();
    assert_eq!(p.amount, 500);
    assert_eq!(p.tier_id, 0);
    assert_eq!(p.shares, 500);
    c.set_tier(ADMIN, 1, 0, 150).unwrap();
    c.unstake(USER, 100, 0).unwrap();
    assert_eq!(c.get_position(USER).unwrap().tier_id, 0);
}

#[test]
fn emergency_exit_forfeits_rewards() {
    let mut c = system_with_tier(10, TOKEN);
    c.stake(USER, 2000, 2_592_000, 1, 0).unwrap();
    c.unstake(USER, 1000, 10).unwrap();
    assert_eq!(c.get_position(USER).unwrap().rewards, 100);
    let t = c.emergency_withdraw(USER).unwrap();
    assert_eq!(t.amount, 800);
    let p = c.get_position(USER).unwrap();
    assert_eq!(p, Position { amount: 0, shares: 0, reward_per_share_paid: 0, rewards: 0, lock_start_time: 0, lock_duration: 0, tier_id: 0 });
    assert_eq!(c.get_accumulator().total_shares, 0);
}

#[test]
fn set_tier_does_not_reweigh_existing_positions() {
    let mut c = system_with_tier(10, TOKEN);
    c.stake(USER, 2000, 0, 1, 0).unwrap();
    c.set_tier(ADMIN, 1, 1000, 300).unwrap();
    assert_eq!(c.get_tier(1), Some(Tier { min_amount: 1000, reward_multiplier: 300 }));
    assert_eq!(c.get_position(USER).unwrap().shares, 3000);
    c.claim(USER, false, 1).unwrap();
    assert_eq!(c.get_position(USER).unwrap().shares, 3000);
    c.stake(USER, 1000, 0, 1, 2).unwrap();
    assert_eq!(c.get_position(USER).unwrap().shares, 9000);
}

#[test]
fn errors_of_each_kind() {
    let mut c = StakingContract::new();
    assert_eq!(c.stake(USER, 10, 0, 0, 0), Err(StakingError::NotInitialized));
    assert_eq!(c.set_tier(ADMIN, 1, 0, 100), Err(StakingError::NotInitialized));
    c.initialize(ADMIN, TOKEN, TOKEN, 10, 0).unwrap();
    assert_eq!(c.initialize(ADMIN, TOKEN, TOKEN, 10, 0), Err(StakingError::AlreadyInitialized));
    assert_eq!(c.set_tier(USER, 1, 0, 100), Err(StakingError::Unauthorized));
    assert_eq!(c.slash(USER, USER, 1, 0), Err(StakingError::Unauthorized));
    assert_eq!(c.stake(USER, 0, 0, 0, 0), Err(StakingError::InvalidAmount));
    assert_eq!(c.stake(USER, -5, 0, 0, 0), Err(StakingError::InvalidAmount));
    assert_eq!(c.claim(USER, false, 0), Err(StakingError::PositionNotFound));
    assert_eq!(c.unstake(USER, 1, 0), Err(StakingError::PositionNotFound));
    assert_eq!(c.slash(ADMIN, USER, 1, 0), Err(StakingError::PositionNotFound));
    assert_eq!(c.emergency_withdraw(USER), Err(StakingError::PositionNotFound));
    c.stake(USER, 10, 0, 0, 0).unwrap();
    assert_eq!(c.unstake(USER, 0, 0), Err(StakingError::InvalidAmount));
    assert_eq!(c.unstake(USER, 11, 0), Err(StakingError::InsufficientBalance));
    assert_eq!(c.slash(ADMIN, USER, 11, 0), Err(StakingError::InsufficientBalance));
    assert_eq!(c.stake(USER, i128::MAX, 0, 0, 0), Err(StakingError::Overflow));
    assert_eq!(c.get_position(USER).unwrap().amount, 10);
}

#[test]
fn tier_registry_upserts() {
    let mut r = TierRegistry::new();
    assert_eq!(r.get(4), None);
    assert_eq!(r.tier_for(4), Tier { min_amount: 0, reward_multiplier: 100 });
    r.set(4, Tier { min_amount: 5, reward_multiplier: 120 });
    r.set(2, Tier { min_amount: 1, reward_multiplier: 110 });
    r.set(4, Tier { min_amount: 6, reward_multiplier: 130 });
    assert_eq!(r.get(4), Some(Tier { min_amount: 6, reward_multiplier: 130 }));
    assert_eq!(r.tier_for(2), Tier { min_amount: 1, reward_multiplier: 110 });
}

#[test]
fn penalty_is_one_fifth_rounded_down() {
    assert_eq!(penalty(1000), 200);
    assert_eq!(penalty(9), 1);
    assert_eq!(penalty(4), 0);
    assert_eq!(penalty(i128::MAX), i128::MAX / 5);
}
