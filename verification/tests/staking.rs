//! Scenario tests for the reward-accrual core: the daily bucket
//! protocol, the backward reward scan and the deposit orchestration.

use juno_staking::contract::{compute_rewards, instantiate, receive, stake, unstake};
use juno_staking::error::ContractError;
use juno_staking::msg::{Balance, InstantiateMsg, ReceiveMsg};
use juno_staking::state::{Pool, PoolLog, StakeChangeEvent, StakeInfo, StakeLedger, StakingStatus};
use juno_staking::time::{midnight, next_day, NANOS_PER_DAY};

const DAY: u64 = NANOS_PER_DAY;

fn fresh_pool(rate: u128) -> Pool {
    let msg = InstantiateMsg {
        count: 17,
        token_addr: String::from("token"),
        rewards_per_day: rate,
    };
    let (_state, pool) = instantiate(msg, String::from("creator"), 0);
    pool
}

fn deposit(pool: &mut Pool, owner: &str, amount: u128, now: u64) -> Result<(), ContractError> {
    stake(pool, Balance::Cw20 { amount }, String::from(owner), now)
}

#[test]
fn clock_normalizer_rounds_down_to_midnight() {
    assert_eq!(midnight(0), 0);
    assert_eq!(midnight(DAY - 1), 0);
    assert_eq!(midnight(DAY), DAY);
    assert_eq!(midnight(2 * DAY + 123), 2 * DAY);
    assert_eq!(next_day(0), DAY);
    assert_eq!(next_day(2 * DAY + 123), 3 * DAY);
}

#[test]
fn first_deposit_stages_tomorrows_bucket() {
    let mut pool = fresh_pool(100);
    deposit(&mut pool, "alice", 1000, 10).unwrap();
    assert_eq!(pool.log.len(), 1);
    let ev = pool.log.back().unwrap();
    assert_eq!(ev.timestamp, DAY);
    assert_eq!(ev.new_amount, 1000);
    // The accrual clock stands at the coming midnight.
    let rec = pool.stakes.get(&String::from("alice")).unwrap();
    assert_eq!(rec.stake_started, DAY);
    assert_eq!(rec.amount, 1000);
}

#[test]
fn same_day_deposits_amend_one_bucket() {
    // Three deposits in one calendar day leave a
    // single bucket holding their sum.
    let mut pool = fresh_pool(100);
    deposit(&mut pool, "alice", 1000, 5).unwrap();
    deposit(&mut pool, "bob", 3000, DAY / 2).unwrap();
    deposit(&mut pool, "alice", 500, DAY - 1).unwrap();
    assert_eq!(pool.log.len(), 1);
    let ev = pool.log.back().unwrap();
    assert_eq!(ev.timestamp, DAY);
    assert_eq!(ev.new_amount, 4500);
}

#[test]
fn single_depositor_earns_one_full_day() {
    // Rate 100/day, 1000 staked on day 0; at day 2 one full day has
    // elapsed since the bucket took effect, so the reward is
    // 100 * 1 * 1000 / 1000 = 100.
    let mut pool = fresh_pool(100);
    deposit(&mut pool, "alice", 1000, 0).unwrap();
    let ev = pool.log.back().unwrap();
    assert_eq!((ev.timestamp, ev.new_amount), (DAY, 1000));
    let rec = pool.stakes.get(&String::from("alice")).unwrap();
    let reward = compute_rewards(&pool.log, &rec, 2 * DAY, 100).unwrap();
    assert_eq!(reward, 100);
}

#[test]
fn same_day_depositors_share_pro_rata() {
    // Amounts 1000 and 3000 staked the same day make one bucket of 4000;
    // the daily budget then splits 1000/4000 and 3000/4000.
    let mut pool = fresh_pool(100);
    deposit(&mut pool, "alice", 1000, 10).unwrap();
    deposit(&mut pool, "bob", 3000, 20).unwrap();
    assert_eq!(pool.log.len(), 1);
    assert_eq!(pool.log.back().unwrap().new_amount, 4000);
    let alice = pool.stakes.get(&String::from("alice")).unwrap();
    let bob = pool.stakes.get(&String::from("bob")).unwrap();
    assert_eq!(compute_rewards(&pool.log, &alice, 2 * DAY, 100).unwrap(), 25);
    assert_eq!(compute_rewards(&pool.log, &bob, 2 * DAY, 100).unwrap(), 75);
}

#[test]
fn reward_scan_walks_buckets_backwards() {
    // Two buckets: 1000 effective day 1, then 1500 effective day 3.
    // Alice's stake of 1000 accrues from day 1; read at day 4 she earns
    // two days against the first bucket and one against the second:
    // 100*2*1000/1000 + 100*1*1000/1500 = 200 + 66.
    let mut pool = fresh_pool(100);
    deposit(&mut pool, "alice", 1000, 0).unwrap();
    deposit(&mut pool, "bob", 500, 2 * DAY).unwrap();
    assert_eq!(pool.log.len(), 2);
    assert_eq!(pool.log.get(1).new_amount, 1500);
    assert_eq!(pool.log.get(1).timestamp, 3 * DAY);
    let alice = pool.stakes.get(&String::from("alice")).unwrap();
    let reward = compute_rewards(&pool.log, &alice, 4 * DAY, 100).unwrap();
    assert_eq!(reward, 266);
}

#[test]
fn deposit_compounds_pending_reward_into_principal() {
    // Alice deposits again two days later: her pending reward up to the
    // coming midnight is folded into the new record's principal.
    let mut pool = fresh_pool(100);
    deposit(&mut pool, "alice", 1000, 0).unwrap();
    deposit(&mut pool, "alice", 500, 2 * DAY).unwrap();
    let rec = pool.stakes.get(&String::from("alice")).unwrap();
    // Pending up to day 3 over the updated log [{day1,1000},{day3,1500}]:
    // two full days against the first bucket = 200; the staged bucket
    // itself has not elapsed yet.
    assert_eq!(rec.amount, 1000 + 200 + 500);
    assert_eq!(rec.stake_started, 3 * DAY);
}

#[test]
fn rewards_before_accrual_start_are_zero() {
    // A record whose accrual clock has not elapsed earns nothing.
    let mut pool = fresh_pool(100);
    deposit(&mut pool, "alice", 1000, 0).unwrap();
    let rec = pool.stakes.get(&String::from("alice")).unwrap();
    assert_eq!(rec.stake_started, DAY);
    // Read at the accrual start itself, and just before it.
    assert_eq!(compute_rewards(&pool.log, &rec, DAY, 100).unwrap(), 0);
    assert_eq!(compute_rewards(&pool.log, &rec, DAY / 2, 100).unwrap(), 0);
}

#[test]
fn single_snapshot_formula_within_first_day() {
    // A bucket {d, p} read at d with accrual start
    // less than a day earlier gives rate * floor((d-s)/day) * a / p = 0.
    let d = 5 * DAY;
    let s = 5 * DAY - DAY / 2;
    let mut log = PoolLog::new();
    log.push_back(StakeChangeEvent { timestamp: d, new_amount: 2000 });
    let rec = StakeInfo { stake_started: s, amount: 700 };
    assert_eq!(compute_rewards(&log, &rec, d, 100).unwrap(), 0);
}

#[test]
fn querying_twice_returns_the_same_value() {
    // Reading rewards is pure; no state drifts between two reads.
    let mut pool = fresh_pool(100);
    deposit(&mut pool, "alice", 1000, 0).unwrap();
    deposit(&mut pool, "bob", 500, 2 * DAY).unwrap();
    let alice = pool.stakes.get(&String::from("alice")).unwrap();
    let first = compute_rewards(&pool.log, &alice, 4 * DAY, 100).unwrap();
    let second = compute_rewards(&pool.log, &alice, 4 * DAY, 100).unwrap();
    assert_eq!(first, second);
    let again = pool.stakes.get(&String::from("alice")).unwrap();
    assert_eq!(rec_pair(&again), rec_pair(&alice));
}

fn rec_pair(r: &StakeInfo) -> (u64, u128) {
    (r.stake_started, r.amount)
}

#[test]
fn zero_deposit_changes_nothing() {
    // A zero deposit is accepted but writes no bucket and no record,
    // so it can never plant a zero-size snapshot.
    let mut pool = fresh_pool(100);
    deposit(&mut pool, "alice", 0, 10).unwrap();
    assert_eq!(pool.log.len(), 0);
    assert!(pool.stakes.get(&String::from("alice")).is_none());
    deposit(&mut pool, "alice", 1000, 10).unwrap();
    deposit(&mut pool, "alice", 0, 20).unwrap();
    assert_eq!(pool.log.len(), 1);
    assert_eq!(pool.log.back().unwrap().new_amount, 1000);
    let rec = pool.stakes.get(&String::from("alice")).unwrap();
    assert_eq!(rec.amount, 1000);
}

#[test]
fn native_funds_are_wrong_currency() {
    let mut pool = fresh_pool(100);
    let r = stake(&mut pool, Balance::Native, String::from("alice"), 10);
    assert_eq!(r, Err(ContractError::WrongCurrency));
    assert_eq!(pool.log.len(), 0);
}

#[test]
fn receive_rejects_a_foreign_token_contract() {
    let mut pool = fresh_pool(100);
    let r = receive(
        &mut pool,
        &String::from("impostor"),
        String::from("alice"),
        1000,
        ReceiveMsg::Stake {},
        10,
    );
    assert_eq!(r, Err(ContractError::WrongCurrency));
    assert_eq!(pool.log.len(), 0);
    assert!(pool.stakes.get(&String::from("alice")).is_none());
}

#[test]
fn receive_stakes_for_the_transfer_sender() {
    let mut pool = fresh_pool(100);
    let r = receive(
        &mut pool,
        &String::from("token"),
        String::from("alice"),
        1000,
        ReceiveMsg::Stake {},
        10,
    );
    assert!(r.is_ok());
    let rec = pool.stakes.get(&String::from("alice")).unwrap();
    assert_eq!(rec.amount, 1000);
    assert_eq!(rec.stake_started, DAY);
}

#[test]
fn receive_add_to_bank_is_accepted_without_effect() {
    let mut pool = fresh_pool(100);
    let r = receive(
        &mut pool,
        &String::from("token"),
        String::from("alice"),
        1000,
        ReceiveMsg::AddToBank {},
        10,
    );
    assert!(r.is_ok());
    assert_eq!(pool.log.len(), 0);
    assert!(pool.stakes.get(&String::from("alice")).is_none());
}

#[test]
fn bucket_overflow_aborts_and_writes_nothing() {
    let mut pool = fresh_pool(100);
    deposit(&mut pool, "alice", u128::MAX - 5, 10).unwrap();
    let r = deposit(&mut pool, "bob", 10, 20);
    assert_eq!(r, Err(ContractError::ArithmeticOverflow));
    assert_eq!(pool.log.len(), 1);
    assert_eq!(pool.log.back().unwrap().new_amount, u128::MAX - 5);
    assert!(pool.stakes.get(&String::from("bob")).is_none());
}

#[test]
fn reward_overflow_aborts_and_rolls_the_log_back() {
    // A huge rate makes the pending-reward product overflow on the
    // second deposit; the staged log update must be rolled back.
    let mut pool = fresh_pool(u128::MAX);
    deposit(&mut pool, "alice", 1000, 0).unwrap();
    let r = deposit(&mut pool, "alice", 1, 2 * DAY);
    assert_eq!(r, Err(ContractError::ArithmeticOverflow));
    assert_eq!(pool.log.len(), 1);
    assert_eq!(pool.log.back().unwrap().new_amount, 1000);
    let rec = pool.stakes.get(&String::from("alice")).unwrap();
    assert_eq!(rec.amount, 1000);
    assert_eq!(rec.stake_started, DAY);
}

#[test]
fn zero_size_snapshot_is_division_by_zero() {
    // The reward scan itself guards the division: a hand-built log with
    // a zero-size bucket is reported, not divided by.
    let mut log = PoolLog::new();
    log.push_back(StakeChangeEvent { timestamp: DAY, new_amount: 0 });
    let rec = StakeInfo { stake_started: 0, amount: 5 };
    let r = compute_rewards(&log, &rec, 2 * DAY, 100);
    assert_eq!(r, Err(ContractError::DivisionByZero));
}

#[test]
fn unstake_is_a_documented_no_op() {
    let mut pool = fresh_pool(100);
    deposit(&mut pool, "alice", 1000, 0).unwrap();
    let r = unstake(&mut pool, 400);
    assert!(r.is_ok());
    assert_eq!(pool.log.len(), 1);
    let rec = pool.stakes.get(&String::from("alice")).unwrap();
    assert_eq!(rec.amount, 1000);
}

#[test]
fn pool_can_be_rebuilt_from_plain_parts() {
    // The boundary hands the core plain values; a pool assembled by hand
    // behaves like one grown by deposits.
    let mut log = PoolLog::new();
    log.push_back(StakeChangeEvent { timestamp: DAY, new_amount: 4000 });
    let pool = Pool {
        status: StakingStatus {
            token: String::from("token"),
            rewards_per_day: 100,
            staking_started: 0,
        },
        log,
        stakes: StakeLedger::new(),
    };
    let rec = StakeInfo { stake_started: DAY, amount: 1000 };
    assert_eq!(compute_rewards(&pool.log, &rec, 2 * DAY, pool.status.rewards_per_day).unwrap(), 25);
}
