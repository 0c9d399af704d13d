//! The operations of the staking core: pool creation, the deposit
//! protocol that keeps the Pool Event Log consistent, the backward
//! reward scan, and the small counter kept beside them.
//!
//! Every mutating operation is transactional: on an error the state
//! stores are left exactly as they were.

use vstd::prelude::*;

use crate::error::ContractError;
use crate::msg::{Balance, ExecuteMsg, GetCountResponse, InstantiateMsg, QueryMsg, ReceiveMsg};
use crate::state::{log_wf, Pool, PoolLog, StakeChangeEvent, StakeInfo, StakeLedger, StakingStatus, State};
use crate::time::{midnight, next_day, spec_midnight, spec_next_day, NANOS_PER_DAY};

verus! {

/// Creates a fresh pool: the counter, the settings record, an empty
/// Pool Event Log and an empty Stake Ledger.
pub fn instantiate(msg: InstantiateMsg, sender: String, now: u64) -> (r: (State, Pool))
    ensures
        r.0.count == msg.count,
        r.0.owner@ == sender@,
        r.1.status.token@ == msg.token_addr@,
        r.1.status.rewards_per_day == msg.rewards_per_day,
        r.1.status.staking_started == now,
        r.1.log@ == Seq::<StakeChangeEvent>::empty(),
        r.1.stakes@ == Map::<Seq<char>, StakeInfo>::empty(),
        r.1.wf(),
{
    let state = State { count: msg.count, owner: sender };
    let status = StakingStatus {
        token: msg.token_addr,
        rewards_per_day: msg.rewards_per_day,
        staking_started: now,
    };
    let pool = Pool { status, log: PoolLog::new(), stakes: StakeLedger::new() };
    (state, pool)
}

/// Raises the counter by one.
pub fn increment(state: &mut State)
    requires
        old(state).count < i32::MAX,
    ensures
        final(state).count == old(state).count + 1,
        final(state).owner == old(state).owner,
{
    state.count = state.count + 1;
}

/// Sets the counter back to a chosen value; only the owner may.
pub fn reset(state: &mut State, sender: &String, count: i32) -> (r: Result<(), ContractError>)
    ensures
        sender@ == old(state).owner@ ==> r is Ok && final(state).count == count,
        sender@ != old(state).owner@ ==> r == Err::<(), ContractError>(
            ContractError::Unauthorized,
        ) && *final(state) == *old(state),
        final(state).owner == old(state).owner,
{
    if *sender != state.owner {
        return Err(ContractError::Unauthorized);
    }
    state.count = count;
    Ok(())
}

/// Whole days between the cursor `ts` and the later of a bucket's
/// effective date and the stake's accrual start, clamped below at zero.
pub open spec fn spec_duration_days(ts: u64, event_ts: u64, start: u64) -> int {
    let m = if event_ts >= start { event_ts } else { start };
    if ts <= m {
        0
    } else {
        (ts - m) / (NANOS_PER_DAY as int)
    }
}

/// One backward step of the reward scan per visited bucket, most recent
/// first: `i` buckets of `log` remain, the accrual window so far reaches
/// up to `ts`, and `acc` has been credited already. Mirrors exactly the
/// checked arithmetic of the executable scan, so it also pins which
/// error a failing scan reports.
pub open spec fn spec_rewards_loop(
    log: Seq<StakeChangeEvent>,
    i: int,
    ts: u64,
    acc: u128,
    stake: StakeInfo,
    rate: u128,
) -> Result<u128, ContractError>
    decreases i,
{
    if i <= 0 {
        Ok(acc)
    } else {
        let ev = log[i - 1];
        let dur = spec_duration_days(ts, ev.timestamp, stake.stake_started);
        if rate * dur > u128::MAX {
            Err(ContractError::ArithmeticOverflow)
        } else if rate * dur * stake.amount > u128::MAX {
            Err(ContractError::ArithmeticOverflow)
        } else if ev.new_amount == 0 {
            Err(ContractError::DivisionByZero)
        } else {
            let term = rate * dur * stake.amount / (ev.new_amount as int);
            if acc + term > u128::MAX {
                Err(ContractError::ArithmeticOverflow)
            } else if ev.timestamp <= stake.stake_started {
                Ok((acc + term) as u128)
            } else {
                spec_rewards_loop(log, i - 1, ev.timestamp, (acc + term) as u128, stake, rate)
            }
        }
    }
}

/// The reward owed to `stake` at instant `now` under the given log and
/// daily rate, or the arithmetic error the scan runs into.
pub open spec fn spec_compute_rewards(
    log: Seq<StakeChangeEvent>,
    stake: StakeInfo,
    now: u64,
    rate: u128,
) -> Result<u128, ContractError> {
    spec_rewards_loop(log, log.len() as int, now, 0, stake, rate)
}

/// Computes the reward accrued by `stake_info` since its accrual start,
/// walking the Pool Event Log backwards from `now`. For each visited
/// bucket the depositor earns `rate * days * stake / pool_size`, the
/// pro-rata share of the daily budget over the days the bucket was in
/// effect within the accrual window; the walk stops at the first bucket
/// dated at or before the accrual start. Pure: the log is only read.
pub fn compute_rewards(
    log: &PoolLog,
    stake_info: &StakeInfo,
    now: u64,
    rewards_per_day: u128,
) -> (r: Result<u128, ContractError>)
    ensures
        r == spec_compute_rewards(log@, *stake_info, now, rewards_per_day),
{
    let mut ts = now;
    let mut total_rewards: u128 = 0;
    let mut i = log.len();
    while i > 0
        invariant
            i <= log@.len(),
            spec_rewards_loop(log@, i as int, ts, total_rewards, *stake_info, rewards_per_day)
                == spec_compute_rewards(log@, *stake_info, now, rewards_per_day),
        decreases i,
    {
        i = i - 1;
        let ev = log.get(i);
        let start = stake_info.stake_started;
        let m = if ev.timestamp >= start {
            ev.timestamp
        } else {
            start
        };
        let dur_days: u64 = if ts <= m {
            0
        } else {
            (ts - m) / NANOS_PER_DAY
        };
        let budget = match rewards_per_day.checked_mul(dur_days as u128) {
            None => {
                return Err(ContractError::ArithmeticOverflow);
            },
            Some(v) => v,
        };
        let weighted = match budget.checked_mul(stake_info.amount) {
            None => {
                return Err(ContractError::ArithmeticOverflow);
            },
            Some(v) => v,
        };
        if ev.new_amount == 0 {
            return Err(ContractError::DivisionByZero);
        }
        let term = weighted / ev.new_amount;
        total_rewards = match total_rewards.checked_add(term) {
            None => {
                return Err(ContractError::ArithmeticOverflow);
            },
            Some(v) => v,
        };
        if ev.timestamp <= start {
            return Ok(total_rewards);
        }
        ts = ev.timestamp;
    }
    Ok(total_rewards)
}

/// The pool size a deposit is folded onto: the last bucket's, or zero
/// for an empty log.
pub open spec fn spec_log_base(log: Seq<StakeChangeEvent>) -> u128 {
    if log.len() == 0 {
        0
    } else {
        log.last().new_amount
    }
}

/// The Pool Event Log after a deposit of `amount` on the day starting at
/// `today`: if the last bucket is still ahead of `today` it is amended
/// in place, otherwise a new bucket effective at the next midnight is
/// appended; either way the bucket holds the new cumulative pool size.
pub open spec fn spec_log_after_deposit(
    log: Seq<StakeChangeEvent>,
    today: u64,
    amount: u128,
) -> Seq<StakeChangeEvent> {
    let total = (spec_log_base(log) + amount) as u128;
    if log.len() > 0 && today < log.last().timestamp {
        log.update(
            log.len() - 1,
            StakeChangeEvent { timestamp: log.last().timestamp, new_amount: total },
        )
    } else {
        log.push(StakeChangeEvent { timestamp: (today + NANOS_PER_DAY) as u64, new_amount: total })
    }
}

/// The record the reward scan starts from: the depositor's current one,
/// or a fresh empty record accruing from `today`.
pub open spec fn spec_current_stake(
    stakes: Map<Seq<char>, StakeInfo>,
    owner: Seq<char>,
    today: u64,
) -> StakeInfo {
    if stakes.contains_key(owner) {
        stakes[owner]
    } else {
        StakeInfo { stake_started: today, amount: 0 }
    }
}

/// Outcome of a deposit of `amount` by `owner` at instant `now`: the new
/// log and ledger, or the error that aborts the call with nothing
/// written. A zero deposit changes nothing; otherwise the log is updated
/// first, the pending reward is computed against the updated log up to
/// the coming midnight, and the depositor's record is replaced with
/// principal, pending reward and deposit compounded together.
pub open spec fn spec_stake(
    log: Seq<StakeChangeEvent>,
    stakes: Map<Seq<char>, StakeInfo>,
    rate: u128,
    owner: Seq<char>,
    amount: u128,
    now: u64,
) -> Result<(Seq<StakeChangeEvent>, Map<Seq<char>, StakeInfo>), ContractError> {
    let today = spec_midnight(now);
    let tomorrow = spec_next_day(now) as u64;
    if amount == 0 {
        Ok((log, stakes))
    } else if spec_log_base(log) + amount > u128::MAX {
        Err(ContractError::ArithmeticOverflow)
    } else {
        let newlog = spec_log_after_deposit(log, today, amount);
        let cur = spec_current_stake(stakes, owner, today);
        match spec_compute_rewards(newlog, cur, tomorrow, rate) {
            Err(e) => Err(e),
            Ok(pending) => if cur.amount + pending + amount > u128::MAX {
                Err(ContractError::ArithmeticOverflow)
            } else {
                Ok(
                    (
                        newlog,
                        stakes.insert(
                            owner,
                            StakeInfo {
                                stake_started: tomorrow,
                                amount: (cur.amount + pending + amount) as u128,
                            },
                        ),
                    ),
                )
            },
        }
    }
}

proof fn lemma_log_after_deposit_wf(log: Seq<StakeChangeEvent>, today: u64, amount: u128)
    requires
        log_wf(log),
        amount > 0,
        spec_log_base(log) + amount <= u128::MAX,
        today + NANOS_PER_DAY <= u64::MAX,
    ensures
        log_wf(spec_log_after_deposit(log, today, amount)),
{
    let r = spec_log_after_deposit(log, today, amount);
    assert forall|i: int, j: int| 0 <= i < j < r.len() implies r[i].timestamp < r[j].timestamp by {
        if j < log.len() {
            assert(log[i].timestamp < log[j].timestamp);
        }
    }
}

/// Books a deposit: rejects funds that are not the pool's token, folds
/// the amount into the day's bucket of the Pool Event Log, credits the
/// depositor's pending reward up to the coming midnight, and replaces
/// the depositor's record with everything compounded and the accrual
/// clock reset to that midnight. On any error nothing is changed.
pub fn stake(pool: &mut Pool, balance: Balance, sender: String, now: u64) -> (r: Result<
    (),
    ContractError,
>)
    requires
        old(pool).wf(),
        // headroom for the coming midnight in the instant type
        balance matches Balance::Cw20 { .. } ==> now <= u64::MAX - NANOS_PER_DAY,
    ensures
        final(pool).wf(),
        final(pool).status == old(pool).status,
        (match balance {
            Balance::Native => r == Err::<(), ContractError>(ContractError::WrongCurrency)
                && final(pool).log@ == old(pool).log@ && final(pool).stakes@ == old(pool).stakes@,
            Balance::Cw20 { amount } => (match spec_stake(
                old(pool).log@,
                old(pool).stakes@,
                old(pool).status.rewards_per_day,
                sender@,
                amount,
                now,
            ) {
                Ok(out) => r is Ok && final(pool).log@ == out.0 && final(pool).stakes@ == out.1,
                Err(e) => r == Err::<(), ContractError>(e) && final(pool).log@ == old(pool).log@
                    && final(pool).stakes@ == old(pool).stakes@,
            }),
        }),
        // A zero deposit is a no-op: accepted, nothing written.
        (match balance {
            Balance::Cw20 { amount } => amount == 0 ==> r is Ok
                && final(pool).log@ == old(pool).log@
                && final(pool).stakes@ == old(pool).stakes@,
            Balance::Native => true,
        }),
        // After any successful positive deposit the depositor's accrual
        // clock stands at the midnight after `now`, never earlier.
        (match balance {
            Balance::Cw20 { amount } => amount > 0 && r is Ok
                ==> final(pool).stakes@.contains_key(sender@)
                && final(pool).stakes@[sender@].stake_started == spec_next_day(now),
            Balance::Native => true,
        }),
{
    match balance {
        Balance::Native => Err(ContractError::WrongCurrency),
        Balance::Cw20 { amount } => {
            let today = midnight(now);
            let tomorrow = next_day(now);
            if amount == 0 {
                return Ok(());
            }
            let (prev_amount, prev_date): (u128, u64) = match pool.log.back() {
                None => (0, today),
                Some(ev) => (ev.new_amount, ev.timestamp),
            };
            let total = match prev_amount.checked_add(amount) {
                None => {
                    return Err(ContractError::ArithmeticOverflow);
                },
                Some(v) => v,
            };
            let amended = today < prev_date;
            if amended {
                pool.log.pop_back();
                pool.log.push_back(StakeChangeEvent { timestamp: prev_date, new_amount: total });
            } else {
                pool.log.push_back(StakeChangeEvent { timestamp: tomorrow, new_amount: total });
            }
            proof {
                assert(pool.log@ =~= spec_log_after_deposit(
                    old(pool).log@,
                    spec_midnight(now),
                    amount,
                ));
                lemma_log_after_deposit_wf(old(pool).log@, spec_midnight(now), amount);
            }
            let current = match pool.stakes.get(&sender) {
                Some(info) => info,
                None => StakeInfo { stake_started: today, amount: 0 },
            };
            let pending = match compute_rewards(
                &pool.log,
                &current,
                tomorrow,
                pool.status.rewards_per_day,
            ) {
                Ok(p) => p,
                Err(e) => {
                    pool.log.pop_back();
                    if amended {
                        pool.log.push_back(
                            StakeChangeEvent { timestamp: prev_date, new_amount: prev_amount },
                        );
                    }
                    proof {
                        assert(pool.log@ =~= old(pool).log@);
                    }
                    return Err(e);
                },
            };
            let credited = match current.amount.checked_add(pending) {
                None => None,
                Some(v) => v.checked_add(amount),
            };
            let new_amount = match credited {
                Some(v) => v,
                None => {
                    pool.log.pop_back();
                    if amended {
                        pool.log.push_back(
                            StakeChangeEvent { timestamp: prev_date, new_amount: prev_amount },
                        );
                    }
                    proof {
                        assert(pool.log@ =~= old(pool).log@);
                    }
                    return Err(ContractError::ArithmeticOverflow);
                },
            };
            pool.stakes.insert(sender, StakeInfo { stake_started: tomorrow, amount: new_amount });
            Ok(())
        },
    }
}

/// Outcome of a batch of received tokens: refused unless sent by the
/// pool's token contract; a `Stake` request then books a deposit for
/// `owner` and anything else is accepted without effect.
pub open spec fn spec_receive(
    log: Seq<StakeChangeEvent>,
    stakes: Map<Seq<char>, StakeInfo>,
    token: Seq<char>,
    rate: u128,
    token_sender: Seq<char>,
    owner: Seq<char>,
    amount: u128,
    msg: ReceiveMsg,
    now: u64,
) -> Result<(Seq<StakeChangeEvent>, Map<Seq<char>, StakeInfo>), ContractError> {
    if token_sender != token {
        Err(ContractError::WrongCurrency)
    } else {
        match msg {
            ReceiveMsg::Stake {} => spec_stake(log, stakes, rate, owner, amount, now),
            ReceiveMsg::AddToBank {} => Ok((log, stakes)),
        }
    }
}

/// Handles a batch of tokens sent to the pool. `token_sender` is the
/// contract that moved the tokens — it must be the pool's configured
/// token — and `owner` the already-validated depositor the batch was
/// sent for.
pub fn receive(
    pool: &mut Pool,
    token_sender: &String,
    owner: String,
    amount: u128,
    msg: ReceiveMsg,
    now: u64,
) -> (r: Result<(), ContractError>)
    requires
        old(pool).wf(),
        // headroom for the coming midnight, needed once a deposit in the
        // pool's own token is booked
        msg matches ReceiveMsg::Stake {} && token_sender@ == old(pool).status.token@ ==> now
            <= u64::MAX - NANOS_PER_DAY,
    ensures
        final(pool).wf(),
        final(pool).status == old(pool).status,
        (match spec_receive(
            old(pool).log@,
            old(pool).stakes@,
            old(pool).status.token@,
            old(pool).status.rewards_per_day,
            token_sender@,
            owner@,
            amount,
            msg,
            now,
        ) {
            Ok(out) => r is Ok && final(pool).log@ == out.0 && final(pool).stakes@ == out.1,
            Err(e) => r == Err::<(), ContractError>(e) && final(pool).log@ == old(pool).log@
                && final(pool).stakes@ == old(pool).stakes@,
        }),
{
    if *token_sender != pool.status.token {
        return Err(ContractError::WrongCurrency);
    }
    match msg {
        ReceiveMsg::Stake {} => stake(pool, Balance::Cw20 { amount }, owner, now),
        ReceiveMsg::AddToBank {} => Ok(()),
    }
}

/// Withdrawal is declared in the message surface but deliberately left
/// unsettled in this core: the call succeeds and changes nothing. Real
/// withdrawal semantics — settling pending reward, reducing the stake,
/// releasing tokens — are a design decision this core does not take.
pub fn unstake(pool: &mut Pool, _count: u128) -> (r: Result<(), ContractError>)
    ensures
        r is Ok,
        *final(pool) == *old(pool),
{
    Ok(())
}

/// Routes a mutating call to the operation it names. `info_sender` is
/// whoever made the call; for a `Receive` it must be the pool's token
/// contract.
pub fn execute(
    state: &mut State,
    pool: &mut Pool,
    info_sender: &String,
    msg: ExecuteMsg,
    now: u64,
) -> (r: Result<(), ContractError>)
    requires
        old(pool).wf(),
        (match msg {
            ExecuteMsg::Increment {} => old(state).count < i32::MAX,
            ExecuteMsg::Receive { msg: rmsg, .. } => rmsg matches ReceiveMsg::Stake {}
                && info_sender@ == old(pool).status.token@ ==> now <= u64::MAX - NANOS_PER_DAY,
            _ => true,
        }),
    ensures
        final(pool).wf(),
        final(pool).status == old(pool).status,
        final(state).owner == old(state).owner,
        (match msg {
            ExecuteMsg::Increment {} => r is Ok && final(state).count == old(state).count + 1
                && final(pool).log@ == old(pool).log@ && final(pool).stakes@ == old(pool).stakes@,
            ExecuteMsg::Reset { count } => (if info_sender@ == old(state).owner@ {
                r is Ok && final(state).count == count
            } else {
                r == Err::<(), ContractError>(ContractError::Unauthorized) && *final(state)
                    == *old(state)
            }) && final(pool).log@ == old(pool).log@ && final(pool).stakes@ == old(pool).stakes@,
            ExecuteMsg::Unstake { count: _ } => r is Ok && *final(state) == *old(state)
                && final(pool).log@ == old(pool).log@
                && final(pool).stakes@ == old(pool).stakes@,
            ExecuteMsg::Receive { sender, amount, msg: rmsg } => *final(state) == *old(state)
                && (match spec_receive(
                old(pool).log@,
                old(pool).stakes@,
                old(pool).status.token@,
                old(pool).status.rewards_per_day,
                info_sender@,
                sender@,
                amount,
                rmsg,
                now,
            ) {
                Ok(out) => r is Ok && final(pool).log@ == out.0 && final(pool).stakes@ == out.1,
                Err(e) => r == Err::<(), ContractError>(e) && final(pool).log@ == old(pool).log@
                    && final(pool).stakes@ == old(pool).stakes@,
            }),
        }),
{
    match msg {
        ExecuteMsg::Increment {} => {
            increment(state);
            Ok(())
        },
        ExecuteMsg::Reset { count } => reset(state, info_sender, count),
        ExecuteMsg::Unstake { count } => unstake(pool, count),
        ExecuteMsg::Receive { sender, amount, msg: rmsg } => receive(
            pool,
            info_sender,
            sender,
            amount,
            rmsg,
            now,
        ),
    }
}

/// The counter's current value.
pub fn count(state: &State) -> (r: GetCountResponse)
    ensures
        r.count == state.count,
{
    GetCountResponse { count: state.count }
}

/// Answers a read-only call; nothing is mutated.
pub fn query(state: &State, msg: QueryMsg) -> (r: GetCountResponse)
    ensures
        r.count == state.count,
{
    match msg {
        QueryMsg::GetCount {} => count(state),
    }
}

} // verus!
