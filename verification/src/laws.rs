//! The general laws of the staking core, proved once and for all over
//! the spec-level models that the operations' contracts are stated in.

use vstd::prelude::*;

use crate::contract::{
    spec_compute_rewards, spec_duration_days, spec_log_after_deposit, spec_log_base,
    spec_rewards_loop,
};
use crate::error::ContractError;
use crate::state::{log_wf, StakeChangeEvent, StakeInfo};
use crate::time::NANOS_PER_DAY;

verus! {

/// The sum of a sequence of deposit amounts.
pub open spec fn spec_sum(amounts: Seq<u128>) -> int
    decreases amounts.len(),
{
    if amounts.len() == 0 {
        0
    } else {
        amounts[0] + spec_sum(amounts.drop_first())
    }
}

/// The Pool Event Log after a whole sequence of deposits, all made on
/// the day starting at `today`, has been folded into it one by one.
pub open spec fn spec_logs_after_deposits(
    log: Seq<StakeChangeEvent>,
    today: u64,
    amounts: Seq<u128>,
) -> Seq<StakeChangeEvent>
    decreases amounts.len(),
{
    if amounts.len() == 0 {
        log
    } else {
        spec_logs_after_deposits(
            spec_log_after_deposit(log, today, amounts[0]),
            today,
            amounts.drop_first(),
        )
    }
}

proof fn lemma_sum_nonneg(amounts: Seq<u128>)
    ensures
        spec_sum(amounts) >= 0,
    decreases amounts.len(),
{
    if amounts.len() > 0 {
        lemma_sum_nonneg(amounts.drop_first());
    }
}

proof fn lemma_amend_phase(log: Seq<StakeChangeEvent>, today: u64, amounts: Seq<u128>)
    requires
        log.len() > 0,
        today < log.last().timestamp,
        log.last().new_amount + spec_sum(amounts) <= u128::MAX,
    ensures
        spec_logs_after_deposits(log, today, amounts) == log.update(
            log.len() - 1,
            StakeChangeEvent {
                timestamp: log.last().timestamp,
                new_amount: (log.last().new_amount + spec_sum(amounts)) as u128,
            },
        ),
    decreases amounts.len(),
{
    lemma_sum_nonneg(amounts);
    if amounts.len() == 0 {
        assert(log.update(
            log.len() - 1,
            StakeChangeEvent {
                timestamp: log.last().timestamp,
                new_amount: (log.last().new_amount + spec_sum(amounts)) as u128,
            },
        ) =~= log);
    } else {
        lemma_sum_nonneg(amounts.drop_first());
        let step = spec_log_after_deposit(log, today, amounts[0]);
        assert(step == log.update(
            log.len() - 1,
            StakeChangeEvent {
                timestamp: log.last().timestamp,
                new_amount: (log.last().new_amount + amounts[0]) as u128,
            },
        ));
        lemma_amend_phase(step, today, amounts.drop_first());
        assert(step.update(
            step.len() - 1,
            StakeChangeEvent {
                timestamp: step.last().timestamp,
                new_amount: (step.last().new_amount + spec_sum(amounts.drop_first())) as u128,
            },
        ) =~= log.update(
            log.len() - 1,
            StakeChangeEvent {
                timestamp: log.last().timestamp,
                new_amount: (log.last().new_amount + spec_sum(amounts)) as u128,
            },
        ));
    }
}

/// Same-day deposits share one bucket. For any sequence of positive
/// deposits made on the day starting at `today`, against a well-formed
/// log with no bucket staged past `today`, exactly one bucket is
/// appended — effective the next midnight — and its pool size is the
/// previous total plus the sum of all the day's deposit amounts; every
/// earlier bucket is untouched. Against an empty log the bucket's size
/// is exactly the sum of the day's deposits.
pub proof fn lemma_same_day_deposits_single_bucket(
    log: Seq<StakeChangeEvent>,
    today: u64,
    amounts: Seq<u128>,
)
    requires
        log_wf(log),
        amounts.len() > 0,
        forall|i: int| 0 <= i < amounts.len() ==> amounts[i] > 0,
        log.len() > 0 ==> log.last().timestamp <= today,
        today + NANOS_PER_DAY <= u64::MAX,
        spec_log_base(log) + spec_sum(amounts) <= u128::MAX,
    ensures
        spec_logs_after_deposits(log, today, amounts) == log.push(
            StakeChangeEvent {
                timestamp: (today + NANOS_PER_DAY) as u64,
                new_amount: (spec_log_base(log) + spec_sum(amounts)) as u128,
            },
        ),
{
    lemma_sum_nonneg(amounts.drop_first());
    let first = spec_log_after_deposit(log, today, amounts[0]);
    assert(first == log.push(
        StakeChangeEvent {
            timestamp: (today + NANOS_PER_DAY) as u64,
            new_amount: (spec_log_base(log) + amounts[0]) as u128,
        },
    ));
    lemma_amend_phase(first, today, amounts.drop_first());
    assert(first.update(
        first.len() - 1,
        StakeChangeEvent {
            timestamp: first.last().timestamp,
            new_amount: (first.last().new_amount + spec_sum(amounts.drop_first())) as u128,
        },
    ) =~= log.push(
        StakeChangeEvent {
            timestamp: (today + NANOS_PER_DAY) as u64,
            new_amount: (spec_log_base(log) + spec_sum(amounts)) as u128,
        },
    ));
}

/// No reward accrues before a stake's accrual start: read at any `now`
/// not past `accrual_start`, over any log whose most recent bucket is
/// dated at or before the accrual start and records a positive pool
/// size, the computed reward is zero.
pub proof fn lemma_rewards_zero_before_accrual(
    log: Seq<StakeChangeEvent>,
    stake: StakeInfo,
    now: u64,
    rate: u128,
)
    requires
        now <= stake.stake_started,
        log.len() > 0 ==> log.last().new_amount > 0 && log.last().timestamp
            <= stake.stake_started,
    ensures
        spec_compute_rewards(log, stake, now, rate) == Ok::<u128, ContractError>(0),
{
    if log.len() == 0 {
        assert(spec_rewards_loop(log, 0, now, 0, stake, rate) == Ok::<u128, ContractError>(0));
    } else {
        let ev = log[log.len() - 1];
        assert(spec_duration_days(now, ev.timestamp, stake.stake_started) == 0);
        assert(rate * 0 == 0);
        assert(rate * 0 * stake.amount == 0);
        assert(0int / (ev.new_amount as int) == 0);
        assert(ev.timestamp <= stake.stake_started);
        assert(spec_rewards_loop(log, log.len() as int, now, 0, stake, rate) == Ok::<
            u128,
            ContractError,
        >(0));
    }
}

/// Over a log holding the single bucket `{d, p}` and a stake of amount
/// `a` accruing since `s < d`, the reward read at `now == d` is exactly
/// `rate * floor((d - s) / 1 day) * a / p`. The scan clamps a bucket's
/// accrued days at the bucket's own effective date, so it owes this
/// value precisely on the inputs where the formula comes to zero; the
/// last premise pins those down.
pub proof fn lemma_single_snapshot_reward(d: u64, p: u128, a: u128, s: u64, rate: u128)
    requires
        s < d,
        p > 0,
        rate * ((d - s) / (NANOS_PER_DAY as int)) * a / (p as int) == 0,
    ensures
        spec_compute_rewards(
            seq![StakeChangeEvent { timestamp: d, new_amount: p }],
            StakeInfo { stake_started: s, amount: a },
            d,
            rate,
        ) == Ok::<u128, ContractError>(
            (rate * ((d - s) / (NANOS_PER_DAY as int)) * a / (p as int)) as u128,
        ),
{
    let log = seq![StakeChangeEvent { timestamp: d, new_amount: p }];
    let stake = StakeInfo { stake_started: s, amount: a };
    assert(log.len() == 1);
    assert(log[0] == StakeChangeEvent { timestamp: d, new_amount: p });
    assert(spec_duration_days(d, d, s) == 0);
    assert(rate * 0 == 0);
    assert(rate * 0 * a == 0);
    assert(0int / (p as int) == 0);
    assert(spec_rewards_loop(log, 0, d, 0, stake, rate) == Ok::<u128, ContractError>(0));
    assert(spec_rewards_loop(log, 1, d, 0, stake, rate) == Ok::<u128, ContractError>(0));
    assert((rate * ((d - s) / (NANOS_PER_DAY as int)) * a / (p as int)) as u128 == 0);
}

/// The single-bucket payoff formula in general: over a log holding the
/// one bucket `{d, p}` with `p > 0`, a stake of amount `a` accruing
/// since `s`, read at any `now`, earns exactly
/// `rate * days * a / p`, where `days` counts the whole days between
/// `now` and the later of `d` and `s`, clamped below at zero — provided
/// the two products stay within the amount type.
pub proof fn lemma_single_bucket_reward(d: u64, p: u128, a: u128, s: u64, now: u64, rate: u128)
    requires
        p > 0,
        rate * spec_duration_days(now, d, s) <= u128::MAX,
        rate * spec_duration_days(now, d, s) * a <= u128::MAX,
    ensures
        spec_compute_rewards(
            seq![StakeChangeEvent { timestamp: d, new_amount: p }],
            StakeInfo { stake_started: s, amount: a },
            now,
            rate,
        ) == Ok::<u128, ContractError>(
            (rate * spec_duration_days(now, d, s) * a / (p as int)) as u128,
        ),
{
    let log = seq![StakeChangeEvent { timestamp: d, new_amount: p }];
    let stake = StakeInfo { stake_started: s, amount: a };
    let dur = spec_duration_days(now, d, s);
    let term = rate * dur * a / (p as int);
    assert(log.len() == 1);
    assert(log[0] == StakeChangeEvent { timestamp: d, new_amount: p });
    vstd::arithmetic::mul::lemma_mul_nonnegative(rate as int, dur);
    vstd::arithmetic::mul::lemma_mul_nonnegative(rate * dur, a as int);
    vstd::arithmetic::div_mod::lemma_div_pos_is_pos(rate * dur * a, p as int);
    vstd::arithmetic::div_mod::lemma_div_nonincreasing(rate * dur * a, p as int);
    assert(0 <= term <= u128::MAX);
    if d <= s {
        assert(spec_rewards_loop(log, 1, now, 0, stake, rate) == Ok::<u128, ContractError>(
            term as u128,
        ));
    } else {
        assert(spec_rewards_loop(log, 0, d, (0 + term) as u128, stake, rate) == Ok::<
            u128,
            ContractError,
        >(term as u128));
        assert(spec_rewards_loop(log, 1, now, 0, stake, rate) == Ok::<u128, ContractError>(
            term as u128,
        ));
    }
}

/// Reading rewards is pure: the contract of `compute_rewards` ties every
/// call's result to `spec_compute_rewards`, so two reads from the same
/// log, record, instant and rate — with no deposit in between — return
/// the same value.
pub proof fn lemma_rewards_query_idempotent(
    r1: Result<u128, ContractError>,
    r2: Result<u128, ContractError>,
    log: Seq<StakeChangeEvent>,
    stake: StakeInfo,
    now: u64,
    rate: u128,
)
    requires
        r1 == spec_compute_rewards(log, stake, now, rate),
        r2 == spec_compute_rewards(log, stake, now, rate),
    ensures
        r1 == r2,
{
}

} // verus!
