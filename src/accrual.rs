use vstd::prelude::*;

use crate::{add_checked, div_toward_zero, fits, mul_checked, sub_checked, trunc_div, StakingError, PRECISION};

verus! {

/// Global accrual state: the reward-per-share accumulator (scaled by
/// `PRECISION`), the time it was last advanced to, and the sum of all shares.
#[derive(Debug, Clone, Copy, PartialEq, Eq, Structural)]
pub struct Accumulator {
    pub reward_per_share_stored: i128,
    pub last_update_time: u64,
    pub total_shares: i128,
}

/// One participant's staking record.
#[derive(Debug, Clone, Copy, PartialEq, Eq, Structural)]
pub struct Position {
    pub amount: i128,
    pub shares: i128,
    pub reward_per_share_paid: i128,
    pub rewards: i128,
    pub lock_start_time: u64,
    pub lock_duration: u64,
    pub tier_id: u32,
}

/// The all-zero position.
pub open spec fn zero_position_spec() -> Position {
    Position {
        amount: 0,
        shares: 0,
        reward_per_share_paid: 0,
        rewards: 0,
        lock_start_time: 0,
        lock_duration: 0,
        tier_id: 0,
    }
}

/// The all-zero position, which a first stake starts from.
pub fn zero_position() -> (r: Position)
    ensures
        r == zero_position_spec(),
{
    Position {
        amount: 0,
        shares: 0,
        reward_per_share_paid: 0,
        rewards: 0,
        lock_start_time: 0,
        lock_duration: 0,
        tier_id: 0,
    }
}

/// Reward over the elapsed interval: `(now - last) * rate`.
pub open spec fn interval_reward(acc: Accumulator, rate: i128, now: u64) -> int {
    (now - acc.last_update_time) * rate
}

/// Whether the accumulator grows at `now`: time has passed and someone holds shares.
pub open spec fn accrues(acc: Accumulator, now: u64) -> bool {
    now > acc.last_update_time && acc.total_shares > 0
}

/// Growth of the accumulator at `now`.
pub open spec fn accrual_increment(acc: Accumulator, rate: i128, now: u64) -> int {
    if accrues(acc, now) {
        trunc_div(interval_reward(acc, rate, now) * PRECISION, acc.total_shares as int)
    } else {
        0
    }
}

/// Advancing the accumulator to `now` stays within `i128`.
pub open spec fn accrual_fits(acc: Accumulator, rate: i128, now: u64) -> bool {
    accrues(acc, now) ==> {
        &&& fits(interval_reward(acc, rate, now))
        &&& fits(interval_reward(acc, rate, now) * PRECISION)
        &&& fits(acc.reward_per_share_stored + accrual_increment(acc, rate, now))
    }
}

/// The accumulator advanced to `now` (never moved backwards).
pub open spec fn accrued(acc: Accumulator, rate: i128, now: u64) -> Accumulator {
    Accumulator {
        reward_per_share_stored: (acc.reward_per_share_stored + accrual_increment(
            acc,
            rate,
            now,
        )) as i128,
        last_update_time: if now > acc.last_update_time {
            now
        } else {
            acc.last_update_time
        },
        total_shares: acc.total_shares,
    }
}

/// Reward earned by `pos` since it last synchronised with accumulator value `rps`.
pub open spec fn pending_reward(pos: Position, rps: i128) -> int {
    trunc_div(pos.shares * (rps - pos.reward_per_share_paid), PRECISION as int)
}

/// Settling `pos` against `rps` stays within `i128`.
pub open spec fn settle_fits(pos: Position, rps: i128) -> bool {
    &&& fits(rps - pos.reward_per_share_paid)
    &&& fits(pos.shares * (rps - pos.reward_per_share_paid))
    &&& fits(pos.rewards + pending_reward(pos, rps))
}

/// `pos` with its pending reward moved into `rewards`, synchronised with `rps`.
pub open spec fn settled(pos: Position, rps: i128) -> Position {
    Position {
        rewards: (pos.rewards + pending_reward(pos, rps)) as i128,
        reward_per_share_paid: rps,
        ..pos
    }
}

/// Accrual and settlement of one position together stay within `i128`.
pub open spec fn sync_fits(acc: Accumulator, pos: Position, rate: i128, now: u64) -> bool {
    accrual_fits(acc, rate, now) && settle_fits(
        pos,
        accrued(acc, rate, now).reward_per_share_stored,
    )
}

/// Advances the accumulator to `now`.
pub fn accrue(acc: &mut Accumulator, rate: i128, now: u64) -> (r: Result<(), StakingError>)
    ensures
        match r {
            Ok(()) => accrual_fits(*old(acc), rate, now) && *final(acc) == accrued(
                *old(acc),
                rate,
                now,
            ),
            Err(e) => !accrual_fits(*old(acc), rate, now) && e == StakingError::Overflow
                && *final(acc) == *old(acc),
        },
{
    if now > acc.last_update_time {
        if acc.total_shares > 0 {
            let elapsed: i128 = (now - acc.last_update_time) as i128;
            let reward = mul_checked(elapsed, rate)?;
            let scaled = mul_checked(reward, PRECISION)?;
            let increment = div_toward_zero(scaled, acc.total_shares);
            let stored = add_checked(acc.reward_per_share_stored, increment)?;
            acc.reward_per_share_stored = stored;
        }
        acc.last_update_time = now;
    }
    Ok(())
}

/// Moves the reward that `pos` has earned up to accumulator value `rps` into its `rewards`.
pub fn settle(pos: &mut Position, rps: i128) -> (r: Result<(), StakingError>)
    ensures
        match r {
            Ok(()) => settle_fits(*old(pos), rps) && *final(pos) == settled(*old(pos), rps),
            Err(e) => !settle_fits(*old(pos), rps) && e == StakingError::Overflow && *final(pos)
                == *old(pos),
        },
{
    let delta = sub_checked(rps, pos.reward_per_share_paid)?;
    let weighted = mul_checked(pos.shares, delta)?;
    let pending = div_toward_zero(weighted, PRECISION);
    let rewards = add_checked(pos.rewards, pending)?;
    pos.rewards = rewards;
    pos.reward_per_share_paid = rps;
    Ok(())
}

/// Advances the accumulator and settles one position against it; on failure
/// neither changes.
pub fn sync(acc: &mut Accumulator, pos: &mut Position, rate: i128, now: u64) -> (r: Result<
    (),
    StakingError,
>)
    ensures
        match r {
            Ok(()) => sync_fits(*old(acc), *old(pos), rate, now) && *final(acc) == accrued(
                *old(acc),
                rate,
                now,
            ) && *final(pos) == settled(*old(pos), final(acc).reward_per_share_stored),
            Err(e) => !sync_fits(*old(acc), *old(pos), rate, now) && e == StakingError::Overflow
                && *final(acc) == *old(acc) && *final(pos) == *old(pos),
        },
{
    let mut next = *acc;
    accrue(&mut next, rate, now)?;
    settle(pos, next.reward_per_share_stored)?;
    *acc = next;
    Ok(())
}

/// With a non-negative rate the accumulator never decreases when advanced.
pub proof fn lemma_accrual_monotone(acc: Accumulator, rate: i128, now: u64)
    requires
        rate >= 0,
        accrual_fits(acc, rate, now),
    ensures
        accrued(acc, rate, now).reward_per_share_stored >= acc.reward_per_share_stored,
{
    if accrues(acc, now) {
        let x = interval_reward(acc, rate, now);
        assert(x >= 0) by (nonlinear_arith)
            requires
                x == (now - acc.last_update_time) * rate,
                now > acc.last_update_time,
                rate >= 0,
        ;
        let y = x * PRECISION;
        assert(y >= 0) by (nonlinear_arith)
            requires
                y == x * PRECISION,
                x >= 0,
        ;
        let d = acc.total_shares as int;
        assert(y / d >= 0) by (nonlinear_arith)
            requires
                y >= 0,
                d > 0,
        ;
    }
}

} // verus!
