use vstd::prelude::*;

use crate::accrual::{
    accrued, lemma_accrual_monotone, pending_reward, settled, sync, sync_fits, zero_position,
    zero_position_spec, Accumulator, Position,
};
use crate::tier::{compute_shares, shares_fit, shares_of, Tier, TierRegistry};
use crate::{add_checked, fits, sub_checked, StakingError};

verus! {

/// Percentage of principal kept back on an early or emergency exit.
pub const PENALTY_PERCENT: i128 = 20;

/// Penalty on withdrawing `amount` early: `floor(amount * 20 / 100)`.
pub open spec fn penalty_of(amount: int) -> int {
    amount * PENALTY_PERCENT / 100
}

/// Shares of `pos` recomputed under `tier` for its current amount and lock,
/// with the total adjusted by the change.
pub open spec fn reweighted(acc: Accumulator, pos: Position, tier: Tier) -> Result<
    (Accumulator, Position),
    StakingError,
> {
    let s = shares_of(pos.amount as int, tier, pos.lock_duration);
    if !shares_fit(pos.amount as int, tier, pos.lock_duration) || !fits(s - pos.shares) || !fits(
        acc.total_shares + (s - pos.shares),
    ) {
        Err(StakingError::Overflow)
    } else {
        Ok(
            (
                Accumulator { total_shares: (acc.total_shares + (s - pos.shares)) as i128, ..acc },
                Position { shares: s as i128, ..pos },
            ),
        )
    }
}

/// What a stake does to the accumulator and the position.
pub open spec fn stake_outcome(
    acc: Accumulator,
    pos: Position,
    tiers: TierRegistry,
    rate: i128,
    now: u64,
    amount: i128,
    lock_duration: u64,
    tier_id: u32,
) -> Result<(Accumulator, Position), StakingError> {
    if amount <= 0 {
        Err(StakingError::InvalidAmount)
    } else if !sync_fits(acc, pos, rate, now) {
        Err(StakingError::Overflow)
    } else {
        let a1 = accrued(acc, rate, now);
        let p1 = settled(pos, a1.reward_per_share_stored);
        let tier = tiers.resolved(tier_id);
        let new_amount = p1.amount + amount;
        if !fits(new_amount) {
            Err(StakingError::Overflow)
        } else if new_amount < tier.min_amount {
            Err(StakingError::TierViolation)
        } else {
            reweighted(
                a1,
                Position {
                    amount: new_amount as i128,
                    lock_start_time: now,
                    lock_duration,
                    tier_id,
                    ..p1
                },
                tier,
            )
        }
    }
}

/// What a claim does: new accumulator, new position, and the reward paid out
/// in the reward asset (0 where nothing is transferred).
pub open spec fn claim_outcome(
    acc: Accumulator,
    pos: Position,
    tiers: TierRegistry,
    rate: i128,
    now: u64,
    compound: bool,
    same_asset: bool,
) -> Result<(Accumulator, Position, i128), StakingError> {
    if !sync_fits(acc, pos, rate, now) {
        Err(StakingError::Overflow)
    } else {
        let a1 = accrued(acc, rate, now);
        let p1 = settled(pos, a1.reward_per_share_stored);
        let reward = p1.rewards;
        if reward <= 0 {
            Ok((a1, p1, 0))
        } else if !compound {
            Ok((a1, Position { rewards: 0, ..p1 }, reward))
        } else if !same_asset {
            Err(StakingError::IncompatibleCompound)
        } else if !fits(p1.amount + reward) {
            Err(StakingError::Overflow)
        } else {
            match reweighted(
                a1,
                Position { rewards: 0, amount: (p1.amount + reward) as i128, ..p1 },
                tiers.resolved(p1.tier_id),
            ) {
                Ok((a2, p2)) => Ok((a2, p2, 0)),
                Err(e) => Err(e),
            }
        }
    }
}

/// Removes `amount` of principal from a settled position, demoting it to tier 0
/// where what is left is positive but under its tier's minimum, and recomputes its shares.
pub open spec fn reduced(acc: Accumulator, pos: Position, tiers: TierRegistry, amount: i128) -> Result<
    (Accumulator, Position),
    StakingError,
> {
    let remaining = pos.amount - amount;
    if !fits(remaining) {
        Err(StakingError::Overflow)
    } else {
        let current = tiers.resolved(pos.tier_id);
        let tier_id: u32 = if remaining > 0 && remaining < current.min_amount {
            0
        } else {
            pos.tier_id
        };
        reweighted(
            acc,
            Position { amount: remaining as i128, tier_id, ..pos },
            tiers.resolved(tier_id),
        )
    }
}

/// The position is still inside its lock window at `now`.
pub open spec fn is_locked(pos: Position, now: u64) -> bool {
    now < pos.lock_start_time + pos.lock_duration
}

/// What an unstake does: new accumulator, new position, and the principal paid
/// out in the staking asset.
pub open spec fn unstake_outcome(
    acc: Accumulator,
    pos: Position,
    tiers: TierRegistry,
    rate: i128,
    now: u64,
    amount: i128,
) -> Result<(Accumulator, Position, i128), StakingError> {
    if amount <= 0 {
        Err(StakingError::InvalidAmount)
    } else if pos.amount < amount {
        Err(StakingError::InsufficientBalance)
    } else if !sync_fits(acc, pos, rate, now) {
        Err(StakingError::Overflow)
    } else {
        let a1 = accrued(acc, rate, now);
        let p1 = settled(pos, a1.reward_per_share_stored);
        let payout = if is_locked(p1, now) {
            amount - penalty_of(amount as int)
        } else {
            amount as int
        };
        match reduced(a1, p1, tiers, amount) {
            Ok((a2, p2)) => Ok((a2, p2, payout as i128)),
            Err(e) => Err(e),
        }
    }
}

/// What a slash does: like an unstake without penalty and without payout.
pub open spec fn slash_outcome(
    acc: Accumulator,
    pos: Position,
    tiers: TierRegistry,
    rate: i128,
    now: u64,
    amount: i128,
) -> Result<(Accumulator, Position), StakingError> {
    if pos.amount < amount {
        Err(StakingError::InsufficientBalance)
    } else if !sync_fits(acc, pos, rate, now) {
        Err(StakingError::Overflow)
    } else {
        let a1 = accrued(acc, rate, now);
        reduced(a1, settled(pos, a1.reward_per_share_stored), tiers, amount)
    }
}

/// What an emergency exit does: no accrual, the position's shares leave the
/// total, the position is zeroed, and the principal less the penalty is paid out.
pub open spec fn emergency_outcome(acc: Accumulator, pos: Position) -> Result<
    (Accumulator, Position, i128),
    StakingError,
> {
    if pos.amount <= 0 {
        Err(StakingError::ZeroBalance)
    } else if !fits(acc.total_shares - pos.shares) {
        Err(StakingError::Overflow)
    } else {
        Ok(
            (
                Accumulator { total_shares: (acc.total_shares - pos.shares) as i128, ..acc },
                zero_position_spec(),
                (pos.amount - penalty_of(pos.amount as int)) as i128,
            ),
        )
    }
}

/// Early-exit penalty on a non-negative amount.
pub fn penalty(amount: i128) -> (r: i128)
    requires
        amount >= 0,
    ensures
        r == penalty_of(amount as int),
        0 <= r <= amount,
{
    let r = amount / 5;
    assert(r == (amount * 20) / 100) by (nonlinear_arith)
        requires
            r == amount / 5,
            amount >= 0,
    ;
    r
}

fn reweigh(acc: &mut Accumulator, pos: &mut Position, tier: &Tier) -> (r: Result<(), StakingError>)
    ensures
        match r {
            Ok(()) => reweighted(*old(acc), *old(pos), *tier) == Ok::<
                (Accumulator, Position),
                StakingError,
            >((*final(acc), *final(pos))),
            Err(e) => reweighted(*old(acc), *old(pos), *tier) == Err::<
                (Accumulator, Position),
                StakingError,
            >(e) && *final(acc) == *old(acc) && *final(pos) == *old(pos),
        },
{
    let s = compute_shares(pos.amount, tier, pos.lock_duration)?;
    let delta = sub_checked(s, pos.shares)?;
    let total = add_checked(acc.total_shares, delta)?;
    acc.total_shares = total;
    pos.shares = s;
    Ok(())
}

/// Adds `amount` to the position under tier `tier_id` with a fresh lock of
/// `lock_duration` seconds starting at `now`, after settling its reward.
pub fn stake_position(
    acc: &mut Accumulator,
    pos: &mut Position,
    tiers: &TierRegistry,
    rate: i128,
    now: u64,
    amount: i128,
    lock_duration: u64,
    tier_id: u32,
) -> (r: Result<(), StakingError>)
    requires
        tiers.wf(),
    ensures
        match r {
            Ok(()) => stake_outcome(
                *old(acc),
                *old(pos),
                *tiers,
                rate,
                now,
                amount,
                lock_duration,
                tier_id,
            ) == Ok::<(Accumulator, Position), StakingError>((*final(acc), *final(pos))),
            Err(e) => stake_outcome(
                *old(acc),
                *old(pos),
                *tiers,
                rate,
                now,
                amount,
                lock_duration,
                tier_id,
            ) == Err::<(Accumulator, Position), StakingError>(e) && *final(acc) == *old(acc)
                && *final(pos) == *old(pos),
        },
        rate >= 0 ==> final(acc).reward_per_share_stored >= old(acc).reward_per_share_stored,
{
    if amount <= 0 {
        return Err(StakingError::InvalidAmount);
    }
    let mut a = *acc;
    let mut p = *pos;
    let ghost a0 = a;
    sync(&mut a, &mut p, rate, now)?;
    proof {
        if rate >= 0 {
            lemma_accrual_monotone(a0, rate, now);
        }
    }
    let tier = tiers.tier_for(tier_id);
    let new_amount = add_checked(p.amount, amount)?;
    if new_amount < tier.min_amount {
        return Err(StakingError::TierViolation);
    }
    p.amount = new_amount;
    p.lock_start_time = now;
    p.lock_duration = lock_duration;
    p.tier_id = tier_id;
    reweigh(&mut a, &mut p, &tier)?;
    *acc = a;
    *pos = p;
    Ok(())
}

/// Settles the position and pays out its rewards: transferred in the reward
/// asset, or with `compound` folded into its principal (which needs the two
/// assets to be the same). Returns the amount transferred.
pub fn claim_position(
    acc: &mut Accumulator,
    pos: &mut Position,
    tiers: &TierRegistry,
    rate: i128,
    now: u64,
    compound: bool,
    same_asset: bool,
) -> (r: Result<i128, StakingError>)
    requires
        tiers.wf(),
    ensures
        match r {
            Ok(paid) => claim_outcome(*old(acc), *old(pos), *tiers, rate, now, compound, same_asset)
                == Ok::<(Accumulator, Position, i128), StakingError>((*final(acc), *final(pos), paid)),
            Err(e) => claim_outcome(*old(acc), *old(pos), *tiers, rate, now, compound, same_asset)
                == Err::<(Accumulator, Position, i128), StakingError>(e) && *final(acc) == *old(acc)
                && *final(pos) == *old(pos),
        },
        rate >= 0 ==> final(acc).reward_per_share_stored >= old(acc).reward_per_share_stored,
{
    let mut a = *acc;
    let mut p = *pos;
    let ghost a0 = a;
    sync(&mut a, &mut p, rate, now)?;
    proof {
        if rate >= 0 {
            lemma_accrual_monotone(a0, rate, now);
        }
    }
    let reward = p.rewards;
    if reward <= 0 {
        *acc = a;
        *pos = p;
        return Ok(0);
    }
    p.rewards = 0;
    if !compound {
        *acc = a;
        *pos = p;
        return Ok(reward);
    }
    if !same_asset {
        return Err(StakingError::IncompatibleCompound);
    }
    let tier = tiers.tier_for(p.tier_id);
    p.amount = add_checked(p.amount, reward)?;
    reweigh(&mut a, &mut p, &tier)?;
    *acc = a;
    *pos = p;
    Ok(0)
}

fn reduce(acc: &mut Accumulator, pos: &mut Position, tiers: &TierRegistry, amount: i128) -> (r: Result<
    (),
    StakingError,
>)
    requires
        tiers.wf(),
    ensures
        match r {
            Ok(()) => reduced(*old(acc), *old(pos), *tiers, amount) == Ok::<
                (Accumulator, Position),
                StakingError,
            >((*final(acc), *final(pos))),
            Err(e) => reduced(*old(acc), *old(pos), *tiers, amount) == Err::<
                (Accumulator, Position),
                StakingError,
            >(e) && *final(acc) == *old(acc) && *final(pos) == *old(pos),
        },
{
    let mut p = *pos;
    p.amount = sub_checked(pos.amount, amount)?;
    let current = tiers.tier_for(p.tier_id);
    if p.amount > 0 && p.amount < current.min_amount {
        p.tier_id = 0;
    }
    let tier = tiers.tier_for(p.tier_id);
    reweigh(acc, &mut p, &tier)?;
    *pos = p;
    Ok(())
}

/// Withdraws `amount` of principal after settling the reward; inside the lock
/// window a 20% penalty is kept back. Returns the principal paid out.
pub fn unstake_position(
    acc: &mut Accumulator,
    pos: &mut Position,
    tiers: &TierRegistry,
    rate: i128,
    now: u64,
    amount: i128,
) -> (r: Result<i128, StakingError>)
    requires
        tiers.wf(),
    ensures
        match r {
            Ok(paid) => unstake_outcome(*old(acc), *old(pos), *tiers, rate, now, amount) == Ok::<
                (Accumulator, Position, i128),
                StakingError,
            >((*final(acc), *final(pos), paid)),
            Err(e) => unstake_outcome(*old(acc), *old(pos), *tiers, rate, now, amount) == Err::<
                (Accumulator, Position, i128),
                StakingError,
            >(e) && *final(acc) == *old(acc) && *final(pos) == *old(pos),
        },
        rate >= 0 ==> final(acc).reward_per_share_stored >= old(acc).reward_per_share_stored,
{
    if amount <= 0 {
        return Err(StakingError::InvalidAmount);
    }
    if pos.amount < amount {
        return Err(StakingError::InsufficientBalance);
    }
    let mut a = *acc;
    let mut p = *pos;
    let ghost a0 = a;
    sync(&mut a, &mut p, rate, now)?;
    proof {
        if rate >= 0 {
            lemma_accrual_monotone(a0, rate, now);
        }
    }
    let locked = (now as u128) < p.lock_start_time as u128 + p.lock_duration as u128;
    let paid = if locked {
        amount - penalty(amount)
    } else {
        amount
    };
    reduce(&mut a, &mut p, tiers, amount)?;
    *acc = a;
    *pos = p;
    Ok(paid)
}

/// Removes `amount` of principal after settling the reward; nothing is paid out.
pub fn slash_position(
    acc: &mut Accumulator,
    pos: &mut Position,
    tiers: &TierRegistry,
    rate: i128,
    now: u64,
    amount: i128,
) -> (r: Result<(), StakingError>)
    requires
        tiers.wf(),
    ensures
        match r {
            Ok(()) => slash_outcome(*old(acc), *old(pos), *tiers, rate, now, amount) == Ok::<
                (Accumulator, Position),
                StakingError,
            >((*final(acc), *final(pos))),
            Err(e) => slash_outcome(*old(acc), *old(pos), *tiers, rate, now, amount) == Err::<
                (Accumulator, Position),
                StakingError,
            >(e) && *final(acc) == *old(acc) && *final(pos) == *old(pos),
        },
        rate >= 0 ==> final(acc).reward_per_share_stored >= old(acc).reward_per_share_stored,
{
    if pos.amount < amount {
        return Err(StakingError::InsufficientBalance);
    }
    let mut a = *acc;
    let mut p = *pos;
    let ghost a0 = a;
    sync(&mut a, &mut p, rate, now)?;
    proof {
        if rate >= 0 {
            lemma_accrual_monotone(a0, rate, now);
        }
    }
    reduce(&mut a, &mut p, tiers, amount)?;
    *acc = a;
    *pos = p;
    Ok(())
}

/// Zeroes the position without settling its reward (pending and settled
/// rewards are forfeited) and returns its principal less a 20% penalty.
pub fn emergency_withdraw_position(acc: &mut Accumulator, pos: &mut Position) -> (r: Result<
    i128,
    StakingError,
>)
    ensures
        match r {
            Ok(paid) => emergency_outcome(*old(acc), *old(pos)) == Ok::<
                (Accumulator, Position, i128),
                StakingError,
            >((*final(acc), *final(pos), paid)),
            Err(e) => emergency_outcome(*old(acc), *old(pos)) == Err::<
                (Accumulator, Position, i128),
                StakingError,
            >(e) && *final(acc) == *old(acc) && *final(pos) == *old(pos),
        },
        final(acc).reward_per_share_stored == old(acc).reward_per_share_stored,
{
    if pos.amount <= 0 {
        return Err(StakingError::ZeroBalance);
    }
    let total = sub_checked(acc.total_shares, pos.shares)?;
    let paid = pos.amount - penalty(pos.amount);
    acc.total_shares = total;
    *pos = zero_position();
    Ok(paid)
}

/// Two claims without compounding at the same time: the second pays nothing
/// and changes nothing.
pub proof fn lemma_second_claim_pays_nothing(
    acc: Accumulator,
    pos: Position,
    tiers: TierRegistry,
    rate: i128,
    now: u64,
    same_asset: bool,
)
    requires
        claim_outcome(acc, pos, tiers, rate, now, false, same_asset) is Ok,
    ensures
        ({
            let (a1, p1, _) = claim_outcome(acc, pos, tiers, rate, now, false, same_asset)->Ok_0;
            claim_outcome(a1, p1, tiers, rate, now, false, same_asset) == Ok::<
                (Accumulator, Position, i128),
                StakingError,
            >((a1, p1, 0))
        }),
{
    let (a1, p1, _) = claim_outcome(acc, pos, tiers, rate, now, false, same_asset)->Ok_0;
    assert(accrued(a1, rate, now) == a1);
    assert(p1.reward_per_share_paid == a1.reward_per_share_stored);
    let d = a1.reward_per_share_stored - p1.reward_per_share_paid;
    assert(p1.shares * d == 0) by (nonlinear_arith)
        requires
            d == 0,
    ;
    assert(pending_reward(p1, a1.reward_per_share_stored) == 0);
    assert(settled(p1, a1.reward_per_share_stored) == p1);
}

} // verus!
