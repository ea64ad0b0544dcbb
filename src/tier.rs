use vstd::prelude::*;

use crate::{fits, mul_checked, div_toward_zero, trunc_div, StakingError};

verus! {

/// Length of one complete lock period, in seconds (30 days).
pub const LOCK_PERIOD: u64 = 2_592_000;

/// Multiplier points (in hundredths) added per complete lock period.
pub const BOOST_PER_PERIOD: i128 = 10;

/// A loyalty tier: the least principal it admits and its base multiplier,
/// scaled by 100 (100 means 1.00x).
#[derive(Debug, Clone, Copy, PartialEq, Eq, Structural)]
pub struct Tier {
    pub min_amount: i128,
    pub reward_multiplier: u32,
}

/// The tier in force where a tier id has never been set.
pub open spec fn fallback_tier() -> Tier {
    Tier { min_amount: 0, reward_multiplier: 100 }
}

/// A looked-up tier, or the fallback where there was none.
pub open spec fn resolve_spec(t: Option<Tier>) -> Tier {
    match t {
        Some(t) => t,
        None => fallback_tier(),
    }
}

/// Multiplier points earned by a lock of `lock_duration` seconds.
pub open spec fn boost(lock_duration: u64) -> int {
    (lock_duration / LOCK_PERIOD) as int * BOOST_PER_PERIOD
}

/// Tier multiplier plus lock boost, scaled by 100.
pub open spec fn effective_multiplier(tier: Tier, lock_duration: u64) -> int {
    tier.reward_multiplier as int + boost(lock_duration)
}

/// Reward weight of `amount` of principal under `tier` and a lock of `lock_duration`.
pub open spec fn shares_of(amount: int, tier: Tier, lock_duration: u64) -> int {
    trunc_div(amount * effective_multiplier(tier, lock_duration), 100)
}

/// The weight of `amount` can be computed without leaving `i128`.
pub open spec fn shares_fit(amount: int, tier: Tier, lock_duration: u64) -> bool {
    fits(amount * effective_multiplier(tier, lock_duration))
}

/// Resolves an optional tier to the tier in force.
pub fn resolve_tier(t: Option<Tier>) -> (r: Tier)
    ensures
        r == resolve_spec(t),
{
    match t {
        Some(t) => t,
        None => Tier { min_amount: 0, reward_multiplier: 100 },
    }
}

/// Tier multiplier plus the boost of the lock.
pub fn multiplier_for(tier: &Tier, lock_duration: u64) -> (m: i128)
    ensures
        m == effective_multiplier(*tier, lock_duration),
        m >= 0,
{
    let periods: u64 = lock_duration / LOCK_PERIOD;
    let boost_points: i128 = periods as i128 * BOOST_PER_PERIOD;
    tier.reward_multiplier as i128 + boost_points
}

/// Shares for `amount` of principal: `floor(amount * multiplier / 100)`.
pub fn compute_shares(amount: i128, tier: &Tier, lock_duration: u64) -> (r: Result<
    i128,
    StakingError,
>)
    ensures
        match r {
            Ok(s) => shares_fit(amount as int, *tier, lock_duration) && s == shares_of(
                amount as int,
                *tier,
                lock_duration,
            ),
            Err(e) => !shares_fit(amount as int, *tier, lock_duration) && e
                == StakingError::Overflow,
        },
{
    let m = multiplier_for(tier, lock_duration);
    let weighted = mul_checked(amount, m)?;
    Ok(div_toward_zero(weighted, 100))
}

/// A longer lock by whole periods never lowers the weight of a non-negative principal.
pub proof fn lemma_longer_lock_more_shares(amount: int, tier: Tier, lock_duration: u64, periods: u64)
    requires
        amount >= 0,
        lock_duration + periods * LOCK_PERIOD <= u64::MAX,
    ensures
        shares_of(amount, tier, lock_duration) <= shares_of(
            amount,
            tier,
            (lock_duration + periods * LOCK_PERIOD) as u64,
        ),
{
    let longer = (lock_duration + periods * LOCK_PERIOD) as u64;
    assert(longer / LOCK_PERIOD == lock_duration / LOCK_PERIOD + periods) by (nonlinear_arith)
        requires
            longer == lock_duration + periods * LOCK_PERIOD,
            LOCK_PERIOD > 0,
    ;
    let m1 = effective_multiplier(tier, lock_duration);
    let m2 = effective_multiplier(tier, longer);
    assert(m1 <= m2);
    assert(amount * m1 <= amount * m2) by (nonlinear_arith)
        requires
            amount >= 0,
            m1 <= m2,
    ;
    assert(m1 >= 0);
    assert(amount * m1 >= 0) by (nonlinear_arith)
        requires
            amount >= 0,
            m1 >= 0,
    ;
    assert((amount * m1) / 100 <= (amount * m2) / 100) by (nonlinear_arith)
        requires
            amount * m1 <= amount * m2,
    ;
}

/// The tier table: at most one entry per tier id.
pub struct TierRegistry {
    entries: Vec<(u32, Tier)>,
}

impl TierRegistry {
    /// No two entries share a tier id.
    pub closed spec fn wf(&self) -> bool {
        forall|i: int, j: int|
            0 <= i < self.entries@.len() && 0 <= j < self.entries@.len() && #[trigger] self.entries@[i].0
                == #[trigger] self.entries@[j].0 ==> i == j
    }

    pub closed spec fn has_entry(&self, id: u32) -> bool {
        exists|i: int| 0 <= i < self.entries@.len() && #[trigger] self.entries@[i].0 == id
    }

    /// The tier stored under `id`, if any.
    pub closed spec fn lookup(&self, id: u32) -> Option<Tier> {
        if self.has_entry(id) {
            let i = choose|i: int| 0 <= i < self.entries@.len() && #[trigger] self.entries@[i].0 == id;
            Some(self.entries@[i].1)
        } else {
            None
        }
    }

    /// The tier in force for `id`: the stored one, or the fallback.
    pub open spec fn resolved(&self, id: u32) -> Tier {
        resolve_spec(self.lookup(id))
    }

    /// An empty table.
    pub fn new() -> (r: TierRegistry)
        ensures
            r.wf(),
            forall|id: u32| r.lookup(id) is None,
    {
        TierRegistry { entries: Vec::new() }
    }

    fn find(&self, id: u32) -> (r: Option<usize>)
        requires
            self.wf(),
        ensures
            match r {
                Some(i) => i < self.entries@.len() && self.entries@[i as int].0 == id,
                None => !self.has_entry(id),
            },
    {
        let mut i: usize = 0;
        while i < self.entries.len()
            invariant
                i <= self.entries@.len(),
                forall|j: int| 0 <= j < i ==> #[trigger] self.entries@[j].0 != id,
            decreases self.entries@.len() - i,
        {
            if self.entries[i].0 == id {
                return Some(i);
            }
            i = i + 1;
        }
        None
    }

    /// The stored tier for `id`, if any.
    pub fn get(&self, id: u32) -> (r: Option<Tier>)
        requires
            self.wf(),
        ensures
            r == self.lookup(id),
    {
        match self.find(id) {
            Some(i) => {
                assert(self.has_entry(id));
                Some(self.entries[i].1)
            },
            None => None,
        }
    }

    /// The tier in force for `id`.
    pub fn tier_for(&self, id: u32) -> (r: Tier)
        requires
            self.wf(),
        ensures
            r == self.resolved(id),
    {
        resolve_tier(self.get(id))
    }

    /// Sets the tier stored under `id`, replacing any earlier one.
    pub fn set(&mut self, id: u32, tier: Tier)
        requires
            old(self).wf(),
        ensures
            final(self).wf(),
            final(self).lookup(id) == Some(tier),
            forall|other: u32| other != id ==> final(self).lookup(other) == old(self).lookup(other),
    {
        match self.find(id) {
            Some(i) => {
                self.entries.set(i, (id, tier));
                assert(self.entries@[i as int].0 == id);
                assert(self.has_entry(id));
                assert forall|a: int, b: int|
                    0 <= a < self.entries@.len() && 0 <= b < self.entries@.len() && #[trigger] self.entries@[a].0
                        == #[trigger] self.entries@[b].0 implies a == b by {
                    assert(old(self).entries@[a].0 == self.entries@[a].0);
                    assert(old(self).entries@[b].0 == self.entries@[b].0);
                }
            },
            None => {
                let ghost n = self.entries@.len() as int;
                self.entries.push((id, tier));
                assert(self.entries@[n] == (id, tier));
                assert(self.entries@[n].0 == id);
                assert(self.has_entry(id));
                assert forall|i: int, j: int|
                    0 <= i < self.entries@.len() && 0 <= j < self.entries@.len() && #[trigger] self.entries@[i].0
                        == #[trigger] self.entries@[j].0 implies i == j by {
                    if i < n && j < n {
                        assert(old(self).entries@[i].0 == old(self).entries@[j].0);
                    } else if i < n {
                        assert(old(self).entries@[i].0 == id);
                    } else if j < n {
                        assert(old(self).entries@[j].0 == id);
                    }
                }
            },
        }
        assert forall|other: u32| other != id implies self.lookup(other) == old(self).lookup(other) by {
            if old(self).has_entry(other) {
                let k = choose|k: int| 0 <= k < old(self).entries@.len() && #[trigger] old(self).entries@[k].0 == other;
                assert(self.entries@[k].0 == other);
                assert(self.has_entry(other));
            }
            if self.has_entry(other) {
                let k = choose|k: int| 0 <= k < self.entries@.len() && #[trigger] self.entries@[k].0 == other;
                assert(old(self).entries@[k].0 == other);
                assert(old(self).has_entry(other));
            }
        }
    }
}

} // verus!
