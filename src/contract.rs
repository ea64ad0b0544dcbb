use vstd::prelude::*;

use crate::accrual::{accrued, settled, zero_position, zero_position_spec, Accumulator, Position};
use crate::engine::{
    claim_outcome, claim_position, emergency_outcome, emergency_withdraw_position,
    slash_outcome, slash_position, stake_outcome, stake_position, unstake_outcome,
    unstake_position,
};
use crate::tier::{Tier, TierRegistry};
use crate::StakingError;

verus! {

/// Settings fixed at initialization.
#[derive(Debug, Clone, Copy, PartialEq, Eq, Structural)]
pub struct Config {
    pub admin: u64,
    pub staking_asset: u64,
    pub reward_asset: u64,
    pub reward_rate: i128,
}

/// A holder of assets: the staking system itself or one participant.
#[derive(Debug, Clone, Copy, PartialEq, Eq, Hash, Structural)]
pub enum Account {
    System,
    Participant(u64),
}

/// A movement of `amount` of asset `asset` that the asset ledger is to perform.
#[derive(Debug, Clone, Copy, PartialEq, Eq, Structural)]
pub struct Transfer {
    pub asset: u64,
    pub from: Account,
    pub to: Account,
    pub amount: i128,
}

/// Balances per (asset, account) after the ledger performs `t`: `from` is
/// debited and `to` credited by its amount.
pub open spec fn after_transfer(balances: Map<(u64, Account), int>, t: Transfer) -> Map<
    (u64, Account),
    int,
> {
    let debited = balances.insert((t.asset, t.from), balances[(t.asset, t.from)] - t.amount);
    debited.insert((t.asset, t.to), debited[(t.asset, t.to)] + t.amount)
}

/// Sum of the shares of a list of positions.
pub open spec fn sum_shares(s: Seq<(u64, Position)>) -> int
    decreases s.len(),
{
    if s.len() == 0 {
        0
    } else {
        sum_shares(s.drop_last()) + s.last().1.shares
    }
}

proof fn lemma_sum_shares_update(s: Seq<(u64, Position)>, i: int, x: (u64, Position))
    requires
        0 <= i < s.len(),
    ensures
        sum_shares(s.update(i, x)) == sum_shares(s) - s[i].1.shares + x.1.shares,
    decreases s.len(),
{
    let t = s.update(i, x);
    if i == s.len() - 1 {
        assert(t.drop_last() =~= s.drop_last());
    } else {
        lemma_sum_shares_update(s.drop_last(), i, x);
        assert(t.drop_last() =~= s.drop_last().update(i, x));
    }
}

proof fn lemma_sum_shares_push(s: Seq<(u64, Position)>, x: (u64, Position))
    ensures
        sum_shares(s.push(x)) == sum_shares(s) + x.1.shares,
{
    assert(s.push(x).drop_last() =~= s);
}

/// The staking system: configuration, tier table, accrual state and one
/// position per participant.
pub struct StakingContract {
    config: Option<Config>,
    tiers: TierRegistry,
    accumulator: Accumulator,
    positions: Vec<(u64, Position)>,
}

impl StakingContract {
    pub closed spec fn config(&self) -> Option<Config> {
        self.config
    }

    pub closed spec fn tier_table(&self) -> TierRegistry {
        self.tiers
    }

    pub closed spec fn accumulator(&self) -> Accumulator {
        self.accumulator
    }

    pub closed spec fn has_position(&self, id: u64) -> bool {
        exists|i: int| 0 <= i < self.positions@.len() && #[trigger] self.positions@[i].0 == id
    }

    /// The position of participant `id`, if one was ever created.
    pub closed spec fn position(&self, id: u64) -> Option<Position> {
        if self.has_position(id) {
            let i = choose|i: int| 0 <= i < self.positions@.len() && #[trigger] self.positions@[i].0 == id;
            Some(self.positions@[i].1)
        } else {
            None
        }
    }

    /// The position of `id`, or the zero position that a first stake starts from.
    pub open spec fn position_or_zero(&self, id: u64) -> Position {
        match self.position(id) {
            Some(p) => p,
            None => zero_position_spec(),
        }
    }

    /// Sum of the shares of all positions.
    pub closed spec fn shares_sum(&self) -> int {
        sum_shares(self.positions@)
    }

    pub closed spec fn keys_unique(&self) -> bool {
        &&& self.tiers.wf()
        &&& forall|i: int, j: int|
            0 <= i < self.positions@.len() && 0 <= j < self.positions@.len()
                && #[trigger] self.positions@[i].0 == #[trigger] self.positions@[j].0 ==> i == j
    }

    /// Well-formed: the tier table is well-formed, and the total of shares is
    /// the sum of all positions' shares.
    pub open spec fn wf(&self) -> bool {
        &&& self.keys_unique()
        &&& self.tier_table().wf()
        &&& self.accumulator().total_shares == self.shares_sum()
    }

    /// An uninitialized system with no tiers and no positions.
    pub fn new() -> (r: StakingContract)
        ensures
            r.wf(),
            r.config() is None,
            r.accumulator() == (Accumulator {
                reward_per_share_stored: 0,
                last_update_time: 0,
                total_shares: 0,
            }),
            forall|id: u64| r.position(id) is None,
            forall|id: u32| r.tier_table().lookup(id) is None,
    {
        StakingContract {
            config: None,
            tiers: TierRegistry::new(),
            accumulator: Accumulator { reward_per_share_stored: 0, last_update_time: 0, total_shares: 0 },
            positions: Vec::new(),
        }
    }

    fn find_position(&self, id: u64) -> (r: Option<usize>)
        ensures
            match r {
                Some(i) => i < self.positions@.len() && self.positions@[i as int].0 == id,
                None => !self.has_position(id),
            },
    {
        let mut i: usize = 0;
        while i < self.positions.len()
            invariant
                i <= self.positions@.len(),
                forall|j: int| 0 <= j < i ==> #[trigger] self.positions@[j].0 != id,
            decreases self.positions@.len() - i,
        {
            if self.positions[i].0 == id {
                return Some(i);
            }
            i = i + 1;
        }
        None
    }

    /// Looks up a position, with the index where it is stored.
    fn lookup_position(&self, id: u64) -> (r: (Option<usize>, Position))
        requires
            self.wf(),
        ensures
            r.1 == self.position_or_zero(id),
            match r.0 {
                Some(i) => i < self.positions@.len() && self.positions@[i as int].0 == id
                    && self.position(id) == Some(r.1),
                None => self.position(id) is None,
            },
    {
        match self.find_position(id) {
            Some(i) => {
                assert(self.has_position(id));
                (Some(i), self.positions[i].1)
            },
            None => (None, zero_position()),
        }
    }

    /// Stores `pos` for `id` (at index `at`, or as a new entry) together with
    /// the accumulator `acc`, whose total accounts for the change of shares.
    fn commit(&mut self, id: u64, at: Option<usize>, pos: Position, acc: Accumulator)
        requires
            old(self).wf(),
            match at {
                Some(i) => i < old(self).positions@.len() && old(self).positions@[i as int].0 == id,
                None => old(self).position(id) is None,
            },
            acc.total_shares == old(self).accumulator().total_shares - old(self).position_or_zero(
                id,
            ).shares + pos.shares,
        ensures
            final(self).wf(),
            final(self).position(id) == Some(pos),
            forall|other: u64| other != id ==> final(self).position(other) == old(self).position(other),
            final(self).accumulator() == acc,
            final(self).config() == old(self).config(),
            final(self).tier_table() == old(self).tier_table(),
    {
        let ghost s = self.positions@;
        match at {
            Some(i) => {
                proof {
                    assert(old(self).has_position(id));
                    lemma_sum_shares_update(s, i as int, (id, pos));
                }
                self.positions.set(i, (id, pos));
                assert(self.positions@ =~= s.update(i as int, (id, pos)));
                assert(self.positions@[i as int].0 == id);
                assert(self.has_position(id));
                assert forall|a: int, b: int|
                    0 <= a < self.positions@.len() && 0 <= b < self.positions@.len()
                        && #[trigger] self.positions@[a].0 == #[trigger] self.positions@[b].0 implies a == b by {
                    assert(s[a].0 == self.positions@[a].0);
                    assert(s[b].0 == self.positions@[b].0);
                }
            },
            None => {
                proof {
                    lemma_sum_shares_push(s, (id, pos));
                }
                let ghost n = s.len() as int;
                self.positions.push((id, pos));
                assert(self.positions@ =~= s.push((id, pos)));
                assert(self.positions@[n].0 == id);
                assert(self.has_position(id));
                assert forall|a: int, b: int|
                    0 <= a < self.positions@.len() && 0 <= b < self.positions@.len()
                        && #[trigger] self.positions@[a].0 == #[trigger] self.positions@[b].0 implies a == b by {
                    if a < n && b < n {
                        assert(s[a].0 == s[b].0);
                    } else if a < n {
                        assert(s[a].0 == id);
                        assert(old(self).has_position(id));
                    } else if b < n {
                        assert(s[b].0 == id);
                        assert(old(self).has_position(id));
                    }
                }
            },
        }
        self.accumulator = acc;
        assert forall|other: u64| other != id implies self.position(other) == old(self).position(other) by {
            if old(self).has_position(other) {
                let k = choose|k: int| 0 <= k < s.len() && #[trigger] s[k].0 == other;
                assert(self.positions@[k].0 == other);
                assert(self.has_position(other));
            }
            if self.has_position(other) {
                let k = choose|k: int| 0 <= k < self.positions@.len() && #[trigger] self.positions@[k].0 == other;
                assert(s[k].0 == other);
                assert(old(self).has_position(other));
            }
        }
    }

    /// `next` is `self` with the accumulator replaced by `acc` and the position
    /// of `id` by `pos`; all else is unchanged.
    pub open spec fn updated_to(&self, next: StakingContract, id: u64, acc: Accumulator, pos: Position) -> bool {
        &&& next.config() == self.config()
        &&& next.tier_table() == self.tier_table()
        &&& next.accumulator() == acc
        &&& next.position(id) == Some(pos)
        &&& forall|other: u64| other != id ==> next.position(other) == self.position(other)
    }

    /// What `initialize` is to do.
    pub open spec fn initialize_result(&self) -> Result<(), StakingError> {
        if self.config() is Some {
            Err(StakingError::AlreadyInitialized)
        } else {
            Ok(())
        }
    }

    /// Sets the configuration once and starts the accrual clock at `now`.
    pub fn initialize(
        &mut self,
        admin: u64,
        staking_asset: u64,
        reward_asset: u64,
        reward_rate: i128,
        now: u64,
    ) -> (r: Result<(), StakingError>)
        requires
            old(self).wf(),
        ensures
            final(self).wf(),
            final(self).accumulator().reward_per_share_stored == old(self).accumulator().reward_per_share_stored,
            r == old(self).initialize_result(),
            r is Ok ==> {
                &&& final(self).config() == Some(
                    Config { admin, staking_asset, reward_asset, reward_rate },
                )
                &&& final(self).accumulator() == (Accumulator {
                    last_update_time: now,
                    ..old(self).accumulator()
                })
                &&& final(self).tier_table() == old(self).tier_table()
                &&& forall|id: u64| final(self).position(id) == old(self).position(id)
            },
            r is Err ==> *final(self) == *old(self),
    {
        if self.config.is_some() {
            return Err(StakingError::AlreadyInitialized);
        }
        self.config = Some(Config { admin, staking_asset, reward_asset, reward_rate });
        self.accumulator.last_update_time = now;
        Ok(())
    }

    /// What `set_tier` is to do.
    pub open spec fn set_tier_result(&self, caller: u64) -> Result<(), StakingError> {
        match self.config() {
            None => Err(StakingError::NotInitialized),
            Some(c) => if caller != c.admin {
                Err(StakingError::Unauthorized)
            } else {
                Ok(())
            },
        }
    }

    /// Admin only: creates or replaces tier `tier_id`. Existing positions keep
    /// their shares until their next change.
    pub fn set_tier(&mut self, caller: u64, tier_id: u32, min_amount: i128, reward_multiplier: u32) -> (r:
        Result<(), StakingError>)
        requires
            old(self).wf(),
        ensures
            final(self).wf(),
            final(self).accumulator().reward_per_share_stored == old(self).accumulator().reward_per_share_stored,
            r == old(self).set_tier_result(caller),
            r is Ok ==> {
                &&& final(self).tier_table().lookup(tier_id) == Some(Tier { min_amount, reward_multiplier })
                &&& forall|other: u32|
                    other != tier_id ==> final(self).tier_table().lookup(other) == old(self).tier_table().lookup(other)
                &&& final(self).config() == old(self).config()
                &&& final(self).accumulator() == old(self).accumulator()
                &&& forall|id: u64| final(self).position(id) == old(self).position(id)
            },
            r is Err ==> *final(self) == *old(self),
    {
        let config = match self.config {
            Some(c) => c,
            None => return Err(StakingError::NotInitialized),
        };
        if caller != config.admin {
            return Err(StakingError::Unauthorized);
        }
        self.tiers.set(tier_id, Tier { min_amount, reward_multiplier });
        Ok(())
    }

    /// What `stake` is to do to the accumulator and the participant's position.
    pub open spec fn stake_result(
        &self,
        participant: u64,
        amount: i128,
        lock_duration: u64,
        tier_id: u32,
        now: u64,
    ) -> Result<(Accumulator, Position), StakingError> {
        if amount <= 0 {
            Err(StakingError::InvalidAmount)
        } else {
            match self.config() {
                None => Err(StakingError::NotInitialized),
                Some(c) => stake_outcome(
                    self.accumulator(),
                    self.position_or_zero(participant),
                    self.tier_table(),
                    c.reward_rate,
                    now,
                    amount,
                    lock_duration,
                    tier_id,
                ),
            }
        }
    }

    /// Stakes `amount` for `participant` under tier `tier_id` with a lock of
    /// `lock_duration` seconds from `now`. Returns the deposit the ledger is to
    /// make from the participant to the system.
    pub fn stake(
        &mut self,
        participant: u64,
        amount: i128,
        lock_duration: u64,
        tier_id: u32,
        now: u64,
    ) -> (r: Result<Transfer, StakingError>)
        requires
            old(self).wf(),
        ensures
            final(self).wf(),
            old(self).config() is Some && old(self).config().unwrap().reward_rate >= 0
                ==> final(self).accumulator().reward_per_share_stored >= old(self).accumulator().reward_per_share_stored,
            match r {
                Ok(t) => match old(self).stake_result(participant, amount, lock_duration, tier_id, now) {
                    Ok((a, p)) => old(self).updated_to(*final(self), participant, a, p) && t == (Transfer {
                        asset: old(self).config().unwrap().staking_asset,
                        from: Account::Participant(participant),
                        to: Account::System,
                        amount,
                    }),
                    Err(_) => false,
                },
                Err(e) => old(self).stake_result(participant, amount, lock_duration, tier_id, now)
                    == Err::<(Accumulator, Position), StakingError>(e) && *final(self) == *old(self),
            },
    {
        if amount <= 0 {
            return Err(StakingError::InvalidAmount);
        }
        let config = match self.config {
            Some(c) => c,
            None => return Err(StakingError::NotInitialized),
        };
        let (at, mut pos) = self.lookup_position(participant);
        let mut acc = self.accumulator;
        stake_position(
            &mut acc,
            &mut pos,
            &self.tiers,
            config.reward_rate,
            now,
            amount,
            lock_duration,
            tier_id,
        )?;
        self.commit(participant, at, pos, acc);
        Ok(Transfer {
            asset: config.staking_asset,
            from: Account::Participant(participant),
            to: Account::System,
            amount,
        })
    }

    /// The payout of `amount` of `asset` from the system to `participant`.
    pub open spec fn payout(asset: u64, participant: u64, amount: i128) -> Transfer {
        Transfer { asset, from: Account::System, to: Account::Participant(participant), amount }
    }

    /// What `claim` is to do: accumulator, position, and reward paid out.
    pub open spec fn claim_result(&self, participant: u64, compound: bool, now: u64) -> Result<
        (Accumulator, Position, i128),
        StakingError,
    > {
        match self.config() {
            None => Err(StakingError::NotInitialized),
            Some(c) => match self.position(participant) {
                None => Err(StakingError::PositionNotFound),
                Some(pos) => claim_outcome(
                    self.accumulator(),
                    pos,
                    self.tier_table(),
                    c.reward_rate,
                    now,
                    compound,
                    c.staking_asset == c.reward_asset,
                ),
            },
        }
    }

    /// Pays out the participant's settled rewards, or with `compound` adds them
    /// to its principal. Returns the payout the ledger is to make, if any.
    pub fn claim(&mut self, participant: u64, compound: bool, now: u64) -> (r: Result<
        Option<Transfer>,
        StakingError,
    >)
        requires
            old(self).wf(),
        ensures
            final(self).wf(),
            old(self).config() is Some && old(self).config().unwrap().reward_rate >= 0
                ==> final(self).accumulator().reward_per_share_stored >= old(self).accumulator().reward_per_share_stored,
            match r {
                Ok(t) => match old(self).claim_result(participant, compound, now) {
                    Ok((a, p, paid)) => old(self).updated_to(*final(self), participant, a, p) && t == (
                    if paid > 0 {
                        Some(
                            Self::payout(old(self).config().unwrap().reward_asset, participant, paid),
                        )
                    } else {
                        None
                    }),
                    Err(_) => false,
                },
                Err(e) => old(self).claim_result(participant, compound, now) == Err::<
                    (Accumulator, Position, i128),
                    StakingError,
                >(e) && *final(self) == *old(self),
            },
    {
        let config = match self.config {
            Some(c) => c,
            None => return Err(StakingError::NotInitialized),
        };
        let (at, mut pos) = self.lookup_position(participant);
        if at.is_none() {
            return Err(StakingError::PositionNotFound);
        }
        let mut acc = self.accumulator;
        let paid = claim_position(
            &mut acc,
            &mut pos,
            &self.tiers,
            config.reward_rate,
            now,
            compound,
            config.staking_asset == config.reward_asset,
        )?;
        self.commit(participant, at, pos, acc);
        if paid > 0 {
            Ok(
                Some(
                    Transfer {
                        asset: config.reward_asset,
                        from: Account::System,
                        to: Account::Participant(participant),
                        amount: paid,
                    },
                ),
            )
        } else {
            Ok(None)
        }
    }

    /// What `unstake` is to do: accumulator, position, and principal paid out.
    pub open spec fn unstake_result(&self, participant: u64, amount: i128, now: u64) -> Result<
        (Accumulator, Position, i128),
        StakingError,
    > {
        if amount <= 0 {
            Err(StakingError::InvalidAmount)
        } else {
            match self.config() {
                None => Err(StakingError::NotInitialized),
                Some(c) => match self.position(participant) {
                    None => Err(StakingError::PositionNotFound),
                    Some(pos) => unstake_outcome(
                        self.accumulator(),
                        pos,
                        self.tier_table(),
                        c.reward_rate,
                        now,
                        amount,
                    ),
                },
            }
        }
    }

    /// Withdraws `amount` of principal; inside the lock window 20% is kept
    /// back. Returns the payout the ledger is to make.
    pub fn unstake(&mut self, participant: u64, amount: i128, now: u64) -> (r: Result<
        Transfer,
        StakingError,
    >)
        requires
            old(self).wf(),
        ensures
            final(self).wf(),
            old(self).config() is Some && old(self).config().unwrap().reward_rate >= 0
                ==> final(self).accumulator().reward_per_share_stored >= old(self).accumulator().reward_per_share_stored,
            match r {
                Ok(t) => match old(self).unstake_result(participant, amount, now) {
                    Ok((a, p, paid)) => old(self).updated_to(*final(self), participant, a, p) && t
                        == Self::payout(old(self).config().unwrap().staking_asset, participant, paid),
                    Err(_) => false,
                },
                Err(e) => old(self).unstake_result(participant, amount, now) == Err::<
                    (Accumulator, Position, i128),
                    StakingError,
                >(e) && *final(self) == *old(self),
            },
    {
        if amount <= 0 {
            return Err(StakingError::InvalidAmount);
        }
        let config = match self.config {
            Some(c) => c,
            None => return Err(StakingError::NotInitialized),
        };
        let (at, mut pos) = self.lookup_position(participant);
        if at.is_none() {
            return Err(StakingError::PositionNotFound);
        }
        let mut acc = self.accumulator;
        let paid = unstake_position(&mut acc, &mut pos, &self.tiers, config.reward_rate, now, amount)?;
        self.commit(participant, at, pos, acc);
        Ok(
            Transfer {
                asset: config.staking_asset,
                from: Account::System,
                to: Account::Participant(participant),
                amount: paid,
            },
        )
    }

    /// What `slash` is to do to the accumulator and the participant's position.
    pub open spec fn slash_result(&self, caller: u64, participant: u64, amount: i128, now: u64) -> Result<
        (Accumulator, Position),
        StakingError,
    > {
        match self.config() {
            None => Err(StakingError::NotInitialized),
            Some(c) => if caller != c.admin {
                Err(StakingError::Unauthorized)
            } else {
                match self.position(participant) {
                    None => Err(StakingError::PositionNotFound),
                    Some(pos) => slash_outcome(
                        self.accumulator(),
                        pos,
                        self.tier_table(),
                        c.reward_rate,
                        now,
                        amount,
                    ),
                }
            },
        }
    }

    /// Admin only: removes `amount` of the participant's principal, which stays
    /// with the system; nothing is transferred.
    pub fn slash(&mut self, caller: u64, participant: u64, amount: i128, now: u64) -> (r: Result<
        (),
        StakingError,
    >)
        requires
            old(self).wf(),
        ensures
            final(self).wf(),
            old(self).config() is Some && old(self).config().unwrap().reward_rate >= 0
                ==> final(self).accumulator().reward_per_share_stored >= old(self).accumulator().reward_per_share_stored,
            match r {
                Ok(()) => match old(self).slash_result(caller, participant, amount, now) {
                    Ok((a, p)) => old(self).updated_to(*final(self), participant, a, p),
                    Err(_) => false,
                },
                Err(e) => old(self).slash_result(caller, participant, amount, now) == Err::<
                    (Accumulator, Position),
                    StakingError,
                >(e) && *final(self) == *old(self),
            },
    {
        let config = match self.config {
            Some(c) => c,
            None => return Err(StakingError::NotInitialized),
        };
        if caller != config.admin {
            return Err(StakingError::Unauthorized);
        }
        let (at, mut pos) = self.lookup_position(participant);
        if at.is_none() {
            return Err(StakingError::PositionNotFound);
        }
        let mut acc = self.accumulator;
        slash_position(&mut acc, &mut pos, &self.tiers, config.reward_rate, now, amount)?;
        self.commit(participant, at, pos, acc);
        Ok(())
    }

    /// What `emergency_withdraw` is to do: accumulator, position, and principal paid out.
    pub open spec fn emergency_withdraw_result(&self, participant: u64) -> Result<
        (Accumulator, Position, i128),
        StakingError,
    > {
        match self.config() {
            None => Err(StakingError::NotInitialized),
            Some(c) => match self.position(participant) {
                None => Err(StakingError::PositionNotFound),
                Some(pos) => emergency_outcome(self.accumulator(), pos),
            },
        }
    }

    /// Exits at once without settling rewards: the position is zeroed and its
    /// principal less 20% is paid out.
    pub fn emergency_withdraw(&mut self, participant: u64) -> (r: Result<Transfer, StakingError>)
        requires
            old(self).wf(),
        ensures
            final(self).wf(),
            final(self).accumulator().reward_per_share_stored == old(self).accumulator().reward_per_share_stored,
            match r {
                Ok(t) => match old(self).emergency_withdraw_result(participant) {
                    Ok((a, p, paid)) => old(self).updated_to(*final(self), participant, a, p) && t
                        == Self::payout(old(self).config().unwrap().staking_asset, participant, paid),
                    Err(_) => false,
                },
                Err(e) => old(self).emergency_withdraw_result(participant) == Err::<
                    (Accumulator, Position, i128),
                    StakingError,
                >(e) && *final(self) == *old(self),
            },
    {
        let config = match self.config {
            Some(c) => c,
            None => return Err(StakingError::NotInitialized),
        };
        let (at, mut pos) = self.lookup_position(participant);
        if at.is_none() {
            return Err(StakingError::PositionNotFound);
        }
        let mut acc = self.accumulator;
        let paid = emergency_withdraw_position(&mut acc, &mut pos)?;
        self.commit(participant, at, pos, acc);
        Ok(
            Transfer {
                asset: config.staking_asset,
                from: Account::System,
                to: Account::Participant(participant),
                amount: paid,
            },
        )
    }

    /// The configuration, once initialized.
    pub fn get_config(&self) -> (r: Option<Config>)
        ensures
            r == self.config(),
    {
        self.config
    }

    /// The global accrual state.
    pub fn get_accumulator(&self) -> (r: Accumulator)
        ensures
            r == self.accumulator(),
    {
        self.accumulator
    }

    /// The position of `participant`, if it has one.
    pub fn get_position(&self, participant: u64) -> (r: Option<Position>)
        requires
            self.wf(),
        ensures
            r == self.position(participant),
    {
        let (at, pos) = self.lookup_position(participant);
        match at {
            Some(_) => Some(pos),
            None => None,
        }
    }

    /// The tier stored under `tier_id`, if any.
    pub fn get_tier(&self, tier_id: u32) -> (r: Option<Tier>)
        requires
            self.wf(),
        ensures
            r == self.tier_table().lookup(tier_id),
    {
        self.tiers.get(tier_id)
    }
}

/// A claim without compounding that pays a reward R debits exactly R of the
/// reward asset from the system and credits exactly R to the participant;
/// R is the position's whole settled reward.
pub proof fn lemma_claim_conserves_reward(
    c: StakingContract,
    participant: u64,
    now: u64,
    balances: Map<(u64, Account), int>,
)
    requires
        c.wf(),
        c.claim_result(participant, false, now) is Ok,
        c.claim_result(participant, false, now)->Ok_0.2 > 0,
    ensures
        ({
            let paid = c.claim_result(participant, false, now)->Ok_0.2;
            let asset = c.config().unwrap().reward_asset;
            let after = after_transfer(
                balances,
                StakingContract::payout(asset, participant, paid),
            );
            &&& after[(asset, Account::System)] == balances[(asset, Account::System)] - paid
            &&& after[(asset, Account::Participant(participant))] == balances[(
                asset,
                Account::Participant(participant),
            )] + paid
            &&& forall|k: (u64, Account)|
                k != (asset, Account::System) && k != (asset, Account::Participant(participant))
                    ==> after[k] == balances[k]
            &&& paid == settled(
                c.position(participant).unwrap(),
                accrued(c.accumulator(), c.config().unwrap().reward_rate, now).reward_per_share_stored,
            ).rewards
        }),
{
}

} // verus!
