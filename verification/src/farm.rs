//! Farms: terms, lifecycle, reward pool and the accrual rule.

use crate::error::FarmError;
use crate::farmer::StakingInfo;
use crate::ledger::Ledger;
use crate::seed::SeedId;
use vstd::arithmetic::div_mod::{lemma_div_is_ordered, lemma_div_multiples_vanish, lemma_fundamental_div_mod, lemma_hoist_over_denominator};
use vstd::prelude::*;
use vstd::set_lib::lemma_set_subset_finite;

verus! {

pub type FarmId = String;

pub type AccountId = String;

pub type NFTTokenId = String;

pub type ContractNFTTokenId = String;

pub type Timestamp = u64;

pub type Balance = u128;

#[derive(Clone, Copy, Debug, PartialEq, Eq, Structural)]
pub enum Status {
    Created,
    Running,
    Ended,
}

impl Status {
    /// The status as shown to readers of a farm.
    pub fn label(&self) -> (r: String)
        ensures
            r@ == (match *self {
                Status::Created => "Created"@,
                Status::Running => "Running"@,
                Status::Ended => "Ended"@,
            }),
    {
        match *self {
            Status::Created => "Created".to_owned(),
            Status::Running => "Running".to_owned(),
            Status::Ended => "Ended".to_owned(),
        }
    }
}

/// The record of one staked item: who staked it and when.
#[derive(Debug)]
pub struct StakedInfo {
    pub owner_id: AccountId,
    pub staked_at: Timestamp,
}

impl StakedInfo {
    pub fn duplicate(&self) -> (r: Self)
        ensures
            r == *self,
    {
        StakedInfo { owner_id: self.owner_id.clone(), staked_at: self.staked_at }
    }
}

pub struct Terms {
    pub seed_id: SeedId,
    pub start_at: Timestamp,
    pub reward_per_session: Balance,
    pub session_interval: Timestamp,
}

/// Terms as they arrive in a creation request.
pub struct TermsJson {
    pub seed_id: SeedId,
    pub start_at: u64,
    pub reward_per_session: u128,
    pub session_interval: u64,
}

impl Terms {
    pub fn from(terms: TermsJson) -> (r: Self)
        ensures
            r.seed_id == terms.seed_id,
            r.start_at == terms.start_at,
            r.reward_per_session == terms.reward_per_session,
            r.session_interval == terms.session_interval,
    {
        Terms {
            seed_id: terms.seed_id,
            start_at: terms.start_at,
            reward_per_session: terms.reward_per_session,
            session_interval: terms.session_interval,
        }
    }
}

pub struct Farm {
    pub owner_id: AccountId,
    pub terms: Terms,
    pub status: Status,
    pub amount_of_reward: Balance,
    pub amount_of_claimed: Balance,
    pub nft_contract_id: AccountId,
    pub staked_nfts: Ledger<StakedInfo>,
    pub accepted_nfts: Vec<NFTTokenId>,
}

/// Reward earned by `amount` items at `rate` per session over `elapsed` time,
/// sessions being `interval` long; the quotient is truncated.
pub open spec fn accrued(amount: u128, rate: u128, elapsed: int, interval: u64) -> int {
    (amount * rate * elapsed) / (interval as int)
}

/// What a position may claim from a farm at time `now`: nothing unless the farm
/// is running and more than one session has passed since the position was last
/// settled; otherwise the accrued reward, capped at the remaining pool.
pub open spec fn claimable_spec(farm: Farm, position: StakingInfo, now: u64) -> int {
    if farm.status != Status::Running || now - position.last_staked_at
        <= farm.terms.session_interval {
        0
    } else {
        let earned = accrued(
            position.amount,
            farm.terms.reward_per_session,
            now - position.last_staked_at,
            farm.terms.session_interval,
        );
        if earned > farm.amount_of_reward {
            farm.amount_of_reward as int
        } else {
            earned
        }
    }
}

/// The farm after a settlement of `amount`: a claim that reaches the remaining
/// pool pays out all of it and ends the farm; a smaller one moves `amount`
/// from the pool to the claimed total.
pub open spec fn settled_farm(farm: Farm, amount: u128) -> Farm {
    if farm.amount_of_reward <= amount {
        Farm {
            amount_of_reward: 0,
            amount_of_claimed: (farm.amount_of_claimed + farm.amount_of_reward) as u128,
            status: Status::Ended,
            ..farm
        }
    } else {
        Farm {
            amount_of_reward: (farm.amount_of_reward - amount) as u128,
            amount_of_claimed: (farm.amount_of_claimed + amount) as u128,
            ..farm
        }
    }
}

/// What a settlement of `amount` pays.
pub open spec fn settled_paid(farm: Farm, amount: u128) -> u128 {
    if farm.amount_of_reward <= amount {
        farm.amount_of_reward
    } else {
        amount
    }
}

/// The position after a settlement of `amount` at `now`: it is advanced to
/// `now` unless the settlement ended the farm.
pub open spec fn settled_position(farm: Farm, position: StakingInfo, amount: u128, now: u64) -> StakingInfo {
    if farm.amount_of_reward <= amount {
        position
    } else {
        StakingInfo { last_staked_at: now, ..position }
    }
}

/// The farm after a top-up of `amount` at `now`.
pub open spec fn funded_farm(farm: Farm, amount: u128, now: u64) -> Farm {
    Farm {
        status: Status::Running,
        amount_of_reward: (farm.amount_of_reward + amount) as u128,
        terms: Terms {
            start_at: if farm.status == Status::Created && farm.terms.start_at == 0 {
                now
            } else {
                farm.terms.start_at
            },
            ..farm.terms
        },
        ..farm
    }
}

impl Farm {
    pub open spec fn wf(&self) -> bool {
        &&& self.staked_nfts.wf()
        &&& self.terms.session_interval > 0
        &&& self.amount_of_reward + self.amount_of_claimed <= u128::MAX
        &&& self.status == Status::Ended ==> self.amount_of_reward == 0
        &&& self.status == Status::Created ==> self.amount_of_reward == 0 && self.amount_of_claimed
            == 0
    }

    /// Whether the farm is well formed.
    pub fn check(&self) -> (b: bool)
        ensures
            b == self.wf(),
    {
        self.staked_nfts.check() && self.terms.session_interval > 0 && self.amount_of_reward
            <= u128::MAX - self.amount_of_claimed && (self.status != Status::Ended
            || self.amount_of_reward == 0) && (self.status != Status::Created || (
        self.amount_of_reward == 0 && self.amount_of_claimed == 0))
    }

    /// Whether the farm takes the item `token`.
    pub open spec fn accepts(&self, token: Seq<char>) -> bool {
        exists|i: int| 0 <= i < self.accepted_nfts@.len() && self.accepted_nfts@[i]@ == token
    }

    /// The staked items whose recorded owner is `account`.
    pub open spec fn owned_by(&self, account: Seq<char>) -> Set<Seq<char>> {
        Set::new(
            |t: Seq<char>|
                self.staked_nfts@.dom().contains(t) && self.staked_nfts@[t].owner_id@ == account,
        )
    }

    /// An account owns finitely many of the staked items.
    pub proof fn lemma_owned_finite(&self, account: Seq<char>)
        ensures
            self.owned_by(account).finite(),
    {
        self.staked_nfts.lemma_dom_finite();
        assert(self.owned_by(account).subset_of(self.staked_nfts@.dom()));
        lemma_set_subset_finite(self.staked_nfts@.dom(), self.owned_by(account));
    }

    /// Everything the pool has ever held: what remains plus what was paid.
    pub open spec fn total(&self) -> int {
        self.amount_of_reward + self.amount_of_claimed
    }

    pub fn new(owner_id: AccountId, terms: Terms, nft_contract_id: AccountId, accepted_nfts: Vec<NFTTokenId>) -> (r: Self)
        requires
            terms.session_interval > 0,
        ensures
            r.wf(),
            r.owner_id == owner_id,
            r.terms == terms,
            r.status == Status::Created,
            r.amount_of_reward == 0,
            r.amount_of_claimed == 0,
            r.nft_contract_id == nft_contract_id,
            r.accepted_nfts == accepted_nfts,
            r.staked_nfts@ == Map::<Seq<char>, StakedInfo>::empty(),
            r.staked_nfts.order() == Seq::<Seq<char>>::empty(),
    {
        Self {
            owner_id,
            terms,
            status: Status::Created,
            amount_of_claimed: 0,
            amount_of_reward: 0,
            nft_contract_id,
            staked_nfts: Ledger::new(),
            accepted_nfts,
        }
    }

    /// Pays out the rest of the pool, `amount`, and ends the farm.
    pub fn set_ended(&mut self, amount: Balance)
        requires
            old(self).amount_of_claimed + amount <= u128::MAX,
        ensures
            *final(self) == (Farm {
                amount_of_reward: 0,
                amount_of_claimed: (old(self).amount_of_claimed + amount) as u128,
                status: Status::Ended,
                ..*old(self)
            }),
    {
        self.amount_of_reward = 0;
        self.amount_of_claimed += amount;
        self.status = Status::Ended;
    }

    /// Adds `amount` to the pool at time `now`. The first top-up starts the
    /// farm, and fixes its start time if none was configured. An ended farm
    /// takes no reward.
    pub fn add_reward(&mut self, amount: Balance, now: Timestamp) -> (r: Result<(), FarmError>)
        requires
            old(self).wf(),
        ensures
            final(self).wf(),
            old(self).status == Status::Ended ==> r == Err::<(), FarmError>(FarmError::InvalidState),
            old(self).status != Status::Ended && old(self).total() + amount > u128::MAX ==> r
                == Err::<(), FarmError>(FarmError::Overflow),
            old(self).status != Status::Ended && old(self).total() + amount <= u128::MAX ==> r
                == Ok::<(), FarmError>(()),
            r.is_err() ==> *final(self) == *old(self),
            r.is_ok() ==> *final(self) == funded_farm(*old(self), amount, now),
    {
        if self.status == Status::Ended {
            return Err(FarmError::InvalidState);
        }
        if amount > u128::MAX - self.amount_of_reward - self.amount_of_claimed {
            return Err(FarmError::Overflow);
        }
        if self.status == Status::Created {
            self.status = Status::Running;
            if self.terms.start_at == 0 {
                self.terms.start_at = now;
            }
        }
        self.amount_of_reward += amount;
        Ok(())
    }

    /// The amount `position` may claim at `now`; never more than the pool holds.
    pub fn claimable(&self, position: &StakingInfo, now: Timestamp) -> (r: Balance)
        requires
            self.terms.session_interval > 0,
        ensures
            r == claimable_spec(*self, *position, now),
            r <= self.amount_of_reward,
    {
        if self.status != Status::Running || now <= position.last_staked_at {
            return 0;
        }
        let elapsed: u64 = now - position.last_staked_at;
        if elapsed <= self.terms.session_interval {
            return 0;
        }
        let pool: u128 = self.amount_of_reward;
        let e: u128 = elapsed as u128;
        let i: u128 = self.terms.session_interval as u128;
        let ghost a = position.amount as int;
        let ghost rate = self.terms.reward_per_session as int;
        let ghost full = accrued(
            position.amount,
            self.terms.reward_per_session,
            elapsed as int,
            self.terms.session_interval,
        );
        match position.amount.checked_mul(self.terms.reward_per_session) {
            None => {
                proof {
                    lemma_scaled_quotient_at_least(a * rate, e as int, i as int);
                }
                pool
            },
            Some(p) => {
                let q: u128 = p / i;
                let rem: u128 = p % i;
                assert(rem * e <= u128::MAX) by (nonlinear_arith)
                    requires
                        rem < i,
                        i <= u64::MAX,
                        e <= u64::MAX,
                ;
                let tail: u128 = (rem * e) / i;
                proof {
                    lemma_split_quotient(p as int, e as int, i as int);
                    assert(a * rate == p);
                    assert(full == q * e + tail);
                    assert(0 <= q * e) by (nonlinear_arith)
                        requires
                            0 <= q,
                            0 <= e,
                    ;
                }
                match q.checked_mul(e) {
                    None => pool,
                    Some(head) => match head.checked_add(tail) {
                        None => pool,
                        Some(earned) => if earned > pool {
                            pool
                        } else {
                            earned
                        },
                    },
                }
            },
        }
    }

    /// Settles `amount` against the pool and returns what is paid.
    pub fn pay_out(&mut self, amount: Balance) -> (paid: Balance)
        requires
            old(self).wf(),
        ensures
            final(self).wf(),
            *final(self) == settled_farm(*old(self), amount),
            paid == settled_paid(*old(self), amount),
            final(self).total() == old(self).total(),
            final(self).amount_of_claimed == old(self).amount_of_claimed + paid,
            paid <= old(self).amount_of_reward,
    {
        let remain: u128 = self.amount_of_reward;
        if remain <= amount {
            self.set_ended(remain);
            remain
        } else {
            self.amount_of_claimed += amount;
            self.amount_of_reward -= amount;
            amount
        }
    }

    /// Whether `token` is one of the items this farm accepts.
    pub fn is_accepted(&self, token: &NFTTokenId) -> (b: bool)
        ensures
            b == self.accepts(token@),
    {
        let mut i: usize = 0;
        while i < self.accepted_nfts.len()
            invariant
                i <= self.accepted_nfts@.len(),
                forall|j: int| 0 <= j < i ==> self.accepted_nfts@[j]@ != token@,
            decreases self.accepted_nfts@.len() - i,
        {
            if self.accepted_nfts[i] == *token {
                return true;
            }
            i += 1;
        }
        false
    }
}

/// Read projection of a farm.
#[derive(Debug)]
pub struct FarmInfo {
    pub owner_id: String,
    pub farm_status: String,
    pub seed_id: SeedId,
    pub start_at: u64,
    pub reward_per_session: u128,
    pub session_interval: u64,
    pub nft_contract_id: String,
    pub total_reward: u128,
    pub claimed_reward: u128,
    pub accepted_nfts: Vec<NFTTokenId>,
    pub staked_ids: Vec<NFTTokenId>,
    pub staked_nfts: Vec<StakedInfo>,
}

impl FarmInfo {
    /// The projection shows `farm`: owner, status label, terms, remaining and
    /// claimed reward, accepted items, and the staked items with their
    /// records, index-aligned and in the farm's order.
    pub open spec fn shows(&self, farm: &Farm) -> bool {
        &&& self.owner_id == farm.owner_id
        &&& self.farm_status@ == (match farm.status {
            Status::Created => "Created"@,
            Status::Running => "Running"@,
            Status::Ended => "Ended"@,
        })
        &&& self.seed_id == farm.terms.seed_id
        &&& self.start_at == farm.terms.start_at
        &&& self.reward_per_session == farm.terms.reward_per_session
        &&& self.session_interval == farm.terms.session_interval
        &&& self.nft_contract_id == farm.nft_contract_id
        &&& self.total_reward == farm.amount_of_reward
        &&& self.claimed_reward == farm.amount_of_claimed
        &&& self.accepted_nfts@ == farm.accepted_nfts@
        &&& self.staked_ids@ == farm.staked_nfts.keys@
        &&& self.staked_nfts@ == farm.staked_nfts.values@
    }

    pub fn from(farm: &Farm) -> (r: Self)
        ensures
            r.shows(farm),
    {
        Self {
            owner_id: farm.owner_id.clone(),
            farm_status: farm.status.label(),
            seed_id: farm.terms.seed_id.clone(),
            start_at: farm.terms.start_at,
            reward_per_session: farm.terms.reward_per_session,
            session_interval: farm.terms.session_interval,
            nft_contract_id: farm.nft_contract_id.clone(),
            total_reward: farm.amount_of_reward,
            claimed_reward: farm.amount_of_claimed,
            accepted_nfts: copy_strings(&farm.accepted_nfts),
            staked_ids: copy_strings(&farm.staked_nfts.keys),
            staked_nfts: copy_staked(&farm.staked_nfts.values),
        }
    }
}

pub fn copy_strings(v: &Vec<String>) -> (r: Vec<String>)
    ensures
        r@ == v@,
{
    let mut r: Vec<String> = Vec::new();
    let mut i: usize = 0;
    while i < v.len()
        invariant
            i <= v@.len(),
            r@ == v@.subrange(0, i as int),
        decreases v@.len() - i,
    {
        r.push(v[i].clone());
        assert(r@ =~= v@.subrange(0, i + 1));
        i += 1;
    }
    assert(v@.subrange(0, i as int) =~= v@);
    r
}

pub fn copy_staked(v: &Vec<StakedInfo>) -> (r: Vec<StakedInfo>)
    ensures
        r@ == v@,
{
    let mut r: Vec<StakedInfo> = Vec::new();
    let mut i: usize = 0;
    while i < v.len()
        invariant
            i <= v@.len(),
            r@ == v@.subrange(0, i as int),
        decreases v@.len() - i,
    {
        r.push(v[i].duplicate());
        assert(r@ =~= v@.subrange(0, i + 1));
        i += 1;
    }
    assert(v@.subrange(0, i as int) =~= v@);
    r
}

/// With `e >= i > 0`, scaling `p` by `e` and dividing by `i` gives at least `p`.
pub proof fn lemma_scaled_quotient_at_least(p: int, e: int, i: int)
    requires
        0 <= p,
        0 < i <= e,
    ensures
        (p * e) / i >= p,
{
    assert(p * i <= p * e) by (nonlinear_arith)
        requires
            0 <= p,
            i <= e,
    ;
    lemma_div_is_ordered(p * i, p * e, i);
    lemma_div_multiples_vanish(p, i);
    assert(i * p == p * i) by (nonlinear_arith);
}

/// Dividing `p * e` by `i` can be done on the quotient and remainder of `p`.
pub proof fn lemma_split_quotient(p: int, e: int, i: int)
    requires
        0 <= p,
        0 <= e,
        0 < i,
    ensures
        (p * e) / i == (p / i) * e + ((p % i) * e) / i,
{
    let q = p / i;
    let r = p % i;
    lemma_fundamental_div_mod(p, i);
    assert(p * e == r * e + (q * e) * i) by (nonlinear_arith)
        requires
            p == i * q + r,
    ;
    lemma_hoist_over_denominator(r * e, q * e, i as nat);
}

} // verus!
