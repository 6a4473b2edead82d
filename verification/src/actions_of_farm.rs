//! Staking, withdrawing, claiming and farm creation.

use crate::error::FarmError;
use crate::farm::{settled_farm, settled_paid, settled_position, AccountId, Balance, ContractNFTTokenId, Farm, FarmId, NFTTokenId, StakedInfo, Status, Terms, TermsJson, Timestamp};
use crate::farmer::StakingInfo;
use crate::seed::Seed;
use crate::utils::{decode_bool, farm_id_text, format_farm_id, json_bool};
use crate::Contract;
use vstd::prelude::*;

verus! {

impl Contract {
    /// The position of `account` in `farm_id`, if there is one.
    pub fn get_position(&self, account: &AccountId, farm_id: &FarmId) -> (r: Option<StakingInfo>)
        requires
            self.wf(),
        ensures
            r == (if self.positions(account@).dom().contains(farm_id@) {
                Some(self.positions(account@)[farm_id@])
            } else {
                None
            }),
    {
        match self.farmers.find(account) {
            Some(a) => {
                let farmer = &self.farmers.values[a];
                match farmer.staking.find(farm_id) {
                    Some(p) => Some(farmer.staking.values[p]),
                    None => None,
                }
            },
            None => None,
        }
    }

    /// What `farmer_id` may claim from `farm_id` at `new_staked_at`.
    pub fn internal_get_claimable(&self, farm_id: &FarmId, farmer_id: &AccountId, new_staked_at: Timestamp) -> (r: Balance)
        requires
            self.wf(),
        ensures
            r == self.claimable_of(farm_id@, farmer_id@, new_staked_at),
            self.farms@.dom().contains(farm_id@) ==> r <= self.farms@[farm_id@].amount_of_reward,
    {
        match self.farms.find(farm_id) {
            Some(fi) => match self.get_position(farmer_id, farm_id) {
                Some(pos) => self.farms.values[fi].claimable(&pos, new_staked_at),
                None => 0,
            },
            None => 0,
        }
    }

    pub fn get_claimable_amount(&self, farm_id: FarmId, farmer_id: AccountId, now: Timestamp) -> (r: Balance)
        requires
            self.wf(),
        ensures
            r == self.claimable_of(farm_id@, farmer_id@, now),
            self.farms@.dom().contains(farm_id@) ==> r <= self.farms@[farm_id@].amount_of_reward,
    {
        self.internal_get_claimable(&farm_id, &farmer_id, now)
    }

    /// Settles `amount` for the position of `sender_id` in `farm_id`: the farm
    /// pays out and the position advances to `new_staked_at`, unless the
    /// payment exhausts the pool and ends the farm.
    pub(crate) fn internal_claim_reward_by_farm(
        &mut self,
        farm_id: &FarmId,
        sender_id: &AccountId,
        amount: Balance,
        new_staked_at: Timestamp,
    ) -> (paid: Balance)
        requires
            old(self).wf(),
            old(self).farms@.dom().contains(farm_id@),
            old(self).positions(sender_id@).dom().contains(farm_id@),
        ensures
            final(self).wf(),
            paid == settled_paid(old(self).farms@[farm_id@], amount),
            final(self).farms@ == old(self).farms@.insert(
                farm_id@,
                settled_farm(old(self).farms@[farm_id@], amount),
            ),
            final(self).farms.keys == old(self).farms.keys,
            final(self).position_set(
                old(self),
                sender_id@,
                farm_id@,
                settled_position(
                    old(self).farms@[farm_id@],
                    old(self).positions(sender_id@)[farm_id@],
                    amount,
                    new_staked_at,
                ),
            ),
            final(self).seeds == old(self).seeds,
            final(self).nft_contracts == old(self).nft_contracts,
            final(self).owner_id == old(self).owner_id,
            final(self).farmer_count == old(self).farmer_count,
    {
        let ghost before = *self;
        match (self.farms.find(farm_id), self.get_position(sender_id, farm_id)) {
            (Some(fi), Some(pos)) => {
                let remain = self.farms.values[fi].amount_of_reward;
                let paid = self.farms.values[fi].pay_out(amount);
                proof {
                    self.farms.lemma_replaced(&before.farms, fi as int);
                    assert forall|i: int| 0 <= i < self.farms.values@.len() implies (
                    #[trigger] self.farms.values@[i]).wf() by {
                        assert(before.farms.values@[i].wf());
                    }
                }
                if remain > amount {
                    self.set_position(
                        sender_id,
                        farm_id,
                        StakingInfo { last_staked_at: new_staked_at, amount: pos.amount },
                    );
                } else {
                    proof {
                        assert(self.positions(sender_id@) =~= before.positions(sender_id@).insert(
                            farm_id@,
                            pos,
                        ));
                        assert(self.farmers@.dom() =~= before.farmers@.dom().insert(sender_id@));
                    }
                }
                paid
            },
            _ => 0,
        }
    }

    /// Why a claim by `account` on `farm_id` at `now` is rejected, if it is.
    pub open spec fn claim_rejection(&self, farm_id: Seq<char>, account: Seq<char>, now: u64) -> Option<FarmError> {
        if !self.farms@.dom().contains(farm_id) {
            Some(FarmError::NotFound)
        } else if !self.positions(account).dom().contains(farm_id) {
            Some(FarmError::NotFound)
        } else if self.farms@[farm_id].status != Status::Running {
            Some(FarmError::InvalidState)
        } else if now < self.farms@[farm_id].terms.start_at {
            Some(FarmError::NotYetEligible)
        } else if self.claimable_of(farm_id, account, now) == 0 {
            Some(FarmError::NotYetEligible)
        } else {
            None
        }
    }

    /// `self` is `before` after `account` has claimed from `farm_id` at `now`
    /// what was due: the farm has paid it out, ending if that exhausted the
    /// pool, and the position has advanced to `now` unless the farm ended.
    pub open spec fn claim_applied(&self, before: &Contract, farm_id: Seq<char>, account: Seq<char>, now: u64) -> bool {
        let farm = before.farms@[farm_id];
        let pos = before.positions(account)[farm_id];
        let due = before.claimable_of(farm_id, account, now) as u128;
        &&& self.farms@ == before.farms@.insert(farm_id, settled_farm(farm, due))
        &&& self.farms.keys == before.farms.keys
        &&& self.position_set(before, account, farm_id, settled_position(farm, pos, due, now))
        &&& self.seeds == before.seeds
        &&& self.nft_contracts == before.nft_contracts
        &&& self.owner_id == before.owner_id
        &&& self.farmer_count == before.farmer_count
    }

    /// Claims the reward that `sender_id` has earned in `farm_id` up to `now`
    /// and returns the amount paid.
    pub fn claim_reward_by_farm(&mut self, farm_id: FarmId, sender_id: AccountId, now: Timestamp) -> (r: Result<Balance, FarmError>)
        requires
            old(self).wf(),
        ensures
            final(self).wf(),
            match old(self).claim_rejection(farm_id@, sender_id@, now) {
                Some(e) => r == Err::<Balance, FarmError>(e) && *final(self) == *old(self),
                None => {
                    &&& r == Ok::<Balance, FarmError>(
                        old(self).claimable_of(farm_id@, sender_id@, now) as u128,
                    )
                    &&& final(self).claim_applied(old(self), farm_id@, sender_id@, now)
                },
            },
    {
        let fi = match self.farms.find(&farm_id) {
            Some(fi) => fi,
            None => {
                return Err(FarmError::NotFound);
            },
        };
        if self.get_position(&sender_id, &farm_id).is_none() {
            return Err(FarmError::NotFound);
        }
        let will_claim_amount = self.internal_get_claimable(&farm_id, &sender_id, now);
        if self.farms.values[fi].status != Status::Running {
            return Err(FarmError::InvalidState);
        }
        if now < self.farms.values[fi].terms.start_at {
            return Err(FarmError::NotYetEligible);
        }
        if will_claim_amount == 0 {
            return Err(FarmError::NotYetEligible);
        }
        let paid = self.internal_claim_reward_by_farm(&farm_id, &sender_id, will_claim_amount, now);
        Ok(paid)
    }

    /// Why a stake of `token_id` by `owner` into `farm_id` is rejected, if it is.
    pub open spec fn stake_rejection(
        &self,
        farm_id: Seq<char>,
        owner: Seq<char>,
        nft_contract_id: Seq<char>,
        token_id: Seq<char>,
        now: u64,
    ) -> Option<FarmError> {
        if !self.farms@.dom().contains(farm_id) {
            Some(FarmError::NotFound)
        } else if self.farms@[farm_id].status == Status::Ended {
            Some(FarmError::InvalidState)
        } else if !self.farms@[farm_id].accepts(token_id) {
            Some(FarmError::InvalidState)
        } else if self.farms@[farm_id].nft_contract_id@ != nft_contract_id {
            Some(FarmError::InvalidState)
        } else if !self.positions(owner).dom().contains(farm_id) {
            None
        } else if self.claimable_of(farm_id, owner, now) != 0 && self.claimable_of(
            farm_id,
            owner,
            now,
        ) == self.farms@[farm_id].amount_of_reward {
            Some(FarmError::ExhaustionGuard)
        } else if self.positions(owner)[farm_id].amount == u128::MAX {
            Some(FarmError::Overflow)
        } else {
            None
        }
    }

    /// The position of `owner` in `farm_id` after one more item is staked at
    /// `now`: a first stake opens the position at `now`; a later one adds an
    /// item and, where reward was due, advances the position to `now`.
    pub open spec fn position_after_stake(&self, farm_id: Seq<char>, owner: Seq<char>, now: u64) -> StakingInfo {
        if self.positions(owner).dom().contains(farm_id) {
            let pos = self.positions(owner)[farm_id];
            StakingInfo {
                last_staked_at: if self.claimable_of(farm_id, owner, now) != 0 {
                    now
                } else {
                    pos.last_staked_at
                },
                amount: (pos.amount + 1) as u128,
            }
        } else {
            StakingInfo { last_staked_at: now, amount: 1 }
        }
    }

    /// The farm `farm_id` after a settlement of `due`, which leaves it as it
    /// is where nothing is due.
    pub open spec fn farm_after_due(&self, farm_id: Seq<char>, due: u128) -> Farm {
        if due != 0 {
            settled_farm(self.farms@[farm_id], due)
        } else {
            self.farms@[farm_id]
        }
    }

    /// `self` is `before` after `prev_owner` has staked `token_id` into
    /// `farm_id` at `now`: the item is recorded with its owner and time, the
    /// position holds one item more, and reward that was due is settled.
    pub open spec fn stake_applied(
        &self,
        before: &Contract,
        farm_id: Seq<char>,
        prev_owner: AccountId,
        token_id: Seq<char>,
        now: u64,
    ) -> bool {
        let farm = before.farms@[farm_id];
        let due = before.claimable_of(farm_id, prev_owner@, now) as u128;
        &&& self.farm_set(
            before,
            farm_id,
            before.farm_after_due(farm_id, due),
            farm.staked_nfts@.insert(token_id, StakedInfo { owner_id: prev_owner, staked_at: now }),
            if farm.staked_nfts@.dom().contains(token_id) {
                farm.staked_nfts.order()
            } else {
                farm.staked_nfts.order().push(token_id)
            },
        )
        &&& self.position_set(
            before,
            prev_owner@,
            farm_id,
            before.position_after_stake(farm_id, prev_owner@, now),
        )
        &&& self.seeds == before.seeds
        &&& self.nft_contracts == before.nft_contracts
        &&& self.owner_id == before.owner_id
        &&& self.farmer_count == before.farmer_count
    }

    /// Stakes the item `token_id`, which arrived from `nft_contract_id` and
    /// belonged to `prev_owner`, into `farm_id` at time `now`. Reward that is
    /// due on an existing position is settled; the amount paid is returned.
    pub fn internal_stake(
        &mut self,
        farm_id: FarmId,
        prev_owner: AccountId,
        nft_contract_id: AccountId,
        token_id: NFTTokenId,
        now: Timestamp,
    ) -> (r: Result<Balance, FarmError>)
        requires
            old(self).wf(),
        ensures
            final(self).wf(),
            match old(self).stake_rejection(farm_id@, prev_owner@, nft_contract_id@, token_id@, now) {
                Some(e) => r == Err::<Balance, FarmError>(e) && *final(self) == *old(self),
                None => {
                    &&& r == Ok::<Balance, FarmError>(
                        old(self).claimable_of(farm_id@, prev_owner@, now) as u128,
                    )
                    &&& final(self).stake_applied(old(self), farm_id@, prev_owner, token_id@, now)
                },
            },
    {
        let fi = match self.farms.find(&farm_id) {
            Some(fi) => fi,
            None => {
                return Err(FarmError::NotFound);
            },
        };
        if self.farms.values[fi].status == Status::Ended {
            return Err(FarmError::InvalidState);
        }
        if !self.farms.values[fi].is_accepted(&token_id) {
            return Err(FarmError::InvalidState);
        }
        if self.farms.values[fi].nft_contract_id != nft_contract_id {
            return Err(FarmError::InvalidState);
        }
        let position = self.get_position(&prev_owner, &farm_id);
        let due: u128 = match position {
            Some(pos) => {
                let will_claim_amount = self.farms.values[fi].claimable(&pos, now);
                if will_claim_amount != 0 && will_claim_amount
                    == self.farms.values[fi].amount_of_reward {
                    return Err(FarmError::ExhaustionGuard);
                }
                if pos.amount == u128::MAX {
                    return Err(FarmError::Overflow);
                }
                will_claim_amount
            },
            None => 0,
        };
        let new_position = match position {
            Some(pos) => StakingInfo {
                last_staked_at: if due != 0 {
                    now
                } else {
                    pos.last_staked_at
                },
                amount: pos.amount + 1,
            },
            None => StakingInfo { last_staked_at: now, amount: 1 },
        };
        let ghost before = *self;
        let staked_info = StakedInfo { owner_id: prev_owner.clone(), staked_at: now };
        self.farms.values[fi].staked_nfts.insert(token_id, staked_info);
        if due != 0 {
            self.farms.values[fi].pay_out(due);
        }
        proof {
            self.farms.lemma_replaced(&before.farms, fi as int);
            assert forall|i: int| 0 <= i < self.farms.values@.len() implies (
            #[trigger] self.farms.values@[i]).wf() by {
                assert(before.farms.values@[i].wf());
            }
        }
        let ghost mid = *self;
        self.set_position(&prev_owner, &farm_id, new_position);
        proof {
            assert(mid.farms@.dom() == before.farms@.dom());
        }
        Ok(due)
    }

    /// Why a withdrawal of `token_id` from `farm_id` by `sender` is rejected,
    /// if it is.
    pub open spec fn withdraw_rejection(
        &self,
        farm_id: Seq<char>,
        sender: Seq<char>,
        token_id: Seq<char>,
        now: u64,
    ) -> Option<FarmError> {
        if !self.farmers@.dom().contains(sender) {
            Some(FarmError::NotFound)
        } else if !self.farms@.dom().contains(farm_id) {
            Some(FarmError::NotFound)
        } else if !self.farms@[farm_id].staked_nfts@.dom().contains(token_id) {
            Some(FarmError::NotFound)
        } else if self.farms@[farm_id].staked_nfts@[token_id].owner_id@ != sender {
            Some(FarmError::NotAuthorized)
        } else if now - self.farms@[farm_id].staked_nfts@[token_id].staked_at
            < self.farms@[farm_id].terms.session_interval || now
            <= self.farms@[farm_id].terms.start_at {
            Some(FarmError::NotYetEligible)
        } else if !self.positions(sender).dom().contains(farm_id) {
            Some(FarmError::NotFound)
        } else if self.positions(sender)[farm_id].amount == 0 {
            Some(FarmError::NotFound)
        } else {
            None
        }
    }

    /// `self` is `before` after `sender` has withdrawn `token_id` from
    /// `farm_id` at `now`: the item is no longer staked, the position holds
    /// one item less and stands at `now`, and reward that was due is settled.
    pub open spec fn withdraw_applied(
        &self,
        before: &Contract,
        farm_id: Seq<char>,
        sender: Seq<char>,
        token_id: Seq<char>,
        now: u64,
    ) -> bool {
        let farm = before.farms@[farm_id];
        let pos = before.positions(sender)[farm_id];
        let due = before.claimable_of(farm_id, sender, now) as u128;
        &&& self.farm_set(
            before,
            farm_id,
            before.farm_after_due(farm_id, due),
            farm.staked_nfts@.remove(token_id),
            farm.staked_nfts.order().update(
                farm.staked_nfts.slot(token_id),
                farm.staked_nfts.order().last(),
            ).drop_last(),
        )
        &&& self.position_set(
            before,
            sender,
            farm_id,
            StakingInfo { last_staked_at: now, amount: (pos.amount - 1) as u128 },
        )
        &&& self.seeds == before.seeds
        &&& self.nft_contracts == before.nft_contracts
        &&& self.owner_id == before.owner_id
        &&& self.farmer_count == before.farmer_count
    }

    /// Takes the item `token_id` out of `farm_id` for its owner `sender_id` at
    /// time `now`, settling the reward that is due. Returns the amount paid;
    /// the item is then to be handed back to `sender_id`.
    pub fn internal_withdraw(
        &mut self,
        farm_id: FarmId,
        sender_id: AccountId,
        token_id: NFTTokenId,
        now: Timestamp,
    ) -> (r: Result<Balance, FarmError>)
        requires
            old(self).wf(),
        ensures
            final(self).wf(),
            match old(self).withdraw_rejection(farm_id@, sender_id@, token_id@, now) {
                Some(e) => r == Err::<Balance, FarmError>(e) && *final(self) == *old(self),
                None => {
                    &&& r == Ok::<Balance, FarmError>(
                        old(self).claimable_of(farm_id@, sender_id@, now) as u128,
                    )
                    &&& final(self).withdraw_applied(old(self), farm_id@, sender_id@, token_id@, now)
                },
            },
    {
        if self.farmers.find(&sender_id).is_none() {
            return Err(FarmError::NotFound);
        }
        let fi = match self.farms.find(&farm_id) {
            Some(fi) => fi,
            None => {
                return Err(FarmError::NotFound);
            },
        };
        let ti = match self.farms.values[fi].staked_nfts.find(&token_id) {
            Some(ti) => ti,
            None => {
                return Err(FarmError::NotFound);
            },
        };
        if self.farms.values[fi].staked_nfts.values[ti].owner_id != sender_id {
            return Err(FarmError::NotAuthorized);
        }
        let staked_at = self.farms.values[fi].staked_nfts.values[ti].staked_at;
        if now < staked_at || now - staked_at < self.farms.values[fi].terms.session_interval || now
            <= self.farms.values[fi].terms.start_at {
            return Err(FarmError::NotYetEligible);
        }
        let pos = match self.get_position(&sender_id, &farm_id) {
            Some(pos) => pos,
            None => {
                return Err(FarmError::NotFound);
            },
        };
        if pos.amount == 0 {
            return Err(FarmError::NotFound);
        }
        let due = self.farms.values[fi].claimable(&pos, now);
        let ghost before = *self;
        self.farms.values[fi].staked_nfts.remove_at(ti);
        if due != 0 {
            self.farms.values[fi].pay_out(due);
        }
        proof {
            self.farms.lemma_replaced(&before.farms, fi as int);
            assert forall|i: int| 0 <= i < self.farms.values@.len() implies (
            #[trigger] self.farms.values@[i]).wf() by {
                assert(before.farms.values@[i].wf());
            }
        }
        let ghost mid = *self;
        self.set_position(
            &sender_id,
            &farm_id,
            StakingInfo { last_staked_at: now, amount: pos.amount - 1 },
        );
        proof {
            assert(mid.farms@.dom() == before.farms@.dom());
        }
        Ok(due)
    }

    /// Withdraws an item; see `internal_withdraw`.
    pub fn withdraw(&mut self, farm_id: FarmId, sender_id: AccountId, token_id: NFTTokenId, now: Timestamp) -> (r: Result<Balance, FarmError>)
        requires
            old(self).wf(),
        ensures
            final(self).wf(),
            match old(self).withdraw_rejection(farm_id@, sender_id@, token_id@, now) {
                Some(e) => r == Err::<Balance, FarmError>(e) && *final(self) == *old(self),
                None => {
                    &&& r == Ok::<Balance, FarmError>(
                        old(self).claimable_of(farm_id@, sender_id@, now) as u128,
                    )
                    &&& final(self).withdraw_applied(old(self), farm_id@, sender_id@, token_id@, now)
                },
            },
    {
        self.internal_withdraw(farm_id, sender_id, token_id, now)
    }

    /// The index that the next farm under `seed_id` will get.
    pub open spec fn next_index_of(&self, seed_id: Seq<char>) -> nat {
        if self.seeds@.dom().contains(seed_id) {
            self.seeds@[seed_id].next_index as nat
        } else {
            0
        }
    }

    /// `self` is `before` with one farm added under the identifier `id`: the
    /// farm is new, unfunded and holds the given parameters, its identifier
    /// carries the seed's previous counter, and that counter has advanced by one.
    pub open spec fn farm_added(
        &self,
        before: &Contract,
        owner_id: AccountId,
        terms: TermsJson,
        nft_contract_id: AccountId,
        accepted_nfts: Vec<NFTTokenId>,
        id: Seq<char>,
    ) -> bool {
        let seed = terms.seed_id@;
        let farm = self.farms@[id];
        &&& id == farm_id_text(seed, before.next_index_of(seed))
        &&& self.next_index_of(seed) == before.next_index_of(seed) + 1
        &&& self.seeds@.dom() == before.seeds@.dom().insert(seed)
        &&& self.seeds@[seed].seed_id@ == seed
        &&& forall|k: Seq<char>|
            k != seed && before.seeds@.dom().contains(k) ==> #[trigger] self.seeds@[k]
                == before.seeds@[k]
        &&& self.farms@ == before.farms@.insert(id, farm)
        &&& self.farms.order() == (if before.farms@.dom().contains(id) {
            before.farms.order()
        } else {
            before.farms.order().push(id)
        })
        &&& self.seeds.order() == (if before.seeds@.dom().contains(seed) {
            before.seeds.order()
        } else {
            before.seeds.order().push(seed)
        })
        &&& farm.wf()
        &&& farm.owner_id == owner_id
        &&& farm.terms.seed_id == terms.seed_id
        &&& farm.terms.start_at == terms.start_at
        &&& farm.terms.reward_per_session == terms.reward_per_session
        &&& farm.terms.session_interval == terms.session_interval
        &&& farm.status == Status::Created
        &&& farm.amount_of_reward == 0
        &&& farm.amount_of_claimed == 0
        &&& farm.nft_contract_id == nft_contract_id
        &&& farm.accepted_nfts == accepted_nfts
        &&& farm.staked_nfts@ == Map::<Seq<char>, StakedInfo>::empty()
        &&& self.farmers == before.farmers
        &&& self.nft_contracts == before.nft_contracts
        &&& self.owner_id == before.owner_id
        &&& self.farmer_count == before.farmer_count
    }

    /// Creates a farm with the given parameters under the seed that `terms`
    /// names, and advances that seed's counter.
    pub fn internal_add_farm(
        &mut self,
        owner_id: AccountId,
        terms: TermsJson,
        nft_contract_id: &AccountId,
        accepted_nfts: Vec<ContractNFTTokenId>,
    ) -> (r: Result<FarmId, FarmError>)
        requires
            old(self).wf(),
            terms.session_interval > 0,
        ensures
            final(self).wf(),
            old(self).next_index_of(terms.seed_id@) >= u32::MAX ==> r == Err::<FarmId, FarmError>(
                FarmError::Overflow,
            ) && *final(self) == *old(self),
            old(self).next_index_of(terms.seed_id@) < u32::MAX ==> r.is_ok() && final(self).farm_added(
                old(self),
                owner_id,
                terms,
                *nft_contract_id,
                accepted_nfts,
                r.unwrap()@,
            ),
    {
        let ghost before = *self;
        let seed_id = terms.seed_id.clone();
        let slot = self.seeds.find(&seed_id);
        let index: u32 = match slot {
            Some(si) => self.seeds.values[si].next_index,
            None => 0,
        };
        if index == u32::MAX {
            return Err(FarmError::Overflow);
        }
        let farm_id: FarmId = format_farm_id(&seed_id, index);
        let farm = Farm::new(owner_id, Terms::from(terms), nft_contract_id.clone(), accepted_nfts);
        match slot {
            Some(si) => {
                self.seeds.values[si].next_index = index + 1;
                proof {
                    self.seeds.lemma_replaced(&before.seeds, si as int);
                }
            },
            None => {
                let mut seed = Seed::new(seed_id.clone());
                seed.next_index = 1;
                self.seeds.insert(seed_id, seed);
            },
        }
        let ghost mid = *self;
        self.farms.insert(farm_id.clone(), farm);
        proof {
            assert(mid.seeds.wf());
            assert forall|i: int| 0 <= i < mid.seeds.values@.len() implies (
            #[trigger] mid.seeds.values@[i]).seed_id@ == mid.seeds.keys@[i]@ by {
                if i < before.seeds.values@.len() {
                    assert(before.seeds.values@[i].seed_id@ == before.seeds.keys@[i]@);
                }
            }
            assert(self.seeds@.dom() =~= before.seeds@.dom().insert(terms.seed_id@));
            assert forall|i: int| 0 <= i < self.farms.values@.len() implies (
            #[trigger] self.farms.values@[i]).wf() by {
                self.farms.lemma_slot(i);
                if self.farms.keys@[i]@ != farm_id@ {
                    mid.lemma_members_wf();
                }
            }
        }
        Ok(farm_id)
    }

    /// Whether a farm creation asked for with these parameters may go on to
    /// the ownership check: the collateral contract must be whitelisted.
    /// Nothing is recorded until the check has been concluded.
    pub fn create_farm(
        &self,
        sender_id: AccountId,
        terms: TermsJson,
        nft_contract_id: &AccountId,
        accepted_nfts: Vec<NFTTokenId>,
    ) -> (r: Result<PendingFarm, FarmError>)
        ensures
            !self.whitelisted(nft_contract_id@) ==> r == Err::<PendingFarm, FarmError>(
                FarmError::NotAuthorized,
            ),
            self.whitelisted(nft_contract_id@) ==> r == Ok::<PendingFarm, FarmError>(
                (PendingFarm {
                    owner_id: sender_id,
                    terms,
                    nft_contract_id: *nft_contract_id,
                    accepted_nfts,
                }),
            ),
    {
        if !self.is_whitelist_nft_contract(nft_contract_id) {
            return Err(FarmError::NotAuthorized);
        }
        Ok(
            PendingFarm {
                owner_id: sender_id,
                terms,
                nft_contract_id: nft_contract_id.clone(),
                accepted_nfts,
            },
        )
    }

    /// Concludes a farm creation once the verdict of the ownership check is
    /// known: the farm is created only if the check confirmed the requester.
    /// `None` stands for a check that failed or answered unreadably.
    pub fn conclude_creation(
        &mut self,
        owner_id: AccountId,
        terms: TermsJson,
        nft_contract_id: &AccountId,
        accepted_nfts: Vec<NFTTokenId>,
        verdict: Option<bool>,
    ) -> (r: Result<FarmId, FarmError>)
        requires
            old(self).wf(),
            terms.session_interval > 0,
        ensures
            final(self).wf(),
            verdict != Some(true) ==> r == Err::<FarmId, FarmError>(FarmError::VerificationFailed)
                && *final(self) == *old(self),
            verdict == Some(true) && old(self).next_index_of(terms.seed_id@) >= u32::MAX ==> r
                == Err::<FarmId, FarmError>(FarmError::Overflow) && *final(self) == *old(self),
            verdict == Some(true) && old(self).next_index_of(terms.seed_id@) < u32::MAX ==> r.is_ok()
                && final(self).farm_added(
                old(self),
                owner_id,
                terms,
                *nft_contract_id,
                accepted_nfts,
                r.unwrap()@,
            ),
    {
        match verdict {
            Some(true) => self.internal_add_farm(owner_id, terms, nft_contract_id, accepted_nfts),
            _ => Err(FarmError::VerificationFailed),
        }
    }

    /// Receives the outcome of the ownership check and concludes the creation:
    /// the farm is created only if the check succeeded and answered the JSON
    /// literal `true`.
    pub fn callback_check_nfts_owner(
        &mut self,
        owner_id: AccountId,
        terms: TermsJson,
        nft_contract_id: &AccountId,
        accepted_nfts: Vec<NFTTokenId>,
        outcome: PromiseOutcome,
    ) -> (r: Result<FarmId, FarmError>)
        requires
            old(self).wf(),
            terms.session_interval > 0,
        ensures
            final(self).wf(),
            outcome.verdict() != Some(true) ==> r == Err::<FarmId, FarmError>(
                FarmError::VerificationFailed,
            ) && *final(self) == *old(self),
            outcome.verdict() == Some(true) && old(self).next_index_of(terms.seed_id@) >= u32::MAX
                ==> r == Err::<FarmId, FarmError>(FarmError::Overflow) && *final(self) == *old(self),
            outcome.verdict() == Some(true) && old(self).next_index_of(terms.seed_id@) < u32::MAX
                ==> r.is_ok() && final(self).farm_added(
                old(self),
                owner_id,
                terms,
                *nft_contract_id,
                accepted_nfts,
                r.unwrap()@,
            ),
    {
        let verdict = match outcome {
            PromiseOutcome::Successful(val) => decode_bool(&val),
            PromiseOutcome::Failed => None,
        };
        self.conclude_creation(owner_id, terms, nft_contract_id, accepted_nfts, verdict)
    }

    pub fn get_number_of_farms(&self) -> (n: u64)
        ensures
            n == self.farms.keys@.len(),
    {
        self.farms.len() as u64
    }
}

/// A farm creation that waits for the ownership check.
pub struct PendingFarm {
    pub owner_id: AccountId,
    pub terms: TermsJson,
    pub nft_contract_id: AccountId,
    pub accepted_nfts: Vec<NFTTokenId>,
}

/// How the ownership check ended: it failed, or it answered with these bytes.
pub enum PromiseOutcome {
    Failed,
    Successful(Vec<u8>),
}

impl PromiseOutcome {
    /// The verdict that the outcome carries: the boolean that the answer
    /// denotes as JSON, if the check succeeded and its answer denotes one.
    pub open spec fn verdict(&self) -> Option<bool> {
        match *self {
            PromiseOutcome::Failed => None,
            PromiseOutcome::Successful(val) => json_bool(val@),
        }
    }
}

} // verus!
