//! A yield-farming ledger: accounts lock collateral items into reward pools
//! and earn a reward in proportion to stake and elapsed time.

use crate::error::FarmError;
use crate::farm::{claimable_spec, copy_strings, AccountId, Farm, FarmId, FarmInfo};
use crate::farmer::{Farmer, FarmerInfo, StakingInfo};
use crate::ledger::Ledger;
use crate::seed::{Seed, SeedId};
use vstd::prelude::*;

pub mod actions_of_farm;
pub mod actions_of_reward;
pub mod error;
pub mod farm;
pub mod farmer;
pub mod invariants;
pub mod ledger;
pub mod seed;
pub mod token_receiver;
pub mod utils;

verus! {

/// The whole ledger state: seeds, farms, farmers and the whitelist of
/// collateral contracts.
pub struct Contract {
    pub owner_id: AccountId,
    pub seeds: Ledger<Seed>,
    pub farmers: Ledger<Farmer>,
    pub farms: Ledger<Farm>,
    pub nft_contracts: Vec<AccountId>,
    pub farmer_count: u64,
}

impl Contract {
    pub open spec fn wf(&self) -> bool {
        &&& self.seeds.wf()
        &&& self.farmers.wf()
        &&& self.farms.wf()
        &&& forall|i: int| 0 <= i < self.farms.values@.len() ==> (#[trigger] self.farms.values@[i]).wf()
        &&& forall|i: int|
            0 <= i < self.farmers.values@.len() ==> (#[trigger] self.farmers.values@[i]).wf()
        &&& forall|i: int|
            0 <= i < self.seeds.values@.len() ==> (#[trigger] self.seeds.values@[i]).seed_id@
                == self.seeds.keys@[i]@
    }

    /// Whether the ledgers are well formed.
    pub fn check(&self) -> (b: bool)
        ensures
            b == self.wf(),
    {
        if !(self.seeds.check() && self.farmers.check() && self.farms.check()) {
            return false;
        }
        let mut i: usize = 0;
        while i < self.farms.values.len()
            invariant
                i <= self.farms.values@.len(),
                forall|j: int| 0 <= j < i ==> (#[trigger] self.farms.values@[j]).wf(),
            decreases self.farms.values@.len() - i,
        {
            if !self.farms.values[i].check() {
                return false;
            }
            i += 1;
        }
        let mut i: usize = 0;
        while i < self.farmers.values.len()
            invariant
                i <= self.farmers.values@.len(),
                forall|j: int| 0 <= j < i ==> (#[trigger] self.farmers.values@[j]).wf(),
            decreases self.farmers.values@.len() - i,
        {
            if !self.farmers.values[i].staking.check() {
                return false;
            }
            i += 1;
        }
        let mut i: usize = 0;
        while i < self.seeds.values.len()
            invariant
                self.seeds.wf(),
                i <= self.seeds.values@.len(),
                forall|j: int|
                    0 <= j < i ==> (#[trigger] self.seeds.values@[j]).seed_id@
                        == self.seeds.keys@[j]@,
            decreases self.seeds.values@.len() - i,
        {
            if self.seeds.values[i].seed_id != self.seeds.keys[i] {
                return false;
            }
            i += 1;
        }
        true
    }

    /// The staking positions of `account`, by farm; empty for an unknown account.
    pub open spec fn positions(&self, account: Seq<char>) -> Map<Seq<char>, StakingInfo> {
        if self.farmers@.dom().contains(account) {
            self.farmers@[account].staking@
        } else {
            Map::empty()
        }
    }

    /// Whether `id` is a whitelisted collateral contract.
    pub open spec fn whitelisted(&self, id: Seq<char>) -> bool {
        exists|i: int| 0 <= i < self.nft_contracts@.len() && self.nft_contracts@[i]@ == id
    }

    /// What `account` may claim from the farm `farm_id` at `now`: zero where
    /// the farm or the position does not exist.
    pub open spec fn claimable_of(&self, farm_id: Seq<char>, account: Seq<char>, now: u64) -> int {
        if self.farms@.dom().contains(farm_id) && self.positions(account).dom().contains(farm_id) {
            claimable_spec(self.farms@[farm_id], self.positions(account)[farm_id], now)
        } else {
            0
        }
    }

    /// Only the farmer ledger differs from `before`, and there only the
    /// position of `account` in `farm_id`, which is now `pos`.
    pub open spec fn position_set(
        &self,
        before: &Contract,
        account: Seq<char>,
        farm_id: Seq<char>,
        pos: StakingInfo,
    ) -> bool {
        &&& self.farmers@.dom() == before.farmers@.dom().insert(account)
        &&& self.farmers.order() == (if before.farmers@.dom().contains(account) {
            before.farmers.order()
        } else {
            before.farmers.order().push(account)
        })
        &&& self.positions(account) == before.positions(account).insert(farm_id, pos)
        &&& self.farmers@[account].staking.order() == (if before.positions(account).dom().contains(
            farm_id,
        ) {
            before.farmers@[account].staking.order()
        } else if before.farmers@.dom().contains(account) {
            before.farmers@[account].staking.order().push(farm_id)
        } else {
            seq![farm_id]
        })
        &&& forall|b: Seq<char>|
            b != account && before.farmers@.dom().contains(b) ==> #[trigger] self.farmers@[b]
                == before.farmers@[b]
    }

    /// The farm ledger differs from `before` only at `farm_id`, where the farm
    /// now equals `target` in everything but its staked items, which are
    /// `staked` and are listed in the order `staked_order`.
    pub open spec fn farm_set(
        &self,
        before: &Contract,
        farm_id: Seq<char>,
        target: Farm,
        staked: Map<Seq<char>, crate::farm::StakedInfo>,
        staked_order: Seq<Seq<char>>,
    ) -> bool {
        &&& self.farms.keys == before.farms.keys
        &&& self.farms@.dom() == before.farms@.dom()
        &&& forall|k: Seq<char>|
            k != farm_id && before.farms@.dom().contains(k) ==> #[trigger] self.farms@[k]
                == before.farms@[k]
        &&& self.farms@[farm_id] == (Farm {
            staked_nfts: self.farms@[farm_id].staked_nfts,
            ..target
        })
        &&& self.farms@[farm_id].staked_nfts@ == staked
        &&& self.farms@[farm_id].staked_nfts.order() == staked_order
    }

    /// Lemma: every farm and farmer stored in a well-formed contract is well formed.
    pub proof fn lemma_members_wf(&self)
        requires
            self.wf(),
        ensures
            forall|k: Seq<char>| self.farms@.dom().contains(k) ==> (#[trigger] self.farms@[k]).wf(),
            forall|k: Seq<char>|
                self.farmers@.dom().contains(k) ==> (#[trigger] self.farmers@[k]).wf(),
    {
        assert forall|k: Seq<char>| self.farms@.dom().contains(k) implies (
        #[trigger] self.farms@[k]).wf() by {
            let i = self.farms.slot(k);
            assert(self.farms.values@[i].wf());
        }
        assert forall|k: Seq<char>| self.farmers@.dom().contains(k) implies (
        #[trigger] self.farmers@[k]).wf() by {
            let i = self.farmers.slot(k);
            assert(self.farmers.values@[i].wf());
        }
    }

    pub fn new(owner_id: AccountId) -> (r: Self)
        ensures
            r.wf(),
            r.owner_id == owner_id,
            r.farmer_count == 0,
            r.seeds@ == Map::<Seq<char>, Seed>::empty(),
            r.farmers@ == Map::<Seq<char>, Farmer>::empty(),
            r.farms@ == Map::<Seq<char>, Farm>::empty(),
            r.farms.order() == Seq::<Seq<char>>::empty(),
            r.seeds.order() == Seq::<Seq<char>>::empty(),
            r.farmers.order() == Seq::<Seq<char>>::empty(),
            r.nft_contracts@.len() == 0,
    {
        Self {
            owner_id,
            farmer_count: 0,
            seeds: Ledger::new(),
            farmers: Ledger::new(),
            farms: Ledger::new(),
            nft_contracts: Vec::new(),
        }
    }

    pub fn is_whitelist_nft_contract(&self, nft_contract_id: &AccountId) -> (b: bool)
        ensures
            b == self.whitelisted(nft_contract_id@),
    {
        let mut i: usize = 0;
        while i < self.nft_contracts.len()
            invariant
                i <= self.nft_contracts@.len(),
                forall|j: int| 0 <= j < i ==> self.nft_contracts@[j]@ != nft_contract_id@,
            decreases self.nft_contracts@.len() - i,
        {
            if self.nft_contracts[i] == *nft_contract_id {
                return true;
            }
            i += 1;
        }
        false
    }

    /// Adds `nft_contract_id` to the whitelist of collateral contracts; only
    /// the owner of the ledger, as `caller`, may do so.
    pub fn whitelist_nft_contract(&mut self, caller: &AccountId, nft_contract_id: AccountId) -> (r: Result<(), FarmError>)
        requires
            old(self).wf(),
        ensures
            final(self).wf(),
            caller@ != old(self).owner_id@ ==> r == Err::<(), FarmError>(FarmError::NotAuthorized)
                && *final(self) == *old(self),
            caller@ == old(self).owner_id@ ==> {
                &&& r == Ok::<(), FarmError>(())
                &&& forall|id: Seq<char>|
                    final(self).whitelisted(id) == (old(self).whitelisted(id) || id
                        == nft_contract_id@)
                &&& old(self).whitelisted(nft_contract_id@) ==> *final(self) == *old(self)
                &&& final(self).owner_id == old(self).owner_id
                &&& final(self).seeds == old(self).seeds
                &&& final(self).farmers == old(self).farmers
                &&& final(self).farms == old(self).farms
                &&& final(self).farmer_count == old(self).farmer_count
            },
    {
        if *caller != self.owner_id {
            return Err(FarmError::NotAuthorized);
        }
        if !self.is_whitelist_nft_contract(&nft_contract_id) {
            let ghost before = *self;
            self.nft_contracts.push(nft_contract_id);
            proof {
                let n = before.nft_contracts@.len() as int;
                assert forall|id: Seq<char>|
                    self.whitelisted(id) == (before.whitelisted(id) || id == nft_contract_id@) by {
                    if before.whitelisted(id) {
                        let i = choose|i: int|
                            0 <= i < before.nft_contracts@.len() && before.nft_contracts@[i]@ == id;
                        assert(self.nft_contracts@[i]@ == id);
                    }
                    if id == nft_contract_id@ {
                        assert(self.nft_contracts@[n]@ == id);
                    }
                }
            }
        }
        Ok(())
    }

    /// The seeds under which farms were created, oldest first.
    pub fn list_seeds(&self) -> (r: Vec<String>)
        ensures
            r@ == self.seeds.keys@,
    {
        copy_strings(&self.seeds.keys)
    }

    pub fn get_farm(&self, farm_id: FarmId) -> (r: Option<FarmInfo>)
        requires
            self.wf(),
        ensures
            match r {
                Some(info) => self.farms@.dom().contains(farm_id@) && info.shows(
                    &self.farms@[farm_id@],
                ),
                None => !self.farms@.dom().contains(farm_id@),
            },
    {
        match self.farms.find(&farm_id) {
            Some(i) => Some(FarmInfo::from(&self.farms.values[i])),
            None => None,
        }
    }

    pub fn get_farmer(&self, account_id: AccountId) -> (r: Option<FarmerInfo>)
        requires
            self.wf(),
        ensures
            match r {
                Some(info) => self.farmers@.dom().contains(account_id@) && info.shows(
                    &self.farmers@[account_id@],
                ),
                None => !self.farmers@.dom().contains(account_id@),
            },
    {
        match self.farmers.find(&account_id) {
            Some(i) => Some(FarmerInfo::of(&self.farmers.values[i])),
            None => None,
        }
    }

    pub fn get_seed(&self, seed_id: SeedId) -> (r: Option<Seed>)
        requires
            self.wf(),
        ensures
            r == (if self.seeds@.dom().contains(seed_id@) {
                Some(self.seeds@[seed_id@])
            } else {
                None
            }),
    {
        match self.seeds.find(&seed_id) {
            Some(i) => Some(
                Seed {
                    seed_id: self.seeds.values[i].seed_id.clone(),
                    next_index: self.seeds.values[i].next_index,
                },
            ),
            None => None,
        }
    }

    /// The farms at positions `from_index` up to, but not including,
    /// `from_index + limit`, as far as there are any, in order of creation.
    pub fn list_farms(&self, from_index: u64, limit: u64) -> (r: Vec<(String, FarmInfo)>)
        requires
            self.wf(),
        ensures
            r@.len() == (if from_index >= self.farms.keys@.len() {
                0
            } else if limit <= self.farms.keys@.len() - from_index {
                limit as int
            } else {
                self.farms.keys@.len() - from_index
            }),
            forall|i: int|
                0 <= i < r@.len() ==> (#[trigger] r@[i]).0 == self.farms.keys@[from_index + i]
                    && r@[i].1.shows(&self.farms.values@[from_index + i]),
    {
        let n: usize = self.farms.len();
        let mut r: Vec<(String, FarmInfo)> = Vec::new();
        if from_index >= n as u64 {
            return r;
        }
        let start: usize = from_index as usize;
        let count: usize = if limit <= (n - start) as u64 {
            limit as usize
        } else {
            n - start
        };
        let mut i: usize = 0;
        while i < count
            invariant
                self.wf(),
                n == self.farms.keys@.len(),
                start + count <= n,
                start == from_index,
                i <= count,
                r@.len() == i,
                forall|j: int|
                    0 <= j < i ==> (#[trigger] r@[j]).0 == self.farms.keys@[start + j]
                        && r@[j].1.shows(&self.farms.values@[start + j]),
            decreases count - i,
        {
            let key = self.farms.keys[start + i].clone();
            let info = FarmInfo::from(&self.farms.values[start + i]);
            r.push((key, info));
            i += 1;
        }
        r
    }

    /// Sets the position of `account` in `farm_id` to `pos`, creating the
    /// farmer record if the account has none.
    pub(crate) fn set_position(&mut self, account: &AccountId, farm_id: &FarmId, pos: StakingInfo)
        requires
            old(self).wf(),
        ensures
            final(self).wf(),
            final(self).position_set(old(self), account@, farm_id@, pos),
            final(self).farms == old(self).farms,
            final(self).seeds == old(self).seeds,
            final(self).nft_contracts == old(self).nft_contracts,
            final(self).owner_id == old(self).owner_id,
            final(self).farmer_count == old(self).farmer_count,
    {
        let ghost before = *self;
        match self.farmers.find(account) {
            Some(a) => {
                self.farmers.values[a].staking.insert(farm_id.clone(), pos);
                proof {
                    self.farmers.lemma_replaced(&before.farmers, a as int);
                    assert(self.farmers@.dom() =~= before.farmers@.dom().insert(account@));
                    assert(self.farmers.order() =~= before.farmers.order());
                    assert forall|i: int| 0 <= i < self.farmers.values@.len() implies (
                    #[trigger] self.farmers.values@[i]).wf() by {
                        assert(before.farmers.values@[i].wf());
                    }
                }
            },
            None => {
                let mut farmer = Farmer::new();
                farmer.staking.insert(farm_id.clone(), pos);
                assert(farmer.staking.order() =~= seq![farm_id@]);
                self.farmers.insert(account.clone(), farmer);
                proof {
                    assert forall|i: int| 0 <= i < self.farmers.values@.len() implies (
                    #[trigger] self.farmers.values@[i]).wf() by {
                        if i < before.farmers.values@.len() {
                            assert(before.farmers.values@[i].wf());
                            before.farmers.lemma_slot(i);
                            self.farmers.lemma_slot(i);
                        } else {
                            self.farmers.lemma_slot(i);
                        }
                    }
                }
            },
        }
    }
}

} // verus!
