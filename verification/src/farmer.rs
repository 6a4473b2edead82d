//! Per-account staking positions.

use crate::farm::copy_strings;
use crate::ledger::Ledger;
use vstd::prelude::*;

verus! {

/// An account's position in one farm: how many items it has staked there and
/// the time through which its reward has been settled.
#[derive(Clone, Copy, Debug, PartialEq, Eq, Structural)]
pub struct StakingInfo {
    pub last_staked_at: u64,
    pub amount: u128,
}

/// The positions of one account, keyed by farm identifier.
pub struct Farmer {
    pub staking: Ledger<StakingInfo>,
}

impl Farmer {
    pub open spec fn wf(&self) -> bool {
        self.staking.wf()
    }

    pub fn new() -> (r: Self)
        ensures
            r.wf(),
            r.staking@ == Map::<Seq<char>, StakingInfo>::empty(),
            r.staking.order() == Seq::<Seq<char>>::empty(),
    {
        Self { staking: Ledger::new() }
    }
}

/// Read projection of a farmer: farm identifiers and positions, index-aligned.
#[derive(Debug)]
pub struct FarmerInfo {
    pub farm_staking: Vec<String>,
    pub staking_info: Vec<StakingInfo>,
}

impl FarmerInfo {
    /// The projection shows `farmer`: its farms and positions, in its order.
    pub open spec fn shows(&self, farmer: &Farmer) -> bool {
        &&& self.farm_staking@ == farmer.staking.keys@
        &&& self.staking_info@ == farmer.staking.values@
    }

    pub fn from(farmer: Farmer) -> (r: Self)
        ensures
            r.shows(&farmer),
    {
        Self { farm_staking: farmer.staking.keys, staking_info: farmer.staking.values }
    }

    pub fn of(farmer: &Farmer) -> (r: Self)
        ensures
            r.shows(farmer),
    {
        let mut staking_info: Vec<StakingInfo> = Vec::new();
        let mut i: usize = 0;
        while i < farmer.staking.values.len()
            invariant
                i <= farmer.staking.values@.len(),
                staking_info@ == farmer.staking.values@.subrange(0, i as int),
            decreases farmer.staking.values@.len() - i,
        {
            staking_info.push(farmer.staking.values[i]);
            assert(staking_info@ =~= farmer.staking.values@.subrange(0, i + 1));
            i += 1;
        }
        assert(farmer.staking.values@.subrange(0, i as int) =~= farmer.staking.values@);
        Self { farm_staking: copy_strings(&farmer.staking.keys), staking_info }
    }
}

} // verus!
