//! Reward top-ups.

use crate::error::FarmError;
use crate::farm::{funded_farm, AccountId, Balance, FarmId, Status, Timestamp};
use crate::Contract;
use vstd::prelude::*;

verus! {

impl Contract {
    /// Why a top-up of `amount` is rejected, if it is.
    pub open spec fn top_up_rejection(
        &self,
        sender_id: Seq<char>,
        seed_id: Seq<char>,
        farm_id: Seq<char>,
        amount: u128,
    ) -> Option<FarmError> {
        if !self.farms@.dom().contains(farm_id) {
            Some(FarmError::NotFound)
        } else if sender_id != self.farms@[farm_id].owner_id@ {
            Some(FarmError::NotAuthorized)
        } else if seed_id != self.farms@[farm_id].terms.seed_id@ {
            Some(FarmError::NotAuthorized)
        } else if self.farms@[farm_id].status == Status::Ended {
            Some(FarmError::InvalidState)
        } else if self.farms@[farm_id].total() + amount > u128::MAX {
            Some(FarmError::Overflow)
        } else {
            None
        }
    }

    /// `self` is `before` after a top-up of `amount` to `farm_id` at `now`:
    /// the pool has grown by `amount` and the farm is running.
    pub open spec fn top_up_applied(&self, before: &Contract, farm_id: Seq<char>, amount: u128, now: u64) -> bool {
        &&& self.farms@ == before.farms@.insert(
            farm_id,
            funded_farm(before.farms@[farm_id], amount, now),
        )
        &&& self.farms.keys == before.farms.keys
        &&& self.farmers == before.farmers
        &&& self.seeds == before.seeds
        &&& self.nft_contracts == before.nft_contracts
        &&& self.owner_id == before.owner_id
        &&& self.farmer_count == before.farmer_count
    }

    /// Adds `amount` of the reward token `seed_id`, sent by `sender_id`, to
    /// the pool of `farm_id` at time `now`.
    pub fn internal_add_reward_to_farm(
        &mut self,
        sender_id: AccountId,
        seed_id: AccountId,
        farm_id: FarmId,
        amount: Balance,
        now: Timestamp,
    ) -> (r: Result<(), FarmError>)
        requires
            old(self).wf(),
        ensures
            final(self).wf(),
            match old(self).top_up_rejection(sender_id@, seed_id@, farm_id@, amount) {
                Some(e) => r == Err::<(), FarmError>(e) && *final(self) == *old(self),
                None => r == Ok::<(), FarmError>(()) && final(self).top_up_applied(
                    old(self),
                    farm_id@,
                    amount,
                    now,
                ),
            },
    {
        let fi = match self.farms.find(&farm_id) {
            Some(fi) => fi,
            None => {
                return Err(FarmError::NotFound);
            },
        };
        if sender_id != self.farms.values[fi].owner_id {
            return Err(FarmError::NotAuthorized);
        }
        if seed_id != self.farms.values[fi].terms.seed_id {
            return Err(FarmError::NotAuthorized);
        }
        if self.farms.values[fi].status == Status::Ended {
            return Err(FarmError::InvalidState);
        }
        if amount > u128::MAX - self.farms.values[fi].amount_of_reward
            - self.farms.values[fi].amount_of_claimed {
            return Err(FarmError::Overflow);
        }
        let ghost before = *self;
        let r = self.farms.values[fi].add_reward(amount, now);
        proof {
            self.farms.lemma_replaced(&before.farms, fi as int);
            assert forall|i: int| 0 <= i < self.farms.values@.len() implies (
            #[trigger] self.farms.values@[i]).wf() by {
                assert(before.farms.values@[i].wf());
            }
        }
        r
    }
}

} // verus!
