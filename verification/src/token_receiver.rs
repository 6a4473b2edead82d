//! Handlers for incoming reward tokens and collateral items.

use crate::error::FarmError;
use crate::farm::{AccountId, Balance, FarmId, NFTTokenId, Timestamp};
use crate::Contract;
use vstd::prelude::*;

verus! {

/// The message that comes with a reward deposit: the farm to fund.
pub struct FTReceiverMessage {
    pub farm_id: FarmId,
}

/// The message that comes with a collateral item: the farm to stake into.
pub struct NFTReceiverMessage {
    pub farm_id: FarmId,
}

impl Contract {
    /// Takes a deposit of `amount` reward tokens of the seed `seed_id` from
    /// `sender_id`. Returns the amount to hand back: all of it where the
    /// message names no farm, none where the farm was funded.
    pub fn ft_on_transfer(
        &mut self,
        sender_id: AccountId,
        seed_id: AccountId,
        amount: Balance,
        message: FTReceiverMessage,
        now: Timestamp,
    ) -> (r: Result<Balance, FarmError>)
        requires
            old(self).wf(),
        ensures
            final(self).wf(),
            message.farm_id@.len() == 0 ==> r == Ok::<Balance, FarmError>(amount) && *final(self)
                == *old(self),
            message.farm_id@.len() != 0 ==> (match old(self).top_up_rejection(
                sender_id@,
                seed_id@,
                message.farm_id@,
                amount,
            ) {
                Some(e) => r == Err::<Balance, FarmError>(e) && *final(self) == *old(self),
                None => r == Ok::<Balance, FarmError>(0) && final(self).top_up_applied(
                    old(self),
                    message.farm_id@,
                    amount,
                    now,
                ),
            }),
    {
        if message.farm_id.as_str().is_empty() {
            return Ok(amount);
        }
        match self.internal_add_reward_to_farm(sender_id, seed_id, message.farm_id, amount, now) {
            Ok(()) => Ok(0),
            Err(e) => Err(e),
        }
    }

    /// Takes the collateral item `token_id`, sent on by the contract
    /// `nft_contract_id` in a transaction signed by `signer_id`, and stakes
    /// it for `previous_owner_id` into the farm that the message names.
    /// Returns whether the item is to be handed back, and the reward paid.
    pub fn nft_on_transfer(
        &mut self,
        nft_contract_id: AccountId,
        signer_id: AccountId,
        previous_owner_id: AccountId,
        token_id: NFTTokenId,
        message: NFTReceiverMessage,
        now: Timestamp,
    ) -> (r: Result<(bool, Balance), FarmError>)
        requires
            old(self).wf(),
        ensures
            final(self).wf(),
            nft_contract_id@ == signer_id@ || previous_owner_id@ != signer_id@ ==> r == Err::<
                (bool, Balance),
                FarmError,
            >(FarmError::NotAuthorized) && *final(self) == *old(self),
            nft_contract_id@ != signer_id@ && previous_owner_id@ == signer_id@
                && message.farm_id@.len() == 0 ==> r == Ok::<(bool, Balance), FarmError>((true, 0))
                && *final(self) == *old(self),
            nft_contract_id@ != signer_id@ && previous_owner_id@ == signer_id@
                && message.farm_id@.len() != 0 ==> (match old(self).stake_rejection(
                message.farm_id@,
                previous_owner_id@,
                nft_contract_id@,
                token_id@,
                now,
            ) {
                Some(e) => r == Err::<(bool, Balance), FarmError>(e) && *final(self) == *old(self),
                None => r == Ok::<(bool, Balance), FarmError>(
                    (false, old(self).claimable_of(message.farm_id@, previous_owner_id@, now) as u128),
                ) && final(self).stake_applied(
                    old(self),
                    message.farm_id@,
                    previous_owner_id,
                    token_id@,
                    now,
                ),
            }),
    {
        if nft_contract_id == signer_id {
            return Err(FarmError::NotAuthorized);
        }
        if previous_owner_id != signer_id {
            return Err(FarmError::NotAuthorized);
        }
        if message.farm_id.as_str().is_empty() {
            return Ok((true, 0));
        }
        match self.internal_stake(message.farm_id, previous_owner_id, nft_contract_id, token_id, now) {
            Ok(paid) => Ok((false, paid)),
            Err(e) => Err(e),
        }
    }
}

} // verus!
