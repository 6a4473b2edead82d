//! What every operation keeps: the pool is conserved, claims only grow, no
//! claim exceeds the pool, and positions count the staked items.

use crate::farm::{claimable_spec, funded_farm, settled_farm, settled_paid, settled_position, AccountId, Farm, NFTTokenId, StakedInfo, Status, TermsJson};
use crate::farmer::StakingInfo;
use crate::utils::{farm_id_text, lemma_farm_ids_distinct};
use crate::Contract;
use vstd::prelude::*;

verus! {

/// A claim is never negative and never exceeds what the pool holds.
pub proof fn lemma_claimable_within_pool(farm: Farm, position: StakingInfo, now: u64)
    requires
        farm.terms.session_interval > 0,
    ensures
        0 <= claimable_spec(farm, position, now) <= farm.amount_of_reward,
{
    if farm.status == Status::Running && now - position.last_staked_at
        > farm.terms.session_interval {
        let p = position.amount * farm.terms.reward_per_session;
        let e = now - position.last_staked_at;
        assert(0 <= p * e) by (nonlinear_arith)
            requires
                0 <= p,
                0 <= e,
        ;
        assert(0 <= (p * e) / (farm.terms.session_interval as int)) by (nonlinear_arith)
            requires
                0 <= p * e,
                farm.terms.session_interval > 0,
        ;
    }
}

/// A settlement moves reward from the pool to the claimed total and changes
/// nothing else: the sum of the two stays, the claimed total does not shrink
/// and grows by exactly what is paid. It ends the farm exactly when the
/// amount reaches the pool, and never takes a farm back to `Created`.
pub proof fn lemma_settlement_conserves(farm: Farm, amount: u128)
    requires
        farm.wf(),
    ensures
        settled_farm(farm, amount).wf(),
        settled_farm(farm, amount).total() == farm.total(),
        settled_farm(farm, amount).amount_of_claimed == farm.amount_of_claimed + settled_paid(
            farm,
            amount,
        ),
        settled_farm(farm, amount).amount_of_claimed >= farm.amount_of_claimed,
        settled_paid(farm, amount) <= farm.amount_of_reward,
        settled_farm(farm, amount).status == Status::Ended <==> farm.status == Status::Ended
            || farm.amount_of_reward <= amount,
        settled_farm(farm, amount).status == Status::Created ==> farm.status == Status::Created,
{
}

/// A top-up adds its amount to the pool, leaves the claimed total alone and
/// never takes a farm back to `Created`.
pub proof fn lemma_top_up_adds(farm: Farm, amount: u128, now: u64)
    requires
        farm.wf(),
        farm.status != Status::Ended,
        farm.total() + amount <= u128::MAX,
    ensures
        funded_farm(farm, amount, now).wf(),
        funded_farm(farm, amount, now).total() == farm.total() + amount,
        funded_farm(farm, amount, now).amount_of_claimed == farm.amount_of_claimed,
        funded_farm(farm, amount, now).status == Status::Running,
        funded_farm(farm, amount, now).terms.start_at == (if farm.status == Status::Created
            && farm.terms.start_at == 0 {
            now
        } else {
            farm.terms.start_at
        }),
{
}

/// Right after a settlement of what was due at `now`, nothing more is due at
/// `now`: either the position stands at `now`, or the farm has ended.
pub proof fn lemma_nothing_due_after_settlement(farm: Farm, position: StakingInfo, now: u64)
    requires
        farm.wf(),
        claimable_spec(farm, position, now) > 0,
    ensures
        claimable_spec(
            settled_farm(farm, claimable_spec(farm, position, now) as u128),
            settled_position(farm, position, claimable_spec(farm, position, now) as u128, now),
            now,
        ) == 0,
{
    lemma_claimable_within_pool(farm, position, now);
}

impl Contract {
    /// Staking, withdrawing and claiming leave every farm's sum of pool and
    /// claimed reward as it was, and no claimed total shrinks. Stated for a
    /// state `self` that differs from `before` in one farm, which has been
    /// settled for `due` or left alone.
    pub proof fn lemma_settled_state_conserves(&self, before: &Contract, farm_id: Seq<char>, due: u128)
        requires
            before.wf(),
            before.farms@.dom().contains(farm_id),
            self.farms@.dom() =~= before.farms@.dom(),
            forall|k: Seq<char>|
                k != farm_id && before.farms@.dom().contains(k) ==> #[trigger] self.farms@[k]
                    == before.farms@[k],
            self.farms@[farm_id].amount_of_reward == before.farm_after_due(
                farm_id,
                due,
            ).amount_of_reward,
            self.farms@[farm_id].amount_of_claimed == before.farm_after_due(
                farm_id,
                due,
            ).amount_of_claimed,
        ensures
            forall|k: Seq<char>|
                before.farms@.dom().contains(k) ==> (#[trigger] self.farms@[k]).total()
                    == before.farms@[k].total() && self.farms@[k].amount_of_claimed
                    >= before.farms@[k].amount_of_claimed,
    {
        before.lemma_members_wf();
        lemma_settlement_conserves(before.farms@[farm_id], due);
    }

    /// A stake conserves every farm's total and lets no claimed total shrink.
    pub proof fn lemma_stake_conserves(
        &self,
        before: &Contract,
        farm_id: Seq<char>,
        prev_owner: AccountId,
        nft_contract_id: Seq<char>,
        token_id: Seq<char>,
        now: u64,
    )
        requires
            before.wf(),
            before.stake_rejection(farm_id, prev_owner@, nft_contract_id, token_id, now) is None,
            self.stake_applied(before, farm_id, prev_owner, token_id, now),
        ensures
            forall|k: Seq<char>|
                before.farms@.dom().contains(k) ==> (#[trigger] self.farms@[k]).total()
                    == before.farms@[k].total() && self.farms@[k].amount_of_claimed
                    >= before.farms@[k].amount_of_claimed,
    {
        let due = before.claimable_of(farm_id, prev_owner@, now) as u128;
        self.lemma_settled_state_conserves(before, farm_id, due);
    }

    /// A withdrawal conserves every farm's total and lets no claimed total shrink.
    pub proof fn lemma_withdraw_conserves(
        &self,
        before: &Contract,
        farm_id: Seq<char>,
        sender: Seq<char>,
        token_id: Seq<char>,
        now: u64,
    )
        requires
            before.wf(),
            before.withdraw_rejection(farm_id, sender, token_id, now) is None,
            self.withdraw_applied(before, farm_id, sender, token_id, now),
        ensures
            forall|k: Seq<char>|
                before.farms@.dom().contains(k) ==> (#[trigger] self.farms@[k]).total()
                    == before.farms@[k].total() && self.farms@[k].amount_of_claimed
                    >= before.farms@[k].amount_of_claimed,
    {
        let due = before.claimable_of(farm_id, sender, now) as u128;
        self.lemma_settled_state_conserves(before, farm_id, due);
    }

    /// A claim conserves every farm's total and lets no claimed total shrink.
    pub proof fn lemma_claim_conserves(&self, before: &Contract, farm_id: Seq<char>, account: Seq<char>, now: u64)
        requires
            before.wf(),
            before.claim_rejection(farm_id, account, now) is None,
            self.claim_applied(before, farm_id, account, now),
        ensures
            forall|k: Seq<char>|
                before.farms@.dom().contains(k) ==> (#[trigger] self.farms@[k]).total()
                    == before.farms@[k].total() && self.farms@[k].amount_of_claimed
                    >= before.farms@[k].amount_of_claimed,
    {
        let due = before.claimable_of(farm_id, account, now) as u128;
        before.lemma_members_wf();
        lemma_claimable_within_pool(
            before.farms@[farm_id],
            before.positions(account)[farm_id],
            now,
        );
        self.lemma_settled_state_conserves(before, farm_id, due);
    }

    /// A top-up raises the total of its farm by its amount and changes no
    /// other total and no claimed total.
    pub proof fn lemma_top_up_raises_total(
        &self,
        before: &Contract,
        sender_id: Seq<char>,
        seed_id: Seq<char>,
        farm_id: Seq<char>,
        amount: u128,
        now: u64,
    )
        requires
            before.wf(),
            before.top_up_rejection(sender_id, seed_id, farm_id, amount) is None,
            self.top_up_applied(before, farm_id, amount, now),
        ensures
            self.farms@[farm_id].total() == before.farms@[farm_id].total() + amount,
            forall|k: Seq<char>|
                before.farms@.dom().contains(k) ==> (#[trigger] self.farms@[k]).amount_of_claimed
                    == before.farms@[k].amount_of_claimed && (k != farm_id
                    ==> self.farms@[k].total() == before.farms@[k].total()),
    {
        before.lemma_members_wf();
        lemma_top_up_adds(before.farms@[farm_id], amount, now);
    }

    /// A claim that follows a claim at the same time finds nothing due and is
    /// rejected, which leaves the state as it is.
    pub proof fn lemma_second_claim_is_rejected(&self, before: &Contract, farm_id: Seq<char>, account: Seq<char>, now: u64)
        requires
            before.wf(),
            before.claim_rejection(farm_id, account, now) is None,
            self.claim_applied(before, farm_id, account, now),
        ensures
            self.claimable_of(farm_id, account, now) == 0,
            self.claim_rejection(farm_id, account, now) is Some,
    {
        before.lemma_members_wf();
        let farm = before.farms@[farm_id];
        let pos = before.positions(account)[farm_id];
        lemma_claimable_within_pool(farm, pos, now);
        lemma_nothing_due_after_settlement(farm, pos, now);
    }

    /// The number of items that the position of `account` in `farm_id`
    /// records; zero where there is no position.
    pub open spec fn position_amount(&self, farm_id: Seq<char>, account: Seq<char>) -> nat {
        if self.positions(account).dom().contains(farm_id) {
            self.positions(account)[farm_id].amount as nat
        } else {
            0
        }
    }

    /// Every position records as many items as its account has staked in the
    /// farm, and positions exist only in farms that exist.
    pub open spec fn counts_consistent(&self) -> bool {
        &&& forall|farm_id: Seq<char>, account: Seq<char>|
            self.farms@.dom().contains(farm_id) ==> #[trigger] self.position_amount(
                farm_id,
                account,
            ) == self.farms@[farm_id].owned_by(account).len()
        &&& forall|farm_id: Seq<char>, account: Seq<char>|
            self.position_amount(farm_id, account) > 0 ==> self.farms@.dom().contains(farm_id)
    }

    /// The counts stay consistent over a step that changes one farm and one
    /// position, if the new position counts the account's items in the new
    /// farm and no other account's items in it have changed.
    pub proof fn lemma_counts_step(
        &self,
        before: &Contract,
        farm_id: Seq<char>,
        account: Seq<char>,
        target: Farm,
        staked: Map<Seq<char>, StakedInfo>,
        staked_order: Seq<Seq<char>>,
        pos: StakingInfo,
    )
        requires
            before.counts_consistent(),
            before.farms@.dom().contains(farm_id),
            self.farm_set(before, farm_id, target, staked, staked_order),
            self.position_set(before, account, farm_id, pos),
            pos.amount == self.farms@[farm_id].owned_by(account).len(),
            forall|b: Seq<char>|
                b != account ==> #[trigger] self.farms@[farm_id].owned_by(b)
                    == before.farms@[farm_id].owned_by(b),
        ensures
            self.counts_consistent(),
    {
        assert forall|f: Seq<char>, a: Seq<char>| self.farms@.dom().contains(f) implies #[trigger] self.position_amount(
            f,
            a,
        ) == self.farms@[f].owned_by(a).len() by {
            assert(before.position_amount(f, a) == before.farms@[f].owned_by(a).len());
            if a != account {
                if before.farmers@.dom().contains(a) {
                    assert(self.farmers@[a] == before.farmers@[a]);
                }
                assert(self.positions(a) == before.positions(a));
                if f != farm_id {
                    assert(self.farms@[f] == before.farms@[f]);
                }
            } else {
                if f != farm_id {
                    assert(self.farms@[f] == before.farms@[f]);
                }
            }
        }
        assert forall|f: Seq<char>, a: Seq<char>| self.position_amount(f, a) > 0 implies self.farms@.dom().contains(
            f,
        ) by {
            if a != account {
                if before.farmers@.dom().contains(a) {
                    assert(self.farmers@[a] == before.farmers@[a]);
                }
                assert(self.positions(a) == before.positions(a));
                assert(before.position_amount(f, a) > 0);
            } else if f != farm_id {
                assert(before.position_amount(f, a) > 0);
            }
        }
    }

    /// Staking an item that is not yet staked in the farm keeps the counts
    /// consistent.
    pub proof fn lemma_stake_keeps_counts(
        &self,
        before: &Contract,
        farm_id: Seq<char>,
        prev_owner: AccountId,
        nft_contract_id: Seq<char>,
        token_id: Seq<char>,
        now: u64,
    )
        requires
            before.wf(),
            before.counts_consistent(),
            before.stake_rejection(farm_id, prev_owner@, nft_contract_id, token_id, now) is None,
            !before.farms@[farm_id].staked_nfts@.dom().contains(token_id),
            self.stake_applied(before, farm_id, prev_owner, token_id, now),
        ensures
            self.counts_consistent(),
    {
        let owner = prev_owner@;
        let old_farm = before.farms@[farm_id];
        let new_farm = self.farms@[farm_id];
        let due = before.claimable_of(farm_id, owner, now) as u128;
        let info = StakedInfo { owner_id: prev_owner, staked_at: now };
        old_farm.lemma_owned_finite(owner);
        assert(new_farm.owned_by(owner) =~= old_farm.owned_by(owner).insert(token_id));
        assert(before.position_amount(farm_id, owner) == old_farm.owned_by(owner).len());
        assert forall|b: Seq<char>| b != owner implies #[trigger] new_farm.owned_by(b)
            == old_farm.owned_by(b) by {
            assert(new_farm.owned_by(b) =~= old_farm.owned_by(b));
        }
        self.lemma_counts_step(
            before,
            farm_id,
            owner,
            before.farm_after_due(farm_id, due),
            old_farm.staked_nfts@.insert(token_id, info),
            new_farm.staked_nfts.order(),
            before.position_after_stake(farm_id, owner, now),
        );
    }

    /// Withdrawing an item keeps the counts consistent.
    pub proof fn lemma_withdraw_keeps_counts(
        &self,
        before: &Contract,
        farm_id: Seq<char>,
        sender: Seq<char>,
        token_id: Seq<char>,
        now: u64,
    )
        requires
            before.wf(),
            before.counts_consistent(),
            before.withdraw_rejection(farm_id, sender, token_id, now) is None,
            self.withdraw_applied(before, farm_id, sender, token_id, now),
        ensures
            self.counts_consistent(),
    {
        let old_farm = before.farms@[farm_id];
        let new_farm = self.farms@[farm_id];
        let due = before.claimable_of(farm_id, sender, now) as u128;
        let pos = before.positions(sender)[farm_id];
        old_farm.lemma_owned_finite(sender);
        assert(new_farm.owned_by(sender) =~= old_farm.owned_by(sender).remove(token_id));
        assert(old_farm.owned_by(sender).contains(token_id));
        assert(before.position_amount(farm_id, sender) == old_farm.owned_by(sender).len());
        assert forall|b: Seq<char>| b != sender implies #[trigger] new_farm.owned_by(b)
            == old_farm.owned_by(b) by {
            assert(new_farm.owned_by(b) =~= old_farm.owned_by(b));
        }
        self.lemma_counts_step(
            before,
            farm_id,
            sender,
            before.farm_after_due(farm_id, due),
            old_farm.staked_nfts@.remove(token_id),
            new_farm.staked_nfts.order(),
            StakingInfo { last_staked_at: now, amount: (pos.amount - 1) as u128 },
        );
    }

    /// A claim keeps the counts consistent.
    pub proof fn lemma_claim_keeps_counts(&self, before: &Contract, farm_id: Seq<char>, account: Seq<char>, now: u64)
        requires
            before.wf(),
            before.counts_consistent(),
            before.claim_rejection(farm_id, account, now) is None,
            self.claim_applied(before, farm_id, account, now),
        ensures
            self.counts_consistent(),
    {
        let old_farm = before.farms@[farm_id];
        let pos = before.positions(account)[farm_id];
        let due = before.claimable_of(farm_id, account, now) as u128;
        assert(before.position_amount(farm_id, account) == old_farm.owned_by(account).len());
        assert(self.farms@.dom() =~= before.farms@.dom());
        assert forall|b: Seq<char>| #[trigger] self.farms@[farm_id].owned_by(b) == old_farm.owned_by(b) by {
            assert(self.farms@[farm_id].owned_by(b) =~= old_farm.owned_by(b));
        }
        self.lemma_counts_step(
            before,
            farm_id,
            account,
            settled_farm(old_farm, due),
            old_farm.staked_nfts@,
            old_farm.staked_nfts.order(),
            settled_position(old_farm, pos, due, now),
        );
    }

    /// A top-up keeps the counts consistent.
    pub proof fn lemma_top_up_keeps_counts(
        &self,
        before: &Contract,
        sender_id: Seq<char>,
        seed_id: Seq<char>,
        farm_id: Seq<char>,
        amount: u128,
        now: u64,
    )
        requires
            before.counts_consistent(),
            before.top_up_rejection(sender_id, seed_id, farm_id, amount) is None,
            self.top_up_applied(before, farm_id, amount, now),
        ensures
            self.counts_consistent(),
    {
        assert forall|f: Seq<char>, a: Seq<char>| self.farms@.dom().contains(f) implies #[trigger] self.position_amount(
            f,
            a,
        ) == self.farms@[f].owned_by(a).len() by {
            assert(before.position_amount(f, a) == before.farms@[f].owned_by(a).len());
            assert(self.farms@[f].owned_by(a) =~= before.farms@[f].owned_by(a));
        }
        assert forall|f: Seq<char>, a: Seq<char>| self.position_amount(f, a) > 0 implies self.farms@.dom().contains(
            f,
        ) by {
            assert(before.position_amount(f, a) > 0);
        }
    }

    /// Creating a farm under an identifier that is not in use keeps the
    /// counts consistent: the new farm holds no item and no position.
    pub proof fn lemma_creation_keeps_counts(
        &self,
        before: &Contract,
        owner_id: AccountId,
        terms: TermsJson,
        nft_contract_id: AccountId,
        accepted_nfts: Vec<NFTTokenId>,
        id: Seq<char>,
    )
        requires
            before.counts_consistent(),
            !before.farms@.dom().contains(id),
            self.farm_added(before, owner_id, terms, nft_contract_id, accepted_nfts, id),
        ensures
            self.counts_consistent(),
    {
        assert forall|f: Seq<char>, a: Seq<char>| self.farms@.dom().contains(f) implies #[trigger] self.position_amount(
            f,
            a,
        ) == self.farms@[f].owned_by(a).len() by {
            if f == id {
                assert(self.farms@[f].owned_by(a) =~= Set::<Seq<char>>::empty());
                if before.position_amount(f, a) > 0 {
                    assert(before.farms@.dom().contains(f));
                }
            } else {
                assert(before.position_amount(f, a) == before.farms@[f].owned_by(a).len());
            }
        }
        assert forall|f: Seq<char>, a: Seq<char>| self.position_amount(f, a) > 0 implies self.farms@.dom().contains(
            f,
        ) by {
            assert(before.position_amount(f, a) > 0);
        }
    }

    /// Two farms created one after the other under the same seed carry
    /// consecutive indices, and the seed's counter ends two above its start.
    /// Where the seed holds no `#`, the two identifiers differ.
    pub proof fn lemma_indices_consecutive(
        &self,
        middle: &Contract,
        before: &Contract,
        owner_1: AccountId,
        terms_1: TermsJson,
        contract_1: AccountId,
        accepted_1: Vec<NFTTokenId>,
        id_1: Seq<char>,
        owner_2: AccountId,
        terms_2: TermsJson,
        contract_2: AccountId,
        accepted_2: Vec<NFTTokenId>,
        id_2: Seq<char>,
    )
        requires
            terms_1.seed_id@ == terms_2.seed_id@,
            middle.farm_added(before, owner_1, terms_1, contract_1, accepted_1, id_1),
            self.farm_added(middle, owner_2, terms_2, contract_2, accepted_2, id_2),
        ensures
            id_1 == farm_id_text(terms_1.seed_id@, before.next_index_of(terms_1.seed_id@)),
            id_2 == farm_id_text(terms_1.seed_id@, before.next_index_of(terms_1.seed_id@) + 1),
            self.next_index_of(terms_1.seed_id@) == before.next_index_of(terms_1.seed_id@) + 2,
            (forall|i: int| 0 <= i < terms_1.seed_id@.len() ==> terms_1.seed_id@[i] != '#') ==> id_1
                != id_2,
    {
        let seed = terms_1.seed_id@;
        let n = before.next_index_of(seed);
        assert(n + 1 == middle.next_index_of(seed));
        assert(n + 1 <= u32::MAX);
        if forall|i: int| 0 <= i < seed.len() ==> seed[i] != '#' {
            lemma_farm_ids_distinct(seed, n as usize, seed, (n + 1) as usize);
        }
    }
}

} // verus!
