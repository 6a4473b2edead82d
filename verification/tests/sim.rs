use farming::actions_of_farm::PromiseOutcome;
use farming::error::FarmError;
use farming::farm::{Farm, FarmInfo, Status, Terms, TermsJson};
use farming::farmer::{FarmerInfo, StakingInfo};
use farming::token_receiver::{FTReceiverMessage, NFTReceiverMessage};
use farming::utils::parse_farm_id;
use farming::Contract;

const FT_CONTRACT_ID: &str = "ft_contract";
const NFT_CONTRACT_ID: &str = "nft_contract";
const RPS: u128 = 5;
const NFT_ID_1: &str = "token-1";
const NFT_ID_2: &str = "token-2";
const NFT_ID_3: &str = "token-3";
const T0: u64 = 1_000;

fn s(x: &str) -> String {
    x.to_string()
}

fn terms() -> TermsJson {
    TermsJson { seed_id: s(FT_CONTRACT_ID), start_at: 0, reward_per_session: RPS, session_interval: 1 }
}

fn accepted() -> Vec<String> {
    vec![s(NFT_ID_1), s(NFT_ID_2), s(NFT_ID_3)]
}

fn create(contract: &mut Contract, answer: &[u8]) -> Result<String, FarmError> {
    let pending = contract.create_farm(s("artist"), terms(), &s(NFT_CONTRACT_ID), accepted()).unwrap();
    contract.callback_check_nfts_owner(
        pending.owner_id,
        pending.terms,
        &pending.nft_contract_id,
        pending.accepted_nfts,
        PromiseOutcome::Successful(answer.to_vec()),
    )
}

fn fund(contract: &mut Contract, farm_id: &str, amount: u128, now: u64) -> Result<u128, FarmError> {
    contract.ft_on_transfer(s("artist"), s(FT_CONTRACT_ID), amount, FTReceiverMessage { farm_id: s(farm_id) }, now)
}

fn stake(contract: &mut Contract, farm_id: &str, token: &str, now: u64) -> Result<(bool, u128), FarmError> {
    contract.nft_on_transfer(
        s(NFT_CONTRACT_ID),
        s("collector"),
        s("collector"),
        s(token),
        NFTReceiverMessage { farm_id: s(farm_id) },
        now,
    )
}

/// A ledger with one funded farm and one item staked by the collector.
fn init() -> Contract {
    let mut contract = Contract::new(s("root"));
    contract.whitelist_nft_contract(&s("root"), s(NFT_CONTRACT_ID)).unwrap();
    let farm_0 = create(&mut contract, b"true").unwrap();
    assert_eq!(farm_0, "ft_contract#0");
    assert_eq!(fund(&mut contract, &farm_0, 100000000000000, T0), Ok(0));
    assert_eq!(stake(&mut contract, &farm_0, NFT_ID_1, T0 + 1), Ok((false, 0)));
    let list_farms: Vec<(String, FarmInfo)> = contract.list_farms(0, 10);
    assert_eq!(list_farms.len(), 1);
    contract
}

#[test]
pub fn test_create_farm() {
    let mut contract = init();
    let farm_1 = create(&mut contract, b"true").unwrap();
    let mut expected = s(FT_CONTRACT_ID);
    expected.push_str("#1");
    assert_eq!(farm_1, expected);
    let farm_info_v1: FarmInfo = contract.get_farm(farm_1.clone()).unwrap();
    assert!(farm_info_v1.owner_id.contains("artist"));
    assert!(farm_info_v1.farm_status.contains("Created"));
    assert_eq!(farm_info_v1.total_reward, 0);
    assert_eq!(farm_info_v1.claimed_reward, 0);

    assert_eq!(fund(&mut contract, &farm_1, 100000000000000, T0 + 2), Ok(0));
    let farm_info_v2: FarmInfo = contract.get_farm(farm_1.clone()).unwrap();
    assert!(farm_info_v2.owner_id.contains("artist"));
    assert!(farm_info_v2.farm_status.contains("Running"));
    assert_eq!(farm_info_v2.total_reward, 100000000000000);

    let from: u64 = 0;
    let limit: u64 = 10;
    let list_farms: Vec<(String, FarmInfo)> = contract.list_farms(from, limit);
    assert_eq!(list_farms.len(), 2);
    assert_eq!(list_farms[0].1.staked_nfts.len(), 1);
}

#[test]
pub fn test_stake_farm() {
    let mut contract = init();
    assert_eq!(stake(&mut contract, "ft_contract#0", NFT_ID_2, T0 + 2), Ok((false, 0)));
    let farmer_info_v1: FarmerInfo = contract.get_farmer(s("collector")).unwrap();
    assert_eq!(farmer_info_v1.staking_info[0].amount, 2);
    let list_farms: Vec<(String, FarmInfo)> = contract.list_farms(0, 10);
    assert_eq!(list_farms.len(), 1);
    assert_eq!(list_farms[0].1.staked_nfts.len(), 2);
}

#[test]
pub fn test_claim_farm() {
    let mut contract = init();
    let farm_0 = s("ft_contract#0");
    let paid = contract.claim_reward_by_farm(farm_0.clone(), s("collector"), T0 + 1 + 60).unwrap();
    assert_eq!(paid, 300);
    let farm_info_v1: FarmInfo = contract.get_farm(farm_0).unwrap();
    assert_ne!(farm_info_v1.claimed_reward, 0);
    assert_eq!(farm_info_v1.claimed_reward, 300);
    assert_eq!(farm_info_v1.total_reward, 100000000000000 - 300);
}

#[test]
pub fn test_withdraw_farm() {
    let mut contract = init();
    let farm_0 = s("ft_contract#0");
    let paid = contract.withdraw(farm_0.clone(), s("collector"), s(NFT_ID_1), T0 + 1 + 60).unwrap();
    assert_eq!(paid, 300);
    let farm_info_v1: FarmInfo = contract.get_farm(farm_0).unwrap();
    assert_ne!(farm_info_v1.claimed_reward, 0);
    assert_eq!(farm_info_v1.staked_nfts.len(), 0);
    assert_eq!(farm_info_v1.staked_ids.len(), 0);
}

#[test]
fn first_top_up_starts_the_farm() {
    let mut contract = Contract::new(s("root"));
    contract.whitelist_nft_contract(&s("root"), s(NFT_CONTRACT_ID)).unwrap();
    let id = create(&mut contract, b"true").unwrap();
    let before = contract.get_farm(id.clone()).unwrap();
    assert_eq!(before.farm_status, "Created");
    assert_eq!(before.start_at, 0);
    assert_eq!(fund(&mut contract, &id, 100000000000000, 77), Ok(0));
    let after = contract.get_farm(id.clone()).unwrap();
    assert_eq!(after.farm_status, "Running");
    assert_eq!(after.start_at, 77);
    assert_eq!(after.total_reward, 100000000000000);
    assert_eq!(fund(&mut contract, &id, 5, 99), Ok(0));
    let again = contract.get_farm(id).unwrap();
    assert_eq!(again.start_at, 77);
    assert_eq!(again.total_reward, 100000000000005);
}

#[test]
fn configured_start_time_is_kept() {
    let mut farm = Farm::new(
        s("artist"),
        Terms { seed_id: s("seed"), start_at: 500, reward_per_session: 5, session_interval: 1 },
        s(NFT_CONTRACT_ID),
        accepted(),
    );
    assert_eq!(farm.add_reward(10, 70), Ok(()));
    assert_eq!(farm.terms.start_at, 500);
    assert_eq!(farm.status, Status::Running);
}

#[test]
fn second_stake_before_a_session_settles_nothing() {
    let mut contract = init();
    assert_eq!(stake(&mut contract, "ft_contract#0", NFT_ID_2, T0 + 1), Ok((false, 0)));
    let info = contract.get_farmer(s("collector")).unwrap();
    assert_eq!(info.farm_staking, vec![s("ft_contract#0")]);
    assert_eq!(info.staking_info, vec![StakingInfo { last_staked_at: T0 + 1, amount: 2 }]);
    let farm = contract.get_farm(s("ft_contract#0")).unwrap();
    assert_eq!(farm.claimed_reward, 0);
    assert_eq!(farm.total_reward, 100000000000000);
}

#[test]
fn stake_after_sessions_settles_the_old_position() {
    let mut contract = init();
    assert_eq!(stake(&mut contract, "ft_contract#0", NFT_ID_2, T0 + 11), Ok((false, 50)));
    let info = contract.get_farmer(s("collector")).unwrap();
    assert_eq!(info.staking_info, vec![StakingInfo { last_staked_at: T0 + 11, amount: 2 }]);
    let farm = contract.get_farm(s("ft_contract#0")).unwrap();
    assert_eq!(farm.claimed_reward, 50);
    assert_eq!(farm.total_reward, 100000000000000 - 50);
}

#[test]
fn claim_pays_by_the_formula_and_then_nothing() {
    let mut contract = init();
    assert_eq!(stake(&mut contract, "ft_contract#0", NFT_ID_2, T0 + 1), Ok((false, 0)));
    let farm_0 = s("ft_contract#0");
    assert_eq!(contract.get_claimable_amount(farm_0.clone(), s("collector"), T0 + 8), 2 * 5 * 7);
    assert_eq!(contract.claim_reward_by_farm(farm_0.clone(), s("collector"), T0 + 8), Ok(70));
    assert_eq!(contract.get_claimable_amount(farm_0.clone(), s("collector"), T0 + 8), 0);
    assert_eq!(
        contract.claim_reward_by_farm(farm_0.clone(), s("collector"), T0 + 8),
        Err(FarmError::NotYetEligible)
    );
    let farm = contract.get_farm(farm_0).unwrap();
    assert_eq!(farm.claimed_reward, 70);
    assert_eq!(farm.total_reward + farm.claimed_reward, 100000000000000);
}

#[test]
fn exactly_one_session_pays_nothing() {
    let contract = init();
    assert_eq!(contract.get_claimable_amount(s("ft_contract#0"), s("collector"), T0 + 2), 0);
    assert_eq!(contract.get_claimable_amount(s("ft_contract#0"), s("collector"), T0 + 3), 10);
    assert_eq!(contract.get_claimable_amount(s("ft_contract#0"), s("nobody"), T0 + 30), 0);
    assert_eq!(contract.get_claimable_amount(s("nowhere"), s("collector"), T0 + 30), 0);
}

#[test]
fn quotient_is_truncated() {
    let farm = Farm {
        status: Status::Running,
        amount_of_reward: 1_000,
        ..Farm::new(
            s("artist"),
            Terms { seed_id: s("seed"), start_at: 0, reward_per_session: 5, session_interval: 3 },
            s(NFT_CONTRACT_ID),
            accepted(),
        )
    };
    let position = StakingInfo { last_staked_at: 10, amount: 2 };
    assert_eq!(farm.claimable(&position, 13), 0);
    assert_eq!(farm.claimable(&position, 14), 13);
    assert_eq!(farm.claimable(&position, 17), 23);
    assert_eq!(farm.claimable(&position, 5), 0);
    assert_eq!(farm.claimable(&position, 10_000), 1_000);
}

#[test]
fn huge_products_are_capped_at_the_pool() {
    let farm = Farm {
        status: Status::Running,
        amount_of_reward: u128::MAX,
        ..Farm::new(
            s("artist"),
            Terms { seed_id: s("seed"), start_at: 0, reward_per_session: u128::MAX, session_interval: 2 },
            s(NFT_CONTRACT_ID),
            accepted(),
        )
    };
    assert_eq!(farm.claimable(&StakingInfo { last_staked_at: 0, amount: 3 }, 10), u128::MAX);
    assert_eq!(farm.claimable(&StakingInfo { last_staked_at: 0, amount: 1 }, 3), u128::MAX);
    let wide = Farm {
        status: Status::Running,
        amount_of_reward: u128::MAX,
        ..Farm::new(
            s("artist"),
            Terms { seed_id: s("seed"), start_at: 0, reward_per_session: 1u128 << 100, session_interval: 1u64 << 40 },
            s(NFT_CONTRACT_ID),
            accepted(),
        )
    };
    assert_eq!(
        wide.claimable(&StakingInfo { last_staked_at: 0, amount: 3 }, 1u64 << 50),
        3 * (1u128 << 110)
    );
}

#[test]
fn claim_that_reaches_the_pool_ends_the_farm() {
    let mut contract = Contract::new(s("root"));
    contract.whitelist_nft_contract(&s("root"), s(NFT_CONTRACT_ID)).unwrap();
    let id = create(&mut contract, b"true").unwrap();
    assert_eq!(fund(&mut contract, &id, 100, T0), Ok(0));
    assert_eq!(stake(&mut contract, &id, NFT_ID_1, T0), Ok((false, 0)));
    assert_eq!(contract.claim_reward_by_farm(id.clone(), s("collector"), T0 + 20), Ok(100));
    let farm = contract.get_farm(id.clone()).unwrap();
    assert_eq!(farm.farm_status, "Ended");
    assert_eq!(farm.total_reward, 0);
    assert_eq!(farm.claimed_reward, 100);
    assert_eq!(contract.get_claimable_amount(id.clone(), s("collector"), T0 + 20), 0);
    assert_eq!(contract.claim_reward_by_farm(id.clone(), s("collector"), T0 + 40), Err(FarmError::InvalidState));
    assert_eq!(fund(&mut contract, &id, 5, T0 + 41), Err(FarmError::InvalidState));
    assert_eq!(stake(&mut contract, &id, NFT_ID_2, T0 + 42), Err(FarmError::InvalidState));
}

#[test]
fn stake_is_refused_when_it_would_drain_the_pool() {
    let mut contract = Contract::new(s("root"));
    contract.whitelist_nft_contract(&s("root"), s(NFT_CONTRACT_ID)).unwrap();
    let id = create(&mut contract, b"true").unwrap();
    assert_eq!(fund(&mut contract, &id, 100, T0), Ok(0));
    assert_eq!(stake(&mut contract, &id, NFT_ID_1, T0), Ok((false, 0)));
    assert_eq!(stake(&mut contract, &id, NFT_ID_2, T0 + 20), Err(FarmError::ExhaustionGuard));
    let farm = contract.get_farm(id.clone()).unwrap();
    assert_eq!(farm.staked_ids, vec![s(NFT_ID_1)]);
    assert_eq!(farm.total_reward, 100);
    assert_eq!(stake(&mut contract, &id, NFT_ID_2, T0 + 19), Ok((false, 95)));
}

#[test]
fn second_stake_into_an_unfunded_farm_is_taken() {
    let mut contract = Contract::new(s("root"));
    contract.whitelist_nft_contract(&s("root"), s(NFT_CONTRACT_ID)).unwrap();
    let id = create(&mut contract, b"true").unwrap();
    assert_eq!(stake(&mut contract, &id, NFT_ID_1, T0), Ok((false, 0)));
    assert_eq!(stake(&mut contract, &id, NFT_ID_2, T0 + 5), Ok((false, 0)));
    let info = contract.get_farmer(s("collector")).unwrap();
    assert_eq!(info.staking_info, vec![StakingInfo { last_staked_at: T0, amount: 2 }]);
}

#[test]
fn withdraw_waits_for_one_session() {
    let mut contract = Contract::new(s("root"));
    contract.whitelist_nft_contract(&s("root"), s(NFT_CONTRACT_ID)).unwrap();
    let pending = contract
        .create_farm(
            s("artist"),
            TermsJson { seed_id: s(FT_CONTRACT_ID), start_at: 0, reward_per_session: 5, session_interval: 10 },
            &s(NFT_CONTRACT_ID),
            accepted(),
        )
        .unwrap();
    let id = contract
        .conclude_creation(pending.owner_id, pending.terms, &pending.nft_contract_id, pending.accepted_nfts, Some(true))
        .unwrap();
    assert_eq!(fund(&mut contract, &id, 1_000, T0), Ok(0));
    assert_eq!(stake(&mut contract, &id, NFT_ID_1, T0 + 5), Ok((false, 0)));
    assert_eq!(
        contract.withdraw(id.clone(), s("collector"), s(NFT_ID_1), T0 + 14),
        Err(FarmError::NotYetEligible)
    );
    assert_eq!(
        contract.withdraw(id.clone(), s("collector"), s(NFT_ID_1), T0 + 2),
        Err(FarmError::NotYetEligible)
    );
    assert_eq!(contract.get_farm(id.clone()).unwrap().staked_ids, vec![s(NFT_ID_1)]);
    assert_eq!(contract.withdraw(id.clone(), s("collector"), s(NFT_ID_1), T0 + 15), Ok(0));
    assert_eq!(contract.get_farm(id.clone()).unwrap().staked_ids.len(), 0);
    let info = contract.get_farmer(s("collector")).unwrap();
    assert_eq!(info.staking_info, vec![StakingInfo { last_staked_at: T0 + 15, amount: 0 }]);

    assert_eq!(stake(&mut contract, &id, NFT_ID_2, T0 + 20), Ok((false, 0)));
    assert_eq!(contract.withdraw(id.clone(), s("collector"), s(NFT_ID_2), T0 + 42), Ok(13));
    let farm = contract.get_farm(id).unwrap();
    assert_eq!(farm.claimed_reward, 13);
    assert_eq!(farm.total_reward, 987);
    assert_eq!(farm.staked_nfts.len(), 0);
}

#[test]
fn withdraw_rejections() {
    let mut contract = init();
    let farm_0 = s("ft_contract#0");
    assert_eq!(contract.withdraw(farm_0.clone(), s("stranger"), s(NFT_ID_1), T0 + 50), Err(FarmError::NotFound));
    assert_eq!(contract.withdraw(s("none#9"), s("collector"), s(NFT_ID_1), T0 + 50), Err(FarmError::NotFound));
    assert_eq!(contract.withdraw(farm_0.clone(), s("collector"), s(NFT_ID_3), T0 + 50), Err(FarmError::NotFound));
    assert_eq!(
        contract.nft_on_transfer(
            s(NFT_CONTRACT_ID),
            s("other"),
            s("other"),
            s(NFT_ID_2),
            NFTReceiverMessage { farm_id: farm_0.clone() },
            T0 + 2,
        ),
        Ok((false, 0))
    );
    assert_eq!(
        contract.withdraw(farm_0.clone(), s("collector"), s(NFT_ID_2), T0 + 50),
        Err(FarmError::NotAuthorized)
    );
    assert_eq!(contract.withdraw(farm_0.clone(), s("other"), s(NFT_ID_2), T0 + 50), Ok(5 * 48));
    assert_eq!(contract.get_farm(farm_0).unwrap().staked_ids, vec![s(NFT_ID_1)]);
}

#[test]
fn stake_rejections() {
    let mut contract = init();
    assert_eq!(stake(&mut contract, "ft_contract#7", NFT_ID_2, T0 + 2), Err(FarmError::NotFound));
    assert_eq!(stake(&mut contract, "ft_contract#0", "token-9", T0 + 2), Err(FarmError::InvalidState));
    assert_eq!(
        contract.nft_on_transfer(
            s("other_nft"),
            s("collector"),
            s("collector"),
            s(NFT_ID_2),
            NFTReceiverMessage { farm_id: s("ft_contract#0") },
            T0 + 2,
        ),
        Err(FarmError::InvalidState)
    );
    assert_eq!(
        contract.nft_on_transfer(
            s(NFT_CONTRACT_ID),
            s(NFT_CONTRACT_ID),
            s(NFT_CONTRACT_ID),
            s(NFT_ID_2),
            NFTReceiverMessage { farm_id: s("ft_contract#0") },
            T0 + 2,
        ),
        Err(FarmError::NotAuthorized)
    );
    assert_eq!(
        contract.nft_on_transfer(
            s(NFT_CONTRACT_ID),
            s("signer"),
            s("collector"),
            s(NFT_ID_2),
            NFTReceiverMessage { farm_id: s("ft_contract#0") },
            T0 + 2,
        ),
        Err(FarmError::NotAuthorized)
    );
    assert_eq!(
        contract.nft_on_transfer(
            s(NFT_CONTRACT_ID),
            s("collector"),
            s("collector"),
            s(NFT_ID_2),
            NFTReceiverMessage { farm_id: s("") },
            T0 + 2,
        ),
        Ok((true, 0))
    );
    assert_eq!(contract.get_farm(s("ft_contract#0")).unwrap().staked_ids, vec![s(NFT_ID_1)]);
}

#[test]
fn top_up_rejections() {
    let mut contract = init();
    let farm_0 = "ft_contract#0";
    assert_eq!(fund(&mut contract, "ft_contract#3", 1, T0), Err(FarmError::NotFound));
    assert_eq!(
        contract.ft_on_transfer(s("mallory"), s(FT_CONTRACT_ID), 1, FTReceiverMessage { farm_id: s(farm_0) }, T0),
        Err(FarmError::NotAuthorized)
    );
    assert_eq!(
        contract.ft_on_transfer(s("artist"), s("other_ft"), 1, FTReceiverMessage { farm_id: s(farm_0) }, T0),
        Err(FarmError::NotAuthorized)
    );
    assert_eq!(fund(&mut contract, farm_0, u128::MAX, T0), Err(FarmError::Overflow));
    assert_eq!(fund(&mut contract, "", 42, T0), Ok(42));
    assert_eq!(contract.get_farm(s(farm_0)).unwrap().total_reward, 100000000000000);
    assert_eq!(
        contract.internal_add_reward_to_farm(s("artist"), s(FT_CONTRACT_ID), s(farm_0), 1, T0 + 9),
        Ok(())
    );
    assert_eq!(contract.get_farm(s(farm_0)).unwrap().total_reward, 100000000000001);
}

#[test]
fn claim_rejections() {
    let mut contract = init();
    let farm_0 = s("ft_contract#0");
    assert_eq!(contract.claim_reward_by_farm(s("x#1"), s("collector"), T0 + 9), Err(FarmError::NotFound));
    assert_eq!(contract.claim_reward_by_farm(farm_0.clone(), s("nobody"), T0 + 9), Err(FarmError::NotFound));
    assert_eq!(contract.claim_reward_by_farm(farm_0.clone(), s("collector"), T0 - 1), Err(FarmError::NotYetEligible));
    assert_eq!(contract.claim_reward_by_farm(farm_0.clone(), s("collector"), T0 + 2), Err(FarmError::NotYetEligible));
    let farm_1 = create(&mut contract, b"true").unwrap();
    assert_eq!(stake(&mut contract, &farm_1, NFT_ID_2, T0 + 2), Ok((false, 0)));
    assert_eq!(contract.claim_reward_by_farm(farm_1, s("collector"), T0 + 90), Err(FarmError::InvalidState));
}

#[test]
fn farm_indices_grow_by_one_and_failures_consume_none() {
    let mut contract = Contract::new(s("root"));
    assert_eq!(
        contract.create_farm(s("artist"), terms(), &s(NFT_CONTRACT_ID), accepted()).err(),
        Some(FarmError::NotAuthorized)
    );
    assert_eq!(contract.whitelist_nft_contract(&s("mallory"), s(NFT_CONTRACT_ID)), Err(FarmError::NotAuthorized));
    assert!(!contract.is_whitelist_nft_contract(&s(NFT_CONTRACT_ID)));
    contract.whitelist_nft_contract(&s("root"), s(NFT_CONTRACT_ID)).unwrap();
    assert!(contract.is_whitelist_nft_contract(&s(NFT_CONTRACT_ID)));
    assert_eq!(create(&mut contract, b"true"), Ok(s("ft_contract#0")));
    assert_eq!(create(&mut contract, b"false"), Err(FarmError::VerificationFailed));
    assert_eq!(create(&mut contract, b"1"), Err(FarmError::VerificationFailed));
    assert_eq!(create(&mut contract, b"true false"), Err(FarmError::VerificationFailed));
    assert_eq!(create(&mut contract, b"\"true\""), Err(FarmError::VerificationFailed));
    assert_eq!(create(&mut contract, b""), Err(FarmError::VerificationFailed));
    assert_eq!(
        contract.callback_check_nfts_owner(s("artist"), terms(), &s(NFT_CONTRACT_ID), accepted(), PromiseOutcome::Failed),
        Err(FarmError::VerificationFailed)
    );
    assert_eq!(contract.get_seed(s(FT_CONTRACT_ID)).unwrap().next_index, 1);
    assert_eq!(contract.get_number_of_farms(), 1);
    assert_eq!(create(&mut contract, b" \n\ttrue\r "), Ok(s("ft_contract#1")));
    assert_eq!(create(&mut contract, b"true"), Ok(s("ft_contract#2")));
    for i in 3..12u32 {
        assert_eq!(create(&mut contract, b"true"), Ok(format!("ft_contract#{}", i)));
    }
    assert_eq!(contract.get_seed(s(FT_CONTRACT_ID)).unwrap().next_index, 12);
    assert_eq!(contract.list_seeds(), vec![s(FT_CONTRACT_ID)]);
    assert_eq!(contract.get_number_of_farms(), 12);
    assert_eq!(contract.list_farms(10, 5).len(), 2);
    assert_eq!(contract.list_farms(10, 5)[0].0, "ft_contract#10");
    assert_eq!(contract.list_farms(3, 2).len(), 2);
    assert_eq!(contract.list_farms(3, 2)[1].0, "ft_contract#4");
    assert_eq!(contract.list_farms(12, 5).len(), 0);
    assert_eq!(contract.list_farms(u64::MAX, u64::MAX).len(), 0);
    assert!(contract.get_seed(s("other")).is_none());
    assert!(contract.get_farm(s("other#0")).is_none());
    assert!(contract.get_farmer(s("collector")).is_none());
}

#[test]
fn counts_match_the_staked_items() {
    let mut contract = init();
    let farm_0 = "ft_contract#0";
    assert_eq!(stake(&mut contract, farm_0, NFT_ID_2, T0 + 1), Ok((false, 0)));
    assert_eq!(stake(&mut contract, farm_0, NFT_ID_3, T0 + 1), Ok((false, 0)));
    let owned = |c: &Contract| {
        c.get_farm(s(farm_0)).unwrap().staked_nfts.iter().filter(|i| i.owner_id == "collector").count() as u128
    };
    assert_eq!(contract.get_farmer(s("collector")).unwrap().staking_info[0].amount, owned(&contract));
    assert_eq!(owned(&contract), 3);
    assert_eq!(contract.withdraw(s(farm_0), s("collector"), s(NFT_ID_1), T0 + 4), Ok(45));
    assert_eq!(contract.get_farmer(s("collector")).unwrap().staking_info[0].amount, owned(&contract));
    assert_eq!(contract.get_farm(s(farm_0)).unwrap().staked_ids, vec![s(NFT_ID_3), s(NFT_ID_2)]);
    assert_eq!(owned(&contract), 2);
}

#[test]
fn labels_and_messages() {
    assert_eq!(Status::Created.label(), "Created");
    assert_eq!(Status::Running.label(), "Running");
    assert_eq!(Status::Ended.label(), "Ended");
    assert_eq!(FarmError::NotFound.message(), "not found");
    assert_eq!(FarmError::ExhaustionGuard.message(), "reward nearly exhausted");
}

#[test]
fn farm_ids_parse_back() {
    assert_eq!(parse_farm_id(&s("ft_contract#0")), Some((s("ft_contract"), 0)));
    assert_eq!(parse_farm_id(&s("a#12")), Some((s("a"), 12)));
    assert_eq!(parse_farm_id(&s("a#+7")), Some((s("a"), 7)));
    assert_eq!(parse_farm_id(&s("a#007")), Some((s("a"), 7)));
    assert_eq!(parse_farm_id(&s("#5")), Some((s(""), 5)));
    assert_eq!(parse_farm_id(&s("\u{e9}t\u{e9}#3")), Some((s("\u{e9}t\u{e9}"), 3)));
    assert_eq!(parse_farm_id(&s("a#")), None);
    assert_eq!(parse_farm_id(&s("a#+")), None);
    assert_eq!(parse_farm_id(&s("a")), None);
    assert_eq!(parse_farm_id(&s("")), None);
    assert_eq!(parse_farm_id(&s("a#1#2")), None);
    assert_eq!(parse_farm_id(&s("a##2")), None);
    assert_eq!(parse_farm_id(&s("a#-1")), None);
    assert_eq!(parse_farm_id(&s("a#1x")), None);
    assert_eq!(parse_farm_id(&s("a#99999999999999999999999999")), None);
    assert_eq!(parse_farm_id(&format!("a#{}", usize::MAX)), Some((s("a"), usize::MAX)));
    let mut contract = Contract::new(s("root"));
    contract.whitelist_nft_contract(&s("root"), s(NFT_CONTRACT_ID)).unwrap();
    let id = create(&mut contract, b"true").unwrap();
    assert_eq!(parse_farm_id(&id), Some((s(FT_CONTRACT_ID), 0)));
}

#[test]
fn stored_state_is_checked() {
    let contract = init();
    assert!(contract.check());
    let mut twice = init();
    let key = twice.farms.keys[0].clone();
    twice.farms.keys.push(key);
    assert!(!twice.check());
    let mut stopped = init();
    stopped.farms.values[0].terms.session_interval = 0;
    assert!(!stopped.check());
    let mut ended = init();
    ended.farms.values[0].status = Status::Ended;
    assert!(!ended.check());
    ended.farms.values[0].set_ended(0);
    assert!(ended.check());
    assert_eq!(ended.farms.values[0].amount_of_reward, 0);
    assert_eq!(ended.farms.values[0].amount_of_claimed, 0);
}
