use pray::contract::{CollectionState, Contract};
use pray::errors::ContractError;

const MINT_STORAGE_COST: u128 = 100_000_000_000_000_000_000_000;
const MIN_REQUIRED_APPROVAL_YOCTO: u128 = 170000000000000000000;

fn alice() -> String {
    "alice".to_string()
}

fn bob() -> String {
    "bob".to_string()
}

fn carol() -> String {
    "charlie".to_string()
}

#[test]
fn test_new_account_contract() {
    let contract = Contract::new_default_meta(bob(), 10, None);
    let contract_nft_tokens = contract.nft_tokens(Some(0), None);
    assert_eq!(contract_nft_tokens.len(), 0);
}

#[test]
fn test_mint_nft() {
    let mut contract = Contract::new_default_meta(alice(), 10, None);
    let token_id = "0".to_string();
    contract.nft_mint(alice(), MINT_STORAGE_COST).unwrap();
    let contract_nft_tokens = contract.nft_tokens(Some(0), None);
    assert_eq!(contract_nft_tokens.len(), 1);

    assert_eq!(contract_nft_tokens[0].token_id, token_id);
    assert_eq!(contract_nft_tokens[0].owner_id, alice());
    assert!(contract_nft_tokens[0].approved_account_ids.is_empty());
}

#[test]
fn test_internal_transfer() {
    let mut contract = Contract::new_default_meta(alice(), 10, None);
    let token_id = "0".to_string();
    contract.nft_mint(alice(), MINT_STORAGE_COST).unwrap();

    contract
        .internal_transfer(&alice(), &bob(), &token_id.clone(), Some(1), None)
        .unwrap();

    let tokens = contract.nft_tokens_for_owner(&bob(), Some(0), None);
    assert_ne!(
        tokens.len(),
        0,
        "Token not correctly created and/or sent to second account"
    );
    let token = &tokens[0];
    assert_eq!(token.token_id, token_id);
    assert_eq!(token.owner_id, bob());
    assert!(token.approved_account_ids.is_empty());
}

#[test]
fn test_nft_approve() {
    let mut contract = Contract::new_default_meta(alice(), 10, None);
    let token_id = "0".to_string();
    contract.nft_mint(alice(), MINT_STORAGE_COST).unwrap();

    contract
        .nft_approve(&alice(), MIN_REQUIRED_APPROVAL_YOCTO, &token_id, bob())
        .unwrap();

    assert!(contract.nft_is_approved(&token_id, &bob(), None));
}

#[test]
fn test_nft_revoke() {
    let mut contract = Contract::new_default_meta(alice(), 10, None);
    let token_id = "0".to_string();
    contract.nft_mint(alice(), MINT_STORAGE_COST).unwrap();

    // alice approves bob
    contract
        .nft_approve(&alice(), MIN_REQUIRED_APPROVAL_YOCTO, &token_id, bob())
        .unwrap();

    // alice revokes bob
    contract.nft_revoke(&alice(), &token_id, &bob()).unwrap();
    assert!(!contract.nft_is_approved(&token_id, &bob(), None));
}

#[test]
fn test_revoke_all() {
    let mut contract = Contract::new_default_meta(alice(), 10, None);
    let token_id = "0".to_string();
    contract.nft_mint(alice(), MINT_STORAGE_COST).unwrap();

    // alice approves bob
    contract
        .nft_approve(&alice(), MIN_REQUIRED_APPROVAL_YOCTO, &token_id, bob())
        .unwrap();

    // alice revokes everyone
    contract.nft_revoke_all(&alice(), &token_id).unwrap();
    assert!(!contract.nft_is_approved(&token_id, &bob(), Some(1)));
}

#[test]
fn test_internal_remove_token_from_owner() {
    let mut contract = Contract::new_default_meta(alice(), 10, None);
    let token_id = "0".to_string();
    contract.nft_mint(alice(), MINT_STORAGE_COST).unwrap();

    let contract_nft_tokens_before = contract.nft_tokens_for_owner(&alice(), None, None);
    assert_eq!(contract_nft_tokens_before.len(), 1);

    contract.internal_remove_token_from_owner(&alice(), &token_id);
    let contract_nft_tokens_after = contract.nft_tokens_for_owner(&alice(), None, None);
    assert_eq!(contract_nft_tokens_after.len(), 0);
}

#[test]
fn test_nft_payout() {
    let mut contract = Contract::new_default_meta(alice(), 10, None);
    let token_id = "0".to_string();
    contract.nft_mint(alice(), MINT_STORAGE_COST).unwrap();

    // alice approves bob
    contract
        .nft_approve(&alice(), MIN_REQUIRED_APPROVAL_YOCTO, &token_id, bob())
        .unwrap();

    let payout = contract.nft_payout(&token_id, 10, 1).unwrap();
    let expected = vec![(alice(), 10u128)];
    assert_eq!(payout, expected);
}

#[test]
fn test_nft_total_supply() {
    let mut contract = Contract::new_default_meta(alice(), 10, None);
    contract.nft_mint(alice(), MINT_STORAGE_COST).unwrap();

    let total_supply = contract.nft_total_supply();
    assert_eq!(total_supply, 1u128);
}

#[test]
fn test_mint_ids_unique_and_increasing() {
    let mut contract = Contract::new_default_meta(alice(), 10, None);
    let a = contract.nft_mint(alice(), MINT_STORAGE_COST).unwrap();
    let b = contract.nft_mint(bob(), MINT_STORAGE_COST).unwrap();
    let c = contract.nft_mint(alice(), MINT_STORAGE_COST).unwrap();
    assert_eq!(a, "0");
    assert_eq!(b, "1");
    assert_eq!(c, "2");
}

#[test]
fn test_mint_insufficient_deposit() {
    let mut contract = Contract::new_default_meta(alice(), 10, None);
    assert_eq!(
        contract.nft_mint(alice(), 1),
        Err(ContractError::InsufficientDeposit)
    );
    assert_eq!(contract.nft_total_supply(), 0);
}

#[test]
fn test_approve_insufficient_deposit() {
    let mut contract = Contract::new_default_meta(alice(), 10, None);
    contract.nft_mint(alice(), MINT_STORAGE_COST).unwrap();
    assert_eq!(
        contract.nft_approve(&alice(), 1, &"0".to_string(), bob()),
        Err(ContractError::InsufficientDeposit)
    );
}

#[test]
fn test_approval_ids_increase_and_are_not_reused() {
    let mut contract = Contract::new_default_meta(alice(), 10, None);
    let token_id = "0".to_string();
    contract.nft_mint(alice(), MINT_STORAGE_COST).unwrap();

    let first = contract
        .nft_approve(&alice(), MIN_REQUIRED_APPROVAL_YOCTO, &token_id, bob())
        .unwrap();
    assert_eq!(first, 1);
    contract.nft_revoke(&alice(), &token_id, &bob()).unwrap();
    let second = contract
        .nft_approve(&alice(), MIN_REQUIRED_APPROVAL_YOCTO, &token_id, bob())
        .unwrap();
    assert_eq!(second, 2);
    assert!(second > first);
    assert!(contract.nft_is_approved(&token_id, &bob(), Some(2)));
    assert!(!contract.nft_is_approved(&token_id, &bob(), Some(1)));
}

#[test]
fn test_transfer_clears_approvals() {
    let mut contract = Contract::new_default_meta(alice(), 10, None);
    let token_id = "0".to_string();
    contract.nft_mint(alice(), MINT_STORAGE_COST).unwrap();
    contract
        .nft_approve(&alice(), MIN_REQUIRED_APPROVAL_YOCTO, &token_id, bob())
        .unwrap();

    // bob transfers using his approval; every approval is cleared
    contract
        .internal_transfer(&bob(), &carol(), &token_id, Some(1), None)
        .unwrap();
    assert!(!contract.nft_is_approved(&token_id, &bob(), None));
    let tokens = contract.nft_tokens(None, None);
    assert_eq!(tokens[0].owner_id, carol());
    assert!(tokens[0].approved_account_ids.is_empty());
}

#[test]
fn test_transfer_errors() {
    let mut contract = Contract::new_default_meta(alice(), 10, None);
    let token_id = "0".to_string();
    contract.nft_mint(alice(), MINT_STORAGE_COST).unwrap();
    assert_eq!(
        contract.internal_transfer(&alice(), &bob(), &"7".to_string(), None, None),
        Err(ContractError::NotFound)
    );
    assert_eq!(
        contract.internal_transfer(&bob(), &carol(), &token_id, None, None),
        Err(ContractError::Unauthorized)
    );
    contract
        .nft_approve(&alice(), MIN_REQUIRED_APPROVAL_YOCTO, &token_id, bob())
        .unwrap();
    assert_eq!(
        contract.internal_transfer(&bob(), &carol(), &token_id, Some(9), None),
        Err(ContractError::ApprovalMismatch)
    );
}

#[test]
fn test_payout_with_royalties_sums_to_price() {
    let royalties = vec![(bob(), 2500u32), (carol(), 1000u32)];
    let mut contract = Contract::new_default_meta(alice(), 10, Some(royalties));
    let token_id = "0".to_string();
    contract.nft_mint(alice(), MINT_STORAGE_COST).unwrap();

    let payout = contract.nft_payout(&token_id, 101, 5).unwrap();
    let total: u128 = payout.iter().map(|p| p.1).sum();
    assert_eq!(total, 101);
    assert!(payout.contains(&(bob(), 25u128)));
    assert!(payout.contains(&(carol(), 10u128)));
    assert!(payout.contains(&(alice(), 66u128)));

    assert_eq!(
        contract.nft_payout(&token_id, 101, 2),
        Err(ContractError::TooManyPayees)
    );
}

#[test]
fn test_collection_state_transitions() {
    let mut contract = Contract::new_default_meta(alice(), 10, None);
    assert_eq!(
        contract.set_collection_state(&bob(), CollectionState::Published),
        Err(ContractError::Unauthorized)
    );
    contract
        .set_collection_state(&alice(), CollectionState::Published)
        .unwrap();
    assert_eq!(
        contract.set_collection_state(&alice(), CollectionState::Published),
        Err(ContractError::IllegalTransition)
    );
    assert_eq!(
        contract.set_collection_state(&alice(), CollectionState::Deployed),
        Err(ContractError::IllegalTransition)
    );
    contract
        .set_collection_state(&alice(), CollectionState::Revealed)
        .unwrap();
}

#[test]
fn test_drop_state_clears_tables() {
    let mut contract = Contract::new_default_meta(alice(), 10, None);
    contract.nft_mint(alice(), MINT_STORAGE_COST).unwrap();
    assert_eq!(contract.drop_state(&bob()), Err(ContractError::Unauthorized));
    contract.drop_state(&alice()).unwrap();
    assert_eq!(contract.nft_total_supply(), 0);
    // identifiers restart from zero after a reset
    let id = contract.nft_mint(bob(), MINT_STORAGE_COST).unwrap();
    assert_eq!(id, "0");
}
