use pray::contract::Contract;
use pray::errors::ContractError;
use pray::location;
use pray::movement::movement_message;

const MINT_STORAGE_COST: u128 = 100_000_000_000_000_000_000_000;

fn alice() -> String {
    "alice".to_string()
}

fn bob() -> String {
    "bob".to_string()
}

fn location_account() -> String {
    "location.pray.devgenerate.testnet".to_string()
}

fn collection_account() -> String {
    "collection.pray.devgenerate.testnet".to_string()
}

#[test]
fn test_move_character_forbidden_for_other_callers() {
    let mut contract = Contract::new_default_meta(alice(), 10, None);
    contract.nft_mint(alice(), MINT_STORAGE_COST).unwrap();
    // caller B, not the location contract
    assert_eq!(
        contract.move_character(&bob(), &alice(), &"0".to_string(), &Some("woods".to_string())),
        Err(ContractError::Forbidden)
    );
}

#[test]
fn test_move_character_requires_owner_signer() {
    let mut contract = Contract::new_default_meta(alice(), 10, None);
    contract.nft_mint(alice(), MINT_STORAGE_COST).unwrap();
    assert_eq!(
        contract.move_character(&location_account(), &bob(), &"0".to_string(), &None),
        Err(ContractError::Unauthorized)
    );
    assert_eq!(
        contract.move_character(&location_account(), &alice(), &"7".to_string(), &None),
        Err(ContractError::NotFound)
    );
    assert_eq!(
        contract.move_character(
            &location_account(),
            &alice(),
            &"0".to_string(),
            &Some("woods".to_string())
        ),
        Ok(true)
    );
}

#[test]
fn test_movement_message() {
    assert_eq!(
        movement_message(&"0".to_string(), &Some("woods".to_string())),
        "Character 0 entered woods"
    );
    assert_eq!(movement_message(&"0".to_string(), &None), "Character 0 left");
}

#[test]
fn test_enter_and_leave_requests() {
    let loc = location::Contract::new(alice(), "woods".to_string(), 3, collection_account());
    let req = loc.enter("0".to_string());
    assert_eq!(req.recipient, collection_account());
    assert_eq!(req.character_id, "0");
    assert_eq!(req.destination, Some("woods".to_string()));
    assert!(req.resolve_enter);

    let req = loc.leave("0".to_string());
    assert_eq!(req.destination, None);
    assert!(!req.resolve_enter);
}

#[test]
fn test_resolve_character_move_commits_only_on_success() {
    let mut loc = location::Contract::new(alice(), "woods".to_string(), 3, collection_account());
    let id = "0".to_string();

    // the remote call failed: nothing changes
    assert!(!loc.resolve_character_move(&id, true, &alice(), 11, None));
    assert!(!loc.is_present(&id));

    // the remote call answered something other than `true`
    assert!(!loc.resolve_character_move(&id, true, &alice(), 11, Some(b"false".to_vec())));
    assert!(!loc.is_present(&id));
    assert!(!loc.resolve_character_move(&id, true, &alice(), 11, Some(b"nonsense".to_vec())));
    assert!(!loc.is_present(&id));

    // the remote call authorized the move: entry is recorded
    assert!(loc.resolve_character_move(&id, true, &alice(), 11, Some(b" true ".to_vec())));
    assert!(loc.is_present(&id));

    // leaving removes the record and reports whether one existed
    assert!(loc.resolve_character_move(&id, false, &alice(), 12, Some(b"true".to_vec())));
    assert!(!loc.is_present(&id));
    assert!(!loc.resolve_character_move(&id, false, &alice(), 13, Some(b"true".to_vec())));
}

#[test]
fn test_set_rate_owner_only() {
    let mut loc = location::Contract::new(alice(), "woods".to_string(), 3, collection_account());
    assert_eq!(loc.set_rate(&bob(), 9), Err(ContractError::Unauthorized));
    assert_eq!(loc.set_rate(&alice(), 9), Ok(()));
    assert_eq!(loc.rate, 9);
}
