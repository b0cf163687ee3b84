use pray::contract::{CollectionState, Contract};
use pray::crypto::aes_gcm_decrypt;
use pray::errors::ContractError;
use pray::metadata::TokenMetadata;
use pray::serialize::encrypt_metadata;

const MINT_STORAGE_COST: u128 = 100_000_000_000_000_000_000_000;

const RELEASE_BLOB: &str = "kz41tI8/G3wBD8gLKesW4sFS7NhVuzT5+hCInwrEB4F3L5o1rxExO2vftINXaXQPOAVEeU6ESuNTw7DsWZP+iE+K+gLvYJ8W/eYg/M5LZkJ3YNwi1yD8OA0jwAebMChlMdBPrLfHIAIc9Jq7bLl6zedQnDBaQW+HZHbF33kkEr8avqZSW10GCrLNjKtZ5bwM6nDZRg39NoNOJvUni9ALWaOcRDsbXyDSzeBBKB/kcegj+Nh/AwHPn7/bBwje8n0IULv+VKBeQpDhznAgO6YxiZbGuNfcmSGIeg7idhwd0F3e3zZw7zX+k0vSewehaFiHGTiq8L8dMP4/37Xi4FgSw1BJhfP5VFuFc0GtbHxwiPMux/LugAFErmFoypDSdBOYiwsqWVNanKERWWjqub+99h/KfcWKOzXf8rmQIRT5+Q32NW8TeRMIJ5Xpcvow/k5eZaES9Zy+O7Xm6NNR5Eq0IsqFfI/Yb6oUmX5c6vOvjSR6z+atnrjzfxbA88IdV/kUrDPX";

fn alice() -> String {
    "alice".to_string()
}

fn bob() -> String {
    "bob".to_string()
}

#[test]
fn test_decryption() {
    let password = "password";
    let encrypted = "FCb4EnlNN28kxpoeH+QTwnUbtRtdvVnP2ZIwwlR6gJVimQKfWykw1J27rA8KxC7krOT3AOfva1h5SjZB7h+OFQ18afg=";
    assert_eq!(
        aes_gcm_decrypt(password, encrypted).unwrap(),
        "this is some random text"
    );
}

#[test]
fn test_release() {
    let mut contract = Contract::new_default_meta(alice(), 10, None);
    contract.nft_mint(alice(), MINT_STORAGE_COST).unwrap();
    contract
        .append_encrypted_metadata(&alice(), RELEASE_BLOB.to_string())
        .unwrap();
    contract
        .set_collection_state(&alice(), CollectionState::Published)
        .unwrap();
    assert_eq!(
        contract.reveal_metadata(&alice(), "password".to_string()),
        Ok(true)
    );

    let contract_nft_tokens = contract.nft_tokens(Some(0), None);
    assert_eq!(contract_nft_tokens.len(), 1);

    assert_eq!(contract_nft_tokens[0].token_id, "0");
    assert_eq!(contract_nft_tokens[0].owner_id, alice());
    assert_eq!(
        contract_nft_tokens[0].metadata.title,
        Some("Villager 0".to_string())
    );
    assert_eq!(
        contract_nft_tokens[0].metadata.description,
        Some("Villager".to_string())
    );
    assert_eq!(
        contract_nft_tokens[0].metadata.media,
        Some("https://ipfs.io/ipfs/QmQskW3RWhbiYyebrgJTAA6BwkUcSuxbmAMKyVQbo27zRq/0.png".to_string())
    );
}

#[test]
fn test_phase_gates() {
    let mut contract = Contract::new_default_meta(alice(), 10, None);
    // reveal is refused before publication
    assert_eq!(
        contract.reveal_metadata(&alice(), "password".to_string()),
        Err(ContractError::WrongPhase)
    );
    contract
        .append_encrypted_metadata(&alice(), "whatever".to_string())
        .unwrap();
    contract
        .set_collection_state(&alice(), CollectionState::Published)
        .unwrap();
    // appending is refused once published
    assert_eq!(
        contract.append_encrypted_metadata(&alice(), "late".to_string()),
        Err(ContractError::WrongPhase)
    );
    // owner gating holds on both
    assert_eq!(
        contract.reveal_metadata(&bob(), "password".to_string()),
        Err(ContractError::Unauthorized)
    );
}

#[test]
fn test_reveal_empty_queue_returns_false() {
    let mut contract = Contract::new_default_meta(alice(), 10, None);
    contract
        .set_collection_state(&alice(), CollectionState::Published)
        .unwrap();
    assert_eq!(
        contract.reveal_metadata(&alice(), "password".to_string()),
        Ok(false)
    );
    // still empty, calling again is safe and changes nothing
    assert_eq!(
        contract.reveal_metadata(&alice(), "password".to_string()),
        Ok(false)
    );
}

fn sample_meta() -> TokenMetadata {
    TokenMetadata {
        title: Some("Olympus Mons".to_string()),
        description: Some("The tallest mountain in the charted solar system".to_string()),
        media: None,
        media_hash: None,
        reference: None,
        reference_hash: None,
        extra: None,
    }
}

#[test]
fn test_encrypt_then_reveal_round_trip() {
    let salt = [7u8; 16];
    let nonce = [9u8; 12];
    let entries = vec![("0".to_string(), sample_meta())];
    let blob = encrypt_metadata("hunter2", &salt, &nonce, &entries).unwrap();

    let mut contract = Contract::new_default_meta(alice(), 10, None);
    contract.nft_mint(alice(), MINT_STORAGE_COST).unwrap();
    contract
        .append_encrypted_metadata(&alice(), blob)
        .unwrap();
    contract
        .set_collection_state(&alice(), CollectionState::Published)
        .unwrap();
    assert_eq!(
        contract.reveal_metadata(&alice(), "hunter2".to_string()),
        Ok(true)
    );
    let tokens = contract.nft_tokens(None, None);
    assert_eq!(tokens[0].metadata.title, sample_meta().title);
    assert_eq!(tokens[0].metadata.description, sample_meta().description);
    assert_eq!(tokens[0].metadata.media, None);
}

#[test]
fn test_reveal_with_wrong_key_fails_distinctly() {
    let salt = [7u8; 16];
    let nonce = [9u8; 12];
    let entries = vec![("0".to_string(), sample_meta())];
    let blob = encrypt_metadata("hunter2", &salt, &nonce, &entries).unwrap();

    let mut contract = Contract::new_default_meta(alice(), 10, None);
    contract.append_encrypted_metadata(&alice(), blob).unwrap();
    contract
        .set_collection_state(&alice(), CollectionState::Published)
        .unwrap();
    // a wrong key is an error, not the empty-queue `false`
    assert_eq!(
        contract.reveal_metadata(&alice(), "wrong".to_string()),
        Err(ContractError::DecryptionFailed)
    );
    // the queue is untouched: the right key still reveals the blob
    assert_eq!(
        contract.reveal_metadata(&alice(), "hunter2".to_string()),
        Ok(true)
    );
}

const ESCAPED_BLOB: &str = "AAECAwQFBgcICQoLDA0ODwABAgMEBQYHCAkKCwhfvmw24bg3hkCK4yi8syJ5XQXjHT/Njhx65pafXLr1MMmwxe7fInA4v1YuqHsu9lIak3rZGcdvU9fU6wZAosnSx+cgeAwgaBjWuO+e7xCJDt04ZsD3poTzhD9IEUPGPqo+JrQuGlRNr92ka/DFLZyRvgqwHAsQpSA8v0KzQVOIy6UXxQ0sYPBiEznY3++S+yUGOlFev9CabiK02HPEwySSSoVyHfUWvg==";

const UNKNOWN_ID_BLOB: &str = "AAECAwQFBgcICQoLDA0ODwABAgMEBQYHCAkKCwhfuWw24bg3hkCK4yi8syJ5UgisHSqGl0GrVDBSWsmSPXkcwWp2uBOm";

#[test]
fn test_reveal_accepts_escapes_and_ignored_values() {
    // the plaintext carries escaped quotes, newlines, tabs, a solidus and a
    // backslash, plus number and boolean fields the metadata does not store
    let mut contract = Contract::new_default_meta(alice(), 10, None);
    contract.nft_mint(alice(), MINT_STORAGE_COST).unwrap();
    contract
        .append_encrypted_metadata(&alice(), ESCAPED_BLOB.to_string())
        .unwrap();
    contract
        .set_collection_state(&alice(), CollectionState::Published)
        .unwrap();
    assert_eq!(
        contract.reveal_metadata(&alice(), "password".to_string()),
        Ok(true)
    );
    let tokens = contract.nft_tokens(None, None);
    assert_eq!(
        tokens[0].metadata.title,
        Some("He said \"hi\"\nto me".to_string())
    );
    assert_eq!(tokens[0].metadata.description, None);
    assert_eq!(tokens[0].metadata.media, Some("a/b\\c".to_string()));
    assert_eq!(tokens[0].metadata.extra, Some("tab\there".to_string()));
}

#[test]
fn test_reveal_skips_entries_for_unknown_tokens() {
    // the blob names token "7", which was never minted: the reveal succeeds
    // but records no metadata, keeping tokens ahead of their metadata
    let mut contract = Contract::new_default_meta(alice(), 10, None);
    contract.nft_mint(alice(), MINT_STORAGE_COST).unwrap();
    contract
        .append_encrypted_metadata(&alice(), UNKNOWN_ID_BLOB.to_string())
        .unwrap();
    contract
        .set_collection_state(&alice(), CollectionState::Published)
        .unwrap();
    assert_eq!(
        contract.reveal_metadata(&alice(), "password".to_string()),
        Ok(true)
    );
    assert!(contract.token_metadata_by_id.is_empty());
    let tokens = contract.nft_tokens(None, None);
    assert_eq!(tokens[0].metadata.title, None);
}
