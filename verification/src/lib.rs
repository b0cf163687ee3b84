//! On-ledger logic of a non-fungible-token registry: an ownership, approval
//! and royalty ledger, a commit-then-reveal mechanism for encrypted collection
//! metadata, and a two-contract character-movement handshake.
//!
//! All persistent contract state is modelled as an owned aggregate that every
//! operation receives by exclusive reference; values that a ledger runtime
//! would supply ambiently (caller, signer, attached deposit, block height,
//! promise results) are explicit parameters.

pub mod approval;
pub mod assoc;
pub mod contract;
pub mod crypto;
pub mod enumeration;
pub mod errors;
pub mod json;
pub mod laws;
pub mod ledger;
pub mod location;
pub mod movement;
pub mod metadata;
pub mod numeral;
pub mod reveal_engine;
pub mod roundtrip;
pub mod royalty;
pub mod serialize;

pub use contract::{AccountId, CollectionState, Contract, Token, TokenId};
pub use errors::ContractError;
pub use metadata::{NFTContractMetadata, TokenMetadata};
