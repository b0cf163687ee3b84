use vstd::prelude::*;

verus! {

/// Why a contract call was rejected. Every rejected call leaves the state
/// exactly as it was: the ledger's failure policy is all-or-nothing.
#[derive(Clone, Copy, Debug, PartialEq, Eq, Structural)]
pub enum ContractError {
    /// The token identifier is not in the ledger.
    NotFound,
    /// The caller or transaction signer lacks the required identity.
    Unauthorized,
    /// The caller is not the account this entry point is reserved for.
    Forbidden,
    /// A supplied approval id does not match the stored one.
    ApprovalMismatch,
    /// The attached payment does not cover the storage the call would add.
    InsufficientDeposit,
    /// A collection-state transition that is not strictly increasing.
    IllegalTransition,
    /// The operation is not available in the current collection state.
    WrongPhase,
    /// The supplied key does not authenticate the ciphertext, or the
    /// decrypted text is not a well-formed metadata map.
    DecryptionFailed,
    /// The royalty table plus the owner entry exceeds the payout bound.
    TooManyPayees,
}

impl ContractError {
    /// A short human-readable name, for callers that log outcomes.
    pub fn describe(&self) -> (r: String)
        ensures
            r@ == self.spec_describe(),
    {
        match self {
            ContractError::NotFound => "no token".to_owned(),
            ContractError::Unauthorized => "unauthorized".to_owned(),
            ContractError::Forbidden => "forbidden".to_owned(),
            ContractError::ApprovalMismatch => "approval mismatch".to_owned(),
            ContractError::InsufficientDeposit => "insufficient deposit".to_owned(),
            ContractError::IllegalTransition => "illegal state".to_owned(),
            ContractError::WrongPhase => "wrong phase".to_owned(),
            ContractError::DecryptionFailed => "decryption failed".to_owned(),
            ContractError::TooManyPayees => "too many payees".to_owned(),
        }
    }

    pub open spec fn spec_describe(&self) -> Seq<char> {
        match self {
            ContractError::NotFound => "no token"@,
            ContractError::Unauthorized => "unauthorized"@,
            ContractError::Forbidden => "forbidden"@,
            ContractError::ApprovalMismatch => "approval mismatch"@,
            ContractError::InsufficientDeposit => "insufficient deposit"@,
            ContractError::IllegalTransition => "illegal state"@,
            ContractError::WrongPhase => "wrong phase"@,
            ContractError::DecryptionFailed => "decryption failed"@,
            ContractError::TooManyPayees => "too many payees"@,
        }
    }
}

} // verus!
