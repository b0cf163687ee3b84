//! The token contract's half of the movement handshake: validating that the
//! configured location contract and the transaction signer are entitled to
//! move a character. Movement never changes the ledger.

use vstd::prelude::*;
use crate::contract::{AccountId, Contract, TokenId};
use crate::errors::ContractError;
use vstd::string::StringExecFns;

verus! {

/// The human-readable movement event line.
pub open spec fn movement_message_spec(id: Seq<char>, dest: Option<Seq<char>>) -> Seq<char> {
    match dest {
        Some(d) => "Character "@ + id + " entered "@ + d,
        None => "Character "@ + id + " left"@,
    }
}

/// Renders the movement event line for a move of `character_id`.
pub fn movement_message(character_id: &TokenId, destination: &Option<String>) -> (r: String)
    ensures
        r@ == movement_message_spec(
            character_id@,
            match destination {
                Some(d) => Some(d@),
                None => None,
            },
        ),
{
    let mut s = "Character ".to_owned();
    s.append(character_id.as_str());
    match destination {
        Some(d) => {
            s.append(" entered ");
            s.append(d.as_str());
        },
        None => {
            s.append(" left");
        },
    }
    s
}

impl Contract {
    /// Decides a movement request: only the configured location contract may
    /// ask, and only for a token whose recorded owner signed the transaction.
    /// Reads the ledger and changes nothing.
    pub fn move_character(
        &self,
        caller: &AccountId,
        signer: &AccountId,
        character_id: &TokenId,
        destination: &Option<String>,
    ) -> (r: Result<bool, ContractError>)
        requires
            self.wf(),
        ensures
            caller@ != self.location_id@ <==> r == Err::<bool, ContractError>(
                ContractError::Forbidden,
            ),
            caller@ == self.location_id@ && !self.has_token(character_id@) <==> r == Err::<
                bool,
                ContractError,
            >(ContractError::NotFound),
            caller@ == self.location_id@ && self.has_token(character_id@) && signer@
                != self.tokens@[self.token_idx(character_id@)].owner_id@ <==> r == Err::<
                bool,
                ContractError,
            >(ContractError::Unauthorized),
            caller@ == self.location_id@ && self.has_token(character_id@) && signer@
                == self.tokens@[self.token_idx(character_id@)].owner_id@ <==> r == Ok::<
                bool,
                ContractError,
            >(true),
    {
        // the destination only shapes the event line (`movement_message`);
        // the authorization decision is the same for entry and departure
        let _ = destination;
        if !self.location_id.eq(caller) {
            return Err(ContractError::Forbidden);
        }
        let ti = match self.token_index(character_id) {
            Some(i) => i,
            None => {
                return Err(ContractError::NotFound);
            },
        };
        proof {
            crate::contract::lemma_token_ids_distinct(*self);
            assert(self.tokens@[self.token_idx(character_id@)].token_id@ == character_id@);
            if self.token_idx(character_id@) != ti as int {
                crate::numeral::lemma_dec_str_inj(self.token_idx(character_id@) as nat, ti as nat);
            }
        }
        if !self.tokens[ti].owner_id.eq(signer) {
            return Err(ContractError::Unauthorized);
        }
        Ok(true)
    }
}

} // verus!
