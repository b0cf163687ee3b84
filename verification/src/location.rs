//! The location contract: an independent registry of which characters are
//! present at one place. Its state is reconciled with the token contract only
//! through the asynchronous movement handshake; `enter`/`leave` build the
//! outgoing request, and `resolve_character_move` commits or discards the
//! local effect once the remote outcome is known.

use vstd::prelude::*;
use crate::assoc::{assoc_insert, assoc_map, assoc_remove, assoc_unique, lemma_assoc_map_dom};
use crate::contract::{AccountId, TokenId};
use crate::errors::ContractError;

verus! {

/// A presence record: who claimed the character when it entered, and at what
/// block height.
pub struct CharacterData {
    pub owner: AccountId,
    pub entered_at_block: u64,
}

/// The mathematical image of a presence record.
pub struct CharacterDataView {
    pub owner: Seq<char>,
    pub entered_at_block: u64,
}

impl DeepView for CharacterData {
    type V = CharacterDataView;

    open spec fn deep_view(&self) -> CharacterDataView {
        CharacterDataView { owner: self.owner@, entered_at_block: self.entered_at_block }
    }
}

/// An asynchronous call the location contract asks its runtime to dispatch:
/// `move_character(character_id, destination)` on the token contract, with
/// `resolve_enter` carried into the callback.
pub struct MoveRequest {
    pub recipient: AccountId,
    pub character_id: TokenId,
    pub destination: Option<String>,
    pub resolve_enter: bool,
}

/// The location contract's aggregate state.
pub struct Contract {
    pub owner_id: AccountId,
    /// This location's name, sent along with entry requests.
    pub name: String,
    /// Base resource collection/crafting rate.
    pub rate: u32,
    /// The token contract this location asks about character ownership.
    pub character_contract_id: AccountId,
    /// The characters currently here.
    pub present_characters: Vec<(TokenId, CharacterData)>,
}

pub open spec fn json_ws(b: u8) -> bool {
    b == 32 || b == 9 || b == 10 || b == 13
}

pub open spec fn skip_ws_bytes(s: Seq<u8>, i: int) -> int
    decreases s.len() - i
        when 0 <= i <= s.len()
{
    if i < s.len() && json_ws(s[i]) {
        skip_ws_bytes(s, i + 1)
    } else {
        i
    }
}

/// What a JSON decode of a boolean accepts: the literal `true` or `false`
/// surrounded by JSON whitespace and nothing else.
pub open spec fn json_bool(s: Seq<u8>) -> Option<bool> {
    let i = skip_ws_bytes(s, 0);
    if i + 4 <= s.len() && s[i] == 116 && s[i + 1] == 114 && s[i + 2] == 117 && s[i + 3] == 101
        && skip_ws_bytes(s, i + 4) == s.len() {
        Some(true)
    } else if i + 5 <= s.len() && s[i] == 102 && s[i + 1] == 97 && s[i + 2] == 108 && s[i + 3]
        == 115 && s[i + 4] == 101 && skip_ws_bytes(s, i + 5) == s.len() {
        Some(false)
    } else {
        None
    }
}

fn skip_ws_exec(s: &Vec<u8>, i: usize) -> (r: usize)
    requires
        i <= s@.len(),
    ensures
        r == skip_ws_bytes(s@, i as int),
        i <= r <= s@.len(),
    decreases s@.len() - i,
{
    if i < s.len() {
        let b = s[i];
        if b == 32 || b == 9 || b == 10 || b == 13 {
            return skip_ws_exec(s, i + 1);
        }
    }
    i
}

/// Decodes the JSON encoding of a boolean.
pub fn parse_json_bool(s: &Vec<u8>) -> (r: Option<bool>)
    ensures
        r == json_bool(s@),
{
    let i = skip_ws_exec(s, 0);
    if s.len() >= 4 && i <= s.len() - 4 && s[i] == 116 && s[i + 1] == 114 && s[i + 2] == 117 && s[i
        + 3] == 101 {
        if skip_ws_exec(s, i + 4) == s.len() {
            return Some(true);
        }
        return None;
    }
    if s.len() >= 5 && i <= s.len() - 5 && s[i] == 102 && s[i + 1] == 97 && s[i + 2] == 108 && s[i
        + 3] == 115 && s[i + 4] == 101 {
        if skip_ws_exec(s, i + 5) == s.len() {
            return Some(false);
        }
        return None;
    }
    None
}

impl Contract {
    /// Presence records are keyed by character, one per character.
    pub open spec fn wf(self) -> bool {
        assoc_unique(self.present_characters@)
    }

    /// Initializes a location with its owner, name, rate, and the token
    /// contract it trusts for ownership checks.
    pub fn new(
        owner_id: AccountId,
        name: String,
        rate: u32,
        character_contract_id: AccountId,
    ) -> (r: Contract)
        ensures
            r.wf(),
            r.owner_id == owner_id,
            r.name == name,
            r.rate == rate,
            r.character_contract_id == character_contract_id,
            r.present_characters@ =~= Seq::<(TokenId, CharacterData)>::empty(),
    {
        Contract { owner_id, name, rate, character_contract_id, present_characters: Vec::new() }
    }

    /// Owner-only update of the location's rate.
    pub fn set_rate(&mut self, caller: &AccountId, rate: u32) -> (r: Result<(), ContractError>)
        ensures
            caller@ != old(self).owner_id@ ==> r == Err::<(), ContractError>(
                ContractError::Unauthorized,
            ) && *final(self) == *old(self),
            caller@ == old(self).owner_id@ ==> r == Ok::<(), ContractError>(()) && *final(self)
                == (Contract { rate, ..*old(self) }),
    {
        if !self.owner_id.eq(caller) {
            return Err(ContractError::Unauthorized);
        }
        self.rate = rate;
        Ok(())
    }

    /// The request a character's entry dispatches: ask the token contract to
    /// move the character here, then resolve with `enter == true`.
    pub fn enter(&self, character_id: TokenId) -> (r: MoveRequest)
        ensures
            r.recipient@ == self.character_contract_id@,
            r.character_id == character_id,
            r.destination matches Some(d) && d@ == self.name@,
            r.resolve_enter == true,
    {
        MoveRequest {
            recipient: self.character_contract_id.clone(),
            character_id,
            destination: Some(self.name.clone()),
            resolve_enter: true,
        }
    }

    /// The request a character's departure dispatches: ask the token contract
    /// to move the character out, then resolve with `enter == false`.
    pub fn leave(&self, character_id: TokenId) -> (r: MoveRequest)
        ensures
            r.recipient@ == self.character_contract_id@,
            r.character_id == character_id,
            r.destination matches None::<String>,
            r.resolve_enter == false,
    {
        MoveRequest {
            recipient: self.character_contract_id.clone(),
            character_id,
            destination: None,
            resolve_enter: false,
        }
    }

    /// Whether a character is recorded as present here.
    pub fn is_present(&self, character_id: &TokenId) -> (r: bool)
        requires
            self.wf(),
        ensures
            r == assoc_map(self.present_characters@).dom().contains(character_id@),
    {
        proof {
            lemma_assoc_map_dom(self.present_characters@);
        }
        match crate::assoc::assoc_find(&self.present_characters, character_id) {
            Some(_) => true,
            None => false,
        }
    }

    /// The callback closing the handshake. `promise_result` is the remote
    /// call's outcome: `None` when it failed, or the bytes it returned. Local
    /// state changes only when the remote call succeeded and decoded to
    /// `true`: entry then records the transaction signer and block height,
    /// departure removes the record and reports whether one existed.
    pub fn resolve_character_move(
        &mut self,
        character_id: &TokenId,
        enter: bool,
        signer: &AccountId,
        block_height: u64,
        promise_result: Option<Vec<u8>>,
    ) -> (r: bool)
        requires
            old(self).wf(),
        ensures
            final(self).wf(),
            ({
                let decoded = match promise_result {
                    None => None::<bool>,
                    Some(b) => json_bool(b@),
                };
                &&& decoded != Some(true) ==> r == false && *final(self) == *old(self)
                &&& decoded == Some(true) && enter ==> r == true && assoc_map(
                    final(self).present_characters@,
                ) =~= assoc_map(old(self).present_characters@).insert(
                    character_id@,
                    CharacterDataView { owner: signer@, entered_at_block: block_height },
                )
                &&& decoded == Some(true) && !enter ==> r == assoc_map(
                    old(self).present_characters@,
                ).dom().contains(character_id@) && assoc_map(final(self).present_characters@)
                    =~= assoc_map(old(self).present_characters@).remove(character_id@)
                &&& final(self).owner_id == old(self).owner_id
                &&& final(self).name == old(self).name
                &&& final(self).rate == old(self).rate
                &&& final(self).character_contract_id == old(self).character_contract_id
            }),
    {
        let decoded = match promise_result {
            None => None,
            Some(b) => parse_json_bool(&b),
        };
        let moved = match decoded {
            Some(true) => true,
            _ => false,
        };
        if !moved {
            return false;
        }
        if enter {
            assoc_insert(
                &mut self.present_characters,
                character_id.clone(),
                CharacterData { owner: signer.clone(), entered_at_block: block_height },
            );
            true
        } else {
            proof {
                lemma_assoc_map_dom(self.present_characters@);
            }
            match assoc_remove(&mut self.present_characters, character_id) {
                Some(_) => true,
                None => false,
            }
        }
    }
}

} // verus!
