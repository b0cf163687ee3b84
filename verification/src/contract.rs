//! The token contract's aggregate state, its well-formedness invariant, its
//! initializers and the collection lifecycle operations.

use vstd::prelude::*;
use crate::assoc::{assoc_map, assoc_unique};
use crate::errors::ContractError;
use crate::metadata::{NFTContractMetadata, TokenMetadata};
use crate::numeral::{dec_str, lemma_dec_str_inj};
use vstd::string::StringExecFns;

verus! {

pub type AccountId = String;

pub type TokenId = String;

/// Ledger account identifiers have a bounded, non-empty name.
pub open spec fn valid_account_id(a: Seq<char>) -> bool {
    2 <= a.len() <= 64
}

/// One ledger entry: the owner of a token and the accounts the owner has
/// approved to transfer it. Approval identifiers only grow; `next_approval_id`
/// is the identifier the next successful approval will take.
pub struct Token {
    pub token_id: TokenId,
    pub owner_id: AccountId,
    pub approved_account_ids: Vec<(AccountId, u64)>,
    pub next_approval_id: u64,
}

/// The collection's lifecycle. Transitions only move forward.
#[derive(Clone, Copy, Debug, PartialEq, Eq, Structural)]
pub enum CollectionState {
    Deployed,
    Published,
    Revealed,
}

/// The lifecycle order: Deployed < Published < Revealed.
pub open spec fn state_rank(s: CollectionState) -> int {
    match s {
        CollectionState::Deployed => 0,
        CollectionState::Published => 1,
        CollectionState::Revealed => 2,
    }
}

impl CollectionState {
    /// The lifecycle order as a number.
    pub fn rank(&self) -> (r: u8)
        ensures
            r as int == state_rank(*self),
    {
        match self {
            CollectionState::Deployed => 0,
            CollectionState::Published => 1,
            CollectionState::Revealed => 2,
        }
    }
}

/// The token contract: ownership and approval ledger, owned-token index,
/// revealed metadata, the fixed royalty table, and the reveal queue.
pub struct Contract {
    /// The collection owner, the only account allowed to run lifecycle,
    /// reveal and approval-granting operations on others' behalf.
    pub owner_id: AccountId,
    /// The single location contract authorized to call `move_character`.
    pub location_id: AccountId,
    /// Tokens in issuance order; the token at index `i` carries identifier
    /// `dec_str(i)`.
    pub tokens: Vec<Token>,
    /// Owned-token index: the token identifiers held per account.
    pub tokens_per_owner: Vec<(AccountId, Vec<TokenId>)>,
    /// Revealed metadata per token identifier.
    pub token_metadata_by_id: Vec<(TokenId, TokenMetadata)>,
    /// Collection-level metadata.
    pub metadata: NFTContractMetadata,
    /// Royalty table: basis-point share per payee.
    pub royalty: Vec<(AccountId, u32)>,
    pub collection_size: u32,
    pub collection_state: CollectionState,
    /// Append-only ciphertext queue, consumed last-in-first-out by reveal.
    pub encrypted_metadata: Vec<String>,
}

/// Sum of the basis points of a royalty table.
pub open spec fn bps_total(r: Seq<(String, u32)>) -> int
    decreases r.len(),
{
    if r.len() == 0 {
        0
    } else {
        bps_total(r.drop_last()) + r.last().1
    }
}

pub proof fn lemma_bps_entry_le_total(r: Seq<(String, u32)>, i: int)
    requires
        0 <= i < r.len(),
    ensures
        r[i].1 <= bps_total(r),
        bps_total(r) >= 0,
    decreases r.len(),
{
    if r.len() > 0 {
        if i == r.len() - 1 {
            lemma_bps_total_nonneg(r.drop_last());
        } else {
            lemma_bps_entry_le_total(r.drop_last(), i);
            assert(r.drop_last()[i] == r[i]);
        }
    }
}

pub proof fn lemma_bps_total_nonneg(r: Seq<(String, u32)>)
    ensures
        bps_total(r) >= 0,
    decreases r.len(),
{
    if r.len() > 0 {
        lemma_bps_total_nonneg(r.drop_last());
    }
}

/// A royalty table the contract accepts: distinct payees, at most six of
/// them, and shares that sum to at most the whole (10000 basis points).
pub open spec fn royalty_wf(r: Seq<(String, u32)>) -> bool {
    &&& assoc_unique(r)
    &&& r.len() <= 6
    &&& bps_total(r) <= 10000
}

/// Well-formedness of the token at index `idx`.
pub open spec fn token_wf(t: Token, idx: nat) -> bool {
    &&& t.token_id@ == dec_str(idx)
    &&& assoc_unique(t.approved_account_ids@)
    &&& t.next_approval_id >= 1
    &&& forall|i: int|
        0 <= i < t.approved_account_ids@.len() ==> 1 <= (#[trigger] t.approved_account_ids@[i]).1
            < t.next_approval_id
    &&& forall|i: int|
        0 <= i < t.approved_account_ids@.len() ==> (#[trigger] t.approved_account_ids@[i]).0@
            != t.owner_id@
}

impl Contract {
    /// A token exists in the ownership ledger before (or together with) its
    /// metadata entry: metadata never names an unknown token.
    pub open spec fn metadata_covered(self) -> bool {
        forall|k: Seq<char>|
            #[trigger] assoc_map(self.token_metadata_by_id@).dom().contains(k) ==> self.has_token(
                k,
            )
    }

    /// The contract invariant: every operation establishes and preserves it.
    pub open spec fn wf(self) -> bool {
        &&& forall|i: int|
            0 <= i < self.tokens@.len() ==> token_wf(#[trigger] self.tokens@[i], i as nat)
        &&& assoc_unique(self.tokens_per_owner@)
        &&& assoc_unique(self.token_metadata_by_id@)
        &&& royalty_wf(self.royalty@)
        &&& self.metadata_covered()
    }

    /// Whether a token with this identifier exists.
    pub open spec fn has_token(self, id: Seq<char>) -> bool {
        exists|i: int| 0 <= i < self.tokens@.len() && self.tokens@[i].token_id@ == id
    }

    /// The index of the token with this identifier (unique under `wf`).
    pub open spec fn token_idx(self, id: Seq<char>) -> int {
        choose|i: int| 0 <= i < self.tokens@.len() && self.tokens@[i].token_id@ == id
    }

    /// Initializes the contract. The royalty table must name at most six
    /// distinct payees whose shares sum to at most 10000 basis points; a
    /// configuration outside that bound is rejected before deployment.
    pub fn new(
        owner_id: AccountId,
        location_id: AccountId,
        metadata: NFTContractMetadata,
        perpetual_royalties: Option<Vec<(AccountId, u32)>>,
        collection_size: u32,
    ) -> (r: Contract)
        requires
            (match perpetual_royalties {
                Some(v) => royalty_wf(v@),
                None => true,
            }),
        ensures
            r.wf(),
            r.owner_id == owner_id,
            r.location_id == location_id,
            r.tokens@ =~= Seq::<Token>::empty(),
            r.tokens_per_owner@ =~= Seq::<(AccountId, Vec<TokenId>)>::empty(),
            r.token_metadata_by_id@ =~= Seq::<(TokenId, TokenMetadata)>::empty(),
            r.royalty@ =~= (match perpetual_royalties {
                Some(v) => v@,
                None => Seq::<(AccountId, u32)>::empty(),
            }),
            r.collection_size == collection_size,
            r.collection_state == CollectionState::Deployed,
            r.encrypted_metadata@ =~= Seq::<String>::empty(),
            r.metadata == metadata,
    {
        let royalty = match perpetual_royalties {
            Some(v) => v,
            None => Vec::new(),
        };
        Contract {
            owner_id,
            location_id,
            tokens: Vec::new(),
            tokens_per_owner: Vec::new(),
            token_metadata_by_id: Vec::new(),
            metadata,
            royalty,
            collection_size,
            collection_state: CollectionState::Deployed,
            encrypted_metadata: Vec::new(),
        }
    }

    /// Initializes the contract with the collection's stock metadata and the
    /// stock location-contract identity.
    pub fn new_default_meta(
        owner_id: AccountId,
        collection_size: u32,
        perpetual_royalties: Option<Vec<(AccountId, u32)>>,
    ) -> (r: Contract)
        requires
            (match perpetual_royalties {
                Some(v) => royalty_wf(v@),
                None => true,
            }),
        ensures
            r.wf(),
            r.owner_id == owner_id,
            r.location_id@ == "location.pray.devgenerate.testnet"@,
            r.tokens@ =~= Seq::<Token>::empty(),
            r.tokens_per_owner@ =~= Seq::<(AccountId, Vec<TokenId>)>::empty(),
            r.token_metadata_by_id@ =~= Seq::<(TokenId, TokenMetadata)>::empty(),
            r.royalty@ =~= (match perpetual_royalties {
                Some(v) => v@,
                None => Seq::<(AccountId, u32)>::empty(),
            }),
            r.collection_size == collection_size,
            r.collection_state == CollectionState::Deployed,
            r.encrypted_metadata@ =~= Seq::<String>::empty(),
            r.metadata.standard@ == "nft-1.0.0"@,
            r.metadata.name@ == "Pray"@,
            r.metadata.symbol@ == "PRAY"@,
            r.metadata.icon is None,
            r.metadata.base_uri matches Some(u) && u@
                == "https://ipfs.io/ipfs/QmQkbuNeVoGhxsPNXpSx2mJyDHY3tL6T4Q3BemdtknQaKT"@,
            r.metadata.reference is None,
            r.metadata.reference_hash is None,
    {
        Contract::new(
            owner_id,
            "location.pray.devgenerate.testnet".to_owned(),
            NFTContractMetadata {
                standard: "nft-1.0.0".to_owned(),
                name: "Pray".to_owned(),
                symbol: "PRAY".to_owned(),
                icon: None,
                base_uri: Some(
                    "https://ipfs.io/ipfs/QmQkbuNeVoGhxsPNXpSx2mJyDHY3tL6T4Q3BemdtknQaKT".to_owned(),
                ),
                reference: None,
                reference_hash: None,
            },
            perpetual_royalties,
            collection_size,
        )
    }

    /// Moves the collection to a strictly later lifecycle state. Owner-only;
    /// a transition that does not move strictly forward is rejected.
    pub fn set_collection_state(&mut self, caller: &AccountId, collection_state: CollectionState)
        -> (r: Result<(), ContractError>)
        ensures
            caller@ != old(self).owner_id@ ==> r == Err::<(), ContractError>(
                ContractError::Unauthorized,
            ) && *final(self) == *old(self),
            caller@ == old(self).owner_id@ && state_rank(collection_state) <= state_rank(
                old(self).collection_state,
            ) ==> r == Err::<(), ContractError>(ContractError::IllegalTransition) && *final(self)
                == *old(self),
            caller@ == old(self).owner_id@ && state_rank(collection_state) > state_rank(
                old(self).collection_state,
            ) ==> r == Ok::<(), ContractError>(()) && *final(self) == (Contract {
                collection_state,
                ..*old(self)
            }),
    {
        if !self.owner_id.eq(caller) {
            return Err(ContractError::Unauthorized);
        }
        if collection_state.rank() <= self.collection_state.rank() {
            return Err(ContractError::IllegalTransition);
        }
        self.collection_state = collection_state;
        Ok(())
    }

    /// Owner-only reset: irreversibly clears the token table, the revealed
    /// metadata and the encrypted queue. Intended only before publication.
    pub fn drop_state(&mut self, caller: &AccountId) -> (r: Result<(), ContractError>)
        ensures
            caller@ != old(self).owner_id@ ==> r == Err::<(), ContractError>(
                ContractError::Unauthorized,
            ) && *final(self) == *old(self),
            caller@ == old(self).owner_id@ ==> {
                &&& r == Ok::<(), ContractError>(())
                &&& final(self).tokens@ =~= Seq::<Token>::empty()
                &&& final(self).token_metadata_by_id@ =~= Seq::<(TokenId, TokenMetadata)>::empty()
                &&& final(self).encrypted_metadata@ =~= Seq::<String>::empty()
                &&& final(self).owner_id == old(self).owner_id
                &&& final(self).location_id == old(self).location_id
                &&& final(self).tokens_per_owner == old(self).tokens_per_owner
                &&& final(self).royalty == old(self).royalty
                &&& final(self).collection_state == old(self).collection_state
                &&& final(self).collection_size == old(self).collection_size
                &&& final(self).metadata == old(self).metadata
            },
            old(self).wf() ==> final(self).wf(),
    {
        if !self.owner_id.eq(caller) {
            return Err(ContractError::Unauthorized);
        }
        self.tokens.clear();
        self.token_metadata_by_id.clear();
        self.encrypted_metadata.clear();
        Ok(())
    }
}

/// Metadata coverage carries to a state with the same metadata table whose
/// token vector keeps every identifier at its position.
pub proof fn lemma_metadata_covered_same_ids(pre: Contract, post: Contract)
    requires
        pre.metadata_covered(),
        post.token_metadata_by_id == pre.token_metadata_by_id,
        post.tokens@.len() >= pre.tokens@.len(),
        forall|w: int|
            0 <= w < pre.tokens@.len() ==> (#[trigger] post.tokens@[w]).token_id@
                == pre.tokens@[w].token_id@,
    ensures
        post.metadata_covered(),
{
    assert forall|k: Seq<char>|
        #[trigger] assoc_map(post.token_metadata_by_id@).dom().contains(k) implies post.has_token(
        k,
    ) by {
        assert(assoc_map(pre.token_metadata_by_id@).dom().contains(k));
        assert(pre.has_token(k));
        let w = choose|w: int| 0 <= w < pre.tokens@.len() && pre.tokens@[w].token_id@ == k;
        assert(post.tokens@[w].token_id@ == k);
    }
}

/// Under the invariant, a position holding an identifier is the position
/// `token_idx` denotes: identifiers appear at most once.
pub proof fn lemma_token_idx_at(c: Contract, ti: int, id: Seq<char>)
    requires
        c.wf(),
        0 <= ti < c.tokens@.len(),
        c.tokens@[ti].token_id@ == id,
    ensures
        c.has_token(id),
        c.token_idx(id) == ti,
{
    lemma_token_ids_distinct(c);
    assert(c.has_token(id));
    assert(c.tokens@[c.token_idx(id)].token_id@ == id);
    if c.token_idx(id) != ti {
        lemma_dec_str_inj(c.token_idx(id) as nat, ti as nat);
    }
}

/// Under the invariant, token identifiers are pairwise distinct: the token at
/// index `i` carries the decimal numeral of `i`, and numerals of distinct
/// numbers differ.
pub proof fn lemma_token_ids_distinct(c: Contract)
    requires
        c.wf(),
    ensures
        forall|i: int, j: int|
            0 <= i < c.tokens@.len() && 0 <= j < c.tokens@.len() && i != j
                ==> (#[trigger] c.tokens@[i]).token_id@ != (#[trigger] c.tokens@[j]).token_id@,
{
    assert forall|i: int, j: int|
        0 <= i < c.tokens@.len() && 0 <= j < c.tokens@.len() && i != j implies (
    #[trigger] c.tokens@[i]).token_id@ != (#[trigger] c.tokens@[j]).token_id@ by {
        if c.tokens@[i].token_id@ == c.tokens@[j].token_id@ {
            lemma_dec_str_inj(i as nat, j as nat);
        }
    }
}

} // verus!
