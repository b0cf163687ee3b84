//! Minting, transfer and the owned-token index.

use vstd::prelude::*;
use crate::assoc::{
    assoc_get_ref, assoc_has_key, assoc_insert, assoc_map, assoc_remove, assoc_unique,
};
use crate::contract::{valid_account_id, AccountId, Contract, Token, TokenId};
use crate::errors::ContractError;
use crate::numeral::{dec_str, u64_to_dec};
use vstd::string::StrSliceExecFns;

verus! {

/// The ledger's price of one byte of storage, in attached-payment units.
pub open spec fn storage_price_per_byte() -> int {
    10_000_000_000_000_000_000
}

/// The storage a mint adds: a fixed record plus the owner's name in the token
/// record and in the owned-token index.
pub open spec fn mint_storage_cost(receiver: Seq<char>) -> int {
    (141 + 2 * receiver.len()) * storage_price_per_byte()
}

/// The storage one approval entry adds.
pub open spec fn approval_storage_cost(account: Seq<char>) -> int {
    (account.len() + 12) * storage_price_per_byte()
}

/// An owned-token list after adding an identifier (set semantics).
pub open spec fn list_add(l: Seq<Seq<char>>, id: Seq<char>) -> Seq<Seq<char>> {
    if l.contains(id) {
        l
    } else {
        l.push(id)
    }
}

/// An owned-token list after removing every occurrence of an identifier.
pub open spec fn list_remove(l: Seq<Seq<char>>, id: Seq<char>) -> Seq<Seq<char>>
    decreases l.len(),
{
    if l.len() == 0 {
        Seq::empty()
    } else {
        let rest = list_remove(l.drop_last(), id);
        if l.last() == id {
            rest
        } else {
            rest.push(l.last())
        }
    }
}

/// The list an index map holds for an account; an absent account holds none.
pub open spec fn map_list(m: Map<Seq<char>, Seq<Seq<char>>>, a: Seq<char>) -> Seq<Seq<char>> {
    if m.dom().contains(a) {
        m[a]
    } else {
        Seq::empty()
    }
}

/// The owned-token index after recording that `a` holds `id`.
pub open spec fn index_add(m: Map<Seq<char>, Seq<Seq<char>>>, a: Seq<char>, id: Seq<char>) -> Map<
    Seq<char>,
    Seq<Seq<char>>,
> {
    m.insert(a, list_add(map_list(m, a), id))
}

/// The owned-token index after removing `id` from `a`'s list.
pub open spec fn index_remove(
    m: Map<Seq<char>, Seq<Seq<char>>>,
    a: Seq<char>,
    id: Seq<char>,
) -> Map<Seq<char>, Seq<Seq<char>>> {
    if m.dom().contains(a) {
        m.insert(a, list_remove(m[a], id))
    } else {
        m
    }
}

/// Whether permission suffices to transfer a token away from its owner.
pub open spec fn transfer_permit(t: Token, sender: Seq<char>, approval_id: Option<u64>) -> Result<
    (),
    ContractError,
> {
    if sender == t.owner_id@ {
        Ok(())
    } else if !assoc_has_key(t.approved_account_ids@, sender) {
        Err(ContractError::Unauthorized)
    } else {
        match approval_id {
            None => Ok(()),
            Some(e) => if assoc_map(t.approved_account_ids@)[sender] == e {
                Ok(())
            } else {
                Err(ContractError::ApprovalMismatch)
            },
        }
    }
}

fn list_contains(l: &Vec<String>, id: &String) -> (r: bool)
    ensures
        r == l.deep_view().contains(id@),
{
    let mut i: usize = 0;
    while i < l.len()
        invariant
            i <= l@.len(),
            forall|j: int| 0 <= j < i ==> l.deep_view()[j] != id@,
        decreases l@.len() - i,
    {
        if l[i].eq(id) {
            proof {
                assert(l.deep_view()[i as int] == id@);
            }
            return true;
        }
        i = i + 1;
    }
    proof {
        assert(forall|j: int| 0 <= j < l.deep_view().len() ==> l.deep_view()[j] != id@);
    }
    false
}

/// Records that `account` holds `token_id`.
pub fn owner_index_add(v: &mut Vec<(String, Vec<String>)>, account: &String, token_id: String)
    requires
        assoc_unique(old(v)@),
    ensures
        assoc_unique(final(v)@),
        assoc_map(final(v)@) =~= index_add(assoc_map(old(v)@), account@, token_id@),
{
    let ghost m0 = assoc_map(v@);
    let cur = assoc_remove(v, account);
    let ghost l0 = map_list(m0, account@);
    let mut l = match cur {
        Some(l) => l,
        None => Vec::new(),
    };
    proof {
        assert(l.deep_view() =~= l0);
    }
    if !list_contains(&l, &token_id) {
        let ghost lpre = l.deep_view();
        let ghost idv = token_id@;
        l.push(token_id);
        proof {
            assert(l.deep_view() =~= lpre.push(idv));
        }
    }
    assoc_insert(v, account.clone(), l);
}

/// Removes every record that `account` holds `token_id`. Returns whether any
/// was present.
pub fn owner_index_remove(v: &mut Vec<(String, Vec<String>)>, account: &String, token_id: &String)
    -> (removed: bool)
    requires
        assoc_unique(old(v)@),
    ensures
        assoc_unique(final(v)@),
        assoc_map(final(v)@) =~= index_remove(assoc_map(old(v)@), account@, token_id@),
        removed == map_list(assoc_map(old(v)@), account@).contains(token_id@),
{
    let ghost m0 = assoc_map(v@);
    let cur = assoc_remove(v, account);
    match cur {
        None => {
            proof {
                assert(assoc_map(v@) =~= m0);
                assert(!map_list(m0, account@).contains(token_id@));
            }
            false
        },
        Some(l) => {
            let ghost lv = l.deep_view();
            let mut out: Vec<String> = Vec::new();
            let mut found = false;
            let mut i: usize = 0;
            while i < l.len()
                invariant
                    i <= l@.len(),
                    lv == l.deep_view(),
                    out.deep_view() =~= list_remove(lv.take(i as int), token_id@),
                    found == exists|j: int| 0 <= j < i && lv[j] == token_id@,
                decreases l@.len() - i,
            {
                let ghost outpre = out.deep_view();
                proof {
                    assert(lv.take(i + 1).drop_last() =~= lv.take(i as int));
                    assert(lv.take(i + 1).last() == lv[i as int]);
                }
                if l[i].eq(token_id) {
                    found = true;
                    proof {
                        assert(lv[i as int] == token_id@);
                    }
                } else {
                    out.push(l[i].clone());
                    proof {
                        assert(out.deep_view() =~= outpre.push(lv[i as int]));
                    }
                }
                i = i + 1;
            }
            proof {
                assert(lv.take(lv.len() as int) =~= lv);
                assert(found == lv.contains(token_id@));
            }
            assoc_insert(v, account.clone(), out);
            found
        },
    }
}

impl Contract {
    /// The position of the token carrying `token_id`, if any.
    pub fn token_index(&self, token_id: &TokenId) -> (r: Option<usize>)
        ensures
            match r {
                Some(i) => i < self.tokens@.len() && self.tokens@[i as int].token_id@ == token_id@,
                None => !self.has_token(token_id@),
            },
    {
        let mut i: usize = 0;
        while i < self.tokens.len()
            invariant
                i <= self.tokens@.len(),
                forall|j: int| 0 <= j < i ==> (#[trigger] self.tokens@[j]).token_id@ != token_id@,
            decreases self.tokens@.len() - i,
        {
            if self.tokens[i].token_id.eq(token_id) {
                return Some(i);
            }
            i = i + 1;
        }
        None
    }

    /// Mints the next token to `receiver_id`. The token takes the next
    /// sequential identifier; the attached deposit must cover the storage the
    /// new record consumes.
    pub fn nft_mint(&mut self, receiver_id: AccountId, deposit: u128) -> (r: Result<
        TokenId,
        ContractError,
    >)
        requires
            old(self).wf(),
            valid_account_id(receiver_id@),
            old(self).tokens@.len() < u64::MAX,
        ensures
            final(self).wf(),
            deposit < mint_storage_cost(receiver_id@) ==> r == Err::<TokenId, ContractError>(
                ContractError::InsufficientDeposit,
            ) && *final(self) == *old(self),
            deposit >= mint_storage_cost(receiver_id@) ==> {
                &&& r matches Ok(id) && id@ == dec_str(old(self).tokens@.len() as nat)
                &&& final(self).tokens@.len() == old(self).tokens@.len() + 1
                &&& forall|j: int|
                    0 <= j < old(self).tokens@.len() ==> final(self).tokens@[j] == old(self).tokens@[j]
                &&& final(self).tokens@.last().token_id@ == dec_str(old(self).tokens@.len() as nat)
                &&& final(self).tokens@.last().owner_id@ == receiver_id@
                &&& final(self).tokens@.last().approved_account_ids@ =~= Seq::<(
                    AccountId,
                    u64,
                )>::empty()
                &&& final(self).tokens@.last().next_approval_id == 1
                &&& assoc_map(final(self).tokens_per_owner@) =~= index_add(
                    assoc_map(old(self).tokens_per_owner@),
                    receiver_id@,
                    dec_str(old(self).tokens@.len() as nat),
                )
                &&& final(self).token_metadata_by_id == old(self).token_metadata_by_id
                &&& final(self).royalty == old(self).royalty
                &&& final(self).collection_state == old(self).collection_state
                &&& final(self).encrypted_metadata == old(self).encrypted_metadata
                &&& final(self).owner_id == old(self).owner_id
                &&& final(self).location_id == old(self).location_id
                &&& final(self).collection_size == old(self).collection_size
                &&& final(self).metadata == old(self).metadata
            },
    {
        let rl = receiver_id.as_str().unicode_len();
        let cost: u128 = (141 + 2 * (rl as u128)) * 10_000_000_000_000_000_000;
        if deposit < cost {
            return Err(ContractError::InsufficientDeposit);
        }
        let n = self.tokens.len();
        let token_id = u64_to_dec(n as u64);
        let ret = token_id.clone();
        owner_index_add(&mut self.tokens_per_owner, &receiver_id, token_id.clone());
        let ghost pre = self.tokens@;
        self.tokens.push(
            Token {
                token_id,
                owner_id: receiver_id,
                approved_account_ids: Vec::new(),
                next_approval_id: 1,
            },
        );
        proof {
            assert(self.tokens@.drop_last() =~= pre);
            crate::contract::lemma_metadata_covered_same_ids(*old(self), *self);
        }
        Ok(ret)
    }

    /// Rebinds a token to `receiver_id` if the sender is the owner or holds a
    /// (matching) approval, clearing every approval of the token and updating
    /// both accounts' owned-token lists.
    pub fn internal_transfer(
        &mut self,
        sender_id: &AccountId,
        receiver_id: &AccountId,
        token_id: &TokenId,
        approval_id: Option<u64>,
        memo: Option<String>,
    ) -> (r: Result<(), ContractError>)
        requires
            old(self).wf(),
        ensures
            final(self).wf(),
            !old(self).has_token(token_id@) ==> r == Err::<(), ContractError>(
                ContractError::NotFound,
            ) && *final(self) == *old(self),
            old(self).has_token(token_id@) && (transfer_permit(
                old(self).tokens@[old(self).token_idx(token_id@)],
                sender_id@,
                approval_id,
            ) matches Err(e)) ==> r == transfer_permit(
                old(self).tokens@[old(self).token_idx(token_id@)],
                sender_id@,
                approval_id,
            ) && *final(self) == *old(self),
            old(self).has_token(token_id@) && (transfer_permit(
                old(self).tokens@[old(self).token_idx(token_id@)],
                sender_id@,
                approval_id,
            ) matches Ok(())) ==> {
                let ti = old(self).token_idx(token_id@);
                let t = old(self).tokens@[ti];
                &&& r == Ok::<(), ContractError>(())
                &&& final(self).tokens@.len() == old(self).tokens@.len()
                &&& forall|j: int|
                    0 <= j < old(self).tokens@.len() && j != ti ==> final(self).tokens@[j] == old(self).tokens@[j]
                &&& final(self).tokens@[ti].token_id@ == t.token_id@
                &&& final(self).tokens@[ti].owner_id@ == receiver_id@
                &&& final(self).tokens@[ti].approved_account_ids@ =~= Seq::<(
                    AccountId,
                    u64,
                )>::empty()
                &&& final(self).tokens@[ti].next_approval_id == t.next_approval_id
                &&& assoc_map(final(self).tokens_per_owner@) =~= index_add(
                    index_remove(assoc_map(old(self).tokens_per_owner@), t.owner_id@, token_id@),
                    receiver_id@,
                    token_id@,
                )
                &&& final(self).token_metadata_by_id == old(self).token_metadata_by_id
                &&& final(self).royalty == old(self).royalty
                &&& final(self).collection_state == old(self).collection_state
                &&& final(self).encrypted_metadata == old(self).encrypted_metadata
                &&& final(self).owner_id == old(self).owner_id
                &&& final(self).location_id == old(self).location_id
                &&& final(self).collection_size == old(self).collection_size
                &&& final(self).metadata == old(self).metadata
            },
    {
        let ti = match self.token_index(token_id) {
            Some(i) => i,
            None => {
                return Err(ContractError::NotFound);
            },
        };
        proof {
            crate::contract::lemma_token_ids_distinct(*self);
            assert(self.tokens@[self.token_idx(token_id@)].token_id@ == token_id@);
            if self.token_idx(token_id@) != ti as int {
                crate::numeral::lemma_dec_str_inj(
                    self.token_idx(token_id@) as nat,
                    ti as nat,
                );
            }
            assert(self.token_idx(token_id@) == ti as int);
            assert(crate::contract::token_wf(self.tokens@[ti as int], ti as nat));
        }
        if !self.tokens[ti].owner_id.eq(sender_id) {
            match assoc_get_ref(&self.tokens[ti].approved_account_ids, sender_id) {
                None => {
                    return Err(ContractError::Unauthorized);
                },
                Some(stored) => {
                    match approval_id {
                        None => {},
                        Some(e) => {
                            if e != *stored {
                                return Err(ContractError::ApprovalMismatch);
                            }
                        },
                    }
                },
            }
        }
        let old_owner = self.tokens[ti].owner_id.clone();
        let slot = &mut self.tokens[ti];
        slot.owner_id = receiver_id.clone();
        slot.approved_account_ids = Vec::new();
        owner_index_remove(&mut self.tokens_per_owner, &old_owner, token_id);
        owner_index_add(&mut self.tokens_per_owner, receiver_id, token_id.clone());
        proof {
            crate::contract::lemma_metadata_covered_same_ids(*old(self), *self);
        }
        // the memo travels only into the transfer notification, which the
        // caller's runtime emits; the ledger itself never reads it
        let _ = memo;
        Ok(())
    }

    /// Deletes `token_id` from `account_id`'s owned-token list, leaving the
    /// token record itself untouched. Returns whether an entry was removed.
    pub fn internal_remove_token_from_owner(
        &mut self,
        account_id: &AccountId,
        token_id: &TokenId,
    ) -> (removed: bool)
        requires
            old(self).wf(),
        ensures
            final(self).wf(),
            assoc_map(final(self).tokens_per_owner@) =~= index_remove(
                assoc_map(old(self).tokens_per_owner@),
                account_id@,
                token_id@,
            ),
            removed == map_list(assoc_map(old(self).tokens_per_owner@), account_id@).contains(
                token_id@,
            ),
            final(self).tokens == old(self).tokens,
            final(self).token_metadata_by_id == old(self).token_metadata_by_id,
            final(self).royalty == old(self).royalty,
            final(self).collection_state == old(self).collection_state,
            final(self).encrypted_metadata == old(self).encrypted_metadata,
            final(self).owner_id == old(self).owner_id,
            final(self).location_id == old(self).location_id,
            final(self).collection_size == old(self).collection_size,
            final(self).metadata == old(self).metadata,
    {
        let removed = owner_index_remove(&mut self.tokens_per_owner, account_id, token_id);
        proof {
            crate::contract::lemma_metadata_covered_same_ids(*old(self), *self);
        }
        removed
    }
}

} // verus!
