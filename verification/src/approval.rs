//! Granting, checking and revoking transfer approvals.

use vstd::prelude::*;
use crate::assoc::{assoc_get_ref, assoc_has_key, assoc_insert, assoc_map, assoc_remove};
use crate::contract::{token_wf, valid_account_id, AccountId, Contract, TokenId};
use crate::errors::ContractError;
use crate::ledger::approval_storage_cost;
use vstd::string::StrSliceExecFns;

verus! {

/// Whether `account` holds an approval for the token `id`, with the exact
/// stored approval id when one is demanded.
pub open spec fn spec_is_approved(
    c: Contract,
    id: Seq<char>,
    account: Seq<char>,
    approval_id: Option<u64>,
) -> bool {
    &&& c.has_token(id)
    &&& assoc_has_key(c.tokens@[c.token_idx(id)].approved_account_ids@, account)
    &&& (match approval_id {
        None => true,
        Some(e) => assoc_map(c.tokens@[c.token_idx(id)].approved_account_ids@)[account] == e,
    })
}

impl Contract {
    /// Grants `account_id` permission to transfer the token, under the next
    /// approval identifier. Owner-only; the owner's own account cannot enter
    /// the approval map; a fresh entry must be paid for by the deposit.
    pub fn nft_approve(
        &mut self,
        caller: &AccountId,
        deposit: u128,
        token_id: &TokenId,
        account_id: AccountId,
    ) -> (r: Result<u64, ContractError>)
        requires
            old(self).wf(),
            valid_account_id(account_id@),
            old(self).has_token(token_id@) ==> old(self).tokens@[old(self).token_idx(
                token_id@,
            )].next_approval_id < u64::MAX,
        ensures
            final(self).wf(),
            !old(self).has_token(token_id@) ==> r == Err::<u64, ContractError>(
                ContractError::NotFound,
            ) && *final(self) == *old(self),
            old(self).has_token(token_id@) && {
                let t = old(self).tokens@[old(self).token_idx(token_id@)];
                caller@ != t.owner_id@ || account_id@ == t.owner_id@
            } ==> r == Err::<u64, ContractError>(ContractError::Unauthorized) && *final(self)
                == *old(self),
            old(self).has_token(token_id@) && {
                let t = old(self).tokens@[old(self).token_idx(token_id@)];
                &&& caller@ == t.owner_id@
                &&& account_id@ != t.owner_id@
                &&& deposit < (if assoc_has_key(t.approved_account_ids@, account_id@) {
                    0int
                } else {
                    approval_storage_cost(account_id@)
                })
            } ==> r == Err::<u64, ContractError>(ContractError::InsufficientDeposit) && *final(self) == *old(self),
            old(self).has_token(token_id@) && {
                let t = old(self).tokens@[old(self).token_idx(token_id@)];
                &&& caller@ == t.owner_id@
                &&& account_id@ != t.owner_id@
                &&& deposit >= (if assoc_has_key(t.approved_account_ids@, account_id@) {
                    0int
                } else {
                    approval_storage_cost(account_id@)
                })
            } ==> {
                let ti = old(self).token_idx(token_id@);
                let t = old(self).tokens@[ti];
                &&& r == Ok::<u64, ContractError>(t.next_approval_id)
                &&& final(self).tokens@.len() == old(self).tokens@.len()
                &&& forall|j: int|
                    0 <= j < old(self).tokens@.len() && j != ti ==> final(self).tokens@[j] == old(self).tokens@[j]
                &&& final(self).tokens@[ti].token_id == t.token_id
                &&& final(self).tokens@[ti].owner_id == t.owner_id
                &&& assoc_map(final(self).tokens@[ti].approved_account_ids@) =~= assoc_map(
                    t.approved_account_ids@,
                ).insert(account_id@, t.next_approval_id)
                &&& final(self).tokens@[ti].next_approval_id == t.next_approval_id + 1
                &&& final(self).tokens_per_owner == old(self).tokens_per_owner
                &&& final(self).token_metadata_by_id == old(self).token_metadata_by_id
                &&& final(self).royalty == old(self).royalty
                &&& final(self).collection_state == old(self).collection_state
                &&& final(self).encrypted_metadata == old(self).encrypted_metadata
                &&& final(self).owner_id == old(self).owner_id
                &&& final(self).location_id == old(self).location_id
                &&& final(self).collection_size == old(self).collection_size
                &&& final(self).metadata == old(self).metadata
            },
    {
        let ti = match self.token_index(token_id) {
            Some(i) => i,
            None => {
                return Err(ContractError::NotFound);
            },
        };
        proof {
            crate::contract::lemma_token_idx_at(*self, ti as int, token_id@);
            assert(token_wf(self.tokens@[ti as int], ti as nat));
        }
        if !self.tokens[ti].owner_id.eq(caller) {
            return Err(ContractError::Unauthorized);
        }
        if self.tokens[ti].owner_id.eq(&account_id) {
            return Err(ContractError::Unauthorized);
        }
        let already = match assoc_get_ref(&self.tokens[ti].approved_account_ids, &account_id) {
            Some(_) => true,
            None => false,
        };
        let required: u128 = if already {
            0
        } else {
            let al = account_id.as_str().unicode_len();
            ((al as u128) + 12) * 10_000_000_000_000_000_000
        };
        if deposit < required {
            return Err(ContractError::InsufficientDeposit);
        }
        let ghost pre = *self;
        let ghost accv = account_id@;
        let slot = &mut self.tokens[ti];
        let aid = slot.next_approval_id;
        assoc_insert(&mut slot.approved_account_ids, account_id, aid);
        slot.next_approval_id = aid + 1;
        proof {
            assert forall|j: int| 0 <= j < self.tokens@.len() implies token_wf(
                #[trigger] self.tokens@[j],
                j as nat,
            ) by {
                if j != ti as int {
                    assert(self.tokens@[j] == pre.tokens@[j]);
                    assert(token_wf(pre.tokens@[j], j as nat));
                } else {
                    let t0 = pre.tokens@[j];
                    let t = self.tokens@[j];
                    assert forall|k: int| 0 <= k < t.approved_account_ids@.len() implies 1 <= (
                    #[trigger] t.approved_account_ids@[k]).1 < t.next_approval_id && t
                        .approved_account_ids@[k].0@ != t.owner_id@ by {
                        crate::assoc::lemma_assoc_map_at(t.approved_account_ids@, k);
                        if t.approved_account_ids@[k].0@ == accv {
                            assert(t.approved_account_ids@[k].1 == aid);
                        } else {
                            crate::assoc::lemma_assoc_entry_witness(
                                t.approved_account_ids@,
                                t0.approved_account_ids@,
                                k,
                            );
                            let m = choose|m: int|
                                0 <= m < t0.approved_account_ids@.len()
                                    && t0.approved_account_ids@[m].0@
                                    == t.approved_account_ids@[k].0@
                                    && t0.approved_account_ids@[m].1.deep_view()
                                    == t.approved_account_ids@[k].1.deep_view();
                            assert(1 <= t0.approved_account_ids@[m].1 < t0.next_approval_id);
                        }
                    }
                }
            }
            crate::contract::lemma_metadata_covered_same_ids(pre, *self);
        }
        Ok(aid)
    }

    /// Read-only approval check: true iff `approved_account_id` holds an
    /// approval for the token and, when `approval_id` is given, the stored
    /// identifier matches it exactly. Unknown tokens yield false.
    pub fn nft_is_approved(
        &self,
        token_id: &TokenId,
        approved_account_id: &AccountId,
        approval_id: Option<u64>,
    ) -> (r: bool)
        requires
            self.wf(),
        ensures
            r == spec_is_approved(*self, token_id@, approved_account_id@, approval_id),
    {
        let ti = match self.token_index(token_id) {
            Some(i) => i,
            None => {
                return false;
            },
        };
        proof {
            crate::contract::lemma_token_idx_at(*self, ti as int, token_id@);
            assert(token_wf(self.tokens@[ti as int], ti as nat));
        }
        match assoc_get_ref(&self.tokens[ti].approved_account_ids, approved_account_id) {
            None => false,
            Some(stored) => match approval_id {
                None => true,
                Some(e) => e == *stored,
            },
        }
    }

    /// Withdraws `account_id`'s approval for the token, if it holds one.
    /// Owner-only.
    pub fn nft_revoke(&mut self, caller: &AccountId, token_id: &TokenId, account_id: &AccountId)
        -> (r: Result<(), ContractError>)
        requires
            old(self).wf(),
        ensures
            final(self).wf(),
            !old(self).has_token(token_id@) ==> r == Err::<(), ContractError>(
                ContractError::NotFound,
            ) && *final(self) == *old(self),
            old(self).has_token(token_id@) && caller@ != old(self).tokens@[old(self).token_idx(
                token_id@,
            )].owner_id@ ==> r == Err::<(), ContractError>(ContractError::Unauthorized) && *final(self) == *old(self),
            old(self).has_token(token_id@) && caller@ == old(self).tokens@[old(self).token_idx(
                token_id@,
            )].owner_id@ ==> {
                let ti = old(self).token_idx(token_id@);
                let t = old(self).tokens@[ti];
                &&& r == Ok::<(), ContractError>(())
                &&& final(self).tokens@.len() == old(self).tokens@.len()
                &&& forall|j: int|
                    0 <= j < old(self).tokens@.len() && j != ti ==> final(self).tokens@[j] == old(self).tokens@[j]
                &&& final(self).tokens@[ti].token_id == t.token_id
                &&& final(self).tokens@[ti].owner_id == t.owner_id
                &&& assoc_map(final(self).tokens@[ti].approved_account_ids@) =~= assoc_map(
                    t.approved_account_ids@,
                ).remove(account_id@)
                &&& final(self).tokens@[ti].next_approval_id == t.next_approval_id
                &&& final(self).tokens_per_owner == old(self).tokens_per_owner
                &&& final(self).token_metadata_by_id == old(self).token_metadata_by_id
                &&& final(self).royalty == old(self).royalty
                &&& final(self).collection_state == old(self).collection_state
                &&& final(self).encrypted_metadata == old(self).encrypted_metadata
                &&& final(self).owner_id == old(self).owner_id
                &&& final(self).location_id == old(self).location_id
                &&& final(self).collection_size == old(self).collection_size
                &&& final(self).metadata == old(self).metadata
            },
    {
        let ti = match self.token_index(token_id) {
            Some(i) => i,
            None => {
                return Err(ContractError::NotFound);
            },
        };
        proof {
            crate::contract::lemma_token_idx_at(*self, ti as int, token_id@);
            assert(token_wf(self.tokens@[ti as int], ti as nat));
        }
        if !self.tokens[ti].owner_id.eq(caller) {
            return Err(ContractError::Unauthorized);
        }
        let ghost pre = *self;
        let slot = &mut self.tokens[ti];
        assoc_remove(&mut slot.approved_account_ids, account_id);
        proof {
            assert forall|j: int| 0 <= j < self.tokens@.len() implies token_wf(
                #[trigger] self.tokens@[j],
                j as nat,
            ) by {
                if j != ti as int {
                    assert(self.tokens@[j] == pre.tokens@[j]);
                    assert(token_wf(pre.tokens@[j], j as nat));
                } else {
                    let t0 = pre.tokens@[j];
                    let t = self.tokens@[j];
                    assert forall|k: int| 0 <= k < t.approved_account_ids@.len() implies 1 <= (
                    #[trigger] t.approved_account_ids@[k]).1 < t.next_approval_id && t
                        .approved_account_ids@[k].0@ != t.owner_id@ by {
                        crate::assoc::lemma_assoc_map_at(t.approved_account_ids@, k);
                        crate::assoc::lemma_assoc_entry_witness(
                            t.approved_account_ids@,
                            t0.approved_account_ids@,
                            k,
                        );
                        let m = choose|m: int|
                            0 <= m < t0.approved_account_ids@.len()
                                && t0.approved_account_ids@[m].0@ == t.approved_account_ids@[k].0@
                                && t0.approved_account_ids@[m].1.deep_view()
                                == t.approved_account_ids@[k].1.deep_view();
                        assert(1 <= t0.approved_account_ids@[m].1 < t0.next_approval_id);
                    }
                }
            }
            crate::contract::lemma_metadata_covered_same_ids(pre, *self);
        }
        Ok(())
    }

    /// Withdraws every approval for the token. Owner-only.
    pub fn nft_revoke_all(&mut self, caller: &AccountId, token_id: &TokenId) -> (r: Result<
        (),
        ContractError,
    >)
        requires
            old(self).wf(),
        ensures
            final(self).wf(),
            !old(self).has_token(token_id@) ==> r == Err::<(), ContractError>(
                ContractError::NotFound,
            ) && *final(self) == *old(self),
            old(self).has_token(token_id@) && caller@ != old(self).tokens@[old(self).token_idx(
                token_id@,
            )].owner_id@ ==> r == Err::<(), ContractError>(ContractError::Unauthorized) && *final(self) == *old(self),
            old(self).has_token(token_id@) && caller@ == old(self).tokens@[old(self).token_idx(
                token_id@,
            )].owner_id@ ==> {
                let ti = old(self).token_idx(token_id@);
                let t = old(self).tokens@[ti];
                &&& r == Ok::<(), ContractError>(())
                &&& final(self).tokens@.len() == old(self).tokens@.len()
                &&& forall|j: int|
                    0 <= j < old(self).tokens@.len() && j != ti ==> final(self).tokens@[j] == old(self).tokens@[j]
                &&& final(self).tokens@[ti].token_id == t.token_id
                &&& final(self).tokens@[ti].owner_id == t.owner_id
                &&& final(self).tokens@[ti].approved_account_ids@ =~= Seq::<(
                    AccountId,
                    u64,
                )>::empty()
                &&& final(self).tokens@[ti].next_approval_id == t.next_approval_id
                &&& final(self).tokens_per_owner == old(self).tokens_per_owner
                &&& final(self).token_metadata_by_id == old(self).token_metadata_by_id
                &&& final(self).royalty == old(self).royalty
                &&& final(self).collection_state == old(self).collection_state
                &&& final(self).encrypted_metadata == old(self).encrypted_metadata
                &&& final(self).owner_id == old(self).owner_id
                &&& final(self).location_id == old(self).location_id
                &&& final(self).collection_size == old(self).collection_size
                &&& final(self).metadata == old(self).metadata
            },
    {
        let ti = match self.token_index(token_id) {
            Some(i) => i,
            None => {
                return Err(ContractError::NotFound);
            },
        };
        proof {
            crate::contract::lemma_token_idx_at(*self, ti as int, token_id@);
            assert(token_wf(self.tokens@[ti as int], ti as nat));
        }
        if !self.tokens[ti].owner_id.eq(caller) {
            return Err(ContractError::Unauthorized);
        }
        let ghost pre = *self;
        let slot = &mut self.tokens[ti];
        slot.approved_account_ids = Vec::new();
        proof {
            assert forall|j: int| 0 <= j < self.tokens@.len() implies token_wf(
                #[trigger] self.tokens@[j],
                j as nat,
            ) by {
                if j != ti as int {
                    assert(self.tokens@[j] == pre.tokens@[j]);
                    assert(token_wf(pre.tokens@[j], j as nat));
                }
            }
            crate::contract::lemma_metadata_covered_same_ids(pre, *self);
        }
        Ok(())
    }
}

} // verus!
