//! The commit-then-reveal engine. Ciphertext blobs may be appended only
//! before publication; after publication the owner reveals them one at a
//! time, last-in-first-out, merging each decrypted metadata map into the
//! ledger. A failed reveal changes nothing.

use vstd::prelude::*;
use crate::assoc::{assoc_insert, assoc_map};
use crate::contract::{state_rank, AccountId, Contract};
use crate::crypto::decrypt_blob_spec;
use crate::errors::ContractError;
use crate::json::{parse_doc, parse_doc_exec};
use crate::metadata::MetaView;
use vstd::string::StringExecFns;

verus! {

/// A metadata table after merging parsed entries in order, each overwriting
/// any earlier binding of its token identifier.
pub open spec fn merge_entries(
    m: Map<Seq<char>, MetaView>,
    entries: Seq<(Seq<char>, MetaView)>,
) -> Map<Seq<char>, MetaView>
    decreases entries.len(),
{
    if entries.len() == 0 {
        m
    } else {
        merge_entries(m, entries.drop_last()).insert(entries.last().0, entries.last().1)
    }
}

/// The decrypted entries whose token identifier the ledger holds, in order.
/// Entries naming an unknown token are dropped: a token exists before (or
/// together with) its metadata entry, never after it.
pub open spec fn ledger_known(
    c: Contract,
    entries: Seq<(Seq<char>, MetaView)>,
) -> Seq<(Seq<char>, MetaView)>
    decreases entries.len(),
{
    if entries.len() == 0 {
        Seq::empty()
    } else {
        let rest = ledger_known(c, entries.drop_last());
        if c.has_token(entries.last().0) {
            rest.push(entries.last())
        } else {
            rest
        }
    }
}

/// What revealing one blob with a password produces: the decrypted plaintext
/// parsed as a metadata map, or nothing when the key does not authenticate
/// the blob or the plaintext is not a well-formed map.
pub open spec fn reveal_outcome(password: Seq<char>, blob: Seq<char>) -> Option<
    Seq<(Seq<char>, MetaView)>,
> {
    match decrypt_blob_spec(password, blob) {
        None => None,
        Some(pt) => parse_doc(pt),
    }
}

impl Contract {
    /// Appends one ciphertext blob to the reveal queue. Owner-only, and only
    /// while the collection is still strictly before publication.
    pub fn append_encrypted_metadata(&mut self, caller: &AccountId, encrypted_metadata: String)
        -> (r: Result<(), ContractError>)
        requires
            old(self).wf(),
        ensures
            final(self).wf(),
            caller@ != old(self).owner_id@ ==> r == Err::<(), ContractError>(
                ContractError::Unauthorized,
            ) && *final(self) == *old(self),
            caller@ == old(self).owner_id@ && state_rank(old(self).collection_state) >= 1 ==> r
                == Err::<(), ContractError>(ContractError::WrongPhase) && *final(self) == *old(self),
            caller@ == old(self).owner_id@ && state_rank(old(self).collection_state) == 0 ==> {
                &&& r == Ok::<(), ContractError>(())
                &&& final(self).encrypted_metadata@ =~= old(self).encrypted_metadata@.push(
                    encrypted_metadata,
                )
                &&& final(self).tokens == old(self).tokens
                &&& final(self).tokens_per_owner == old(self).tokens_per_owner
                &&& final(self).token_metadata_by_id == old(self).token_metadata_by_id
                &&& final(self).royalty == old(self).royalty
                &&& final(self).collection_state == old(self).collection_state
                &&& final(self).owner_id == old(self).owner_id
                &&& final(self).location_id == old(self).location_id
                &&& final(self).collection_size == old(self).collection_size
                &&& final(self).metadata == old(self).metadata
            },
    {
        if !self.owner_id.eq(caller) {
            return Err(ContractError::Unauthorized);
        }
        if self.collection_state.rank() >= 1 {
            return Err(ContractError::WrongPhase);
        }
        self.encrypted_metadata.push(encrypted_metadata);
        proof {
            crate::contract::lemma_metadata_covered_same_ids(*old(self), *self);
        }
        Ok(())
    }

    /// Pops the most recently appended ciphertext and merges its decrypted
    /// metadata map into the ledger; an entry naming a token the ledger does
    /// not hold is skipped, so metadata never precedes ownership. Owner-only,
    /// and only once the collection is published. An empty queue yields
    /// `Ok(false)` with no change; a blob the password does not decrypt to a
    /// well-formed map is rejected with the queue untouched.
    pub fn reveal_metadata(&mut self, caller: &AccountId, password: String) -> (r: Result<
        bool,
        ContractError,
    >)
        requires
            old(self).wf(),
        ensures
            final(self).wf(),
            caller@ != old(self).owner_id@ ==> r == Err::<bool, ContractError>(
                ContractError::Unauthorized,
            ) && *final(self) == *old(self),
            caller@ == old(self).owner_id@ && state_rank(old(self).collection_state) < 1 ==> r
                == Err::<bool, ContractError>(ContractError::WrongPhase) && *final(self) == *old(self),
            caller@ == old(self).owner_id@ && state_rank(old(self).collection_state) >= 1 && old(self).encrypted_metadata@.len() == 0 ==> r == Ok::<bool, ContractError>(false) && *final(self) == *old(self),
            caller@ == old(self).owner_id@ && state_rank(old(self).collection_state) >= 1 && old(self).encrypted_metadata@.len() > 0 ==> {
                let blob = old(self).encrypted_metadata@.last()@;
                match reveal_outcome(password@, blob) {
                    None => r == Err::<bool, ContractError>(ContractError::DecryptionFailed)
                        && *final(self) == *old(self),
                    Some(entries) => {
                        &&& r == Ok::<bool, ContractError>(true)
                        &&& final(self).encrypted_metadata@ =~= old(self).encrypted_metadata@.drop_last()
                        &&& assoc_map(final(self).token_metadata_by_id@) =~= merge_entries(
                            assoc_map(old(self).token_metadata_by_id@),
                            ledger_known(*old(self), entries),
                        )
                        &&& final(self).tokens == old(self).tokens
                        &&& final(self).tokens_per_owner == old(self).tokens_per_owner
                        &&& final(self).royalty == old(self).royalty
                        &&& final(self).collection_state == old(self).collection_state
                        &&& final(self).owner_id == old(self).owner_id
                        &&& final(self).location_id == old(self).location_id
                        &&& final(self).collection_size == old(self).collection_size
                        &&& final(self).metadata == old(self).metadata
                    },
                }
            },
    {
        if !self.owner_id.eq(caller) {
            return Err(ContractError::Unauthorized);
        }
        if self.collection_state.rank() < 1 {
            return Err(ContractError::WrongPhase);
        }
        let n = self.encrypted_metadata.len();
        if n == 0 {
            return Ok(false);
        }
        let plaintext = {
            let blob: &String = &self.encrypted_metadata[n - 1];
            crate::crypto::aes_gcm_decrypt(password.as_str(), blob.as_str())
        };
        let plaintext = match plaintext {
            None => {
                return Err(ContractError::DecryptionFailed);
            },
            Some(p) => p,
        };
        let entries = match parse_doc_exec(plaintext.as_str()) {
            None => {
                return Err(ContractError::DecryptionFailed);
            },
            Some(e) => e,
        };
        self.encrypted_metadata.pop();
        proof {
            assert(self.encrypted_metadata@ =~= old(self).encrypted_metadata@.drop_last());
        }
        let ghost m0 = assoc_map(self.token_metadata_by_id@);
        let ghost ev = entries.deep_view();
        let mut i: usize = 0;
        while i < entries.len()
            invariant
                i <= entries@.len(),
                ev == entries.deep_view(),
                crate::assoc::assoc_unique(self.token_metadata_by_id@),
                assoc_map(self.token_metadata_by_id@) =~= merge_entries(
                    m0,
                    ledger_known(*old(self), ev.take(i as int)),
                ),
                forall|k: Seq<char>|
                    #[trigger] assoc_map(self.token_metadata_by_id@).dom().contains(k) ==> old(
                        self,
                    ).has_token(k),
                m0 == assoc_map(old(self).token_metadata_by_id@),
                self.tokens == old(self).tokens,
                self.tokens_per_owner == old(self).tokens_per_owner,
                self.royalty == old(self).royalty,
                self.collection_state == old(self).collection_state,
                self.owner_id == old(self).owner_id,
                self.location_id == old(self).location_id,
                self.collection_size == old(self).collection_size,
                self.metadata == old(self).metadata,
                self.encrypted_metadata@ =~= old(self).encrypted_metadata@.drop_last(),
                old(self).wf(),
            decreases entries@.len() - i,
        {
            proof {
                assert(ev.take(i + 1).drop_last() =~= ev.take(i as int));
                assert(ev.take(i + 1).last() == ev[i as int]);
                assert(ev[i as int] == (entries@[i as int].0@, entries@[i as int].1.deep_view()));
            }
            match self.token_index(&entries[i].0) {
                Some(w) => {
                    proof {
                        assert(old(self).tokens@[w as int].token_id@ == ev[i as int].0);
                        assert(old(self).has_token(ev[i as int].0));
                    }
                    let k = entries[i].0.clone();
                    let m = entries[i].1.duplicate();
                    assoc_insert(&mut self.token_metadata_by_id, k, m);
                    proof {
                        let known_i = ledger_known(*old(self), ev.take(i as int));
                        assert(ledger_known(*old(self), ev.take(i + 1)) == known_i.push(
                            ev[i as int],
                        ));
                        assert(known_i.push(ev[i as int]).drop_last() =~= known_i);
                        assert(known_i.push(ev[i as int]).last() == ev[i as int]);
                    }
                },
                None => {
                    proof {
                        assert(!old(self).has_token(ev[i as int].0)) by {
                            if old(self).has_token(ev[i as int].0) {
                                let w = choose|w: int|
                                    0 <= w < old(self).tokens@.len() && old(
                                        self,
                                    ).tokens@[w].token_id@ == ev[i as int].0;
                                assert(self.tokens@[w].token_id@ == ev[i as int].0);
                            }
                        }
                    }
                },
            }
            i = i + 1;
        }
        proof {
            assert(ev.take(entries@.len() as int) =~= ev);
            assert forall|k: Seq<char>|
                #[trigger] assoc_map(self.token_metadata_by_id@).dom().contains(k) implies self
                .has_token(k) by {
                assert(old(self).has_token(k));
                let w = choose|w: int|
                    0 <= w < old(self).tokens@.len() && old(self).tokens@[w].token_id@ == k;
                assert(self.tokens@[w].token_id@ == k);
            }
        }
        Ok(true)
    }
}

} // verus!
