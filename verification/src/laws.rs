//! The ledger's cross-operation laws, stated over the same specification
//! functions the operations' contracts use.

use vstd::prelude::*;
use crate::approval::spec_is_approved;
use crate::assoc::{assoc_has_key, assoc_map, lemma_assoc_map_dom};
use crate::contract::{token_wf, Contract, Token};
use crate::numeral::dec_str;

verus! {

/// Token identifiers are unique and strictly increasing in issuance order:
/// the token at position `i` carries the decimal numeral of `i`, distinct
/// positions carry distinct numerals, and a later mint's number is strictly
/// larger.
pub proof fn lemma_token_ids_unique_and_increasing(c: Contract, i: int, j: int)
    requires
        c.wf(),
        0 <= i < j < c.tokens@.len(),
    ensures
        c.tokens@[i].token_id@ == dec_str(i as nat),
        c.tokens@[j].token_id@ == dec_str(j as nat),
        c.tokens@[i].token_id@ != c.tokens@[j].token_id@,
{
    crate::contract::lemma_token_ids_distinct(c);
}

/// After a grant stores `aid` for `account` (what a successful `nft_approve`
/// ensures), `nft_is_approved` answers true, both with the returned id and
/// without one.
pub proof fn lemma_approve_then_is_approved(c: Contract, id: Seq<char>, account: Seq<char>, aid: u64)
    requires
        c.wf(),
        c.has_token(id),
        assoc_map(c.tokens@[c.token_idx(id)].approved_account_ids@).dom().contains(account),
        assoc_map(c.tokens@[c.token_idx(id)].approved_account_ids@)[account] == aid,
    ensures
        spec_is_approved(c, id, account, Some(aid)),
        spec_is_approved(c, id, account, None),
{
    lemma_assoc_map_dom(c.tokens@[c.token_idx(id)].approved_account_ids@);
}

/// After `account`'s entry is gone from the token's approval map (what
/// `nft_revoke` and `nft_revoke_all` ensure), `nft_is_approved` answers
/// false, whatever approval id is asked about.
pub proof fn lemma_revoked_not_approved(
    c: Contract,
    id: Seq<char>,
    account: Seq<char>,
    approval_id: Option<u64>,
)
    requires
        c.wf(),
        c.has_token(id),
        !assoc_map(c.tokens@[c.token_idx(id)].approved_account_ids@).dom().contains(account),
    ensures
        !spec_is_approved(c, id, account, approval_id),
{
    lemma_assoc_map_dom(c.tokens@[c.token_idx(id)].approved_account_ids@);
}

/// Approval identifiers for one token strictly increase across successive
/// grants and are never reused: a grant returns the token's counter, the
/// counter never goes down, and every identifier ever stored lies strictly
/// below the counter, so a later grant's identifier exceeds every earlier
/// one, also those revoked in between.
pub proof fn lemma_approval_ids_increase(earlier: Token, later: Token, idx: nat, granted: u64)
    requires
        token_wf(earlier, idx),
        token_wf(later, idx),
        later.next_approval_id >= earlier.next_approval_id,
        granted == later.next_approval_id,
    ensures
        granted >= earlier.next_approval_id,
        forall|k: int|
            0 <= k < earlier.approved_account_ids@.len() ==> granted > (
            #[trigger] earlier.approved_account_ids@[k]).1,
{
}

/// After a transfer cleared the token's approval map (what
/// `internal_transfer` ensures), no account holds an approval for it.
pub proof fn lemma_transfer_clears_approvals(
    c: Contract,
    id: Seq<char>,
    account: Seq<char>,
    approval_id: Option<u64>,
)
    requires
        c.wf(),
        c.has_token(id),
        c.tokens@[c.token_idx(id)].approved_account_ids@.len() == 0,
    ensures
        !spec_is_approved(c, id, account, approval_id),
{
    assert(!assoc_has_key(c.tokens@[c.token_idx(id)].approved_account_ids@, account));
}

} // verus!
