//! Read-only enumeration of tokens, with simple pagination.

use vstd::prelude::*;
use crate::assoc::{assoc_get_ref, assoc_map};
use crate::contract::{token_wf, AccountId, Contract, Token, TokenId};
use crate::ledger::map_list;
use crate::metadata::{empty_meta, MetaView, TokenMetadata};

verus! {

/// One token as callers see it: identifier, owner, revealed metadata (empty
/// until revealed) and the approval table.
pub struct JsonToken {
    pub token_id: TokenId,
    pub owner_id: AccountId,
    pub metadata: TokenMetadata,
    pub approved_account_ids: Vec<(AccountId, u64)>,
}

/// The metadata the ledger shows for a token identifier: the revealed entry,
/// or the empty metadata.
pub open spec fn shown_meta(c: Contract, id: Seq<char>) -> MetaView {
    if assoc_map(c.token_metadata_by_id@).dom().contains(id) {
        assoc_map(c.token_metadata_by_id@)[id]
    } else {
        empty_meta()
    }
}

/// `j` faithfully renders the ledger token `t`.
pub open spec fn token_json_ok(c: Contract, t: Token, j: JsonToken) -> bool {
    &&& j.token_id@ == t.token_id@
    &&& j.owner_id@ == t.owner_id@
    &&& j.metadata.deep_view() == shown_meta(c, t.token_id@)
    &&& j.approved_account_ids@.len() == t.approved_account_ids@.len()
    &&& forall|k: int|
        0 <= k < t.approved_account_ids@.len() ==> (#[trigger] j.approved_account_ids@[k]).0@
            == t.approved_account_ids@[k].0@ && j.approved_account_ids@[k].1
            == t.approved_account_ids@[k].1
}

/// The identifiers of `ids` that the ledger currently holds, in order.
pub open spec fn present_ids(c: Contract, ids: Seq<Seq<char>>) -> Seq<Seq<char>>
    decreases ids.len(),
{
    if ids.len() == 0 {
        Seq::empty()
    } else {
        let rest = present_ids(c, ids.drop_last());
        if c.has_token(ids.last()) {
            rest.push(ids.last())
        } else {
            rest
        }
    }
}

fn clone_approvals(v: &Vec<(AccountId, u64)>) -> (r: Vec<(AccountId, u64)>)
    ensures
        r@.len() == v@.len(),
        forall|k: int|
            0 <= k < v@.len() ==> (#[trigger] r@[k]).0@ == v@[k].0@ && r@[k].1 == v@[k].1,
{
    let mut out: Vec<(AccountId, u64)> = Vec::new();
    let mut i: usize = 0;
    while i < v.len()
        invariant
            i <= v@.len(),
            out@.len() == i,
            forall|k: int|
                0 <= k < i ==> (#[trigger] out@[k]).0@ == v@[k].0@ && out@[k].1 == v@[k].1,
        decreases v@.len() - i,
    {
        out.push((v[i].0.clone(), v[i].1));
        i = i + 1;
    }
    out
}

impl Contract {
    /// How many tokens the ledger holds.
    pub fn nft_total_supply(&self) -> (r: u128)
        ensures
            r == self.tokens@.len(),
    {
        self.tokens.len() as u128
    }

    fn render_token(&self, ti: usize) -> (r: JsonToken)
        requires
            self.wf(),
            ti < self.tokens@.len(),
        ensures
            token_json_ok(*self, self.tokens@[ti as int], r),
    {
        let t = &self.tokens[ti];
        let metadata = match assoc_get_ref(&self.token_metadata_by_id, &t.token_id) {
            Some(m) => m.duplicate(),
            None => TokenMetadata::empty(),
        };
        JsonToken {
            token_id: t.token_id.clone(),
            owner_id: t.owner_id.clone(),
            metadata,
            approved_account_ids: clone_approvals(&t.approved_account_ids),
        }
    }

    /// The tokens from `from_index` (default 0) on, at most `limit` (default
    /// 50) of them, in issuance order.
    pub fn nft_tokens(&self, from_index: Option<u128>, limit: Option<u64>) -> (r: Vec<JsonToken>)
        requires
            self.wf(),
        ensures
            ({
                let from = (match from_index {
                    Some(f) => f as int,
                    None => 0int,
                });
                let lim = (match limit {
                    Some(l) => l as int,
                    None => 50int,
                });
                let start = if from > self.tokens@.len() {
                    self.tokens@.len() as int
                } else {
                    from
                };
                let end = if start + lim > self.tokens@.len() {
                    self.tokens@.len() as int
                } else {
                    start + lim
                };
                &&& r@.len() == end - start
                &&& forall|k: int|
                    0 <= k < r@.len() ==> token_json_ok(
                        *self,
                        self.tokens@[start + k],
                        #[trigger] r@[k],
                    )
            }),
    {
        let n = self.tokens.len();
        let from128: u128 = match from_index {
            Some(f) => f,
            None => 0,
        };
        let start: usize = if from128 > n as u128 {
            n
        } else {
            from128 as usize
        };
        let lim: u64 = match limit {
            Some(l) => l,
            None => 50,
        };
        let remaining = n - start;
        let count: usize = if (lim as u128) > remaining as u128 {
            remaining
        } else {
            lim as usize
        };
        let end = start + count;
        let mut out: Vec<JsonToken> = Vec::new();
        let mut i: usize = start;
        while i < end
            invariant
                self.wf(),
                start <= i <= end,
                end <= self.tokens@.len(),
                out@.len() == i - start,
                forall|k: int|
                    0 <= k < out@.len() ==> token_json_ok(
                        *self,
                        self.tokens@[start + k],
                        #[trigger] out@[k],
                    ),
            decreases end - i,
        {
            out.push(self.render_token(i));
            i = i + 1;
        }
        out
    }

    /// The tokens `account_id`'s owned-token list names and the ledger still
    /// holds, paged like `nft_tokens`, each rendered from the ledger.
    pub fn nft_tokens_for_owner(
        &self,
        account_id: &AccountId,
        from_index: Option<u128>,
        limit: Option<u64>,
    ) -> (r: Vec<JsonToken>)
        requires
            self.wf(),
        ensures
            ({
                let ids = map_list(assoc_map(self.tokens_per_owner@), account_id@);
                let from = (match from_index {
                    Some(f) => f as int,
                    None => 0int,
                });
                let lim = (match limit {
                    Some(l) => l as int,
                    None => 50int,
                });
                let start = if from > ids.len() {
                    ids.len() as int
                } else {
                    from
                };
                let end = if start + lim > ids.len() {
                    ids.len() as int
                } else {
                    start + lim
                };
                let shown = present_ids(*self, ids.subrange(start, end));
                &&& r@.len() == shown.len()
                &&& forall|k: int|
                    0 <= k < r@.len() ==> (#[trigger] r@[k]).token_id@ == shown[k]
                        && self.has_token(shown[k]) && token_json_ok(
                        *self,
                        self.tokens@[self.token_idx(shown[k])],
                        r@[k],
                    )
            }),
    {
        proof {
            crate::assoc::lemma_assoc_map_dom(self.tokens_per_owner@);
        }
        let ids: &Vec<TokenId> = match assoc_get_ref(&self.tokens_per_owner, account_id) {
            Some(l) => l,
            None => {
                proof {
                    let ids = map_list(assoc_map(self.tokens_per_owner@), account_id@);
                    assert(ids =~= Seq::<Seq<char>>::empty());
                    assert(ids.subrange(0, 0) =~= Seq::<Seq<char>>::empty());
                }
                return Vec::new();
            },
        };
        let ghost idsv = ids.deep_view();
        let n = ids.len();
        let from128: u128 = match from_index {
            Some(f) => f,
            None => 0,
        };
        let start: usize = if from128 > n as u128 {
            n
        } else {
            from128 as usize
        };
        let lim: u64 = match limit {
            Some(l) => l,
            None => 50,
        };
        let remaining = n - start;
        let count: usize = if (lim as u128) > remaining as u128 {
            remaining
        } else {
            lim as usize
        };
        let end = start + count;
        let mut out: Vec<JsonToken> = Vec::new();
        let mut i: usize = start;
        while i < end
            invariant
                self.wf(),
                start <= i <= end,
                end <= idsv.len(),
                idsv == ids.deep_view(),
                ids@.len() == idsv.len(),
                forall|k: int| 0 <= k < idsv.len() ==> idsv[k] == (#[trigger] ids@[k])@,
                out@.len() == present_ids(*self, idsv.subrange(start as int, i as int)).len(),
                forall|k: int|
                    0 <= k < out@.len() ==> {
                        let shown = present_ids(*self, idsv.subrange(start as int, i as int));
                        (#[trigger] out@[k]).token_id@ == shown[k] && self.has_token(shown[k])
                            && token_json_ok(*self, self.tokens@[self.token_idx(shown[k])], out@[k])
                    },
            decreases end - i,
        {
            let ghost prefix = idsv.subrange(start as int, i as int);
            let ghost cur = idsv.subrange(start as int, i + 1);
            proof {
                assert(cur.drop_last() =~= prefix);
                assert(cur.last() == idsv[i as int]);
            }
            match self.token_index(&ids[i]) {
                Some(ti) => {
                    proof {
                        crate::contract::lemma_token_ids_distinct(*self);
                        let idv = idsv[i as int];
                        assert(self.tokens@[self.token_idx(idv)].token_id@ == idv);
                        if self.token_idx(idsv[i as int]) != ti as int {
                            crate::numeral::lemma_dec_str_inj(
                                self.token_idx(idsv[i as int]) as nat,
                                ti as nat,
                            );
                        }
                    }
                    out.push(self.render_token(ti));
                },
                None => {},
            }
            i = i + 1;
        }
        out
    }
}

} // verus!
