//! Royalty payouts: splitting a sale price over the royalty table, with the
//! owner receiving the exact remainder so that the parts always sum to the
//! whole price.

use vstd::prelude::*;
use crate::contract::{
    bps_total, lemma_bps_entry_le_total, lemma_bps_total_nonneg, AccountId, Contract, TokenId,
};
use crate::errors::ContractError;

verus! {

/// One payee's share: the floor of the basis-point fraction of the price.
pub open spec fn royalty_share(balance: int, bps: int) -> int {
    balance * bps / 10000
}

/// The non-owner payout entries, in royalty-table order.
pub open spec fn payout_shares(
    rs: Seq<(String, u32)>,
    owner: Seq<char>,
    balance: int,
) -> Seq<(String, u128)>
    decreases rs.len(),
{
    if rs.len() == 0 {
        Seq::empty()
    } else {
        let rest = payout_shares(rs.drop_last(), owner, balance);
        if rs.last().0@ == owner {
            rest
        } else {
            rest.push((rs.last().0, royalty_share(balance, rs.last().1 as int) as u128))
        }
    }
}

/// The sum of the non-owner shares.
pub open spec fn shares_total(rs: Seq<(String, u32)>, owner: Seq<char>, balance: int) -> int
    decreases rs.len(),
{
    if rs.len() == 0 {
        0
    } else {
        shares_total(rs.drop_last(), owner, balance) + (if rs.last().0@ == owner {
            0
        } else {
            royalty_share(balance, rs.last().1 as int)
        })
    }
}

/// The sum of the amounts of a payout.
pub open spec fn sum_payout(s: Seq<(String, u128)>) -> int
    decreases s.len(),
{
    if s.len() == 0 {
        0
    } else {
        sum_payout(s.drop_last()) + s.last().1
    }
}

pub proof fn lemma_bps_prefix(rs: Seq<(String, u32)>, i: int)
    requires
        0 <= i <= rs.len(),
    ensures
        0 <= bps_total(rs.take(i)) <= bps_total(rs),
    decreases rs.len() - i,
{
    if i == rs.len() {
        assert(rs.take(i) =~= rs);
        lemma_bps_total_nonneg(rs);
    } else {
        lemma_bps_prefix(rs, i + 1);
        assert(rs.take(i + 1).drop_last() =~= rs.take(i));
        assert(rs.take(i + 1).last() == rs[i]);
        assert(bps_total(rs.take(i + 1)) == bps_total(rs.take(i)) + rs[i].1);
        lemma_bps_total_nonneg(rs.take(i));
    }
}

/// Every entry of a table whose shares sum to at most the whole stays within
/// the whole.
pub proof fn lemma_bps_all_le(rs: Seq<(String, u32)>)
    requires
        bps_total(rs) <= 10000,
    ensures
        forall|k: int| 0 <= k < rs.len() ==> (#[trigger] rs[k]).1 <= 10000,
{
    assert forall|k: int| 0 <= k < rs.len() implies (#[trigger] rs[k]).1 <= 10000 by {
        lemma_bps_entry_le_total(rs, k);
    }
}

/// The shares are non-negative, bounded by the price scaled by the basis
/// points, and sum to `shares_total`.
pub proof fn lemma_shares(rs: Seq<(String, u32)>, owner: Seq<char>, balance: int)
    requires
        0 <= balance <= u128::MAX / 10000,
        forall|k: int| 0 <= k < rs.len() ==> (#[trigger] rs[k]).1 <= 10000,
    ensures
        0 <= shares_total(rs, owner, balance),
        shares_total(rs, owner, balance) * 10000 <= balance * bps_total(rs),
        sum_payout(payout_shares(rs, owner, balance)) == shares_total(rs, owner, balance),
    decreases rs.len(),
{
    if rs.len() == 0 {
        assert(shares_total(rs, owner, balance) * 10000 == 0);
        assert(balance * bps_total(rs) == 0) by (nonlinear_arith)
            requires
                bps_total(rs) == 0,
        ;
    } else {
        let pre = rs.drop_last();
        lemma_shares(pre, owner, balance);
        let b = rs.last().1 as int;
        let sh = royalty_share(balance, b);
        if rs.last().0@ == owner {
            assert(bps_total(rs) == bps_total(pre) + b);
            assert(balance * bps_total(rs) >= balance * bps_total(pre)) by (nonlinear_arith)
                requires
                    balance >= 0,
                    b >= 0,
                    bps_total(rs) == bps_total(pre) + b,
            ;
        } else {
            assert(sh >= 0 && sh * 10000 <= balance * b) by (nonlinear_arith)
                requires
                    balance >= 0,
                    b >= 0,
                    sh == balance * b / 10000,
            ;
            assert((shares_total(pre, owner, balance) + sh) * 10000 <= balance * bps_total(pre)
                + balance * b) by (nonlinear_arith)
                requires
                    shares_total(pre, owner, balance) * 10000 <= balance * bps_total(pre),
                    sh * 10000 <= balance * b,
            ;
            assert(balance * bps_total(pre) + balance * b == balance * bps_total(rs)) by (
            nonlinear_arith)
                requires
                    bps_total(rs) == bps_total(pre) + b,
            ;
            let whole = payout_shares(rs, owner, balance);
            assert(whole == payout_shares(pre, owner, balance).push(
                (rs.last().0, royalty_share(balance, b) as u128),
            ));
            assert(whole.drop_last() =~= payout_shares(pre, owner, balance));
            assert(whole.last().1 == royalty_share(balance, b) as u128);
            assert(sh <= balance) by (nonlinear_arith)
                requires
                    sh * 10000 <= balance * b,
                    0 <= b <= 10000,
                    balance >= 0,
                    sh >= 0,
            ;
            assert(sum_payout(whole) == sum_payout(whole.drop_last()) + whole.last().1);
        }
    }
}

impl Contract {
    /// Splits `balance` over the royalty table plus the token's owner, who
    /// receives the exact remainder: the returned amounts always sum to
    /// `balance`. Rejected when the table plus the owner entry would exceed
    /// `max_len_payout`.
    pub fn nft_payout(&self, token_id: &TokenId, balance: u128, max_len_payout: u32) -> (r: Result<
        Vec<(AccountId, u128)>,
        ContractError,
    >)
        requires
            self.wf(),
            balance <= u128::MAX / 10000,
        ensures
            !self.has_token(token_id@) ==> r == Err::<Vec<(AccountId, u128)>, ContractError>(
                ContractError::NotFound,
            ),
            self.has_token(token_id@) && self.royalty@.len() + 1 > max_len_payout ==> r == Err::<
                Vec<(AccountId, u128)>,
                ContractError,
            >(ContractError::TooManyPayees),
            self.has_token(token_id@) && self.royalty@.len() + 1 <= max_len_payout ==> {
                let owner = self.tokens@[self.token_idx(token_id@)].owner_id@;
                &&& r matches Ok(p)
                &&& r matches Ok(p) ==> {
                    &&& p@.len() == payout_shares(self.royalty@, owner, balance as int).len() + 1
                    &&& p@.drop_last() =~= payout_shares(self.royalty@, owner, balance as int)
                    &&& p@.last().0@ == owner
                    &&& p@.last().1 == balance - shares_total(self.royalty@, owner, balance as int)
                    &&& sum_payout(p@) == balance
                }
            },
    {
        let ti = match self.token_index(token_id) {
            Some(i) => i,
            None => {
                return Err(ContractError::NotFound);
            },
        };
        proof {
            crate::contract::lemma_token_ids_distinct(*self);
            assert(self.tokens@[self.token_idx(token_id@)].token_id@ == token_id@);
            if self.token_idx(token_id@) != ti as int {
                crate::numeral::lemma_dec_str_inj(self.token_idx(token_id@) as nat, ti as nat);
            }
        }
        if self.royalty.len() >= max_len_payout as usize {
            return Err(ContractError::TooManyPayees);
        }
        let owner = self.tokens[ti].owner_id.clone();
        let ghost ownv = owner@;
        let ghost bal = balance as int;
        let mut out: Vec<(AccountId, u128)> = Vec::new();
        let mut paid: u128 = 0;
        let mut i: usize = 0;
        proof {
            lemma_bps_all_le(self.royalty@);
            assert(self.royalty@.take(0) =~= Seq::<(String, u32)>::empty());
            lemma_shares(self.royalty@.take(0), ownv, bal);
        }
        while i < self.royalty.len()
            invariant
                self.wf(),
                i <= self.royalty@.len(),
                ownv == owner@,
                bal == balance as int,
                balance <= u128::MAX / 10000,
                out@ =~= payout_shares(self.royalty@.take(i as int), ownv, bal),
                paid == shares_total(self.royalty@.take(i as int), ownv, bal),
                paid <= balance,
            decreases self.royalty@.len() - i,
        {
            let ghost pre = self.royalty@.take(i as int);
            let ghost cur = self.royalty@.take(i + 1);
            proof {
                assert(cur.drop_last() =~= pre);
                assert(cur.last() == self.royalty@[i as int]);
                lemma_bps_entry_le_total(self.royalty@, i as int);
                lemma_bps_prefix(self.royalty@, i + 1);
                lemma_bps_all_le(self.royalty@);
                assert(forall|k: int| 0 <= k < pre.len() ==> (#[trigger] pre[k]) == self.royalty@[k]);
                assert(forall|k: int| 0 <= k < cur.len() ==> (#[trigger] cur[k]) == self.royalty@[k]);
                lemma_shares(pre, ownv, bal);
                lemma_shares(cur, ownv, bal);
            }
            if !self.royalty[i].0.eq(&owner) {
                let bps = self.royalty[i].1;
                proof {
                    assert(bps <= 10000);
                    assert(balance * (bps as int) <= balance * 10000) by (nonlinear_arith)
                        requires
                            balance >= 0,
                            0 <= bps <= 10000,
                    ;
                    assert(balance * 10000 <= (u128::MAX / 10000) * 10000) by (nonlinear_arith)
                        requires
                            0 <= balance <= u128::MAX / 10000,
                    ;
                }
                let share: u128 = balance * (bps as u128) / 10000;
                proof {
                    assert(shares_total(cur, ownv, bal) * 10000 <= bal * bps_total(cur));
                    assert(bal * bps_total(cur) <= bal * 10000) by (nonlinear_arith)
                        requires
                            bal >= 0,
                            bps_total(cur) <= 10000,
                    ;
                    assert(shares_total(cur, ownv, bal) <= bal) by (nonlinear_arith)
                        requires
                            shares_total(cur, ownv, bal) * 10000 <= bal * 10000,
                    ;
                }
                out.push((self.royalty[i].0.clone(), share));
                paid = paid + share;
            }
            i = i + 1;
            proof {
                assert(self.royalty@.take(i as int) == cur);
            }
        }
        proof {
            assert(self.royalty@.take(self.royalty@.len() as int) =~= self.royalty@);
            lemma_bps_all_le(self.royalty@);
            lemma_shares(self.royalty@, ownv, bal);
        }
        let owner_amount: u128 = balance - paid;
        let ghost outpre = out@;
        out.push((owner, owner_amount));
        proof {
            assert(out@.drop_last() =~= outpre);
        }
        Ok(out)
    }
}

} // verus!
