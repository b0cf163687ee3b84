//! Association vectors with string keys, the crate's model of the persistent
//! key-value collections a ledger runtime provides. A vector of pairs with
//! pairwise-distinct keys is abstracted to a `Map` from key view to value view.

use vstd::prelude::*;

verus! {

/// The map an association vector denotes. Later entries win, though under
/// `assoc_unique` the order is irrelevant.
pub open spec fn assoc_map<V: DeepView>(s: Seq<(String, V)>) -> Map<Seq<char>, V::V>
    decreases s.len(),
{
    if s.len() == 0 {
        Map::empty()
    } else {
        assoc_map(s.drop_last()).insert(s.last().0@, s.last().1.deep_view())
    }
}

pub open spec fn assoc_has_key<V>(s: Seq<(String, V)>, k: Seq<char>) -> bool {
    exists|i: int| 0 <= i < s.len() && s[i].0@ == k
}

/// Keys are pairwise distinct.
pub open spec fn assoc_unique<V>(s: Seq<(String, V)>) -> bool {
    forall|i: int, j: int| 0 <= i < j < s.len() ==> s[i].0@ != s[j].0@
}

pub proof fn lemma_assoc_map_dom<V: DeepView>(s: Seq<(String, V)>)
    ensures
        forall|k: Seq<char>| #[trigger] assoc_map(s).dom().contains(k) <==> assoc_has_key(s, k),
    decreases s.len(),
{
    if s.len() > 0 {
        lemma_assoc_map_dom(s.drop_last());
        assert forall|k: Seq<char>| assoc_has_key(s, k) implies #[trigger] assoc_map(
            s,
        ).dom().contains(k) by {
            let i = choose|i: int| 0 <= i < s.len() && s[i].0@ == k;
            if i < s.len() - 1 {
                assert(s.drop_last()[i].0@ == k);
                assert(assoc_has_key(s.drop_last(), k));
                assert(assoc_map(s.drop_last()).dom().contains(k));
            }
        }
        assert forall|k: Seq<char>| #[trigger] assoc_map(s).dom().contains(k) implies assoc_has_key(
            s,
            k,
        ) by {
            if k != s.last().0@ {
                assert(assoc_map(s.drop_last()).dom().contains(k));
                assert(assoc_has_key(s.drop_last(), k));
                let i = choose|i: int| 0 <= i < s.drop_last().len() && s.drop_last()[i].0@ == k;
                assert(s[i].0@ == k);
            } else {
                assert(s[s.len() - 1].0@ == k);
            }
        }
    }
}

/// Under unique keys, the entry at `i` gives the map's value at its key.
pub proof fn lemma_assoc_map_at<V: DeepView>(s: Seq<(String, V)>, i: int)
    requires
        assoc_unique(s),
        0 <= i < s.len(),
    ensures
        assoc_map(s).dom().contains(s[i].0@),
        assoc_map(s)[s[i].0@] == s[i].1.deep_view(),
    decreases s.len(),
{
    if i == s.len() - 1 {
    } else {
        assert(assoc_unique(s.drop_last()));
        lemma_assoc_map_at(s.drop_last(), i);
        assert(s.drop_last()[i] == s[i]);
        assert(s[i].0@ != s.last().0@);
    }
}

pub proof fn lemma_assoc_map_remove<V: DeepView>(s: Seq<(String, V)>, i: int)
    requires
        assoc_unique(s),
        0 <= i < s.len(),
    ensures
        assoc_unique(s.remove(i)),
        assoc_map(s.remove(i)) =~= assoc_map(s).remove(s[i].0@),
    decreases s.len(),
{
    lemma_assoc_map_dom(s);
    lemma_assoc_map_dom(s.drop_last());
    if i == s.len() - 1 {
        assert(s.remove(i) =~= s.drop_last());
        assert(!assoc_has_key(s.drop_last(), s[i].0@)) by {
            if assoc_has_key(s.drop_last(), s[i].0@) {
                let j = choose|j: int|
                    0 <= j < s.drop_last().len() && s.drop_last()[j].0@ == s[i].0@;
                assert(s[j].0@ == s[i].0@);
            }
        }
        assert(assoc_map(s.drop_last()) =~= assoc_map(s).remove(s[i].0@));
    } else {
        assert(assoc_unique(s.drop_last()));
        lemma_assoc_map_remove(s.drop_last(), i);
        assert(s.remove(i).drop_last() =~= s.drop_last().remove(i));
        assert(s.remove(i).last() == s.last());
        assert(s.remove(i).len() == s.len() - 1);
        assert(assoc_map(s.remove(i)) == assoc_map(s.drop_last().remove(i)).insert(
            s.last().0@,
            s.last().1.deep_view(),
        ));
        assert(s[i].0@ != s.last().0@);
        assert(assoc_map(s.remove(i)) =~= assoc_map(s).remove(s[i].0@));
        assert(assoc_unique(s.remove(i))) by {
            assert(forall|a: int, b: int|
                0 <= a < b < s.remove(i).len() ==> s.remove(i)[a].0@ != s.remove(i)[b].0@);
        }
    }
}

/// Every entry of a unique association vector is the map's entry at its key;
/// so when the map embeds into another vector's map, the entry has a witness
/// there.
pub proof fn lemma_assoc_entry_witness<V: DeepView>(
    s2: Seq<(String, V)>,
    s1: Seq<(String, V)>,
    k: int,
)
    requires
        assoc_unique(s1),
        assoc_unique(s2),
        0 <= k < s2.len(),
        assoc_map(s1).dom().contains(s2[k].0@),
        assoc_map(s1)[s2[k].0@] == assoc_map(s2)[s2[k].0@],
    ensures
        exists|m: int|
            0 <= m < s1.len() && s1[m].0@ == s2[k].0@ && s1[m].1.deep_view()
                == s2[k].1.deep_view(),
{
    lemma_assoc_map_at(s2, k);
    lemma_assoc_map_dom(s1);
    assert(assoc_has_key(s1, s2[k].0@));
    let m = choose|m: int| 0 <= m < s1.len() && s1[m].0@ == s2[k].0@;
    lemma_assoc_map_at(s1, m);
}

/// Index of the entry holding key `k`, if any.
pub fn assoc_find<V>(v: &Vec<(String, V)>, k: &String) -> (r: Option<usize>)
    ensures
        match r {
            Some(i) => i < v@.len() && v@[i as int].0@ == k@,
            None => !assoc_has_key(v@, k@),
        },
{
    let mut i: usize = 0;
    while i < v.len()
        invariant
            i <= v@.len(),
            forall|j: int| 0 <= j < i ==> v@[j].0@ != k@,
        decreases v@.len() - i,
    {
        if v[i].0.eq(k) {
            return Some(i);
        }
        i = i + 1;
    }
    None
}

/// A borrow of the value stored under `k`, if any.
pub fn assoc_get_ref<'a, V: DeepView>(v: &'a Vec<(String, V)>, k: &String) -> (r: Option<&'a V>)
    requires
        assoc_unique(v@),
    ensures
        r.is_some() == assoc_has_key(v@, k@),
        match r {
            Some(x) => assoc_map(v@).dom().contains(k@) && assoc_map(v@)[k@] == x.deep_view(),
            None => !assoc_map(v@).dom().contains(k@),
        },
{
    proof {
        lemma_assoc_map_dom(v@);
    }
    match assoc_find(v, k) {
        Some(i) => {
            proof {
                lemma_assoc_map_at(v@, i as int);
            }
            Some(&v[i].1)
        },
        None => None,
    }
}

/// Removes the entry under `k`, returning its value.
pub fn assoc_remove<V: DeepView>(v: &mut Vec<(String, V)>, k: &String) -> (r: Option<V>)
    requires
        assoc_unique(old(v)@),
    ensures
        assoc_unique(final(v)@),
        assoc_map(final(v)@) =~= assoc_map(old(v)@).remove(k@),
        r.is_some() == assoc_has_key(old(v)@, k@),
        final(v)@.len() == old(v)@.len() - (if r.is_some() {
            1int
        } else {
            0int
        }),
        match r {
            Some(x) => assoc_map(old(v)@).dom().contains(k@) && assoc_map(old(v)@)[k@]
                == x.deep_view(),
            None => !assoc_map(old(v)@).dom().contains(k@),
        },
{
    proof {
        lemma_assoc_map_dom(v@);
    }
    match assoc_find(v, k) {
        Some(i) => {
            proof {
                lemma_assoc_map_at(v@, i as int);
                lemma_assoc_map_remove(v@, i as int);
            }
            let p = v.remove(i);
            Some(p.1)
        },
        None => {
            proof {
                assert(assoc_map(v@) =~= assoc_map(v@).remove(k@));
            }
            None
        },
    }
}

/// Inserts or overwrites the entry under `k`. Returns whether the key was
/// already present.
pub fn assoc_insert<V: DeepView>(v: &mut Vec<(String, V)>, k: String, val: V) -> (was_present:
    bool)
    requires
        assoc_unique(old(v)@),
    ensures
        assoc_unique(final(v)@),
        assoc_map(final(v)@) =~= assoc_map(old(v)@).insert(k@, val.deep_view()),
        was_present == assoc_has_key(old(v)@, k@),
        final(v)@.len() == old(v)@.len() + (if was_present {
            0int
        } else {
            1int
        }),
{
    let r = assoc_remove(v, &k);
    proof {
        lemma_assoc_map_dom(v@);
        assert(!assoc_map(v@).dom().contains(k@));
        assert(!assoc_has_key(v@, k@));
    }
    let ghost mid = v@;
    v.push((k, val));
    proof {
        assert(v@.drop_last() =~= mid);
        assert forall|a: int, b: int| 0 <= a < b < v@.len() implies v@[a].0@ != v@[b].0@ by {
            assert(v@[a] == mid[a]);
            if b == v@.len() - 1 {
                assert(mid[a].0@ != k@);
            } else {
                assert(v@[b] == mid[b]);
            }
        }
    }
    r.is_some()
}

} // verus!
