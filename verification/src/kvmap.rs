//! A string-keyed mapping kept as an association list with unique keys.
//!
//! An event's tags and extra data are mappings from string keys to string
//! values. They are stored as vectors of pairs whose keys are pairwise
//! distinct; their mathematical content is the finite `Map` built by
//! `map_of`. Merging applies every pair of a source list in order, so a
//! source value overwrites an event value under the same key.

use vstd::prelude::*;
use crate::text::str_eq;

verus! {

/// The views of a sequence of owned key/value pairs.
pub open spec fn pairs_view(pairs: Seq<(String, String)>) -> Seq<(Seq<char>, Seq<char>)> {
    pairs.map_values(|p: (String, String)| (p.0@, p.1@))
}

/// Keys are pairwise distinct.
pub open spec fn unique_keys(pairs: Seq<(Seq<char>, Seq<char>)>) -> bool {
    forall|i: int, j: int| 0 <= i < j < pairs.len() ==> (#[trigger] pairs[i]).0 != (#[trigger] pairs[j]).0
}

/// The mapping that a pair list denotes; a later pair wins over an earlier
/// one under the same key.
pub open spec fn map_of(pairs: Seq<(Seq<char>, Seq<char>)>) -> Map<Seq<char>, Seq<char>>
    decreases pairs.len(),
{
    if pairs.len() == 0 {
        Map::empty()
    } else {
        map_of(pairs.drop_last()).insert(pairs.last().0, pairs.last().1)
    }
}

/// Overwriting the value at the position holding `k` updates the denoted
/// mapping at `k` alone.
pub proof fn lemma_map_of_update(pairs: Seq<(Seq<char>, Seq<char>)>, i: int, k: Seq<char>, v: Seq<char>)
    requires
        unique_keys(pairs),
        0 <= i < pairs.len(),
        pairs[i].0 == k,
    ensures
        map_of(pairs.update(i, (k, v))) =~= map_of(pairs).insert(k, v),
    decreases pairs.len(),
{
    let up = pairs.update(i, (k, v));
    if i == pairs.len() - 1 {
        assert(up.drop_last() =~= pairs.drop_last());
        assert(up.last() == (k, v));
        assert(map_of(up) =~= map_of(pairs).insert(k, v));
    } else {
        assert(up.drop_last() =~= pairs.drop_last().update(i, (k, v)));
        assert(pairs.drop_last()[i] == pairs[i]);
        lemma_map_of_update(pairs.drop_last(), i, k, v);
        assert(pairs.last().0 != k);
        assert(up.last() == pairs.last());
        assert(map_of(up) =~= map_of(pairs).insert(k, v));
    }
}

/// Every pair of a unique-keyed list is present in the denoted mapping.
pub proof fn lemma_map_of_index(pairs: Seq<(Seq<char>, Seq<char>)>, i: int)
    requires
        unique_keys(pairs),
        0 <= i < pairs.len(),
    ensures
        map_of(pairs).contains_key(pairs[i].0),
        map_of(pairs)[pairs[i].0] == pairs[i].1,
    decreases pairs.len(),
{
    if i == pairs.len() - 1 {
    } else {
        assert(pairs.drop_last()[i] == pairs[i]);
        lemma_map_of_index(pairs.drop_last(), i);
        assert(pairs.last().0 != pairs[i].0);
    }
}

/// A key held by no pair is absent from the denoted mapping.
pub proof fn lemma_map_of_no_key(pairs: Seq<(Seq<char>, Seq<char>)>, k: Seq<char>)
    requires
        forall|i: int| 0 <= i < pairs.len() ==> (#[trigger] pairs[i]).0 != k,
    ensures
        !map_of(pairs).contains_key(k),
    decreases pairs.len(),
{
    if pairs.len() > 0 {
        assert(forall|i: int| 0 <= i < pairs.drop_last().len()
            ==> (#[trigger] pairs.drop_last()[i]).0 != k);
        lemma_map_of_no_key(pairs.drop_last(), k);
        assert(pairs.last().0 != k);
    }
}

/// Inserting on the right side of a right-preferring union is inserting
/// into the union.
pub proof fn lemma_union_insert_right(
    a: Map<Seq<char>, Seq<char>>,
    b: Map<Seq<char>, Seq<char>>,
    k: Seq<char>,
    v: Seq<char>,
)
    ensures
        a.union_prefer_right(b.insert(k, v)) =~= a.union_prefer_right(b).insert(k, v),
{
}

/// Inserts `key -> value`: overwrites the value of the pair already holding
/// `key`, or appends a new pair when no pair holds it.
pub fn upsert_pair(pairs: &mut Vec<(String, String)>, key: &String, value: &String)
    requires
        unique_keys(pairs_view(old(pairs)@)),
    ensures
        unique_keys(pairs_view(final(pairs)@)),
        map_of(pairs_view(final(pairs)@)) == map_of(pairs_view(old(pairs)@)).insert(key@, value@),
{
    let ghost pv0 = pairs_view(old(pairs)@);
    let n = pairs.len();
    let mut i: usize = 0;
    while i < n
        invariant
            pairs@ == old(pairs)@,
            pv0 == pairs_view(old(pairs)@),
            unique_keys(pv0),
            n == pairs@.len(),
            0 <= i <= n,
            forall|j: int| 0 <= j < i ==> (#[trigger] pairs_view(pairs@)[j]).0 != key@,
        decreases n - i,
    {
        if str_eq(pairs[i].0.as_str(), key.as_str()) {
            let _ = pairs.remove(i);
            pairs.insert(i, (key.clone(), value.clone()));
            proof {
                assert(pairs_view(pairs@) =~= pv0.update(i as int, (key@, value@)));
                assert(pv0[i as int].0 == key@);
                lemma_map_of_update(pv0, i as int, key@, value@);
                let pv1 = pairs_view(pairs@);
                assert forall|a: int, b: int| 0 <= a < b < pv1.len()
                    implies (#[trigger] pv1[a]).0 != (#[trigger] pv1[b]).0 by {
                    assert(pv1[a].0 == pv0[a].0);
                    assert(pv1[b].0 == pv0[b].0);
                }
            }
            return;
        }
        i += 1;
    }
    pairs.push((key.clone(), value.clone()));
    proof {
        let pv1 = pairs_view(pairs@);
        assert(pv1.drop_last() =~= pv0);
        assert(pv1.last() == (key@, value@));
        assert(map_of(pv1) == map_of(pv0).insert(key@, value@));
        assert forall|a: int, b: int| 0 <= a < b < pv1.len()
            implies (#[trigger] pv1[a]).0 != (#[trigger] pv1[b]).0 by {
            if b < pv1.len() - 1 {
                assert(pv1[a].0 == pv0[a].0);
                assert(pv1[b].0 == pv0[b].0);
            } else {
                assert(pv1[a].0 == pv0[a].0);
                assert(pv1[b].0 == key@);
            }
        }
    }
}

/// Applies every pair of `src` in order: a source value overwrites the
/// destination value under the same key.
pub fn merge_pairs(dst: &mut Vec<(String, String)>, src: &Vec<(String, String)>)
    requires
        unique_keys(pairs_view(old(dst)@)),
    ensures
        unique_keys(pairs_view(final(dst)@)),
        map_of(pairs_view(final(dst)@))
            == map_of(pairs_view(old(dst)@)).union_prefer_right(map_of(pairs_view(src@))),
{
    let ghost base = map_of(pairs_view(old(dst)@));
    let ghost sv = pairs_view(src@);
    proof {
        assert(sv.take(0) =~= Seq::<(Seq<char>, Seq<char>)>::empty());
        assert(base.union_prefer_right(map_of(sv.take(0))) =~= base);
    }
    let n = src.len();
    let mut i: usize = 0;
    while i < n
        invariant
            n == src@.len(),
            sv == pairs_view(src@),
            base == map_of(pairs_view(old(dst)@)),
            0 <= i <= n,
            unique_keys(pairs_view(dst@)),
            map_of(pairs_view(dst@)) == base.union_prefer_right(map_of(sv.take(i as int))),
        decreases n - i,
    {
        upsert_pair(dst, &src[i].0, &src[i].1);
        proof {
            assert(sv.take(i + 1).drop_last() =~= sv.take(i as int));
            assert(sv.take(i + 1).last() == (src@[i as int].0@, src@[i as int].1@));
            assert(map_of(sv.take(i + 1)) == map_of(sv.take(i as int)).insert(sv[i as int].0, sv[i as int].1));
            lemma_union_insert_right(base, map_of(sv.take(i as int)), sv[i as int].0, sv[i as int].1);
        }
        i += 1;
    }
    proof {
        assert(sv.take(n as int) =~= sv);
    }
}

/// Looks up the value under `key`, by scanning the pairs.
pub fn get_value(pairs: &Vec<(String, String)>, key: &str) -> (r: Option<String>)
    requires
        unique_keys(pairs_view(pairs@)),
    ensures
        match r {
            Some(v) => map_of(pairs_view(pairs@)).contains_key(key@)
                && v@ == map_of(pairs_view(pairs@))[key@],
            None => !map_of(pairs_view(pairs@)).contains_key(key@),
        },
{
    let n = pairs.len();
    let mut i: usize = 0;
    while i < n
        invariant
            n == pairs@.len(),
            0 <= i <= n,
            unique_keys(pairs_view(pairs@)),
            forall|j: int| 0 <= j < i ==> (#[trigger] pairs_view(pairs@)[j]).0 != key@,
        decreases n - i,
    {
        if str_eq(pairs[i].0.as_str(), key) {
            proof {
                lemma_map_of_index(pairs_view(pairs@), i as int);
            }
            return Some(pairs[i].1.clone());
        }
        i += 1;
    }
    proof {
        lemma_map_of_no_key(pairs_view(pairs@), key@);
    }
    None
}

/// Exact check that the keys of a pair list are pairwise distinct.
pub fn keys_unique(pairs: &Vec<(String, String)>) -> (r: bool)
    ensures
        r == unique_keys(pairs_view(pairs@)),
{
    let n = pairs.len();
    let mut i: usize = 0;
    while i < n
        invariant
            n == pairs@.len(),
            0 <= i <= n,
            forall|a: int, b: int| 0 <= a < b < i
                ==> (#[trigger] pairs_view(pairs@)[a]).0 != (#[trigger] pairs_view(pairs@)[b]).0,
        decreases n - i,
    {
        let mut j: usize = 0;
        while j < i
            invariant
                n == pairs@.len(),
                0 <= j <= i < n,
                forall|a: int, b: int| 0 <= a < b < i
                    ==> (#[trigger] pairs_view(pairs@)[a]).0 != (#[trigger] pairs_view(pairs@)[b]).0,
                forall|a: int| 0 <= a < j ==> (#[trigger] pairs_view(pairs@)[a]).0 != pairs_view(pairs@)[i as int].0,
            decreases i - j,
        {
            if str_eq(pairs[j].0.as_str(), pairs[i].0.as_str()) {
                proof {
                    assert((pairs_view(pairs@)[j as int]).0 == (pairs_view(pairs@)[i as int]).0);
                }
                return false;
            }
            j += 1;
        }
        i += 1;
    }
    true
}

} // verus!
