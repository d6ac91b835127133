//! Stable ordering of keyed items by their string key.
use vstd::prelude::*;
use crate::text::seq_lt;

verus! {

/// `x` inserted after every item whose key is not above its own.
pub open spec fn insert_by_key<V>(s: Seq<(Seq<char>, V)>, x: (Seq<char>, V)) -> Seq<(Seq<char>, V)>
    decreases s.len(),
{
    if s.len() == 0 {
        seq![x]
    } else if seq_lt(x.0, s.last().0) {
        insert_by_key(s.drop_last(), x).push(s.last())
    } else {
        s.push(x)
    }
}

/// The items ordered by key, items with equal keys in their given order.
pub open spec fn sort_by_key<V>(s: Seq<(Seq<char>, V)>) -> Seq<(Seq<char>, V)>
    decreases s.len(),
{
    if s.len() == 0 {
        s
    } else {
        insert_by_key(sort_by_key(s.drop_last()), s.last())
    }
}

/// Inserting at the position found by scanning back over larger keys.
pub proof fn lemma_insert_at<V>(s: Seq<(Seq<char>, V)>, x: (Seq<char>, V), pos: int)
    requires
        0 <= pos <= s.len(),
        forall|k: int| pos <= k < s.len() ==> seq_lt(x.0, #[trigger] s[k].0),
        pos == 0 || !seq_lt(x.0, s[pos - 1].0),
    ensures
        insert_by_key(s, x) == s.insert(pos, x),
    decreases s.len(),
{
    if s.len() == pos {
        if s.len() == 0 {
            assert(seq![x] =~= s.insert(pos, x));
        } else {
            assert(s.push(x) =~= s.insert(pos, x));
        }
    } else {
        assert(seq_lt(x.0, s[s.len() - 1].0));
        lemma_insert_at(s.drop_last(), x, pos);
        assert(s.drop_last().insert(pos, x).push(s.last()) =~= s.insert(pos, x));
    }
}


/// Keys in ascending order (equal keys allowed).
pub open spec fn key_sorted<V>(s: Seq<(Seq<char>, V)>) -> bool {
    forall|i: int, j: int| 0 <= i < j < s.len() ==> !seq_lt(#[trigger] s[j].0, #[trigger] s[i].0)
}

/// Inserting adds exactly the one item.
pub proof fn lemma_insert_by_key_multiset<V>(s: Seq<(Seq<char>, V)>, x: (Seq<char>, V))
    ensures
        insert_by_key(s, x).to_multiset() == s.to_multiset().insert(x),
    decreases s.len(),
{
    broadcast use vstd::seq_lib::to_multiset_build;
    broadcast use vstd::multiset::group_multiset_axioms;

    if s.len() == 0 {
        assert(seq![x] =~= s.push(x));
    } else if seq_lt(x.0, s.last().0) {
        lemma_insert_by_key_multiset(s.drop_last(), x);
        assert(s.drop_last().push(s.last()) =~= s);
        assert(insert_by_key(s, x).to_multiset() =~= s.to_multiset().insert(x));
    }
}

/// Inserting into ascending items keeps them ascending.
pub proof fn lemma_insert_by_key_sorted<V>(s: Seq<(Seq<char>, V)>, x: (Seq<char>, V))
    requires
        key_sorted(s),
    ensures
        key_sorted(insert_by_key(s, x)),
    decreases s.len(),
{
    broadcast use vstd::seq_lib::to_multiset_contains;

    if s.len() == 0 {
    } else if seq_lt(x.0, s.last().0) {
        let init = s.drop_last();
        let last = s.last();
        assert(key_sorted(init)) by {
            assert forall|i: int, j: int| 0 <= i < j < init.len() implies !seq_lt(#[trigger] init[j].0, #[trigger] init[i].0) by {
                assert(init[i] == s[i] && init[j] == s[j]);
            }
        }
        lemma_insert_by_key_sorted(init, x);
        lemma_insert_by_key_multiset(init, x);
        let r = insert_by_key(init, x);
        assert forall|i: int| 0 <= i < r.len() implies !seq_lt(last.0, #[trigger] r[i].0) by {
            let e = r[i];
            assert(r.to_multiset().contains(e));
            assert(init.to_multiset().insert(x).contains(e));
            if e != x {
                assert(init.to_multiset().contains(e));
                assert(init.contains(e));
                let k = choose|k: int| 0 <= k < init.len() && init[k] == e;
                assert(s[k] == e);
                assert(!seq_lt(s[s.len() - 1].0, s[k].0));
            } else {
                crate::text::lemma_seq_lt_order(x.0, last.0, x.0);
            }
        }
        let rr = r.push(last);
        assert forall|i: int, j: int| 0 <= i < j < rr.len() implies !seq_lt(#[trigger] rr[j].0, #[trigger] rr[i].0) by {
            if j < r.len() {
                assert(rr[i] == r[i] && rr[j] == r[j]);
            } else {
                assert(rr[j] == last);
                assert(rr[i] == r[i]);
            }
        }
    } else {
        let last = s.last();
        let rr = s.push(x);
        assert forall|i: int, j: int| 0 <= i < j < rr.len() implies !seq_lt(#[trigger] rr[j].0, #[trigger] rr[i].0) by {
            if j < s.len() {
                assert(rr[i] == s[i] && rr[j] == s[j]);
            } else {
                assert(rr[j] == x);
                assert(rr[i] == s[i]);
                if i < s.len() - 1 {
                    assert(!seq_lt(s[s.len() - 1].0, s[i].0));
                }
                crate::text::lemma_seq_lt_order(x.0, s[i].0, last.0);
                crate::text::lemma_seq_lt_order(s[i].0, last.0, x.0);
                crate::text::lemma_seq_lt_order(last.0, x.0, s[i].0);
            }
        }
    }
}

/// Sorting by key orders the items by key and keeps every item, each as
/// often as it was given.
pub proof fn law_sort_by_key<V>(s: Seq<(Seq<char>, V)>)
    ensures
        key_sorted(sort_by_key(s)),
        sort_by_key(s).to_multiset() == s.to_multiset(),
    decreases s.len(),
{
    broadcast use vstd::seq_lib::to_multiset_build;

    if s.len() > 0 {
        law_sort_by_key(s.drop_last());
        lemma_insert_by_key_sorted(sort_by_key(s.drop_last()), s.last());
        lemma_insert_by_key_multiset(sort_by_key(s.drop_last()), s.last());
        assert(s.drop_last().push(s.last()) =~= s);
    }
}

/// Items already in key order are left as they are.
pub proof fn lemma_sort_sorted<V>(s: Seq<(Seq<char>, V)>)
    requires
        key_sorted(s),
    ensures
        sort_by_key(s) == s,
    decreases s.len(),
{
    if s.len() > 0 {
        let init = s.drop_last();
        assert(key_sorted(init)) by {
            assert forall|i: int, j: int| 0 <= i < j < init.len() implies !seq_lt(#[trigger] init[j].0, #[trigger] init[i].0) by {
                assert(init[i] == s[i] && init[j] == s[j]);
            }
        }
        lemma_sort_sorted(init);
        if init.len() > 0 {
            assert(!seq_lt(s[s.len() - 1].0, s[s.len() - 2].0));
        }
        assert(init.push(s.last()) =~= s);
    }
}

} // verus!
