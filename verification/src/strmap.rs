//! An ordered map keyed by strings, iterated in ascending key order.
use vstd::prelude::*;
use crate::text::{seq_lt, str_eq, str_lt, lemma_seq_lt_order};
use crate::common::DeepClone;

verus! {

/// Keys strictly ascending.
pub open spec fn sorted_keys(keys: Seq<Seq<char>>) -> bool {
    forall|i: int, j: int| 0 <= i < j < keys.len() ==> seq_lt(#[trigger] keys[i], #[trigger] keys[j])
}

/// A map from strings to values whose entries are kept in ascending key order,
/// each key once.
#[derive(Debug)]
pub struct StrMap<V> {
    pub entries: Vec<(String, V)>,
}

impl<V: DeepView> StrMap<V> {
    /// The keys, in iteration order.
    pub open spec fn keys(&self) -> Seq<Seq<char>> {
        self.entries@.map_values(|e: (String, V)| e.0@)
    }

    /// The values, in iteration order.
    pub open spec fn vals(&self) -> Seq<V::V> {
        self.entries@.map_values(|e: (String, V)| e.1.deep_view())
    }

    /// Well-formed: keys strictly ascending.
    pub open spec fn wf(&self) -> bool {
        sorted_keys(self.keys())
    }

    /// The map as a mathematical map.
    pub open spec fn map(&self) -> Map<Seq<char>, V::V> {
        Map::new(
            |k: Seq<char>| self.keys().contains(k),
            |k: Seq<char>| self.vals()[self.keys().index_of(k)],
        )
    }

    /// In a well-formed map, the entry at `i` is the one its key finds.
    pub proof fn lemma_index(&self, i: int)
        requires
            self.wf(),
            0 <= i < self.entries@.len(),
        ensures
            self.keys().index_of(self.keys()[i]) == i,
            self.map().contains_key(self.keys()[i]),
            self.map()[self.keys()[i]] == self.vals()[i],
    {
        let ks = self.keys();
        assert(ks.contains(ks[i]));
        let j = ks.index_of(ks[i]);
        if j != i {
            lemma_seq_lt_order(ks[i], ks[i], ks[i]);
            if j < i {
                assert(seq_lt(ks[j], ks[i]));
            } else {
                assert(seq_lt(ks[i], ks[j]));
            }
        }
    }

    /// An empty map.
    pub fn new() -> (m: Self)
        ensures
            m.wf(),
            m.entries@.len() == 0,
            m.map() == Map::<Seq<char>, V::V>::empty(),
    {
        let m = StrMap { entries: Vec::new() };
        assert(m.map() =~= Map::<Seq<char>, V::V>::empty());
        m
    }

    /// Number of entries.
    pub fn len(&self) -> (n: usize)
        requires
            self.wf(),
        ensures
            n == self.entries@.len(),
            n == self.map().dom().len(),
    {
        proof {
            self.lemma_dom_len();
        }
        self.entries.len()
    }

    /// Whether the map is empty.
    pub fn is_empty(&self) -> (b: bool)
        requires
            self.wf(),
        ensures
            b == (self.map().dom().len() == 0),
    {
        self.len() == 0
    }

    pub proof fn lemma_dom_len(&self)
        requires
            self.wf(),
        ensures
            self.map().dom() == self.keys().to_set(),
            self.map().dom().len() == self.entries@.len(),
    {
        assert(self.map().dom() =~= self.keys().to_set());
        assert forall|i: int, j: int| 0 <= i < j < self.keys().len() implies self.keys()[i]
            != self.keys()[j] by {
            lemma_seq_lt_order(self.keys()[i], self.keys()[j], self.keys()[j]);
        }
        assert(self.keys().no_duplicates());
        self.keys().unique_seq_to_set();
    }

    /// Position of a key, if present.
    pub fn find(&self, k: &str) -> (r: Option<usize>)
        requires
            self.wf(),
        ensures
            r matches Some(i) ==> i < self.entries@.len() && self.keys()[i as int] == k@,
            r is None <==> !self.map().contains_key(k@),
    {
        let mut i: usize = 0;
        while i < self.entries.len()
            invariant
                i <= self.entries@.len(),
                forall|j: int| 0 <= j < i ==> self.keys()[j] != k@,
            decreases self.entries.len() - i,
        {
            if str_eq(self.entries[i].0.as_str(), k) {
                proof {
                    assert(self.keys()[i as int] == k@);
                    assert(self.keys().contains(k@));
                }
                return Some(i);
            }
            i += 1;
        }
        None
    }

    /// Whether a key is present.
    pub fn contains_key(&self, k: &str) -> (b: bool)
        requires
            self.wf(),
        ensures
            b == self.map().contains_key(k@),
    {
        self.find(k).is_some()
    }

    /// The value stored under a key.
    pub fn get(&self, k: &str) -> (r: Option<&V>)
        requires
            self.wf(),
        ensures
            r is Some <==> self.map().contains_key(k@),
            r matches Some(v) ==> v.deep_view() == self.map()[k@],
    {
        match self.find(k) {
            Some(i) => {
                proof {
                    self.lemma_index(i as int);
                }
                Some(&self.entries[i].1)
            },
            None => None,
        }
    }

    /// Insert or replace the value under a key.
    pub fn insert(&mut self, k: String, v: V)
        requires
            old(self).wf(),
        ensures
            final(self).wf(),
            final(self).map() == old(self).map().insert(k@, v.deep_view()),
    {
        let ghost old_keys = self.keys();
        let ghost old_vals = self.vals();
        let ghost old_map = self.map();
        let ghost kv = k@;
        let ghost vv = v.deep_view();
        let mut i: usize = 0;
        while i < self.entries.len()
            invariant
                self.keys() == old_keys,
                self.vals() == old_vals,
                self.map() == old_map,
                self.wf(),
                i <= self.entries@.len(),
                forall|j: int| 0 <= j < i ==> seq_lt(#[trigger] old_keys[j], kv),
                kv == k@,
                vv == v.deep_view(),
                old_map == old(self).map(),
            ensures
                old_map == old(self).map(),
                kv == k@,
                vv == v.deep_view(),
                self.keys() == old_keys,
                self.vals() == old_vals,
                self.map() == old_map,
                self.wf(),
                i <= self.entries@.len(),
                forall|j: int| 0 <= j < i ==> seq_lt(#[trigger] old_keys[j], kv),
                i < self.entries@.len() ==> seq_lt(kv, old_keys[i as int]),
            decreases self.entries.len() - i,
        {
            let is_eq = str_eq(self.entries[i].0.as_str(), k.as_str());
            if is_eq {
                proof {
                    assert(self.entries@[i as int].0@ == kv);
                    assert(old_keys[i as int] == kv);
                }
                let ghost before = self.entries@;
                let pair = (k, v);
                let ghost gp = pair;
                self.entries.set(i, pair);
                proof {
                    assert(self.entries@ == before.update(i as int, gp));
                    assert(gp.1.deep_view() == vv);
                    assert(self.keys() =~= old_keys);
                    assert(self.vals() =~= old_vals.update(i as int, vv));
                    assert forall|a: Seq<char>| #[trigger] self.map().contains_key(a)
                        == old_map.insert(kv, vv).contains_key(a) by {
                        if a == kv {
                            assert(old_keys.contains(kv));
                        }
                    }
                    assert forall|a: Seq<char>| self.map().contains_key(a) implies
                        #[trigger] self.map()[a] == old_map.insert(kv, vv)[a] by {
                        let j = old_keys.index_of(a);
                        old_map.insert(kv, vv);
                        self.lemma_index(j);
                        if a == kv {
                            self.lemma_index(i as int);
                        }
                    }
                    assert(self.map() =~= old_map.insert(kv, vv));
                }
                return;
            }
            if str_lt(k.as_str(), self.entries[i].0.as_str()) {
                break;
            }
            proof {
                lemma_seq_lt_order(kv, old_keys[i as int], kv);
            }
            i += 1;
        }
        // Every key before `i` is smaller, every key from `i` on is larger.
        proof {
            if i < old_keys.len() {
                assert forall|j: int| i <= j < old_keys.len() implies seq_lt(kv, #[trigger] old_keys[j]) by {
                    if j > i {
                        lemma_seq_lt_order(kv, old_keys[i as int], old_keys[j]);
                    }
                }
            }
        }
        self.entries.insert(i, (k, v));
        proof {
            let nk = self.keys();
            let nv = self.vals();
            assert(nk =~= old_keys.insert(i as int, kv));
            assert(nv =~= old_vals.insert(i as int, vv));
            assert forall|a: int, b: int| 0 <= a < b < nk.len() implies seq_lt(#[trigger] nk[a], #[trigger] nk[b]) by {
                if a < i && b > i {
                    lemma_seq_lt_order(old_keys[a], kv, old_keys[b - 1]);
                }
            }
            assert(nk[i as int] == kv);
            assert forall|a: Seq<char>| #[trigger] self.map().contains_key(a)
                == old_map.insert(kv, vv).contains_key(a) by {
                if a == kv {
                    assert(nk.contains(kv));
                }
                if old_keys.contains(a) {
                    let j = old_keys.index_of(a);
                    if j < i {
                        assert(nk[j] == a);
                    } else {
                        assert(nk[j + 1] == a);
                    }
                }
                if nk.contains(a) {
                    let j = nk.index_of(a);
                    if j < i {
                        assert(old_keys[j] == a);
                    } else if j > i {
                        assert(old_keys[j - 1] == a);
                    }
                }
            }
            assert forall|a: Seq<char>| self.map().contains_key(a) implies
                #[trigger] self.map()[a] == old_map.insert(kv, vv)[a] by {
                let j = nk.index_of(a);
                assert(nk[j] == a);
                self.lemma_index(j);
                lemma_seq_lt_order(a, a, a);
                if j < i {
                    assert(seq_lt(nk[j], nk[i as int]));
                    assert(a != kv);
                    assert(old_keys[j] == a);
                    old_self_index(old_keys, old_vals, old_map, j);
                } else if j > i {
                    assert(seq_lt(nk[i as int], nk[j]));
                    assert(a != kv);
                    assert(old_keys[j - 1] == a);
                    old_self_index(old_keys, old_vals, old_map, j - 1);
                } else {
                    assert(a == kv);
                }
            }
            assert(self.map() =~= old_map.insert(kv, vv));
        }
    }
}

impl<V: DeepView> StrMap<V> {
    /// The keys as a set are the map's domain.
    pub proof fn lemma_keys_set(&self)
        ensures
            self.keys().to_set() == self.map().dom(),
    {
        assert(self.keys().to_set() =~= self.map().dom());
    }

    /// The keys, in ascending order.
    pub fn key_list(&self) -> (r: Vec<String>)
        ensures
            r.deep_view() == self.keys(),
    {
        let mut out: Vec<String> = Vec::new();
        let mut i: usize = 0;
        while i < self.entries.len()
            invariant
                i <= self.entries@.len(),
                out.deep_view() == self.keys().take(i as int),
            decreases self.entries.len() - i,
        {
            let ghost before = out.deep_view();
            let k = self.entries[i].0.clone();
            out.push(k);
            assert(self.keys()[i as int] == self.entries@[i as int].0@);
            assert(out.deep_view() =~= before.push(k@));
            assert(out.deep_view() =~= self.keys().take(i + 1));
            i += 1;
        }
        assert(self.keys().take(i as int) =~= self.keys());
        out
    }
}

impl<V: DeepClone> StrMap<V> {
    /// A copy with the same keys and values.
    pub fn clone_map(&self) -> (r: Self)
        requires
            self.wf(),
        ensures
            r.wf(),
            r.keys() == self.keys(),
            r.vals() == self.vals(),
            r.map() == self.map(),
    {
        let mut entries: Vec<(String, V)> = Vec::new();
        let mut i: usize = 0;
        while i < self.entries.len()
            invariant
                i <= self.entries@.len(),
                entries@.len() == i,
                forall|j: int| 0 <= j < i ==> (#[trigger] entries@[j]).0@ == self.entries@[j].0@
                    && entries@[j].1.deep_view() == self.entries@[j].1.deep_view(),
            decreases self.entries.len() - i,
        {
            let k = self.entries[i].0.clone();
            let v = self.entries[i].1.deep_clone();
            entries.push((k, v));
            i += 1;
        }
        let r = StrMap { entries };
        assert(r.keys() =~= self.keys());
        assert(r.vals() =~= self.vals());
        r
    }
}

impl<V: DeepClone> StrMap<V> {
    /// Insert every entry of `src`, its values replacing ours on shared keys.
    pub fn insert_all(&mut self, src: &StrMap<V>)
        requires
            old(self).wf(),
            src.wf(),
        ensures
            final(self).wf(),
            final(self).map() == old(self).map().union_prefer_right(src.map()),
    {
        let ghost m0 = self.map();
        let ghost sk = src.keys();
        let mut i: usize = 0;
        while i < src.entries.len()
            invariant
                self.wf(),
                src.wf(),
                sk == src.keys(),
                m0 == old(self).map(),
                i <= src.entries@.len(),
                self.map() == m0.union_prefer_right(src.map().restrict(sk.take(i as int).to_set())),
            decreases src.entries.len() - i,
        {
            proof {
                src.lemma_index(i as int);
            }
            let k = src.entries[i].0.clone();
            let v = src.entries[i].1.deep_clone();
            self.insert(k, v);
            proof {
                assert(sk.take(i + 1) =~= sk.take(i as int).push(sk[i as int]));
                sk.take(i as int).lemma_push_to_set_commute(sk[i as int]);
                assert(self.map() =~= m0.union_prefer_right(src.map().restrict(sk.take(i + 1).to_set())));
            }
            i += 1;
        }
        proof {
            assert(sk.take(i as int) =~= sk);
            src.lemma_keys_set();
            assert(src.map().restrict(sk.to_set()) =~= src.map());
        }
    }
}

/// Helper fact about the map before an update, stated over its parts.
proof fn old_self_index<W>(
    keys: Seq<Seq<char>>,
    vals: Seq<W>,
    m: Map<Seq<char>, W>,
    j: int,
)
    requires
        sorted_keys(keys),
        keys.len() == vals.len(),
        0 <= j < keys.len(),
        m == Map::new(|k: Seq<char>| keys.contains(k), |k: Seq<char>| vals[keys.index_of(k)]),
    ensures
        m.contains_key(keys[j]),
        m[keys[j]] == vals[j],
{
    assert(keys.contains(keys[j]));
    let i = keys.index_of(keys[j]);
    if i != j {
        lemma_seq_lt_order(keys[j], keys[j], keys[j]);
        if i < j {
            assert(seq_lt(keys[i], keys[j]));
        } else {
            assert(seq_lt(keys[j], keys[i]));
        }
    }
}

impl<V: DeepView> View for StrMap<V> {
    type V = Map<Seq<char>, V::V>;

    open spec fn view(&self) -> Map<Seq<char>, V::V> {
        self.map()
    }
}

} // verus!
