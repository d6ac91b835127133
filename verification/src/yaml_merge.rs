//! Additive merging of YAML documents (workflow files): keys the user's file
//! lacks are added from the template, and the GitHub Actions keys `jobs`,
//! `on` and `permissions` are merged one level further down.
use vstd::prelude::*;
use crate::text::str_eq;

verus! {

/// A mapping key: a string, or another scalar or collection known by a
/// canonical text of it.
#[derive(Debug)]
pub enum YamlKey {
    Str(String),
    Other(String),
}

/// The content of a key.
pub enum KeyView {
    Str(Seq<char>),
    Other(Seq<char>),
}

impl DeepView for YamlKey {
    type V = KeyView;

    open spec fn deep_view(&self) -> KeyView {
        match self {
            YamlKey::Str(s) => KeyView::Str(s@),
            YamlKey::Other(s) => KeyView::Other(s@),
        }
    }
}

/// A YAML value as the merge sees it: null, an unreadable value, a mapping
/// (entries in document order, each key once), or any other value, which
/// the merge only keeps or drops and knows by its YAML text.
#[derive(Debug)]
pub enum YamlValue {
    Null,
    BadValue,
    Hash(Vec<(YamlKey, YamlValue)>),
    Leaf(String),
}

/// The content of a YAML value.
pub enum YamlView {
    Null,
    BadValue,
    Hash(Seq<(KeyView, YamlView)>),
    Leaf(Seq<char>),
}

pub open spec fn yaml_view(v: YamlValue) -> YamlView
    decreases v,
{
    match v {
        YamlValue::Null => YamlView::Null,
        YamlValue::BadValue => YamlView::BadValue,
        YamlValue::Hash(es) => YamlView::Hash(entries_view(es@)),
        YamlValue::Leaf(h) => YamlView::Leaf(h@),
    }
}

pub open spec fn entries_view(es: Seq<(YamlKey, YamlValue)>) -> Seq<(KeyView, YamlView)>
    decreases es,
{
    if es.len() == 0 {
        Seq::empty()
    } else {
        entries_view(es.subrange(0, es.len() - 1)).push(
            (es[es.len() - 1].0.deep_view(), yaml_view(es[es.len() - 1].1)),
        )
    }
}

pub proof fn lemma_entries_view_len(es: Seq<(YamlKey, YamlValue)>)
    ensures
        entries_view(es).len() == es.len(),
        forall|i: int| 0 <= i < es.len() ==> #[trigger] entries_view(es)[i] == (es[i].0.deep_view(), yaml_view(es[i].1)),
    decreases es.len(),
{
    if es.len() > 0 {
        lemma_entries_view_len(es.subrange(0, es.len() - 1));
    }
}

/// The keys merged one level deeper when both files have them.
pub open spec fn is_deep_key(k: KeyView) -> bool {
    match k {
        KeyView::Str(s) => s == "jobs"@ || s == "on"@ || s == "permissions"@,
        KeyView::Other(_) => false,
    }
}

/// The position of key `k` among the entries.
pub open spec fn key_pos(es: Seq<(KeyView, YamlView)>, k: KeyView) -> Option<int>
    decreases es.len(),
{
    if es.len() == 0 {
        None
    } else {
        match key_pos(es.drop_last(), k) {
            Some(i) => Some(i),
            None => if es.last().0 == k {
                Some(es.len() - 1)
            } else {
                None
            },
        }
    }
}

/// Merge a template value into an existing one: two mappings are merged key
/// by key; an empty or unreadable existing value gives way to the template;
/// otherwise the existing value stays.
pub open spec fn merge_spec(e: YamlView, t: YamlView) -> YamlView
    decreases t, 0nat,
{
    match (e, t) {
        (YamlView::Hash(em), YamlView::Hash(tm)) => YamlView::Hash(merge_entries(em, tm, tm.len())),
        (YamlView::Null, _) => t,
        (YamlView::BadValue, _) => t,
        _ => e,
    }
}

/// The existing entries `em` after the first `n` template entries: a key
/// the existing mapping lacks is added at the end; a deep key both have is
/// merged in place; any other key is left as it is.
pub open spec fn merge_entries(
    em: Seq<(KeyView, YamlView)>,
    tm: Seq<(KeyView, YamlView)>,
    n: nat,
) -> Seq<(KeyView, YamlView)>
    decreases tm, n,
{
    if n == 0 || n > tm.len() {
        em
    } else {
        let m = merge_entries(em, tm, (n - 1) as nat);
        let (k, tv) = tm[n - 1];
        match key_pos(em, k) {
            None => m.push((k, tv)),
            Some(j) => if is_deep_key(k) {
                m.update(j, (k, merge_spec(em[j].1, tv)))
            } else {
                m
            },
        }
    }
}

pub proof fn lemma_key_pos_range(es: Seq<(KeyView, YamlView)>, k: KeyView)
    ensures
        key_pos(es, k) matches Some(i) ==> 0 <= i < es.len() && es[i].0 == k,
    decreases es.len(),
{
    if es.len() > 0 {
        lemma_key_pos_range(es.drop_last(), k);
    }
}

/// Merging keeps the existing keys in place: the first entries of the
/// result carry the existing keys, in order.
pub proof fn lemma_merge_entries_keys(em: Seq<(KeyView, YamlView)>, tm: Seq<(KeyView, YamlView)>, n: nat)
    ensures
        merge_entries(em, tm, n).len() >= em.len(),
        forall|i: int| 0 <= i < em.len() ==> #[trigger] merge_entries(em, tm, n)[i].0 == em[i].0,
    decreases n,
{
    if n > 0 && n <= tm.len() {
        lemma_merge_entries_keys(em, tm, (n - 1) as nat);
        lemma_key_pos_range(em, tm[n - 1].0);
    }
}

/// Equality of keys.
fn key_eq(a: &YamlKey, b: &YamlKey) -> (r: bool)
    ensures
        r == (a.deep_view() == b.deep_view()),
{
    match (a, b) {
        (YamlKey::Str(x), YamlKey::Str(y)) => str_eq(x.as_str(), y.as_str()),
        (YamlKey::Other(x), YamlKey::Other(y)) => str_eq(x.as_str(), y.as_str()),
        _ => false,
    }
}

fn key_clone(k: &YamlKey) -> (r: YamlKey)
    ensures
        r.deep_view() == k.deep_view(),
{
    match k {
        YamlKey::Str(s) => YamlKey::Str(s.clone()),
        YamlKey::Other(s) => YamlKey::Other(s.clone()),
    }
}

fn deep_key(k: &YamlKey) -> (r: bool)
    ensures
        r == is_deep_key(k.deep_view()),
{
    match k {
        YamlKey::Str(s) => str_eq(s.as_str(), "jobs") || str_eq(s.as_str(), "on") || str_eq(s.as_str(), "permissions"),
        YamlKey::Other(_) => false,
    }
}

/// A copy of a value.
pub fn yaml_clone(v: &YamlValue) -> (r: YamlValue)
    ensures
        yaml_view(r) == yaml_view(*v),
    decreases v,
{
    match v {
        YamlValue::Null => YamlValue::Null,
        YamlValue::BadValue => YamlValue::BadValue,
        YamlValue::Leaf(h) => YamlValue::Leaf(h.clone()),
        YamlValue::Hash(es) => {
            let mut out: Vec<(YamlKey, YamlValue)> = Vec::new();
            let mut i: usize = 0;
            while i < es.len()
                invariant
                    *v == YamlValue::Hash(*es),
                    i <= es.len(),
                    entries_view(out@) == entries_view(es@.subrange(0, i as int)),
                decreases es.len() - i,
            {
                proof {
                    assert(decreases_to!(*v => es@[i as int].1)) by {
                        assert(decreases_to!(*v => (*v)->Hash_0));
                        assert(decreases_to!(*es => es@));
                        assert(decreases_to!(es@ => es@[i as int]));
                        assert(decreases_to!(es@[i as int] => es@[i as int].1));
                    }
                }
                let k = key_clone(&es[i].0);
                let c = yaml_clone(&es[i].1);
                let ghost before = out@;
                out.push((k, c));
                proof {
                    assert(out@.subrange(0, out@.len() - 1) =~= before);
                    assert(es@.subrange(0, i + 1).subrange(0, i as int) =~= es@.subrange(0, i as int));
                }
                i += 1;
            }
            proof {
                assert(es@.subrange(0, i as int) =~= es@);
            }
            YamlValue::Hash(out)
        },
    }
}

/// The position of a key among entries, found by scanning.
fn find_key(es: &Vec<(YamlKey, YamlValue)>, k: &YamlKey) -> (r: Option<usize>)
    ensures
        match (r, key_pos(entries_view(es@), k.deep_view())) {
            (Some(i), Some(j)) => i == j,
            (None, None) => true,
            _ => false,
        },
{
    let ghost ev = entries_view(es@);
    proof {
        lemma_entries_view_len(es@);
    }
    let mut i: usize = 0;
    while i < es.len()
        invariant
            ev == entries_view(es@),
            ev.len() == es@.len(),
            forall|j: int| 0 <= j < ev.len() ==> #[trigger] ev[j] == (es@[j].0.deep_view(), yaml_view(es@[j].1)),
            i <= es.len(),
            key_pos(ev.take(i as int), k.deep_view()) is None,
        decreases es.len() - i,
    {
        proof {
            assert(ev.take(i + 1).drop_last() =~= ev.take(i as int));
        }
        if key_eq(&es[i].0, k) {
            proof {
                lemma_key_pos_prefix(ev, k.deep_view(), i + 1);
            }
            return Some(i);
        }
        i += 1;
    }
    proof {
        assert(ev.take(i as int) =~= ev);
    }
    None
}

pub proof fn lemma_key_pos_prefix(es: Seq<(KeyView, YamlView)>, k: KeyView, n: int)
    requires
        0 <= n <= es.len(),
        key_pos(es.take(n), k) is Some,
    ensures
        key_pos(es, k) == key_pos(es.take(n), k),
    decreases es.len() - n,
{
    if n < es.len() {
        assert(es.take(n + 1).drop_last() =~= es.take(n));
        lemma_key_pos_prefix(es, k, n + 1);
    } else {
        assert(es.take(n) =~= es);
    }
}

/// Merge a template YAML value into an existing one: mappings key by key
/// (keys the existing mapping lacks added at the end, `jobs`, `on` and
/// `permissions` merged one level further, every other existing key kept
/// as it is); an empty or unreadable existing value gives way to the
/// template; any other existing value stays.
pub fn merge_yaml_values(existing: &YamlValue, template: &YamlValue) -> (r: YamlValue)
    ensures
        yaml_view(r) == merge_spec(yaml_view(*existing), yaml_view(*template)),
    decreases template,
{
    match (existing, template) {
        (YamlValue::Hash(em), YamlValue::Hash(tm)) => {
            let ghost emv = entries_view(em@);
            let ghost tmv = entries_view(tm@);
            proof {
                lemma_entries_view_len(em@);
                lemma_entries_view_len(tm@);
            }
            let mut merged: Vec<(YamlKey, YamlValue)> = Vec::new();
            let mut i: usize = 0;
            while i < em.len()
                invariant
                    i <= em.len(),
                    entries_view(merged@) == entries_view(em@.subrange(0, i as int)),
                decreases em.len() - i,
            {
                let k = key_clone(&em[i].0);
                let c = yaml_clone(&em[i].1);
                let ghost before = merged@;
                merged.push((k, c));
                proof {
                    assert(merged@.subrange(0, merged@.len() - 1) =~= before);
                    assert(em@.subrange(0, i + 1).subrange(0, i as int) =~= em@.subrange(0, i as int));
                }
                i += 1;
            }
            proof {
                assert(em@.subrange(0, i as int) =~= em@);
            }
            let mut n: usize = 0;
            while n < tm.len()
                invariant
                    *template == YamlValue::Hash(*tm),
                    emv == entries_view(em@),
                    tmv == entries_view(tm@),
                    emv.len() == em@.len(),
                    tmv.len() == tm@.len(),
                    forall|j: int| 0 <= j < em@.len() ==> #[trigger] emv[j] == (em@[j].0.deep_view(), yaml_view(em@[j].1)),
                    forall|j: int| 0 <= j < tm@.len() ==> #[trigger] tmv[j] == (tm@[j].0.deep_view(), yaml_view(tm@[j].1)),
                    n <= tm.len(),
                    entries_view(merged@) == merge_entries(emv, tmv, n as nat),
                decreases tm.len() - n,
            {
                let ghost before = entries_view(merged@);
                proof {
                    lemma_entries_view_len(merged@);
                    lemma_merge_entries_keys(emv, tmv, n as nat);
                }
                let k = &tm[n].0;
                match find_key(em, k) {
                    None => {
                        let kc = key_clone(k);
                        let c = yaml_clone(&tm[n].1);
                        let ghost old_m = merged@;
                        merged.push((kc, c));
                        proof {
                            assert(merged@.subrange(0, merged@.len() - 1) =~= old_m);
                            assert(entries_view(merged@) == before.push(tmv[n as int]));
                        }
                    },
                    Some(j) => {
                        if deep_key(k) {
                            proof {
                                lemma_key_pos_range(emv, k.deep_view());
                                assert(decreases_to!(*template => tm@[n as int].1)) by {
                                    assert(decreases_to!(*template => (*template)->Hash_0));
                                    assert(decreases_to!(*tm => tm@));
                                    assert(decreases_to!(tm@ => tm@[n as int]));
                                    assert(decreases_to!(tm@[n as int] => tm@[n as int].1));
                                }
                            }
                            let sub = merge_yaml_values(&em[j].1, &tm[n].1);
                            let kc = key_clone(k);
                            let ghost old_m = merged@;
                            merged.set(j, (kc, sub));
                            proof {
                                lemma_entries_view_len(merged@);
                                lemma_entries_view_len(old_m);
                                assert(entries_view(merged@) =~= before.update(j as int, (k.deep_view(), merge_spec(emv[j as int].1, tmv[n as int].1))));
                            }
                        }
                    },
                }
                n += 1;
            }
            YamlValue::Hash(merged)
        },
        (YamlValue::Null, _) => yaml_clone(template),
        (YamlValue::BadValue, _) => yaml_clone(template),
        _ => yaml_clone(existing),
    }
}


/// Merging keeps the user's mapping: every existing key stays at its place,
/// and its value is kept unless the key is one merged one level deeper
/// (`jobs`, `on`, `permissions`); and every key of the template is present.
pub proof fn law_yaml_merge_keeps_and_adds(em: Seq<(KeyView, YamlView)>, tm: Seq<(KeyView, YamlView)>)
    ensures
        merge_entries(em, tm, tm.len()).len() >= em.len(),
        forall|i: int| 0 <= i < em.len() ==> #[trigger] merge_entries(em, tm, tm.len())[i].0 == em[i].0,
        forall|i: int| 0 <= i < em.len() && !is_deep_key(em[i].0) ==> #[trigger] merge_entries(em, tm, tm.len())[i] == em[i],
        forall|j: int| 0 <= j < tm.len() ==> exists|i: int| 0 <= i < merge_entries(em, tm, tm.len()).len()
            && (#[trigger] merge_entries(em, tm, tm.len())[i]).0 == (#[trigger] tm[j]).0,
{
    lemma_merge_entries_keeps(em, tm, tm.len());
}

pub proof fn lemma_merge_entries_keeps(em: Seq<(KeyView, YamlView)>, tm: Seq<(KeyView, YamlView)>, n: nat)
    requires
        n <= tm.len(),
    ensures
        merge_entries(em, tm, n).len() >= em.len(),
        forall|i: int| 0 <= i < em.len() ==> #[trigger] merge_entries(em, tm, n)[i].0 == em[i].0,
        forall|i: int| 0 <= i < em.len() && !is_deep_key(em[i].0) ==> #[trigger] merge_entries(em, tm, n)[i] == em[i],
        forall|j: int| 0 <= j < n ==> exists|i: int| 0 <= i < merge_entries(em, tm, n).len()
            && (#[trigger] merge_entries(em, tm, n)[i]).0 == (#[trigger] tm[j]).0,
    decreases n,
{
    if n > 0 {
        lemma_merge_entries_keeps(em, tm, (n - 1) as nat);
        let m = merge_entries(em, tm, (n - 1) as nat);
        let r = merge_entries(em, tm, n);
        let (k, tv) = tm[n - 1];
        lemma_key_pos_range(em, k);
        assert forall|j: int| 0 <= j < n implies exists|i: int| 0 <= i < r.len() && (#[trigger] r[i]).0 == (#[trigger] tm[j]).0 by {
            if j < n - 1 {
                let i = choose|i: int| 0 <= i < m.len() && (#[trigger] m[i]).0 == (#[trigger] tm[j]).0;
                assert(r[i].0 == tm[j].0);
            } else {
                match key_pos(em, k) {
                    None => {
                        assert(r[m.len() as int].0 == k);
                    },
                    Some(p) => {
                        assert(r[p].0 == k);
                    },
                }
            }
        }
    }
}

} // verus!
