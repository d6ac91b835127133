//! Dependency entries of a manifest: how a curated crate is written, and how
//! an existing entry is brought up to date without ever downgrading it or
//! dropping a feature the user added.
use vstd::prelude::*;
use crate::manifest::{CrateSpec, CrateSpecView};
use crate::toml_model::{TomlValue, entries_get, toml_get, str_items, get, string_items};
use crate::version::{should_upgrade_spec, should_upgrade_version};
use crate::text::str_eq;
use crate::common::{DeepClone, vec_contains_str};

verus! {

/// How a dependency is written.
#[derive(Debug)]
pub enum DepValue {
    /// `name = "<version>"`.
    Version(String),
    /// `name = { path = "<path>" }`.
    Path(String),
    /// `name = { workspace = true }`.
    Workspace,
    /// `name = { version = "<version>", features = [...] }`.
    Detailed { version: String, features: Vec<String> },
}

/// The content of a dependency value: a tag, a string, and features.
pub open spec fn dep_value_view(d: DepValue) -> (int, Seq<char>, Seq<Seq<char>>) {
    match d {
        DepValue::Version(v) => (0, v@, Seq::empty()),
        DepValue::Path(p) => (1, p@, Seq::empty()),
        DepValue::Workspace => (2, Seq::empty(), Seq::empty()),
        DepValue::Detailed { version, features } => (3, version@, features.deep_view()),
    }
}

/// How a curated crate is written: its version alone, or with its features when it has some.
pub open spec fn written_as(spec: CrateSpecView) -> (int, Seq<char>, Seq<Seq<char>>) {
    if spec.features.len() == 0 {
        (0, spec.version, Seq::empty())
    } else {
        (3, spec.version, spec.features)
    }
}

/// The dependency value for a curated crate.
pub fn dep_value_for(spec: &CrateSpec) -> (d: DepValue)
    ensures
        dep_value_view(d) == written_as(spec.deep_view()),
{
    if spec.features.len() == 0 {
        DepValue::Version(spec.version.clone())
    } else {
        DepValue::Detailed { version: spec.version.clone(), features: spec.features.deep_clone() }
    }
}

/// An array of strings.
pub open spec fn is_str_array(v: TomlValue, strs: Seq<Seq<char>>) -> bool {
    v matches TomlValue::Array(items) && items@.len() == strs.len() && forall|i: int|
        0 <= i < strs.len() ==> ((#[trigger] items@[i]) matches TomlValue::Str(s) && s@ == strs[i])
}

/// A TOML value holding exactly the given dependency value.
pub open spec fn holds_dep(v: TomlValue, d: (int, Seq<char>, Seq<Seq<char>>)) -> bool {
    if d.0 == 0 {
        v matches TomlValue::Str(s) && s@ == d.1
    } else if d.0 == 1 {
        v matches TomlValue::Table(es) && es@.len() == 1 && es@[0].0@ == "path"@ && (es@[0].1 matches TomlValue::Str(s) && s@ == d.1)
    } else if d.0 == 2 {
        v matches TomlValue::Table(es) && es@.len() == 1 && es@[0].0@ == "workspace"@ && (es@[0].1 matches TomlValue::Bool(b) && b)
    } else {
        v matches TomlValue::Table(es) && es@.len() == 2 && es@[0].0@ == "version"@ && es@[1].0@
            == "features"@ && (es@[0].1 matches TomlValue::Str(s) && s@ == d.1) && is_str_array(es@[1].1, d.2)
    }
}

fn str_array(strs: &Vec<String>) -> (v: TomlValue)
    ensures
        is_str_array(v, strs.deep_view()),
{
    let mut items: Vec<TomlValue> = Vec::new();
    let mut i: usize = 0;
    while i < strs.len()
        invariant
            i <= strs@.len(),
            items@.len() == i,
            forall|j: int| 0 <= j < i ==> ((#[trigger] items@[j]) matches TomlValue::Str(s) && s@ == strs@[j]@),
        decreases strs.len() - i,
    {
        items.push(TomlValue::Str(strs[i].clone()));
        i += 1;
    }
    TomlValue::Array(items)
}

/// The TOML value of a dependency value.
pub fn dep_value_toml(d: &DepValue) -> (v: TomlValue)
    ensures
        holds_dep(v, dep_value_view(*d)),
{
    match d {
        DepValue::Version(s) => TomlValue::Str(s.clone()),
        DepValue::Path(p) => {
            let mut es: Vec<(String, TomlValue)> = Vec::new();
            es.push(("path".to_string(), TomlValue::Str(p.clone())));
            TomlValue::Table(es)
        },
        DepValue::Workspace => {
            let mut es: Vec<(String, TomlValue)> = Vec::new();
            es.push(("workspace".to_string(), TomlValue::Bool(true)));
            TomlValue::Table(es)
        },
        DepValue::Detailed { version, features } => {
            let mut es: Vec<(String, TomlValue)> = Vec::new();
            es.push(("version".to_string(), TomlValue::Str(version.clone())));
            es.push(("features".to_string(), str_array(features)));
            TomlValue::Table(es)
        },
    }
}

/// The index of the first entry under key `k`.
pub open spec fn first_index(es: Seq<(String, TomlValue)>, k: Seq<char>) -> Option<int>
    decreases es.len(),
{
    if es.len() == 0 {
        None
    } else if es[0].0@ == k {
        Some(0)
    } else {
        match first_index(es.drop_first(), k) {
            Some(i) => Some(i + 1),
            None => None,
        }
    }
}

pub(crate) proof fn lemma_first_index(es: Seq<(String, TomlValue)>, k: Seq<char>)
    ensures
        first_index(es, k) matches Some(i) ==> 0 <= i < es.len() && es[i].0@ == k && entries_get(es, k) == Some(es[i].1)
            && forall|j: int| 0 <= j < i ==> (#[trigger] es[j]).0@ != k,
        first_index(es, k) is None ==> entries_get(es, k) is None && forall|j: int| 0 <= j < es.len() ==> (#[trigger] es[j]).0@ != k,
    decreases es.len(),
{
    if es.len() > 0 {
        lemma_first_index(es.drop_first(), k);
        assert forall|j: int| 1 <= j < es.len() implies (#[trigger] es[j]) == es.drop_first()[j - 1] by {}
    }
}

/// `es` with the value under `k` set to `v`: the first entry under `k`
/// replaced in place, or a new entry at the end.
pub open spec fn entries_set_get(es: Seq<(String, TomlValue)>, es2: Seq<(String, TomlValue)>, k: Seq<char>, v: TomlValue) -> bool {
    &&& entries_get(es2, k) == Some(v)
    &&& forall|k2: Seq<char>| k2 != k ==> #[trigger] entries_get(es2, k2) == entries_get(es, k2)
}

proof fn lemma_get_push(es: Seq<(String, TomlValue)>, e: (String, TomlValue), k2: Seq<char>)
    ensures
        entries_get(es.push(e), k2) == if entries_get(es, k2) is Some {
            entries_get(es, k2)
        } else if e.0@ == k2 {
            Some(e.1)
        } else {
            None
        },
    decreases es.len(),
{
    if es.len() > 0 {
        assert(es.push(e).drop_first() =~= es.drop_first().push(e));
        assert(es.push(e)[0] == es[0]);
        lemma_get_push(es.drop_first(), e, k2);
    } else {
        assert(es.push(e)[0] == e);
        assert(es.push(e).drop_first() =~= Seq::<(String, TomlValue)>::empty());
        assert(entries_get(Seq::<(String, TomlValue)>::empty(), k2) is None);
    }
}

pub(crate) proof fn lemma_get_update(es: Seq<(String, TomlValue)>, i: int, v: TomlValue, k2: Seq<char>)
    requires
        0 <= i < es.len(),
        forall|j: int| 0 <= j < i ==> (#[trigger] es[j]).0@ != es[i].0@,
    ensures
        entries_get(es.update(i, (es[i].0, v)), k2) == if k2 == es[i].0@ {
            Some(v)
        } else {
            entries_get(es, k2)
        },
    decreases es.len(),
{
    let u = es.update(i, (es[i].0, v));
    if i == 0 {
        assert(u[0] == (es[0].0, v));
        assert(u.drop_first() =~= es.drop_first());
    } else {
        let t = es.drop_first();
        assert(u[0] == es[0]);
        assert(es[0].0@ != es[i].0@);
        assert(u.drop_first() =~= t.update(i - 1, (t[i - 1].0, v)));
        assert forall|j: int| 0 <= j < i - 1 implies (#[trigger] t[j]).0@ != t[i - 1].0@ by {
            assert(t[j] == es[j + 1]);
        }
        lemma_get_update(t, i - 1, v, k2);
    }
}

/// Set the value under a key of a table's entries.
pub fn entries_set(es: &mut Vec<(String, TomlValue)>, k: &str, v: TomlValue)
    ensures
        entries_set_get(old(es)@, final(es)@, k@, v),
{
    let ghost e0 = es@;
    let mut i: usize = 0;
    while i < es.len()
        invariant
            i <= es@.len(),
            es@ == e0,
            e0 == old(es)@,
            forall|j: int| 0 <= j < i ==> (#[trigger] e0[j]).0@ != k@,
        decreases es.len() - i,
    {
        if str_eq(es[i].0.as_str(), k) {
            let key = es[i].0.clone();
            let ghost vv = v;
            es.set(i, (key, v));
            proof {
                assert(es@ =~= e0.update(i as int, (e0[i as int].0, vv)));
                assert forall|k2: Seq<char>| k2 != k@ implies #[trigger] entries_get(es@, k2) == entries_get(e0, k2) by {
                    lemma_get_update(e0, i as int, vv, k2);
                }
                lemma_get_update(e0, i as int, vv, k@);
            }
            return;
        }
        i += 1;
    }
    let ghost vv = v;
    let key = k.to_string();
    es.push((key, v));
    proof {
        assert forall|k2: Seq<char>| k2 != k@ implies #[trigger] entries_get(es@, k2) == entries_get(e0, k2) by {
            lemma_get_push(e0, (key, vv), k2);
            lemma_first_index(e0, k2);
        }
        lemma_get_push(e0, (key, vv), k@);
        lemma_first_index(e0, k@);
    }
}

/// `fs`' features that `existing` lacks, appended to `existing` in order.
pub open spec fn extend_features(existing: Seq<Seq<char>>, fs: Seq<Seq<char>>) -> Seq<Seq<char>>
    decreases fs.len(),
{
    if fs.len() == 0 {
        existing
    } else {
        let r = extend_features(existing, fs.drop_last());
        if existing.contains(fs.last()) {
            r
        } else {
            r.push(fs.last())
        }
    }
}

/// Extending keeps every existing feature in place and adds every wanted one.
pub proof fn law_extend_features(existing: Seq<Seq<char>>, fs: Seq<Seq<char>>)
    ensures
        existing.is_prefix_of(extend_features(existing, fs)),
        forall|f: Seq<char>| fs.contains(f) ==> #[trigger] extend_features(existing, fs).contains(f),
    decreases fs.len(),
{
    if fs.len() > 0 {
        law_extend_features(existing, fs.drop_last());
        let r = extend_features(existing, fs.drop_last());
        assert forall|f: Seq<char>| fs.contains(f) implies #[trigger] extend_features(existing, fs).contains(f) by {
            let i = choose|i: int| 0 <= i < fs.len() && fs[i] == f;
            if i < fs.len() - 1 {
                assert(fs.drop_last()[i] == f);
                assert(fs.drop_last().contains(f));
                assert(r.contains(f));
                let j = choose|j: int| 0 <= j < r.len() && r[j] == f;
                if !existing.contains(fs.last()) {
                    assert(r.push(fs.last())[j] == f);
                }
            } else if existing.contains(f) {
                let j = choose|j: int| 0 <= j < existing.len() && existing[j] == f;
                assert(r[j] == f);
            } else {
                assert(r.push(f)[r.len() as int] == f);
            }
        }
    }
}

pub(crate) fn extend_features_exec(existing: &Vec<String>, fs: &Vec<String>) -> (r: Vec<String>)
    ensures
        r.deep_view() == extend_features(existing.deep_view(), fs.deep_view()),
{
    let mut r = existing.deep_clone();
    let mut i: usize = 0;
    while i < fs.len()
        invariant
            i <= fs@.len(),
            r.deep_view() == extend_features(existing.deep_view(), fs.deep_view().take(i as int)),
        decreases fs.len() - i,
    {
        proof {
            assert(fs.deep_view().take(i + 1).drop_last() =~= fs.deep_view().take(i as int));
            assert(fs.deep_view().take(i + 1).last() == fs[i as int]@);
        }
        if !vec_contains_str(existing, fs[i].as_str()) {
            let ghost before = r.deep_view();
            r.push(fs[i].clone());
            assert(r.deep_view() =~= before.push(fs[i as int]@));
        }
        i += 1;
    }
    assert(fs.deep_view().take(i as int) =~= fs.deep_view());
    r
}

/// The features a dependency table lists.
pub open spec fn listed_features(es: Seq<(String, TomlValue)>) -> Seq<Seq<char>> {
    match entries_get(es, "features"@) {
        Some(TomlValue::Array(items)) => str_items(items@),
        _ => Seq::empty(),
    }
}

/// Whether the recommended version should replace the entry's version.
pub open spec fn bumps(current: Seq<char>, spec: CrateSpecView) -> bool {
    spec.version.len() > 0 && should_upgrade_spec(current, spec.version)
}

/// What syncing a dependency table does: the version set when it is a
/// string that `spec` outdates, and the features set when `spec` adds some.
pub open spec fn table_sync(es: Seq<(String, TomlValue)>, spec: CrateSpecView) -> (Option<Seq<char>>, Option<Seq<Seq<char>>>) {
    let version = match entries_get(es, "version"@) {
        Some(TomlValue::Str(v)) => if bumps(v@, spec) { Some(spec.version) } else { None },
        _ => None,
    };
    let all = extend_features(listed_features(es), spec.features);
    let features = if spec.features.len() > 0 && all.len() > listed_features(es).len() {
        Some(all)
    } else {
        None
    };
    (version, features)
}

/// The entry after a sync, and whether anything changed (`sync_dep_in_table`).
pub open spec fn synced(old_entry: Option<TomlValue>, new_entry: Option<TomlValue>, spec: CrateSpecView, changed: bool) -> bool {
    match old_entry {
        None => changed && (new_entry matches Some(v) && holds_dep(v, written_as(spec))),
        Some(TomlValue::Str(v)) => {
            let up = bumps(v@, spec);
            let keep = if up { spec.version } else { v@ };
            if spec.features.len() > 0 {
                changed && (new_entry matches Some(nv) && holds_dep(nv, (3, keep, spec.features)))
            } else if up {
                changed && (new_entry matches Some(nv) && holds_dep(nv, (0, keep, Seq::empty())))
            } else {
                !changed && new_entry == old_entry
            }
        },
        Some(TomlValue::Table(es)) => {
            let (nv, nf) = table_sync(es@, spec);
            &&& changed == (nv is Some || nf is Some)
            &&& new_entry matches Some(TomlValue::Table(es2)) && {
                &&& (match nv {
                    Some(v) => entries_get(es2@, "version"@) matches Some(TomlValue::Str(s)) && s@ == v,
                    None => entries_get(es2@, "version"@) == entries_get(es@, "version"@),
                })
                &&& (match nf {
                    Some(fs) => entries_get(es2@, "features"@) matches Some(a) && is_str_array(a, fs),
                    None => entries_get(es2@, "features"@) == entries_get(es@, "features"@),
                })
                &&& forall|k: Seq<char>| k != "version"@ && k != "features"@ ==> #[trigger] entries_get(es2@, k) == entries_get(es@, k)
            }
        },
        _ => !changed && new_entry == old_entry,
    }
}


/// The value under a key of a table's entries.
pub fn entries_lookup<'a>(es: &'a Vec<(String, TomlValue)>, k: &str) -> (r: Option<&'a TomlValue>)
    ensures
        match r {
            Some(x) => entries_get(es@, k@) == Some(*x),
            None => entries_get(es@, k@) is None,
        },
{
    let mut i: usize = 0;
    assert(es@.skip(0) =~= es@);
    while i < es.len()
        invariant
            i <= es@.len(),
            entries_get(es@, k@) == entries_get(es@.skip(i as int), k@),
        decreases es.len() - i,
    {
        assert(es@.skip(i as int)[0] == es@[i as int]);
        assert(es@.skip(i as int).drop_first() =~= es@.skip(i + 1));
        if str_eq(es[i].0.as_str(), k) {
            return Some(&es[i].1);
        }
        i += 1;
    }
    None
}

fn find_entry(es: &Vec<(String, TomlValue)>, k: &str) -> (r: Option<usize>)
    ensures
        match r {
            Some(i) => first_index(es@, k@) == Some(i as int),
            None => first_index(es@, k@) is None,
        },
{
    let mut i: usize = 0;
    assert(es@.skip(0) =~= es@);
    while i < es.len()
        invariant
            i <= es@.len(),
            forall|j: int| 0 <= j < i ==> (#[trigger] es@[j]).0@ != k@,
        decreases es.len() - i,
    {
        if str_eq(es[i].0.as_str(), k) {
            proof {
                lemma_first_index(es@, k@);
            }
            return Some(i);
        }
        i += 1;
    }
    proof {
        lemma_first_index(es@, k@);
    }
    None
}

/// The entry for the synced table form of a dependency.
fn sync_table(es: Vec<(String, TomlValue)>, spec: &CrateSpec) -> (r: (bool, TomlValue))
    ensures
        synced(Some(TomlValue::Table(es)), Some(r.1), spec.deep_view(), r.0),
        !r.0 ==> r.1 == TomlValue::Table(es),
{
    let ghost es0 = es@;
    proof {
        reveal_strlit("version");
        reveal_strlit("features");
        assert("version"@ != "features"@) by {
            assert("version"@[0] != "features"@[0]);
        }
    }
    let mut es = es;
    let mut changed = false;
    let cur: Option<String> = match entries_lookup(&es, "version") {
        Some(TomlValue::Str(v)) => Some(v.clone()),
        _ => None,
    };
    let mut set_version = false;
    match cur {
        Some(v) => {
            if !spec.version.as_str().is_empty() && should_upgrade_version(v.as_str(), spec.version.as_str()) {
                entries_set(&mut es, "version", TomlValue::Str(spec.version.clone()));
                set_version = true;
                changed = true;
            }
        },
        None => {},
    }
    let ghost es1 = es@;
    assert(listed_features(es1) == listed_features(es0));
    if spec.features.len() > 0 {
        let existing: Vec<String> = match entries_lookup(&es, "features") {
            Some(TomlValue::Array(items)) => string_items(items),
            _ => Vec::new(),
        };
        assert(existing.deep_view() =~= listed_features(es0));
        let all = extend_features_exec(&existing, &spec.features);
        if all.len() > existing.len() {
            entries_set(&mut es, "features", str_array(&all));
            changed = true;
        }
    }
    (changed, TomlValue::Table(es))
}

/// Sync a dependency in place: add it when absent; otherwise raise its
/// version when the recommended one is newer, and add missing features,
/// keeping the user's own. Returns whether anything changed. Entries other
/// than `name` are left as they were.
pub fn sync_dep_in_table(table: &mut Vec<(String, TomlValue)>, name: &str, spec: &CrateSpec) -> (changed: bool)
    ensures
        synced(entries_get(old(table)@, name@), entries_get(final(table)@, name@), spec.deep_view(), changed),
        forall|k: Seq<char>| k != name@ ==> #[trigger] entries_get(final(table)@, k) == entries_get(old(table)@, k),
        !changed ==> final(table)@ == old(table)@,
        first_index(old(table)@, name@) matches Some(i) ==> final(table)@ == old(table)@.update(i, (old(table)@[i].0, final(table)@[i].1)),
{
    let ghost t0 = table@;
    proof {
        lemma_first_index(t0, name@);
    }
    match find_entry(table, name) {
        None => {
            let v = dep_value_toml(&dep_value_for(spec));
            entries_set(table, name, v);
            true
        },
        Some(i) => {
            let (key, val) = table.remove(i);
            let ghost t1 = table@;
            let (changed, nv): (bool, TomlValue) = match val {
                TomlValue::Str(v) => {
                    let up = !spec.version.as_str().is_empty() && should_upgrade_version(v.as_str(), spec.version.as_str());
                    if spec.features.len() > 0 {
                        let keep = if up { spec.version.clone() } else { v };
                        let d = DepValue::Detailed { version: keep, features: spec.features.deep_clone() };
                        (true, dep_value_toml(&d))
                    } else if up {
                        (true, TomlValue::Str(spec.version.clone()))
                    } else {
                        (false, TomlValue::Str(v))
                    }
                },
                TomlValue::Table(es) => sync_table(es, spec),
                other => (false, other),
            };
            let ghost nvg = nv;
            table.insert(i, (key, nv));
            proof {
                assert(table@ =~= t0.update(i as int, (t0[i as int].0, nvg)));
                assert forall|k: Seq<char>| k != name@ implies #[trigger] entries_get(table@, k) == entries_get(t0, k) by {
                    lemma_get_update(t0, i as int, nvg, k);
                }
                lemma_get_update(t0, i as int, nvg, name@);
            }
            changed
        },
    }
}


/// The version a dependency entry states.
pub open spec fn entry_version(e: Option<TomlValue>) -> Option<Seq<char>> {
    match e {
        Some(TomlValue::Str(s)) => Some(s@),
        Some(TomlValue::Table(es)) => match entries_get(es@, "version"@) {
            Some(TomlValue::Str(s)) => Some(s@),
            _ => None,
        },
        _ => None,
    }
}

/// The features a dependency entry lists.
pub open spec fn entry_features(e: Option<TomlValue>) -> Seq<Seq<char>> {
    match e {
        Some(TomlValue::Table(es)) => listed_features(es@),
        _ => Seq::empty(),
    }
}

proof fn lemma_str_array_items(items: Seq<TomlValue>, fs: Seq<Seq<char>>)
    requires
        items.len() == fs.len(),
        forall|i: int| 0 <= i < fs.len() ==> ((#[trigger] items[i]) matches TomlValue::Str(s) && s@ == fs[i]),
    ensures
        str_items(items) == fs,
    decreases items.len(),
{
    if items.len() > 0 {
        lemma_str_array_items(items.drop_last(), fs.drop_last());
        assert(items.last() == items[items.len() - 1]);
        assert(fs =~= fs.drop_last().push(fs.last()));
    }
}

proof fn lemma_holds_detailed(v: TomlValue, version: Seq<char>, fs: Seq<Seq<char>>)
    requires
        holds_dep(v, (3, version, fs)),
    ensures
        entry_version(Some(v)) == Some(version),
        entry_features(Some(v)) == fs,
{
    reveal_strlit("version");
    reveal_strlit("features");
    assert("version"@ != "features"@) by {
        assert("version"@[0] != "features"@[0]);
    }
    let es = v->Table_0;
    assert(es@.drop_first()[0] == es@[1]);
    reveal_with_fuel(entries_get, 2);
    let items = es@[1].1->Array_0;
    lemma_str_array_items(items@, fs);
}

/// Syncing an entry whose version the recommended one outdates raises it to
/// the recommended version.
pub proof fn law_sync_version_bump(old_entry: Option<TomlValue>, new_entry: Option<TomlValue>, spec: CrateSpecView, changed: bool, v: Seq<char>)
    requires
        synced(old_entry, new_entry, spec, changed),
        entry_version(old_entry) == Some(v),
        bumps(v, spec),
    ensures
        entry_version(new_entry) == Some(spec.version),
        changed,
{
    match old_entry {
        Some(TomlValue::Str(s)) => {
            if spec.features.len() > 0 {
                lemma_holds_detailed(new_entry->0, spec.version, spec.features);
            }
        },
        _ => {},
    }
}

/// Syncing never lowers a version: when the recommended version is not
/// newer, the entry keeps its own.
pub proof fn law_sync_no_downgrade(old_entry: Option<TomlValue>, new_entry: Option<TomlValue>, spec: CrateSpecView, changed: bool, v: Seq<char>)
    requires
        synced(old_entry, new_entry, spec, changed),
        entry_version(old_entry) == Some(v),
        !bumps(v, spec),
    ensures
        entry_version(new_entry) == Some(v),
{
    match old_entry {
        Some(TomlValue::Str(s)) => {
            if spec.features.len() > 0 {
                lemma_holds_detailed(new_entry->0, v, spec.features);
            }
        },
        _ => {},
    }
}

/// After a sync every recommended feature is listed, and every feature the
/// entry listed before is still listed, in its place.
pub proof fn law_sync_features(old_entry: Option<TomlValue>, new_entry: Option<TomlValue>, spec: CrateSpecView, changed: bool)
    requires
        synced(old_entry, new_entry, spec, changed),
        old_entry matches Some(e) && (e is Str || e is Table),
        spec.features.len() > 0,
    ensures
        forall|f: Seq<char>| spec.features.contains(f) ==> #[trigger] entry_features(new_entry).contains(f),
        entry_features(old_entry).is_prefix_of(entry_features(new_entry)),
{
    match old_entry {
        Some(TomlValue::Str(s)) => {
            let keep = if bumps(s@, spec) { spec.version } else { s@ };
            lemma_holds_detailed(new_entry->0, keep, spec.features);
        },
        Some(TomlValue::Table(es)) => {
            let all = extend_features(listed_features(es@), spec.features);
            law_extend_features(listed_features(es@), spec.features);
            let es2 = new_entry->0->Table_0;
            match entries_get(es2@, "features"@) {
                Some(TomlValue::Array(items)) => {
                    if all.len() > listed_features(es@).len() {
                        lemma_str_array_items(items@, all);
                    }
                },
                _ => {},
            }
            if all.len() <= listed_features(es@).len() {
                assert(all =~= listed_features(es@)) by {
                    assert(listed_features(es@).is_prefix_of(all));
                }
            }
        },
        _ => {},
    }
}

/// A dependency that was absent is added as the curated crate is written.
pub proof fn law_sync_adds_missing(new_entry: Option<TomlValue>, spec: CrateSpecView, changed: bool)
    requires
        synced(None, new_entry, spec, changed),
    ensures
        changed,
        new_entry matches Some(v) && holds_dep(v, written_as(spec)),
        entry_version(new_entry) == Some(spec.version),
{
    if spec.features.len() > 0 {
        lemma_holds_detailed(new_entry->0, spec.version, spec.features);
    }
}


/// Syncing never removes a dependency: an entry that was there is still there.
pub proof fn law_sync_keeps_entry(old_entry: Option<TomlValue>, new_entry: Option<TomlValue>, spec: CrateSpecView, changed: bool)
    requires
        synced(old_entry, new_entry, spec, changed),
        old_entry is Some,
    ensures
        new_entry is Some,
{
}

/// Extending by features that are all listed already changes nothing.
proof fn lemma_extend_covered(xs: Seq<Seq<char>>, fs: Seq<Seq<char>>)
    requires
        forall|i: int| 0 <= i < fs.len() ==> xs.contains(#[trigger] fs[i]),
    ensures
        extend_features(xs, fs) == xs,
    decreases fs.len(),
{
    if fs.len() > 0 {
        assert forall|i: int| 0 <= i < fs.drop_last().len() implies xs.contains(#[trigger] fs.drop_last()[i]) by {
            assert(fs.drop_last()[i] == fs[i]);
        }
        lemma_extend_covered(xs, fs.drop_last());
        assert(xs.contains(fs[fs.len() - 1]));
    }
}

/// Whether syncing an entry against `spec` changes it.
pub open spec fn sync_changes(old: Option<TomlValue>, spec: CrateSpecView) -> bool {
    match old {
        None => true,
        Some(TomlValue::Str(v)) => spec.features.len() > 0 || bumps(v@, spec),
        Some(TomlValue::Table(es)) => {
            let (nv, nf) = table_sync(es@, spec);
            nv is Some || nf is Some
        },
        _ => false,
    }
}

/// A table whose version the spec does not outdate and which lists every
/// recommended feature has nothing to sync.
proof fn lemma_table_settled(es: Seq<(String, TomlValue)>, spec: CrateSpecView)
    requires
        entries_get(es, "version"@) matches Some(TomlValue::Str(v)) ==> !bumps(v@, spec),
        forall|i: int| 0 <= i < spec.features.len() ==> listed_features(es).contains(#[trigger] spec.features[i]),
    ensures
        table_sync(es, spec).0 is None,
        table_sync(es, spec).1 is None,
{
    lemma_extend_covered(listed_features(es), spec.features);
}

/// A detailed entry holding the recommended features, at a version the spec
/// does not outdate, has nothing to sync.
proof fn lemma_detailed_settled(v: TomlValue, keep: Seq<char>, spec: CrateSpecView)
    requires
        holds_dep(v, (3, keep, spec.features)),
        !bumps(keep, spec),
    ensures
        !sync_changes(Some(v), spec),
{
    lemma_holds_detailed(v, keep, spec.features);
    let t = v->Table_0;
    assert forall|i: int| 0 <= i < spec.features.len() implies listed_features(t@).contains(#[trigger] spec.features[i]) by {
        assert(listed_features(t@)[i] == spec.features[i]);
    }
    lemma_table_settled(t@, spec);
}

/// After a sync the entry is settled: syncing it again against the same
/// spec would change nothing.
pub proof fn law_sync_settles(e0: Option<TomlValue>, e1: Option<TomlValue>, spec: CrateSpecView, c1: bool)
    requires
        synced(e0, e1, spec, c1),
    ensures
        !sync_changes(e1, spec),
{
    match e0 {
        None => {
            if spec.features.len() > 0 {
                lemma_detailed_settled(e1->0, spec.version, spec);
            }
        },
        Some(TomlValue::Str(v)) => {
            let keep = if bumps(v@, spec) { spec.version } else { v@ };
            if spec.features.len() > 0 {
                lemma_detailed_settled(e1->0, keep, spec);
            }
        },
        Some(TomlValue::Table(es)) => {
            let (nv, nf) = table_sync(es@, spec);
            let t2 = e1->0->Table_0;
            let listed = listed_features(es@);
            let all = extend_features(listed, spec.features);
            law_extend_features(listed, spec.features);
            assert forall|i: int| 0 <= i < spec.features.len() implies all.contains(#[trigger] spec.features[i]) by {
                assert(spec.features.contains(spec.features[i]));
            }
            match nf {
                Some(fs) => {
                    let items = entries_get(t2@, "features"@)->0->Array_0;
                    lemma_str_array_items(items@, fs);
                },
                None => {
                    if spec.features.len() > 0 {
                        assert(all =~= listed);
                    }
                },
            }
            lemma_table_settled(t2@, spec);
        },
        _ => {},
    }
}

/// Syncing is idempotent: syncing an entry again with the same spec reports
/// no change, and the entry keeps its version and its features.
pub proof fn law_sync_idempotent(
    e0: Option<TomlValue>,
    e1: Option<TomlValue>,
    e2: Option<TomlValue>,
    spec: CrateSpecView,
    c1: bool,
    c2: bool,
)
    requires
        synced(e0, e1, spec, c1),
        synced(e1, e2, spec, c2),
    ensures
        !c2,
        entry_version(e2) == entry_version(e1),
        entry_features(e2) == entry_features(e1),
{
    law_sync_settles(e0, e1, spec, c1);
}

} // verus!
