//! Bringing a project's dependency sections in line with its installed
//! battery packs (`cargo bp sync`): missing crates are added, outdated
//! versions raised and missing features added; nothing is removed.
use vstd::prelude::*;
use crate::deps::{bumps, law_sync_settles, sync_changes, sync_dep_in_table, synced, table_sync, entries_set, holds_dep};
use crate::manifest::{CrateSpec, CrateSpecView, DepKind};
use crate::strmap::StrMap;
use crate::toml_model::{TomlValue, entries_get};

verus! {

/// The change flag of a sync is `sync_changes`.
pub proof fn lemma_synced_changed(old: Option<TomlValue>, new: Option<TomlValue>, spec: CrateSpecView, changed: bool)
    requires
        synced(old, new, spec, changed),
    ensures
        changed == sync_changes(old, spec),
{
}

/// The user's three dependency sections, by kind.
pub open spec fn section_of(k: DepKind, deps: Seq<(String, TomlValue)>, dev: Seq<(String, TomlValue)>, build: Seq<(String, TomlValue)>) -> Seq<(String, TomlValue)> {
    match k {
        DepKind::Normal => deps,
        DepKind::Dev => dev,
        DepKind::Build => build,
    }
}

/// What a sync reports, in crate-name order: each crate whose entry changed,
/// and whether it was added (it had no entry).
pub open spec fn sync_log(
    keys: Seq<Seq<char>>,
    vals: Seq<CrateSpecView>,
    deps: Seq<(String, TomlValue)>,
    dev: Seq<(String, TomlValue)>,
    build: Seq<(String, TomlValue)>,
    n: nat,
) -> Seq<(Seq<char>, bool)>
    decreases n,
{
    if n == 0 || n > keys.len() {
        Seq::empty()
    } else {
        let r = sync_log(keys, vals, deps, dev, build, (n - 1) as nat);
        let k = keys[n - 1];
        let old = entries_get(section_of(vals[n - 1].dep_kind, deps, dev, build), k);
        if sync_changes(old, vals[n - 1]) {
            r.push((k, old is None))
        } else {
            r
        }
    }
}

/// Entry `k` of section `s` after a sync against `expected`: synced when
/// `expected` lists `k` with kind `s` (among its first keys `done`),
/// untouched otherwise.
pub open spec fn section_after(
    old: Seq<(String, TomlValue)>,
    cur: Seq<(String, TomlValue)>,
    s: DepKind,
    done: Seq<Seq<char>>,
    expected: Map<Seq<char>, CrateSpecView>,
) -> bool {
    forall|k: Seq<char>|
        if done.contains(k) && expected.contains_key(k) && expected[k].dep_kind == s {
            synced(entries_get(old, k), #[trigger] entries_get(cur, k), expected[k], sync_changes(entries_get(old, k), expected[k]))
        } else {
            entries_get(cur, k) == entries_get(old, k)
        }
}

/// Sync each crate a pack expects into the section of its kind: add it when
/// missing, else raise an outdated version and add missing features (the
/// entry is left alone otherwise). Returns, in crate-name order, the crates
/// whose entry changed and whether each was added.
pub fn sync_user_deps(
    deps: &mut Vec<(String, TomlValue)>,
    dev: &mut Vec<(String, TomlValue)>,
    build: &mut Vec<(String, TomlValue)>,
    expected: &StrMap<CrateSpec>,
) -> (log: Vec<(String, bool)>)
    requires
        expected.wf(),
    ensures
        section_after(old(deps)@, final(deps)@, DepKind::Normal, expected.keys(), expected@),
        section_after(old(dev)@, final(dev)@, DepKind::Dev, expected.keys(), expected@),
        section_after(old(build)@, final(build)@, DepKind::Build, expected.keys(), expected@),
        log.deep_view() == sync_log(expected.keys(), expected.vals(), old(deps)@, old(dev)@, old(build)@, expected.keys().len()),
{
    let ghost d0 = deps@;
    let ghost v0 = dev@;
    let ghost b0 = build@;
    let ghost keys = expected.keys();
    let ghost vals = expected.vals();
    let mut log: Vec<(String, bool)> = Vec::new();
    let mut i: usize = 0;
    proof {
        assert(keys.take(0) =~= Seq::<Seq<char>>::empty());
        assert(log.deep_view() =~= Seq::<(Seq<char>, bool)>::empty());
    }
    while i < expected.entries.len()
        invariant
            expected.wf(),
            keys == expected.keys(),
            vals == expected.vals(),
            i <= expected.entries@.len(),
            section_after(d0, deps@, DepKind::Normal, keys.take(i as int), expected@),
            section_after(v0, dev@, DepKind::Dev, keys.take(i as int), expected@),
            section_after(b0, build@, DepKind::Build, keys.take(i as int), expected@),
            log.deep_view() == sync_log(keys, vals, d0, v0, b0, i as nat),
        decreases expected.entries.len() - i,
    {
        let name = &expected.entries[i].0;
        let spec = &expected.entries[i].1;
        proof {
            expected.lemma_index(i as int);
            assert(keys[i as int] == name@);
            assert(vals[i as int] == spec.deep_view());
            assert(keys.take(i + 1) =~= keys.take(i as int).push(name@));
            assert(!keys.take(i as int).contains(name@)) by {
                if keys.take(i as int).contains(name@) {
                    let j = choose|j: int| 0 <= j < i && keys.take(i as int)[j] == name@;
                    crate::text::lemma_seq_lt_order(keys[j], keys[i as int], keys[i as int]);
                    assert(crate::text::seq_lt(keys[j], keys[i as int]));
                }
            }
        }
        let ghost pd = deps@;
        let ghost pv = dev@;
        let ghost pb = build@;
        let ghost old_entry = entries_get(section_of(spec.dep_kind, d0, v0, b0), name@);
        let was_missing = match spec.dep_kind {
            DepKind::Normal => crate::deps::entries_lookup(deps, name.as_str()).is_none(),
            DepKind::Dev => crate::deps::entries_lookup(dev, name.as_str()).is_none(),
            DepKind::Build => crate::deps::entries_lookup(build, name.as_str()).is_none(),
        };
        let changed = match spec.dep_kind {
            DepKind::Normal => sync_dep_in_table(deps, name.as_str(), spec),
            DepKind::Dev => sync_dep_in_table(dev, name.as_str(), spec),
            DepKind::Build => sync_dep_in_table(build, name.as_str(), spec),
        };
        proof {
            assert(entries_get(section_of(spec.dep_kind, pd, pv, pb), name@) == old_entry);
            lemma_synced_changed(
                old_entry,
                entries_get(section_of(spec.dep_kind, deps@, dev@, build@), name@),
                spec.deep_view(),
                changed,
            );
        }
        if changed {
            let ghost before = log.deep_view();
            log.push((name.clone(), was_missing));
            proof {
                assert(log.deep_view() =~= before.push((name@, was_missing)));
            }
        }
        proof {
            assert(sync_log(keys, vals, d0, v0, b0, (i + 1) as nat) == log.deep_view());
            let done = keys.take(i + 1);
            assert forall|k: Seq<char>| #![trigger entries_get(deps@, k)]
                if done.contains(k) && expected@.contains_key(k) && expected@[k].dep_kind == DepKind::Normal {
                    synced(entries_get(d0, k), entries_get(deps@, k), expected@[k], sync_changes(entries_get(d0, k), expected@[k]))
                } else {
                    entries_get(deps@, k) == entries_get(d0, k)
                } by {
                if k != name@ {
                    assert(done.contains(k) == keys.take(i as int).contains(k));
                    assert(entries_get(deps@, k) == entries_get(pd, k));
                } else {
                    assert(done[i as int] == k);
                    assert(done.contains(k));
                    assert(entries_get(pd, k) == entries_get(d0, k));
                    assert(expected@[k] == spec.deep_view());
                    if spec.dep_kind != DepKind::Normal {
                        assert(deps@ == pd);
                    }
                }
            }
            assert forall|k: Seq<char>| #![trigger entries_get(dev@, k)]
                if done.contains(k) && expected@.contains_key(k) && expected@[k].dep_kind == DepKind::Dev {
                    synced(entries_get(v0, k), entries_get(dev@, k), expected@[k], sync_changes(entries_get(v0, k), expected@[k]))
                } else {
                    entries_get(dev@, k) == entries_get(v0, k)
                } by {
                if k != name@ {
                    assert(done.contains(k) == keys.take(i as int).contains(k));
                    assert(entries_get(dev@, k) == entries_get(pv, k));
                } else {
                    assert(done[i as int] == k);
                    assert(done.contains(k));
                    assert(entries_get(pv, k) == entries_get(v0, k));
                    assert(expected@[k] == spec.deep_view());
                    if spec.dep_kind != DepKind::Dev {
                        assert(dev@ == pv);
                    }
                }
            }
            assert forall|k: Seq<char>| #![trigger entries_get(build@, k)]
                if done.contains(k) && expected@.contains_key(k) && expected@[k].dep_kind == DepKind::Build {
                    synced(entries_get(b0, k), entries_get(build@, k), expected@[k], sync_changes(entries_get(b0, k), expected@[k]))
                } else {
                    entries_get(build@, k) == entries_get(b0, k)
                } by {
                if k != name@ {
                    assert(done.contains(k) == keys.take(i as int).contains(k));
                    assert(entries_get(build@, k) == entries_get(pb, k));
                } else {
                    assert(done[i as int] == k);
                    assert(done.contains(k));
                    assert(entries_get(pb, k) == entries_get(b0, k));
                    assert(expected@[k] == spec.deep_view());
                    if spec.dep_kind != DepKind::Build {
                        assert(build@ == pb);
                    }
                }
            }
        }
        i += 1;
    }
    proof {
        assert(keys.take(i as int) =~= keys);
    }
    log
}


/// The crates, in name order, whose workspace entry a sync changes.
pub open spec fn ws_sync_log(keys: Seq<Seq<char>>, vals: Seq<CrateSpecView>, ws: Seq<(String, TomlValue)>, n: nat) -> Seq<Seq<char>>
    decreases n,
{
    if n == 0 || n > keys.len() {
        Seq::empty()
    } else {
        let r = ws_sync_log(keys, vals, ws, (n - 1) as nat);
        if sync_changes(entries_get(ws, keys[n - 1]), vals[n - 1]) {
            r.push(keys[n - 1])
        } else {
            r
        }
    }
}

/// Entry `k` of the workspace dependencies after a sync: synced when
/// `expected` lists `k` (among its first keys `done`), untouched otherwise.
pub open spec fn ws_after(
    old: Seq<(String, TomlValue)>,
    cur: Seq<(String, TomlValue)>,
    done: Seq<Seq<char>>,
    expected: Map<Seq<char>, CrateSpecView>,
) -> bool {
    forall|k: Seq<char>|
        if done.contains(k) && expected.contains_key(k) {
            synced(entries_get(old, k), #[trigger] entries_get(cur, k), expected[k], sync_changes(entries_get(old, k), expected[k]))
        } else {
            entries_get(cur, k) == entries_get(old, k)
        }
}

/// In a workspace, every crate a pack expects is synced into
/// `[workspace.dependencies]`, whatever its kind. Returns the crates whose
/// entry changed, in name order.
pub fn sync_workspace_deps(ws: &mut Vec<(String, TomlValue)>, expected: &StrMap<CrateSpec>) -> (log: Vec<String>)
    requires
        expected.wf(),
    ensures
        ws_after(old(ws)@, final(ws)@, expected.keys(), expected@),
        log.deep_view() == ws_sync_log(expected.keys(), expected.vals(), old(ws)@, expected.keys().len()),
{
    let ghost w0 = ws@;
    let ghost keys = expected.keys();
    let ghost vals = expected.vals();
    let mut log: Vec<String> = Vec::new();
    let mut i: usize = 0;
    proof {
        assert(keys.take(0) =~= Seq::<Seq<char>>::empty());
        assert(log.deep_view() =~= Seq::<Seq<char>>::empty());
    }
    while i < expected.entries.len()
        invariant
            expected.wf(),
            keys == expected.keys(),
            vals == expected.vals(),
            i <= expected.entries@.len(),
            ws_after(w0, ws@, keys.take(i as int), expected@),
            log.deep_view() == ws_sync_log(keys, vals, w0, i as nat),
        decreases expected.entries.len() - i,
    {
        let name = &expected.entries[i].0;
        let spec = &expected.entries[i].1;
        proof {
            expected.lemma_index(i as int);
            assert(keys[i as int] == name@);
            assert(vals[i as int] == spec.deep_view());
            assert(keys.take(i + 1) =~= keys.take(i as int).push(name@));
            assert(!keys.take(i as int).contains(name@)) by {
                if keys.take(i as int).contains(name@) {
                    let j = choose|j: int| 0 <= j < i && keys.take(i as int)[j] == name@;
                    crate::text::lemma_seq_lt_order(keys[j], keys[i as int], keys[i as int]);
                    assert(crate::text::seq_lt(keys[j], keys[i as int]));
                }
            }
            assert(entries_get(ws@, name@) == entries_get(w0, name@));
        }
        let ghost pw = ws@;
        let changed = sync_dep_in_table(ws, name.as_str(), spec);
        proof {
            lemma_synced_changed(entries_get(pw, name@), entries_get(ws@, name@), spec.deep_view(), changed);
        }
        if changed {
            let ghost before = log.deep_view();
            log.push(name.clone());
            proof {
                assert(log.deep_view() =~= before.push(name@));
            }
        }
        proof {
            let done = keys.take(i + 1);
            assert forall|k: Seq<char>| #![trigger entries_get(ws@, k)]
                if done.contains(k) && expected@.contains_key(k) {
                    synced(entries_get(w0, k), entries_get(ws@, k), expected@[k], sync_changes(entries_get(w0, k), expected@[k]))
                } else {
                    entries_get(ws@, k) == entries_get(w0, k)
                } by {
                if k != name@ {
                    assert(done.contains(k) == keys.take(i as int).contains(k));
                    assert(entries_get(ws@, k) == entries_get(pw, k));
                } else {
                    assert(done[i as int] == k);
                    assert(expected@[k] == spec.deep_view());
                }
            }
        }
        i += 1;
    }
    proof {
        assert(keys.take(i as int) =~= keys);
    }
    log
}

/// The crates, in name order, that lack an entry in the section of their
/// kind and so get a workspace reference.
pub open spec fn refs_log(
    keys: Seq<Seq<char>>,
    vals: Seq<CrateSpecView>,
    deps: Seq<(String, TomlValue)>,
    dev: Seq<(String, TomlValue)>,
    build: Seq<(String, TomlValue)>,
    n: nat,
) -> Seq<Seq<char>>
    decreases n,
{
    if n == 0 || n > keys.len() {
        Seq::empty()
    } else {
        let r = refs_log(keys, vals, deps, dev, build, (n - 1) as nat);
        if entries_get(section_of(vals[n - 1].dep_kind, deps, dev, build), keys[n - 1]) is None {
            r.push(keys[n - 1])
        } else {
            r
        }
    }
}

/// Entry `k` of section `s` after adding workspace references: a crate of
/// kind `s` (among `done`) that had no entry now holds `{ workspace = true }`;
/// every other entry is untouched.
pub open spec fn refs_after(
    old: Seq<(String, TomlValue)>,
    cur: Seq<(String, TomlValue)>,
    s: DepKind,
    done: Seq<Seq<char>>,
    expected: Map<Seq<char>, CrateSpecView>,
) -> bool {
    forall|k: Seq<char>|
        if done.contains(k) && expected.contains_key(k) && expected[k].dep_kind == s && entries_get(old, k) is None {
            #[trigger] entries_get(cur, k) matches Some(v) && holds_dep(v, (2, Seq::empty(), Seq::empty()))
        } else {
            entries_get(cur, k) == entries_get(old, k)
        }
}

/// Give each crate a pack expects a `{ workspace = true }` entry in the
/// section of its kind, where it has none yet; existing entries are kept.
/// Returns the crates that got one, in name order.
pub fn add_workspace_refs(
    deps: &mut Vec<(String, TomlValue)>,
    dev: &mut Vec<(String, TomlValue)>,
    build: &mut Vec<(String, TomlValue)>,
    expected: &StrMap<CrateSpec>,
) -> (added: Vec<String>)
    requires
        expected.wf(),
    ensures
        refs_after(old(deps)@, final(deps)@, DepKind::Normal, expected.keys(), expected@),
        refs_after(old(dev)@, final(dev)@, DepKind::Dev, expected.keys(), expected@),
        refs_after(old(build)@, final(build)@, DepKind::Build, expected.keys(), expected@),
        added.deep_view() == refs_log(expected.keys(), expected.vals(), old(deps)@, old(dev)@, old(build)@, expected.keys().len()),
{
    let ghost d0 = deps@;
    let ghost v0 = dev@;
    let ghost b0 = build@;
    let ghost keys = expected.keys();
    let ghost vals = expected.vals();
    let mut added: Vec<String> = Vec::new();
    let mut i: usize = 0;
    proof {
        assert(keys.take(0) =~= Seq::<Seq<char>>::empty());
        assert(added.deep_view() =~= Seq::<Seq<char>>::empty());
    }
    while i < expected.entries.len()
        invariant
            expected.wf(),
            keys == expected.keys(),
            vals == expected.vals(),
            i <= expected.entries@.len(),
            refs_after(d0, deps@, DepKind::Normal, keys.take(i as int), expected@),
            refs_after(v0, dev@, DepKind::Dev, keys.take(i as int), expected@),
            refs_after(b0, build@, DepKind::Build, keys.take(i as int), expected@),
            added.deep_view() == refs_log(keys, vals, d0, v0, b0, i as nat),
        decreases expected.entries.len() - i,
    {
        let name = &expected.entries[i].0;
        let spec = &expected.entries[i].1;
        proof {
            expected.lemma_index(i as int);
            assert(keys[i as int] == name@);
            assert(vals[i as int] == spec.deep_view());
            assert(keys.take(i + 1) =~= keys.take(i as int).push(name@));
            assert(!keys.take(i as int).contains(name@)) by {
                if keys.take(i as int).contains(name@) {
                    let j = choose|j: int| 0 <= j < i && keys.take(i as int)[j] == name@;
                    crate::text::lemma_seq_lt_order(keys[j], keys[i as int], keys[i as int]);
                    assert(crate::text::seq_lt(keys[j], keys[i as int]));
                }
            }
            assert(entries_get(deps@, name@) == entries_get(d0, name@));
            assert(entries_get(dev@, name@) == entries_get(v0, name@));
            assert(entries_get(build@, name@) == entries_get(b0, name@));
        }
        let ghost pd = deps@;
        let ghost pv = dev@;
        let ghost pb = build@;
        let missing = match spec.dep_kind {
            DepKind::Normal => crate::deps::entries_lookup(deps, name.as_str()).is_none(),
            DepKind::Dev => crate::deps::entries_lookup(dev, name.as_str()).is_none(),
            DepKind::Build => crate::deps::entries_lookup(build, name.as_str()).is_none(),
        };
        if missing {
            let v = crate::deps::dep_value_toml(&crate::deps::DepValue::Workspace);
            match spec.dep_kind {
                DepKind::Normal => entries_set(deps, name.as_str(), v),
                DepKind::Dev => entries_set(dev, name.as_str(), v),
                DepKind::Build => entries_set(build, name.as_str(), v),
            }
            let ghost before = added.deep_view();
            added.push(name.clone());
            proof {
                assert(added.deep_view() =~= before.push(name@));
            }
        }
        proof {
            let done = keys.take(i + 1);
            assert forall|k: Seq<char>| #![trigger entries_get(deps@, k)]
                if done.contains(k) && expected@.contains_key(k) && expected@[k].dep_kind == DepKind::Normal && entries_get(d0, k) is None {
                    entries_get(deps@, k) matches Some(v) && holds_dep(v, (2, Seq::empty(), Seq::empty()))
                } else {
                    entries_get(deps@, k) == entries_get(d0, k)
                } by {
                if k != name@ {
                    assert(done.contains(k) == keys.take(i as int).contains(k));
                    assert(entries_get(deps@, k) == entries_get(pd, k));
                } else {
                    assert(done[i as int] == k);
                    assert(expected@[k] == spec.deep_view());
                    if spec.dep_kind != DepKind::Normal || !missing {
                        assert(deps@ == pd);
                    }
                }
            }
            assert forall|k: Seq<char>| #![trigger entries_get(dev@, k)]
                if done.contains(k) && expected@.contains_key(k) && expected@[k].dep_kind == DepKind::Dev && entries_get(v0, k) is None {
                    entries_get(dev@, k) matches Some(v) && holds_dep(v, (2, Seq::empty(), Seq::empty()))
                } else {
                    entries_get(dev@, k) == entries_get(v0, k)
                } by {
                if k != name@ {
                    assert(done.contains(k) == keys.take(i as int).contains(k));
                    assert(entries_get(dev@, k) == entries_get(pv, k));
                } else {
                    assert(done[i as int] == k);
                    assert(expected@[k] == spec.deep_view());
                    if spec.dep_kind != DepKind::Dev || !missing {
                        assert(dev@ == pv);
                    }
                }
            }
            assert forall|k: Seq<char>| #![trigger entries_get(build@, k)]
                if done.contains(k) && expected@.contains_key(k) && expected@[k].dep_kind == DepKind::Build && entries_get(b0, k) is None {
                    entries_get(build@, k) matches Some(v) && holds_dep(v, (2, Seq::empty(), Seq::empty()))
                } else {
                    entries_get(build@, k) == entries_get(b0, k)
                } by {
                if k != name@ {
                    assert(done.contains(k) == keys.take(i as int).contains(k));
                    assert(entries_get(build@, k) == entries_get(pb, k));
                } else {
                    assert(done[i as int] == k);
                    assert(expected@[k] == spec.deep_view());
                    if spec.dep_kind != DepKind::Build || !missing {
                        assert(build@ == pb);
                    }
                }
            }
        }
        i += 1;
    }
    proof {
        assert(keys.take(i as int) =~= keys);
    }
    added
}

/// The first `n` crates of a synced pack are all settled.
proof fn lemma_settled_log(
    d0: Seq<(String, TomlValue)>,
    v0: Seq<(String, TomlValue)>,
    b0: Seq<(String, TomlValue)>,
    d1: Seq<(String, TomlValue)>,
    v1: Seq<(String, TomlValue)>,
    b1: Seq<(String, TomlValue)>,
    expected: StrMap<CrateSpec>,
    n: nat,
)
    requires
        expected.wf(),
        n <= expected.keys().len(),
        section_after(d0, d1, DepKind::Normal, expected.keys(), expected@),
        section_after(v0, v1, DepKind::Dev, expected.keys(), expected@),
        section_after(b0, b1, DepKind::Build, expected.keys(), expected@),
    ensures
        sync_log(expected.keys(), expected.vals(), d1, v1, b1, n) == Seq::<(Seq<char>, bool)>::empty(),
    decreases n,
{
    if n > 0 {
        lemma_settled_log(d0, v0, b0, d1, v1, b1, expected, (n - 1) as nat);
        let i = n - 1;
        expected.lemma_index(i);
        let k = expected.keys()[i];
        let spec = expected.vals()[i];
        assert(expected.keys().contains(k));
        let s0 = section_of(spec.dep_kind, d0, v0, b0);
        let s1 = section_of(spec.dep_kind, d1, v1, b1);
        assert(synced(entries_get(s0, k), entries_get(s1, k), spec, sync_changes(entries_get(s0, k), spec)));
        law_sync_settles(entries_get(s0, k), entries_get(s1, k), spec, sync_changes(entries_get(s0, k), spec));
    }
}

/// Syncing twice reports nothing the second time: after `sync_user_deps`,
/// a sync against the same crates finds every entry up to date.
pub proof fn law_sync_user_deps_settles(
    d0: Seq<(String, TomlValue)>,
    v0: Seq<(String, TomlValue)>,
    b0: Seq<(String, TomlValue)>,
    d1: Seq<(String, TomlValue)>,
    v1: Seq<(String, TomlValue)>,
    b1: Seq<(String, TomlValue)>,
    expected: StrMap<CrateSpec>,
)
    requires
        expected.wf(),
        section_after(d0, d1, DepKind::Normal, expected.keys(), expected@),
        section_after(v0, v1, DepKind::Dev, expected.keys(), expected@),
        section_after(b0, b1, DepKind::Build, expected.keys(), expected@),
    ensures
        sync_log(expected.keys(), expected.vals(), d1, v1, b1, expected.keys().len()) == Seq::<(Seq<char>, bool)>::empty(),
{
    lemma_settled_log(d0, v0, b0, d1, v1, b1, expected, expected.keys().len());
}

/// The first `n` crates of a pack synced into the workspace are settled.
proof fn lemma_ws_settled_log(
    w0: Seq<(String, TomlValue)>,
    w1: Seq<(String, TomlValue)>,
    expected: StrMap<CrateSpec>,
    n: nat,
)
    requires
        expected.wf(),
        n <= expected.keys().len(),
        ws_after(w0, w1, expected.keys(), expected@),
    ensures
        ws_sync_log(expected.keys(), expected.vals(), w1, n) == Seq::<Seq<char>>::empty(),
    decreases n,
{
    if n > 0 {
        lemma_ws_settled_log(w0, w1, expected, (n - 1) as nat);
        let i = n - 1;
        expected.lemma_index(i);
        let k = expected.keys()[i];
        let spec = expected.vals()[i];
        assert(expected.keys().contains(k));
        assert(synced(entries_get(w0, k), entries_get(w1, k), spec, sync_changes(entries_get(w0, k), spec)));
        law_sync_settles(entries_get(w0, k), entries_get(w1, k), spec, sync_changes(entries_get(w0, k), spec));
    }
}

/// Syncing the workspace dependencies twice reports nothing the second time.
pub proof fn law_sync_workspace_deps_settles(w0: Seq<(String, TomlValue)>, w1: Seq<(String, TomlValue)>, expected: StrMap<CrateSpec>)
    requires
        expected.wf(),
        ws_after(w0, w1, expected.keys(), expected@),
    ensures
        ws_sync_log(expected.keys(), expected.vals(), w1, expected.keys().len()) == Seq::<Seq<char>>::empty(),
{
    lemma_ws_settled_log(w0, w1, expected, expected.keys().len());
}

/// After references were added for the first `n` crates, none is missing.
proof fn lemma_refs_log_empty(
    d0: Seq<(String, TomlValue)>,
    v0: Seq<(String, TomlValue)>,
    b0: Seq<(String, TomlValue)>,
    d1: Seq<(String, TomlValue)>,
    v1: Seq<(String, TomlValue)>,
    b1: Seq<(String, TomlValue)>,
    expected: StrMap<CrateSpec>,
    n: nat,
)
    requires
        expected.wf(),
        n <= expected.keys().len(),
        refs_after(d0, d1, DepKind::Normal, expected.keys(), expected@),
        refs_after(v0, v1, DepKind::Dev, expected.keys(), expected@),
        refs_after(b0, b1, DepKind::Build, expected.keys(), expected@),
    ensures
        refs_log(expected.keys(), expected.vals(), d1, v1, b1, n) == Seq::<Seq<char>>::empty(),
    decreases n,
{
    if n > 0 {
        lemma_refs_log_empty(d0, v0, b0, d1, v1, b1, expected, (n - 1) as nat);
        let i = n - 1;
        expected.lemma_index(i);
        let k = expected.keys()[i];
        let spec = expected.vals()[i];
        assert(expected.keys().contains(k));
        let s1 = section_of(spec.dep_kind, d1, v1, b1);
        assert(entries_get(s1, k) is Some);
    }
}

/// Adding workspace references twice adds nothing the second time: every
/// crate then has an entry in the section of its kind.
pub proof fn law_add_workspace_refs_settles(
    d0: Seq<(String, TomlValue)>,
    v0: Seq<(String, TomlValue)>,
    b0: Seq<(String, TomlValue)>,
    d1: Seq<(String, TomlValue)>,
    v1: Seq<(String, TomlValue)>,
    b1: Seq<(String, TomlValue)>,
    expected: StrMap<CrateSpec>,
)
    requires
        expected.wf(),
        refs_after(d0, d1, DepKind::Normal, expected.keys(), expected@),
        refs_after(v0, v1, DepKind::Dev, expected.keys(), expected@),
        refs_after(b0, b1, DepKind::Build, expected.keys(), expected@),
    ensures
        refs_log(expected.keys(), expected.vals(), d1, v1, b1, expected.keys().len()) == Seq::<Seq<char>>::empty(),
{
    lemma_refs_log_empty(d0, v0, b0, d1, v1, b1, expected, expected.keys().len());
}

} // verus!
