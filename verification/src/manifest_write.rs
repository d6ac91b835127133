//! Writing the planned edits into manifest text, and the manifest-level
//! steps of `add`, `sync` and `bp-managed` resolution.
use vstd::prelude::*;
use crate::edits::{Doc, Edit, EditView, edit_doc, edit_doc_of};
use crate::cli::AddTarget;
use crate::edits::{AddOutcome, add_plan, add_plan_spec, opt_ref};
use crate::manifest::{CrateSpec, CrateSpecView, DepKind, dep_kind_name, opt_view};
use crate::strmap::StrMap;
use crate::deps::{DepValue, bumps, dep_value_for, entries_lookup, extend_features_exec, sync_changes, table_sync, written_as};
use crate::edits::{section_path, strs1, strs2, ws_deps_path};
use crate::toml_model::{TomlValue, entries_get, get, get_opt, opt_deref, opt_get, string_items, table_entries, toml_get};
use crate::toml_text::{parse_toml_model, toml_model};
use crate::raw::dep_entry;
use crate::file_merge::{insert_paths, kind_of_section, merge_insert_paths, parse_dep_as_spec};
use crate::sync::{refs_log, section_of, sync_log, ws_sync_log};
use crate::managed::{RegisteredPack, check_from, check_managed, managed_edits, managed_edits_from, resolve_managed, resolved_by, versions_by};
use crate::version::should_upgrade_version;
use crate::toml_text::{
    toml_dep_set, toml_features_set, toml_str_set, toml_list_set, toml_table_ensured, toml_inserted_from,
    set_dep_text, set_features_text, set_str_text, set_list_text, ensure_table_text, insert_from_text,
};

verus! {

/// The text after one edit, or none when it cannot be applied.
pub open spec fn edit_applied(text: Seq<char>, e: EditView) -> Option<Seq<char>> {
    match e {
        EditView::SetDep { table, name, value, .. } => toml_dep_set(text, table, name, value),
        EditView::SetFeatures { prefix, bp_name, features, .. } => toml_features_set(text, prefix, bp_name, features),
        EditView::SetStr { path, key, value, .. } => toml_str_set(text, path, key, value),
        EditView::SetList { path, key, values, .. } => toml_list_set(text, path, key, values),
        EditView::EnsureTable { path, .. } => toml_table_ensured(text, path),
        EditView::InsertFrom { path, source, .. } => toml_inserted_from(text, path, source),
    }
}

/// The text after the edits, applied in order; none as soon as one cannot
/// be applied.
pub open spec fn edited_text(text: Seq<char>, es: Seq<EditView>) -> Option<Seq<char>>
    decreases es.len(),
{
    if es.len() == 0 {
        Some(text)
    } else {
        match edited_text(text, es.drop_last()) {
            Some(t) => edit_applied(t, es.last()),
            None => None,
        }
    }
}

/// The edits for one manifest, in order.
pub open spec fn edits_for(d: Doc, es: Seq<EditView>) -> Seq<EditView>
    decreases es.len(),
{
    if es.len() == 0 {
        Seq::empty()
    } else if edit_doc_of(es.last()) == d {
        edits_for(d, es.drop_last()).push(es.last())
    } else {
        edits_for(d, es.drop_last())
    }
}

/// Apply one edit to a manifest's text.
pub fn apply_edit(text: &str, e: &Edit) -> (r: Option<String>)
    ensures
        opt_view(r) == edit_applied(text@, e.deep_view()),
{
    match e {
        Edit::SetDep { table, name, value, .. } => set_dep_text(text, table, name.as_str(), value),
        Edit::SetFeatures { prefix, bp_name, features, .. } => set_features_text(text, prefix, bp_name.as_str(), features),
        Edit::SetStr { path, key, value, .. } => set_str_text(text, path, key.as_str(), value.as_str()),
        Edit::SetList { path, key, values, .. } => set_list_text(text, path, key.as_str(), values),
        Edit::EnsureTable { path, .. } => ensure_table_text(text, path),
        Edit::InsertFrom { path, source, .. } => insert_from_text(text, path, source.as_str()),
    }
}

/// Apply the edits meant for manifest `d` (all of them when `d` is `None`)
/// to its text, in order.
pub fn apply_edits(text: &str, edits: &Vec<Edit>, d: Option<Doc>) -> (r: Option<String>)
    ensures
        opt_view(r) == edited_text(text@, match d {
            Some(d) => edits_for(d, edits.deep_view()),
            None => edits.deep_view(),
        }),
{
    let ghost dv = edits.deep_view();
    let ghost pick = |s: Seq<EditView>| match d {
        Some(d) => edits_for(d, s),
        None => s,
    };
    let mut cur: Option<String> = Some(text.to_string());
    let mut i: usize = 0;
    proof {
        assert(dv.take(0) =~= Seq::<EditView>::empty());
    }
    while i < edits.len()
        invariant
            dv == edits.deep_view(),
            i <= edits.len(),
            pick == (|s: Seq<EditView>| match d { Some(d) => edits_for(d, s), None => s }),
            opt_view(cur) == edited_text(text@, pick(dv.take(i as int))),
        decreases edits.len() - i,
    {
        let ghost before = dv.take(i as int);
        proof {
            assert(dv.take(i + 1).drop_last() =~= before);
            assert(dv.take(i + 1).last() == dv[i as int]);
            assert(dv[i as int] == edits@[i as int].deep_view());
        }
        let wanted = match d {
            Some(dd) => edit_doc(&edits[i]) == dd,
            None => true,
        };
        if wanted {
            cur = match cur {
                Some(t) => apply_edit(t.as_str(), &edits[i]),
                None => None,
            };
            proof {
                match d {
                    Some(dd) => assert(pick(dv.take(i + 1)) =~= pick(before).push(dv[i as int])),
                    None => assert(pick(dv.take(i + 1)) =~= pick(before).push(dv[i as int])),
                }
                assert(pick(dv.take(i + 1)).drop_last() =~= pick(before));
            }
        } else {
            proof {
                assert(pick(dv.take(i + 1)) == pick(before));
            }
        }
        i += 1;
    }
    proof {
        assert(dv.take(edits.len() as int) =~= dv);
    }
    cur
}

/// What `add` writes into the manifests.
#[derive(Debug)]
pub enum ManifestWrite {
    /// No crate was selected: nothing is written.
    NoCrates,
    /// The new text of the crate's manifest, and of the workspace manifest
    /// when there is one.
    Write { manifest: String, workspace: Option<String> },
}

/// The message when the crate's manifest cannot be edited.
pub open spec fn manifest_fail_msg() -> Seq<char> {
    "Failed to parse Cargo.toml"@
}

/// The message when the workspace manifest cannot be edited.
pub open spec fn ws_manifest_fail_msg() -> Seq<char> {
    "Failed to parse workspace Cargo.toml"@
}

/// What `add` leaves in the manifests, given the plan's edits.
pub open spec fn add_written(manifest: Seq<char>, workspace: Option<Seq<char>>, es: Seq<EditView>) -> Result<(Seq<char>, Option<Seq<char>>), Seq<char>> {
    match edited_text(manifest, edits_for(Doc::User, es)) {
        None => Err(manifest_fail_msg()),
        Some(u) => match workspace {
            None => Ok((u, None)),
            Some(w) => match edited_text(w, edits_for(Doc::Workspace, es)) {
                None => Err(ws_manifest_fail_msg()),
                Some(wt) => Ok((u, Some(wt))),
            },
        },
    }
}

/// `cargo bp add` on the manifests' text: plan the edits for the chosen
/// crates (see `add_plan`; a workspace is there when its manifest is given),
/// then write each manifest's edits into its text.
pub fn add_to_manifest(
    manifest: &str,
    workspace: Option<&str>,
    crate_name: &str,
    bp_version: Option<&str>,
    path: Option<&str>,
    crates: &StrMap<CrateSpec>,
    active_features: &Vec<String>,
    target: Option<AddTarget>,
) -> (r: Result<ManifestWrite, String>)
    ensures
        match add_plan_spec(crate_name@, opt_ref(bp_version), opt_ref(path), crates.keys(), crates.vals(), active_features.deep_view(), target, workspace is Some) {
            Err(m) => r matches Err(e) && e@ == m,
            Ok(None) => r matches Ok(ManifestWrite::NoCrates),
            Ok(Some(es)) => match add_written(manifest@, opt_ref(workspace), es) {
                Err(m) => r matches Err(e) && e@ == m,
                Ok((u, w)) => r matches Ok(ManifestWrite::Write { manifest: mt, workspace: wt }) && mt@ == u && opt_view(wt) == w,
            },
        },
{
    let plan = add_plan(crate_name, bp_version, path, crates, active_features, target, workspace.is_some());
    let edits = match plan {
        Err(m) => return Err(m),
        Ok(AddOutcome::NoCrates) => return Ok(ManifestWrite::NoCrates),
        Ok(AddOutcome::Edits(edits)) => edits,
    };
    let user = match apply_edits(manifest, &edits, Some(Doc::User)) {
        Some(u) => u,
        None => return Err("Failed to parse Cargo.toml".to_string()),
    };
    let ws = match workspace {
        None => None,
        Some(w) => match apply_edits(w, &edits, Some(Doc::Workspace)) {
            Some(wt) => Some(wt),
            None => return Err("Failed to parse workspace Cargo.toml".to_string()),
        },
    };
    Ok(ManifestWrite::Write { manifest: user, workspace: ws })
}

/// The edits that bring dependency `name` of the table at `table` in line
/// with `spec`, given its entry `old` there: a missing entry is written as
/// the crate is; a version string becomes a detailed entry when the crate
/// has features, else the recommended version (replaced in place) when that
/// is newer; a table gets the newer version (in place) and the missing
/// features set. Nothing else changes.
pub open spec fn entry_edits(d: Doc, table: Seq<Seq<char>>, name: Seq<char>, old: Option<TomlValue>, spec: CrateSpecView) -> Seq<EditView> {
    match old {
        None => seq![EditView::SetDep { doc: d, table, name, value: written_as(spec) }],
        Some(TomlValue::Str(v)) => {
            let up = bumps(v@, spec);
            let keep = if up { spec.version } else { v@ };
            if spec.features.len() > 0 {
                seq![EditView::SetDep { doc: d, table, name, value: (3, keep, spec.features) }]
            } else if up {
                seq![EditView::SetStr { doc: d, path: table, key: name, value: spec.version }]
            } else {
                Seq::empty()
            }
        },
        Some(TomlValue::Table(es)) => {
            let (nv, nf) = table_sync(es@, spec);
            (match nv {
                Some(v) => seq![EditView::SetStr { doc: d, path: table.push(name), key: "version"@, value: v }],
                None => Seq::empty(),
            }) + (match nf {
                Some(fs) => seq![EditView::SetList { doc: d, path: table.push(name), key: "features"@, values: fs }],
                None => Seq::empty(),
            })
        },
        _ => Seq::empty(),
    }
}

/// Syncing a dependency written as a bare version string that the
/// recommendation outdates writes the recommended version, whether or not
/// features are added with it: one edit, a detailed entry with the
/// recommended version and features, or the version replaced in place.
pub proof fn law_entry_edits_version_bump(d: Doc, table: Seq<Seq<char>>, name: Seq<char>, v: String, spec: CrateSpecView)
    requires
        bumps(v@, spec),
    ensures
        entry_edits(d, table, name, Some(TomlValue::Str(v)), spec).len() == 1,
        (match entry_edits(d, table, name, Some(TomlValue::Str(v)), spec)[0] {
            EditView::SetDep { doc, table: t, name: n, value } => doc == d && t == table && n == name
                && spec.features.len() > 0 && value.1 == spec.version && value.1 != v@ && value.2 == spec.features,
            EditView::SetStr { doc, path, key, value } => doc == d && path == table && key == name
                && spec.features.len() == 0 && value == spec.version && value != v@,
            _ => false,
        }),
{
}

/// Syncing a bare version string that the recommendation does not outdate
/// never changes the version: with features it becomes a detailed entry
/// keeping its own version; without, nothing is written.
pub proof fn law_entry_edits_keep_version(d: Doc, table: Seq<Seq<char>>, name: Seq<char>, v: String, spec: CrateSpecView)
    requires
        !bumps(v@, spec),
    ensures
        spec.features.len() == 0 ==> entry_edits(d, table, name, Some(TomlValue::Str(v)), spec).len() == 0,
        spec.features.len() > 0 ==> entry_edits(d, table, name, Some(TomlValue::Str(v)), spec)
            == seq![EditView::SetDep { doc: d, table, name, value: (3, v@, spec.features) }],
{
}

/// A dependency table's path: `[workspace.dependencies]`, or a section of
/// the crate's manifest.
pub open spec fn table_path(ws: bool, section: Seq<char>) -> Seq<Seq<char>> {
    if ws { ws_deps_path() } else { seq![section] }
}

fn path_of(ws: bool, section: &str) -> (r: Vec<String>)
    ensures
        r.deep_view() == table_path(ws, section@),
{
    if ws { strs2("workspace", "dependencies") } else { strs1(section) }
}

fn entry_path(ws: bool, section: &str, name: &str) -> (r: Vec<String>)
    ensures
        r.deep_view() == table_path(ws, section@).push(name@),
{
    let mut p = path_of(ws, section);
    let ghost before = p.deep_view();
    p.push(name.to_string());
    assert(p.deep_view() =~= before.push(name@));
    p
}

/// The version a dependency table sets, and the features it lists.
fn table_sync_exec(es: &Vec<(String, TomlValue)>, spec: &CrateSpec) -> (r: (Option<String>, Option<Vec<String>>))
    ensures
        opt_view(r.0) == table_sync(es@, spec.deep_view()).0,
        (match r.1 {
            Some(fs) => table_sync(es@, spec.deep_view()).1 == Some(fs.deep_view()),
            None => table_sync(es@, spec.deep_view()).1 is None,
        }),
{
    let version: Option<String> = match entries_lookup(es, "version") {
        Some(TomlValue::Str(v)) => {
            if !spec.version.as_str().is_empty() && should_upgrade_version(v.as_str(), spec.version.as_str()) {
                Some(spec.version.clone())
            } else {
                None
            }
        },
        _ => None,
    };
    let existing: Vec<String> = match entries_lookup(es, "features") {
        Some(TomlValue::Array(items)) => string_items(items),
        _ => Vec::new(),
    };
    proof {
        reveal_strlit("version");
        reveal_strlit("features");
        assert(existing.deep_view() =~= crate::deps::listed_features(es@));
    }
    let all = extend_features_exec(&existing, &spec.features);
    let features = if spec.features.len() > 0 && all.len() > existing.len() { Some(all) } else { None };
    (version, features)
}

/// The edits syncing one dependency entry (see `entry_edits`).
fn entry_edits_exec(d: Doc, ws: bool, section: &str, name: &str, old: Option<&TomlValue>, spec: &CrateSpec) -> (r: Vec<Edit>)
    ensures
        r.deep_view() == entry_edits(d, table_path(ws, section@), name@, opt_deref(old), spec.deep_view()),
        (r.len() > 0) == sync_changes(opt_deref(old), spec.deep_view()),
{
    let mut out: Vec<Edit> = Vec::new();
    match old {
        None => {
            out.push(Edit::SetDep { doc: d, table: path_of(ws, section), name: name.to_string(), value: dep_value_for(spec) });
        },
        Some(TomlValue::Str(v)) => {
            let up = !spec.version.as_str().is_empty() && should_upgrade_version(v.as_str(), spec.version.as_str());
            if spec.features.len() > 0 {
                let keep = if up { spec.version.clone() } else { v.clone() };
                let value = DepValue::Detailed { version: keep, features: crate::common::DeepClone::deep_clone(&spec.features) };
                out.push(Edit::SetDep { doc: d, table: path_of(ws, section), name: name.to_string(), value });
            } else if up {
                out.push(Edit::SetStr { doc: d, path: path_of(ws, section), key: name.to_string(), value: spec.version.clone() });
            }
        },
        Some(TomlValue::Table(es)) => {
            let (nv, nf) = table_sync_exec(es, spec);
            match nv {
                Some(v) => out.push(Edit::SetStr { doc: d, path: entry_path(ws, section, name), key: "version".to_string(), value: v }),
                None => {},
            }
            match nf {
                Some(fs) => out.push(Edit::SetList { doc: d, path: entry_path(ws, section, name), key: "features".to_string(), values: fs }),
                None => {},
            }
        },
        _ => {},
    }
    proof {
        let ev = entry_edits(d, table_path(ws, section@), name@, opt_deref(old), spec.deep_view());
        assert(out.deep_view() =~= ev);
    }
    out
}

/// A dependency section of a crate's manifest, in the model.
pub open spec fn user_section(raw: TomlValue, k: DepKind) -> Seq<(String, TomlValue)> {
    table_entries(toml_get(raw, dep_kind_name(k)))
}

/// `[workspace.dependencies]` of a workspace manifest, in the model.
pub open spec fn ws_section(raw: TomlValue) -> Seq<(String, TomlValue)> {
    table_entries(opt_get(toml_get(raw, "workspace"@), "dependencies"@))
}

/// The entries of an optional table.
pub open spec fn opt_entries(sec: Option<&Vec<(String, TomlValue)>>) -> Seq<(String, TomlValue)> {
    match sec {
        Some(es) => es@,
        None => Seq::empty(),
    }
}

fn as_entries<'a>(v: Option<&'a TomlValue>) -> (r: Option<&'a Vec<(String, TomlValue)>>)
    ensures
        opt_entries(r) == table_entries(opt_deref(v)),
{
    match v {
        Some(TomlValue::Table(es)) => Some(es),
        _ => None,
    }
}

fn lookup_in<'a>(sec: Option<&'a Vec<(String, TomlValue)>>, k: &str) -> (r: Option<&'a TomlValue>)
    ensures
        opt_deref(r) == entries_get(opt_entries(sec), k@),
{
    match sec {
        Some(es) => entries_lookup(es, k),
        None => None,
    }
}

proof fn lemma_section_of(raw: TomlValue, k: DepKind)
    ensures
        section_of(k, user_section(raw, DepKind::Normal), user_section(raw, DepKind::Dev), user_section(raw, DepKind::Build))
            == user_section(raw, k),
{
}

/// A crate's entry gets edits exactly when syncing it changes something.
proof fn lemma_entry_edits_len(d: Doc, table: Seq<Seq<char>>, name: Seq<char>, old: Option<TomlValue>, spec: CrateSpecView)
    ensures
        (entry_edits(d, table, name, old, spec).len() > 0) == sync_changes(old, spec),
{
}

/// The edits of a sync of the crate's own sections, crate by crate in name
/// order: each crate's entry in the section of its kind.
pub open spec fn user_sync_edits(keys: Seq<Seq<char>>, vals: Seq<CrateSpecView>, raw: TomlValue, n: nat) -> Seq<EditView>
    decreases n,
{
    if n == 0 || n > keys.len() {
        Seq::empty()
    } else {
        let k = vals[n - 1].dep_kind;
        user_sync_edits(keys, vals, raw, (n - 1) as nat)
            + entry_edits(Doc::User, section_path(k), keys[n - 1], entries_get(user_section(raw, k), keys[n - 1]), vals[n - 1])
    }
}

proof fn lemma_user_quiet(keys: Seq<Seq<char>>, vals: Seq<CrateSpecView>, raw: TomlValue, n: nat)
    requires
        sync_log(keys, vals, user_section(raw, DepKind::Normal), user_section(raw, DepKind::Dev), user_section(raw, DepKind::Build), n).len() == 0,
    ensures
        user_sync_edits(keys, vals, raw, n).len() == 0,
    decreases n,
{
    if n > 0 && n <= keys.len() {
        let k = vals[n - 1].dep_kind;
        lemma_section_of(raw, k);
        lemma_user_quiet(keys, vals, raw, (n - 1) as nat);
        lemma_entry_edits_len(Doc::User, section_path(k), keys[n - 1], entries_get(user_section(raw, k), keys[n - 1]), vals[n - 1]);
    }
}

/// `cargo bp sync` outside a workspace, on the manifest's text: each crate
/// `expected` lists is synced into the section of its kind (see
/// `entry_edits`). Returns the new text and, in name order, the crates whose
/// entry changed and whether each was added; when none changed, the text
/// comes back byte for byte as it was.
pub fn sync_user_manifest(manifest: &str, expected: &StrMap<CrateSpec>) -> (r: Result<(String, Vec<(String, bool)>), String>)
    requires
        expected.wf(),
    ensures
        match toml_model(manifest@) {
            None => r matches Err(e) && e@ == manifest_fail_msg(),
            Some(raw) => match edited_text(manifest@, user_sync_edits(expected.keys(), expected.vals(), raw, expected.keys().len())) {
                None => r matches Err(e) && e@ == manifest_fail_msg(),
                Some(t) => r matches Ok((s, log)) && s@ == t && log.deep_view() == sync_log(
                    expected.keys(), expected.vals(),
                    user_section(raw, DepKind::Normal), user_section(raw, DepKind::Dev), user_section(raw, DepKind::Build),
                    expected.keys().len(),
                ),
            },
        },
        r matches Ok((s, log)) ==> (log@.len() == 0 ==> s@ == manifest@),
{
    let raw = match parse_toml_model(manifest) {
        Some(raw) => raw,
        None => return Err("Failed to parse Cargo.toml".to_string()),
    };
    let deps = as_entries(get(&raw, "dependencies"));
    let dev = as_entries(get(&raw, "dev-dependencies"));
    let build = as_entries(get(&raw, "build-dependencies"));
    let ghost keys = expected.keys();
    let ghost vals = expected.vals();
    let ghost d0 = user_section(raw, DepKind::Normal);
    let ghost v0 = user_section(raw, DepKind::Dev);
    let ghost b0 = user_section(raw, DepKind::Build);
    let mut edits: Vec<Edit> = Vec::new();
    let mut log: Vec<(String, bool)> = Vec::new();
    let mut i: usize = 0;
    proof {
        assert(edits.deep_view() =~= Seq::<EditView>::empty());
        assert(log.deep_view() =~= Seq::<(Seq<char>, bool)>::empty());
    }
    while i < expected.entries.len()
        invariant
            expected.wf(),
            keys == expected.keys(),
            vals == expected.vals(),
            i <= expected.entries@.len(),
            d0 == user_section(raw, DepKind::Normal),
            v0 == user_section(raw, DepKind::Dev),
            b0 == user_section(raw, DepKind::Build),
            opt_entries(deps) == d0,
            opt_entries(dev) == v0,
            opt_entries(build) == b0,
            edits.deep_view() == user_sync_edits(keys, vals, raw, i as nat),
            log.deep_view() == sync_log(keys, vals, d0, v0, b0, i as nat),
        decreases expected.entries.len() - i,
    {
        let name = &expected.entries[i].0;
        let spec = &expected.entries[i].1;
        proof {
            assert(keys[i as int] == name@);
            assert(vals[i as int] == spec.deep_view());
        }
        let sec = match spec.dep_kind {
            DepKind::Normal => deps,
            DepKind::Dev => dev,
            DepKind::Build => build,
        };
        assert(opt_entries(sec) == section_of(spec.dep_kind, d0, v0, b0));
        proof {
            lemma_section_of(raw, spec.dep_kind);
        }
        let old = lookup_in(sec, name.as_str());
        let mut es = entry_edits_exec(Doc::User, false, spec.dep_kind.section(), name.as_str(), old, spec);
        if es.len() > 0 {
            let ghost lb = log.deep_view();
            log.push((name.clone(), old.is_none()));
            assert(log.deep_view() =~= lb.push((name@, opt_deref(old) is None)));
        }
        let ghost eb = edits.deep_view();
        let ghost ee = es.deep_view();
        edits.append(&mut es);
        assert(edits.deep_view() =~= eb + ee);
        proof {
            assert(keys.len() == expected.entries@.len());
            assert(entries_get(user_section(raw, spec.dep_kind), name@) == opt_deref(old));
        }
        i += 1;
    }
    proof {
        if log@.len() == 0 {
            lemma_user_quiet(keys, vals, raw, keys.len());
            assert(edits.deep_view() =~= Seq::<EditView>::empty());
        }
    }
    match apply_edits(manifest, &edits, None) {
        Some(t) => Ok((t, log)),
        None => Err("Failed to parse Cargo.toml".to_string()),
    }
}

/// The edits of a sync of `[workspace.dependencies]`, crate by crate in name
/// order.
pub open spec fn ws_sync_edits(keys: Seq<Seq<char>>, vals: Seq<CrateSpecView>, ws: Seq<(String, TomlValue)>, n: nat) -> Seq<EditView>
    decreases n,
{
    if n == 0 || n > keys.len() {
        Seq::empty()
    } else {
        ws_sync_edits(keys, vals, ws, (n - 1) as nat)
            + entry_edits(Doc::Workspace, ws_deps_path(), keys[n - 1], entries_get(ws, keys[n - 1]), vals[n - 1])
    }
}

proof fn lemma_ws_quiet(keys: Seq<Seq<char>>, vals: Seq<CrateSpecView>, ws: Seq<(String, TomlValue)>, n: nat)
    requires
        ws_sync_log(keys, vals, ws, n).len() == 0,
    ensures
        ws_sync_edits(keys, vals, ws, n).len() == 0,
    decreases n,
{
    if n > 0 && n <= keys.len() {
        lemma_ws_quiet(keys, vals, ws, (n - 1) as nat);
        lemma_entry_edits_len(Doc::Workspace, ws_deps_path(), keys[n - 1], entries_get(ws, keys[n - 1]), vals[n - 1]);
    }
}

/// `cargo bp sync` in a workspace, on the workspace manifest's text: every
/// crate `expected` lists is synced into `[workspace.dependencies]`,
/// whatever its kind. Returns the new text and the crates whose entry
/// changed, in name order; when none changed, the text comes back as it was.
pub fn sync_workspace_manifest(ws_manifest: &str, expected: &StrMap<CrateSpec>) -> (r: Result<(String, Vec<String>), String>)
    requires
        expected.wf(),
    ensures
        match toml_model(ws_manifest@) {
            None => r matches Err(e) && e@ == ws_manifest_fail_msg(),
            Some(raw) => match edited_text(ws_manifest@, ws_sync_edits(expected.keys(), expected.vals(), ws_section(raw), expected.keys().len())) {
                None => r matches Err(e) && e@ == ws_manifest_fail_msg(),
                Some(t) => r matches Ok((s, log)) && s@ == t
                    && log.deep_view() == ws_sync_log(expected.keys(), expected.vals(), ws_section(raw), expected.keys().len()),
            },
        },
        r matches Ok((s, log)) ==> (log@.len() == 0 ==> s@ == ws_manifest@),
{
    let raw = match parse_toml_model(ws_manifest) {
        Some(raw) => raw,
        None => return Err("Failed to parse workspace Cargo.toml".to_string()),
    };
    let sec = as_entries(get_opt(get(&raw, "workspace"), "dependencies"));
    let ghost keys = expected.keys();
    let ghost vals = expected.vals();
    let ghost w0 = ws_section(raw);
    let mut edits: Vec<Edit> = Vec::new();
    let mut log: Vec<String> = Vec::new();
    let mut i: usize = 0;
    proof {
        assert(edits.deep_view() =~= Seq::<EditView>::empty());
        assert(log.deep_view() =~= Seq::<Seq<char>>::empty());
    }
    while i < expected.entries.len()
        invariant
            expected.wf(),
            keys == expected.keys(),
            vals == expected.vals(),
            i <= expected.entries@.len(),
            opt_entries(sec) == w0,
            edits.deep_view() == ws_sync_edits(keys, vals, w0, i as nat),
            log.deep_view() == ws_sync_log(keys, vals, w0, i as nat),
        decreases expected.entries.len() - i,
    {
        let name = &expected.entries[i].0;
        let spec = &expected.entries[i].1;
        proof {
            assert(keys[i as int] == name@);
            assert(vals[i as int] == spec.deep_view());
        }
        let old = lookup_in(sec, name.as_str());
        let mut es = entry_edits_exec(Doc::Workspace, true, "", name.as_str(), old, spec);
        if es.len() > 0 {
            let ghost lb = log.deep_view();
            log.push(name.clone());
            assert(log.deep_view() =~= lb.push(name@));
        }
        let ghost eb = edits.deep_view();
        let ghost ee = es.deep_view();
        edits.append(&mut es);
        assert(edits.deep_view() =~= eb + ee);
        i += 1;
    }
    proof {
        if log@.len() == 0 {
            lemma_ws_quiet(keys, vals, w0, keys.len());
            assert(edits.deep_view() =~= Seq::<EditView>::empty());
        }
    }
    match apply_edits(ws_manifest, &edits, None) {
        Some(t) => Ok((t, log)),
        None => Err("Failed to parse workspace Cargo.toml".to_string()),
    }
}

/// The edits giving each crate without an entry in the section of its kind
/// a `{ workspace = true }` reference, in name order.
pub open spec fn refs_edits(keys: Seq<Seq<char>>, vals: Seq<CrateSpecView>, raw: TomlValue, n: nat) -> Seq<EditView>
    decreases n,
{
    if n == 0 || n > keys.len() {
        Seq::empty()
    } else {
        let k = vals[n - 1].dep_kind;
        let r = refs_edits(keys, vals, raw, (n - 1) as nat);
        if entries_get(user_section(raw, k), keys[n - 1]) is None {
            r.push(EditView::SetDep { doc: Doc::User, table: section_path(k), name: keys[n - 1], value: (2, Seq::empty(), Seq::empty()) })
        } else {
            r
        }
    }
}

/// In a workspace, give each crate `expected` lists a `{ workspace = true }`
/// entry in the section of its kind of the crate's manifest, where it has
/// none yet. Returns the new text and the crates that got one, in name order;
/// when none did, the text comes back as it was.
pub fn add_refs_to_manifest(manifest: &str, expected: &StrMap<CrateSpec>) -> (r: Result<(String, Vec<String>), String>)
    requires
        expected.wf(),
    ensures
        match toml_model(manifest@) {
            None => r matches Err(e) && e@ == manifest_fail_msg(),
            Some(raw) => match edited_text(manifest@, refs_edits(expected.keys(), expected.vals(), raw, expected.keys().len())) {
                None => r matches Err(e) && e@ == manifest_fail_msg(),
                Some(t) => r matches Ok((s, added)) && s@ == t && added.deep_view() == refs_log(
                    expected.keys(), expected.vals(),
                    user_section(raw, DepKind::Normal), user_section(raw, DepKind::Dev), user_section(raw, DepKind::Build),
                    expected.keys().len(),
                ),
            },
        },
        r matches Ok((s, added)) ==> (added@.len() == 0 ==> s@ == manifest@),
{
    let raw = match parse_toml_model(manifest) {
        Some(raw) => raw,
        None => return Err("Failed to parse Cargo.toml".to_string()),
    };
    let deps = as_entries(get(&raw, "dependencies"));
    let dev = as_entries(get(&raw, "dev-dependencies"));
    let build = as_entries(get(&raw, "build-dependencies"));
    let ghost keys = expected.keys();
    let ghost vals = expected.vals();
    let ghost d0 = user_section(raw, DepKind::Normal);
    let ghost v0 = user_section(raw, DepKind::Dev);
    let ghost b0 = user_section(raw, DepKind::Build);
    let mut edits: Vec<Edit> = Vec::new();
    let mut added: Vec<String> = Vec::new();
    let mut i: usize = 0;
    proof {
        assert(edits.deep_view() =~= Seq::<EditView>::empty());
        assert(added.deep_view() =~= Seq::<Seq<char>>::empty());
    }
    while i < expected.entries.len()
        invariant
            expected.wf(),
            keys == expected.keys(),
            vals == expected.vals(),
            i <= expected.entries@.len(),
            d0 == user_section(raw, DepKind::Normal),
            v0 == user_section(raw, DepKind::Dev),
            b0 == user_section(raw, DepKind::Build),
            opt_entries(deps) == d0,
            opt_entries(dev) == v0,
            opt_entries(build) == b0,
            edits.deep_view() == refs_edits(keys, vals, raw, i as nat),
            added.deep_view() == refs_log(keys, vals, d0, v0, b0, i as nat),
            edits@.len() == added@.len(),
        decreases expected.entries.len() - i,
    {
        let name = &expected.entries[i].0;
        let spec = &expected.entries[i].1;
        proof {
            assert(keys[i as int] == name@);
            assert(vals[i as int] == spec.deep_view());
            lemma_section_of(raw, spec.dep_kind);
        }
        let sec = match spec.dep_kind {
            DepKind::Normal => deps,
            DepKind::Dev => dev,
            DepKind::Build => build,
        };
        assert(opt_entries(sec) == section_of(spec.dep_kind, d0, v0, b0));
        if lookup_in(sec, name.as_str()).is_none() {
            let ghost eb = edits.deep_view();
            let ghost lb = added.deep_view();
            edits.push(Edit::SetDep { doc: Doc::User, table: strs1(spec.dep_kind.section()), name: name.clone(), value: DepValue::Workspace });
            added.push(name.clone());
            assert(edits.deep_view() =~= eb.push(EditView::SetDep { doc: Doc::User, table: section_path(spec.dep_kind), name: name@, value: (2, Seq::empty(), Seq::empty()) }));
            assert(added.deep_view() =~= lb.push(name@));
        }
        i += 1;
    }
    proof {
        if added@.len() == 0 {
            assert(edits.deep_view() =~= Seq::<EditView>::empty());
        }
    }
    match apply_edits(manifest, &edits, None) {
        Some(t) => Ok((t, added)),
        None => Err("Failed to parse Cargo.toml".to_string()),
    }
}

/// The metadata table a pack's features are recorded under.
pub open spec fn metadata_prefix(in_workspace: bool) -> Seq<Seq<char>> {
    if in_workspace { seq!["workspace"@, "metadata"@] } else { seq!["package"@, "metadata"@] }
}

/// Record a pack's active features in the package's metadata, or in the
/// workspace's (`in_workspace`): `<prefix>.battery-pack.<bp_name>` becomes
/// a table holding only `features = [...]`.
pub fn record_features(manifest: &str, in_workspace: bool, bp_name: &str, features: &Vec<String>) -> (r: Result<String, String>)
    ensures
        match toml_features_set(manifest@, metadata_prefix(in_workspace), bp_name@, features.deep_view()) {
            None => r matches Err(e) && e@ == (if in_workspace { ws_manifest_fail_msg() } else { manifest_fail_msg() }),
            Some(t) => r matches Ok(s) && s@ == t,
        },
{
    let prefix = if in_workspace { strs2("workspace", "metadata") } else { strs2("package", "metadata") };
    match set_features_text(manifest, &prefix, bp_name, features) {
        Some(t) => Ok(t),
        None => if in_workspace {
            Err("Failed to parse workspace Cargo.toml".to_string())
        } else {
            Err("Failed to parse Cargo.toml".to_string())
        },
    }
}

/// The message when a generated manifest cannot be read or edited.
pub open spec fn managed_fail_msg() -> Seq<char> {
    "failed to parse Cargo.toml"@
}

/// What resolving the `bp-managed = true` dependencies of a manifest gives,
/// with the packs it registers.
pub open spec fn managed_result(content: Seq<char>, packs: Seq<RegisteredPack>) -> Result<Seq<char>, Seq<char>> {
    match toml_model(content) {
        None => Err(managed_fail_msg()),
        Some(raw) => match check_from(raw, 0) {
            Err(m) => Err(m),
            Ok(false) => Ok(content),
            Ok(true) => match managed_edits_from(raw, 0, resolved_by(packs, packs.len() as int), versions_by(packs, packs.len() as int)) {
                Err(m) => Err(m),
                Ok(es) => match edited_text(content, es) {
                    None => Err(managed_fail_msg()),
                    Some(t) => Ok(t),
                },
            },
        },
    }
}

/// Resolve the `bp-managed = true` dependencies of a generated Cargo.toml
/// against the battery packs it registers: a manifest with none is returned
/// as it is; otherwise each managed entry is written as the crate a pack
/// provides (or, for a pack itself, as its version), keeping the rest of the
/// text. Fails on a managed entry with other keys, or one nothing provides.
pub fn resolve_bp_managed_content(content: &str, packs: &Vec<RegisteredPack>) -> (r: Result<String, String>)
    requires
        forall|i: int| 0 <= i < packs@.len() ==> (#[trigger] packs@[i]).spec.wf(),
    ensures
        match (r, managed_result(content@, packs@)) {
            (Ok(s), Ok(t)) => s@ == t,
            (Err(e), Err(m)) => e@ == m,
            _ => false,
        },
{
    let raw = match parse_toml_model(content) {
        Some(raw) => raw,
        None => return Err("failed to parse Cargo.toml".to_string()),
    };
    match check_managed(&raw) {
        Err(m) => return Err(m),
        Ok(false) => return Ok(content.to_string()),
        Ok(true) => {},
    }
    let (resolved, versions) = resolve_managed(packs);
    let edits = match managed_edits(&raw, &resolved, &versions) {
        Ok(es) => es,
        Err(m) => return Err(m),
    };
    match apply_edits(content, &edits, None) {
        Some(t) => Ok(t),
        None => Err("failed to parse Cargo.toml".to_string()),
    }
}

/// The edits syncing the template's dependencies `ts` of section `s` into
/// the existing manifest `e`: each entry as `sync` treats it, the template's
/// entry read as the crate spec it recommends.
pub open spec fn dep_merge_edits(e: TomlValue, s: Seq<char>, ts: Seq<(String, TomlValue)>) -> Seq<EditView>
    decreases ts.len(),
{
    if ts.len() == 0 {
        Seq::empty()
    } else {
        let last = ts.last();
        dep_merge_edits(e, s, ts.drop_last()) + entry_edits(
            Doc::User,
            seq![s],
            last.0@,
            entries_get(table_entries(toml_get(e, s)), last.0@),
            dep_entry(last.1, kind_of_section(s)),
        )
    }
}

/// The edits for one dependency section the template has as a table: the
/// section made to exist, then each template dependency synced into it.
pub open spec fn section_merge_edits(e: TomlValue, t: TomlValue, s: Seq<char>) -> Seq<EditView> {
    match toml_get(t, s) {
        Some(TomlValue::Table(ts)) => seq![EditView::EnsureTable { doc: Doc::User, path: seq![s] }] + dep_merge_edits(e, s, ts@),
        _ => Seq::empty(),
    }
}

/// The key paths outside the dependency sections where the template's
/// values go (see `insert_paths`).
pub open spec fn merge_paths(e: TomlValue, t: TomlValue) -> Seq<Seq<Seq<char>>> {
    match t {
        TomlValue::Table(ses) => insert_paths(e, ses@, Seq::empty(), crate::toml_model::dep_sections()),
        _ => Seq::empty(),
    }
}

/// The edits merging a template Cargo.toml (model `t`, text `template`) into
/// an existing one (model `e`): the dependency sections synced entry by
/// entry, then every other value the existing file lacks copied from the
/// template with its formatting; nothing the existing file has is replaced.
pub open spec fn merge_edits(e: TomlValue, t: TomlValue, template: Seq<char>) -> Seq<EditView> {
    section_merge_edits(e, t, "dependencies"@)
        + section_merge_edits(e, t, "dev-dependencies"@)
        + section_merge_edits(e, t, "build-dependencies"@)
        + merge_paths(e, t).map_values(|p: Seq<Seq<char>>| EditView::InsertFrom { doc: Doc::User, path: p, source: template })
}

fn push_section_merge(out: &mut Vec<Edit>, e: &TomlValue, t: &TomlValue, section: &str)
    ensures
        final(out).deep_view() == old(out).deep_view() + section_merge_edits(*e, *t, section@),
{
    let ghost o0 = out.deep_view();
    match get(t, section) {
        Some(TomlValue::Table(ts)) => {
            out.push(Edit::EnsureTable { doc: Doc::User, path: strs1(section) });
            let ghost o1 = out.deep_view();
            assert(o1 == o0 + seq![EditView::EnsureTable { doc: Doc::User, path: seq![section@] }]);
            let sec = as_entries(get(e, section));
            let mut i: usize = 0;
            assert(ts@.take(0) =~= Seq::<(String, TomlValue)>::empty());
            assert(out.deep_view() =~= o1 + dep_merge_edits(*e, section@, ts@.take(0)));
            while i < ts.len()
                invariant
                    i <= ts@.len(),
                    opt_entries(sec) == table_entries(toml_get(*e, section@)),
                    out.deep_view() == o1 + dep_merge_edits(*e, section@, ts@.take(i as int)),
                decreases ts.len() - i,
            {
                let name = &ts[i].0;
                let spec = parse_dep_as_spec(&ts[i].1, section);
                let old = lookup_in(sec, name.as_str());
                let mut es = entry_edits_exec(Doc::User, false, section, name.as_str(), old, &spec);
                let ghost eb = out.deep_view();
                let ghost ee = es.deep_view();
                out.append(&mut es);
                proof {
                    assert(out.deep_view() =~= eb + ee);
                    assert(ts@.take(i + 1).drop_last() =~= ts@.take(i as int));
                    assert(ts@.take(i + 1).last() == ts@[i as int]);
                }
                i += 1;
            }
            assert(ts@.take(i as int) =~= ts@);
        },
        _ => {
            assert(out.deep_view() =~= o0 + Seq::<EditView>::empty());
        },
    }
}

/// Merge a template Cargo.toml into an existing one: the dependency
/// sections are synced entry by entry (versions raised, features added,
/// nothing removed), every other value the existing file lacks is copied
/// from the template, and nothing it has is replaced; the existing text
/// keeps its formatting.
pub fn merge_toml_text(existing: &str, template: &str) -> (r: Result<String, String>)
    ensures
        match (toml_model(existing@), toml_model(template@)) {
            (None, _) => r matches Err(m) && m@ == "failed to parse existing Cargo.toml"@,
            (Some(_), None) => r matches Err(m) && m@ == "failed to parse template Cargo.toml"@,
            (Some(e), Some(t)) => match edited_text(existing@, merge_edits(e, t, template@)) {
                None => r matches Err(m) && m@ == "failed to parse existing Cargo.toml"@,
                Some(s) => r matches Ok(x) && x@ == s,
            },
        },
{
    let e = match parse_toml_model(existing) {
        Some(e) => e,
        None => return Err("failed to parse existing Cargo.toml".to_string()),
    };
    let t = match parse_toml_model(template) {
        Some(t) => t,
        None => return Err("failed to parse template Cargo.toml".to_string()),
    };
    let mut edits: Vec<Edit> = Vec::new();
    assert(edits.deep_view() =~= Seq::<EditView>::empty());
    push_section_merge(&mut edits, &e, &t, "dependencies");
    push_section_merge(&mut edits, &e, &t, "dev-dependencies");
    push_section_merge(&mut edits, &e, &t, "build-dependencies");
    let ghost before = edits.deep_view();
    let paths = merge_insert_paths(&e, &t);
    let mut i: usize = 0;
    while i < paths.len()
        invariant
            i <= paths@.len(),
            paths.deep_view() == merge_paths(e, t),
            edits.deep_view() == before + paths.deep_view().take(i as int).map_values(|p: Seq<Seq<char>>| EditView::InsertFrom { doc: Doc::User, path: p, source: template@ }),
        decreases paths.len() - i,
    {
        let ghost eb = edits.deep_view();
        let p = crate::common::DeepClone::deep_clone(&paths[i]);
        edits.push(Edit::InsertFrom { doc: Doc::User, path: p, source: template.to_string() });
        proof {
            assert(paths.deep_view()[i as int] == paths@[i as int].deep_view());
            assert(edits.deep_view() =~= eb.push(EditView::InsertFrom { doc: Doc::User, path: paths.deep_view()[i as int], source: template@ }));
            assert(paths.deep_view().take(i + 1) =~= paths.deep_view().take(i as int).push(paths.deep_view()[i as int]));
            assert(paths.deep_view().take(i + 1).map_values(|p: Seq<Seq<char>>| EditView::InsertFrom { doc: Doc::User, path: p, source: template@ })
                =~= paths.deep_view().take(i as int).map_values(|p: Seq<Seq<char>>| EditView::InsertFrom { doc: Doc::User, path: p, source: template@ }).push(
                    EditView::InsertFrom { doc: Doc::User, path: paths.deep_view()[i as int], source: template@ }));
        }
        i += 1;
    }
    assert(paths.deep_view().take(i as int) =~= paths.deep_view());
    assert(edits.deep_view() =~= merge_edits(e, t, template@));
    match apply_edits(existing, &edits, None) {
        Some(s) => Ok(s),
        None => Err("failed to parse existing Cargo.toml".to_string()),
    }
}

} // verus!
