//! Changes to manifests as lists of edits, applied in order, and the edits
//! `cargo bp add` plans.
use vstd::prelude::*;
use crate::cli::AddTarget;
use crate::deps::{DepValue, dep_value_for, dep_value_view, written_as};
use crate::manifest::{CrateSpec, CrateSpecView, dep_kind_name};
use crate::strmap::StrMap;
use crate::common::DeepClone;

verus! {

/// Which manifest an edit applies to.
#[derive(Debug, Clone, Copy, PartialEq, Eq, Structural)]
pub enum Doc {
    /// The crate's own Cargo.toml.
    User,
    /// The workspace root Cargo.toml.
    Workspace,
}

/// One change to a manifest.
#[derive(Debug)]
pub enum Edit {
    /// Set `name` in the table at `table` (created when absent) to `value`.
    SetDep { doc: Doc, table: Vec<String>, name: String, value: DepValue },
    /// Replace `<prefix>.battery-pack.<bp_name>` with a table holding only
    /// `features = [...]` (tables on the way created when absent).
    SetFeatures { doc: Doc, prefix: Vec<String>, bp_name: String, features: Vec<String> },
    /// Replace the existing value under `key` in the existing table at
    /// `path` with a string, in place: the key and its formatting stay.
    SetStr { doc: Doc, path: Vec<String>, key: String, value: String },
    /// Set `key` in the existing table at `path` to an array of strings.
    SetList { doc: Doc, path: Vec<String>, key: String, values: Vec<String> },
    /// Make sure the table at `path` exists (tables on the way created when
    /// absent); nothing that is there changes.
    EnsureTable { doc: Doc, path: Vec<String> },
    /// Insert under the last key of `path`, in the existing table its other
    /// keys lead to, the item found at `path` in the TOML text `source`,
    /// with that text's formatting.
    InsertFrom { doc: Doc, path: Vec<String>, source: String },
}

/// The content of an edit.
pub enum EditView {
    SetDep { doc: Doc, table: Seq<Seq<char>>, name: Seq<char>, value: (int, Seq<char>, Seq<Seq<char>>) },
    SetFeatures { doc: Doc, prefix: Seq<Seq<char>>, bp_name: Seq<char>, features: Seq<Seq<char>> },
    SetStr { doc: Doc, path: Seq<Seq<char>>, key: Seq<char>, value: Seq<char> },
    SetList { doc: Doc, path: Seq<Seq<char>>, key: Seq<char>, values: Seq<Seq<char>> },
    EnsureTable { doc: Doc, path: Seq<Seq<char>> },
    InsertFrom { doc: Doc, path: Seq<Seq<char>>, source: Seq<char> },
}

/// The manifest an edit is for.
pub open spec fn edit_doc_of(e: EditView) -> Doc {
    match e {
        EditView::SetDep { doc, .. } => doc,
        EditView::SetFeatures { doc, .. } => doc,
        EditView::SetStr { doc, .. } => doc,
        EditView::SetList { doc, .. } => doc,
        EditView::EnsureTable { doc, .. } => doc,
        EditView::InsertFrom { doc, .. } => doc,
    }
}

/// The manifest an edit is for.
pub fn edit_doc(e: &Edit) -> (d: Doc)
    ensures
        d == edit_doc_of(e.deep_view()),
{
    match e {
        Edit::SetDep { doc, .. } => *doc,
        Edit::SetFeatures { doc, .. } => *doc,
        Edit::SetStr { doc, .. } => *doc,
        Edit::SetList { doc, .. } => *doc,
        Edit::EnsureTable { doc, .. } => *doc,
        Edit::InsertFrom { doc, .. } => *doc,
    }
}

impl DeepView for Edit {
    type V = EditView;

    open spec fn deep_view(&self) -> EditView {
        match self {
            Edit::SetDep { doc, table, name, value } => EditView::SetDep {
                doc: *doc,
                table: table.deep_view(),
                name: name@,
                value: dep_value_view(*value),
            },
            Edit::SetFeatures { doc, prefix, bp_name, features } => EditView::SetFeatures {
                doc: *doc,
                prefix: prefix.deep_view(),
                bp_name: bp_name@,
                features: features.deep_view(),
            },
            Edit::SetStr { doc, path, key, value } => EditView::SetStr {
                doc: *doc,
                path: path.deep_view(),
                key: key@,
                value: value@,
            },
            Edit::SetList { doc, path, key, values } => EditView::SetList {
                doc: *doc,
                path: path.deep_view(),
                key: key@,
                values: values.deep_view(),
            },
            Edit::EnsureTable { doc, path } => EditView::EnsureTable { doc: *doc, path: path.deep_view() },
            Edit::InsertFrom { doc, path, source } => EditView::InsertFrom {
                doc: *doc,
                path: path.deep_view(),
                source: source@,
            },
        }
    }
}

/// What `add` decides, when it writes something.
#[derive(Debug)]
pub enum AddOutcome {
    /// No crate was selected: nothing is written.
    NoCrates,
    /// The edits to apply, in order.
    Edits(Vec<Edit>),
}

/// The table path of a dependency section of the crate's manifest.
pub open spec fn section_path(k: crate::manifest::DepKind) -> Seq<Seq<char>> {
    seq![dep_kind_name(k)]
}

/// The path of `[workspace.dependencies]`.
pub open spec fn ws_deps_path() -> Seq<Seq<char>> {
    seq!["workspace"@, "dependencies"@]
}

/// How the battery pack itself is recorded: by path when one was given,
/// otherwise by version.
pub open spec fn bp_entry(path: Option<Seq<char>>, version: Option<Seq<char>>) -> Option<(int, Seq<char>, Seq<Seq<char>>)> {
    match path {
        Some(p) => Some((1, p, Seq::empty())),
        None => match version {
            Some(v) => Some((0, v, Seq::empty())),
            None => None,
        },
    }
}

/// The message when the pack's version is needed but unknown.
pub open spec fn no_version_msg() -> Seq<char> {
    "battery pack version not available (--path without workspace)"@
}

/// The message when workspace metadata is asked for outside a workspace.
pub open spec fn no_workspace_msg() -> Seq<char> {
    "--target=workspace requires a workspace, but none was found"@
}

/// Whether the features are recorded in the workspace manifest.
pub open spec fn metadata_in_workspace(target: Option<AddTarget>, has_workspace: bool) -> bool {
    match target {
        Some(AddTarget::Workspace) => true,
        Some(AddTarget::Package) => false,
        _ => has_workspace,
    }
}

/// The crate edits: each curated crate written into its section, or (in a
/// workspace) into `[workspace.dependencies]` followed by a reference from
/// each crate's section.
pub open spec fn crate_edits(keys: Seq<Seq<char>>, vals: Seq<CrateSpecView>, has_workspace: bool) -> Seq<EditView> {
    if has_workspace {
        Seq::new(keys.len(), |i: int| EditView::SetDep { doc: Doc::Workspace, table: ws_deps_path(), name: keys[i], value: written_as(vals[i]) })
            + Seq::new(keys.len(), |i: int| EditView::SetDep {
                doc: Doc::User,
                table: section_path(vals[i].dep_kind),
                name: keys[i],
                value: (2, Seq::empty(), Seq::empty()),
            })
    } else {
        Seq::new(keys.len(), |i: int| EditView::SetDep {
            doc: Doc::User,
            table: section_path(vals[i].dep_kind),
            name: keys[i],
            value: written_as(vals[i]),
        })
    }
}

/// What `add` writes, or why it stops.
pub open spec fn add_plan_spec(
    crate_name: Seq<char>,
    version: Option<Seq<char>>,
    path: Option<Seq<char>>,
    keys: Seq<Seq<char>>,
    vals: Seq<CrateSpecView>,
    features: Seq<Seq<char>>,
    target: Option<AddTarget>,
    has_workspace: bool,
) -> Result<Option<Seq<EditView>>, Seq<char>> {
    if keys.len() == 0 {
        Ok(None)
    } else {
        let build = if path is None && has_workspace {
            Some((2, Seq::<char>::empty(), Seq::<Seq<char>>::empty()))
        } else {
            bp_entry(path, version)
        };
        let in_ws = metadata_in_workspace(target, has_workspace);
        if build is None || (has_workspace && bp_entry(path, version) is None) {
            Err(no_version_msg())
        } else if in_ws && !has_workspace {
            Err(no_workspace_msg())
        } else {
            let first = seq![EditView::SetDep { doc: Doc::User, table: seq!["build-dependencies"@], name: crate_name, value: build->0 }];
            let ws_bp = if has_workspace {
                seq![EditView::SetDep { doc: Doc::Workspace, table: ws_deps_path(), name: crate_name, value: bp_entry(path, version)->0 }]
            } else {
                Seq::empty()
            };
            let meta = EditView::SetFeatures {
                doc: if in_ws { Doc::Workspace } else { Doc::User },
                prefix: if in_ws { seq!["workspace"@, "metadata"@] } else { seq!["package"@, "metadata"@] },
                bp_name: crate_name,
                features: features,
            };
            Ok(Some(first + ws_bp + crate_edits(keys, vals, has_workspace) + seq![meta]))
        }
    }
}

/// Where `add` writes each chosen crate: outside a workspace, into the
/// section of its own dependency kind (`[dependencies]`,
/// `[dev-dependencies]` or `[build-dependencies]`); in a workspace, its
/// entry into `[workspace.dependencies]` and its `{ workspace = true }`
/// reference into the section of its own kind, never another.
pub proof fn law_add_crates_by_kind(
    crate_name: Seq<char>,
    version: Option<Seq<char>>,
    path: Option<Seq<char>>,
    keys: Seq<Seq<char>>,
    vals: Seq<CrateSpecView>,
    features: Seq<Seq<char>>,
    target: Option<AddTarget>,
    has_workspace: bool,
    es: Seq<EditView>,
    k: int,
)
    requires
        add_plan_spec(crate_name, version, path, keys, vals, features, target, has_workspace)
            == Ok::<Option<Seq<EditView>>, Seq<char>>(Some(es)),
        0 <= k < keys.len(),
    ensures
        !has_workspace ==> es.len() == keys.len() + 2 && es[1 + k] == (EditView::SetDep {
            doc: Doc::User,
            table: seq![dep_kind_name(vals[k].dep_kind)],
            name: keys[k],
            value: written_as(vals[k]),
        }),
        has_workspace ==> es.len() == 2 * keys.len() + 3 && es[2 + k] == (EditView::SetDep {
            doc: Doc::Workspace,
            table: seq!["workspace"@, "dependencies"@],
            name: keys[k],
            value: written_as(vals[k]),
        }) && es[2 + keys.len() + k] == (EditView::SetDep {
            doc: Doc::User,
            table: seq![dep_kind_name(vals[k].dep_kind)],
            name: keys[k],
            value: (2, Seq::empty(), Seq::empty()),
        }),
{
    let c = crate_edits(keys, vals, has_workspace);
    if has_workspace {
        assert(es[2 + k] == c[k]);
        assert(es[2 + keys.len() + k] == c[keys.len() + k]);
    } else {
        assert(es[1 + k] == c[k]);
    }
}

pub(crate) fn strs2(a: &str, b: &str) -> (v: Vec<String>)
    ensures
        v.deep_view() == seq![a@, b@],
{
    let mut v: Vec<String> = Vec::new();
    v.push(a.to_string());
    v.push(b.to_string());
    assert(v.deep_view() =~= seq![a@, b@]);
    v
}

pub(crate) fn strs1(a: &str) -> (v: Vec<String>)
    ensures
        v.deep_view() == seq![a@],
{
    let mut v: Vec<String> = Vec::new();
    v.push(a.to_string());
    assert(v.deep_view() =~= seq![a@]);
    v
}

fn bp_value(path: Option<&str>, version: Option<&str>) -> (r: Option<DepValue>)
    ensures
        match r {
            Some(d) => bp_entry(opt_ref(path), opt_ref(version)) == Some(dep_value_view(d)),
            None => bp_entry(opt_ref(path), opt_ref(version)) is None,
        },
{
    match path {
        Some(p) => Some(DepValue::Path(p.to_string())),
        None => match version {
            Some(v) => Some(DepValue::Version(v.to_string())),
            None => None,
        },
    }
}

/// An optional string read as its content.
pub open spec fn opt_ref(o: Option<&str>) -> Option<Seq<char>> {
    match o {
        Some(s) => Some(s@),
        None => None,
    }
}

/// Decide what `cargo bp add` writes for the chosen crates: the pack in
/// `[build-dependencies]` (by path, as a workspace reference, or by version),
/// in a workspace the pack and each crate in `[workspace.dependencies]` with
/// references from the crate's sections (otherwise each crate in its own
/// section), and the active features in package or workspace metadata.
pub fn add_plan(
    crate_name: &str,
    bp_version: Option<&str>,
    path: Option<&str>,
    crates: &StrMap<CrateSpec>,
    active_features: &Vec<String>,
    target: Option<AddTarget>,
    has_workspace: bool,
) -> (r: Result<AddOutcome, String>)
    ensures
        match (r, add_plan_spec(crate_name@, opt_ref(bp_version), opt_ref(path), crates.keys(), crates.vals(), active_features.deep_view(), target, has_workspace)) {
            (Ok(AddOutcome::NoCrates), Ok(None)) => true,
            (Ok(AddOutcome::Edits(es)), Ok(Some(ev))) => es.deep_view() == ev,
            (Err(m), Err(mv)) => m@ == mv,
            _ => false,
        },
{
    if crates.entries.len() == 0 {
        return Ok(AddOutcome::NoCrates);
    }
    let build: Option<DepValue> = if path.is_none() && has_workspace {
        Some(DepValue::Workspace)
    } else {
        bp_value(path, bp_version)
    };
    let ws_bp = bp_value(path, bp_version);
    let build = match build {
        Some(b) => b,
        None => return Err("battery pack version not available (--path without workspace)".to_string()),
    };
    if has_workspace && ws_bp.is_none() {
        return Err("battery pack version not available (--path without workspace)".to_string());
    }
    let in_ws = match target {
        Some(AddTarget::Workspace) => true,
        Some(AddTarget::Package) => false,
        _ => has_workspace,
    };
    if in_ws && !has_workspace {
        return Err("--target=workspace requires a workspace, but none was found".to_string());
    }
    let mut edits: Vec<Edit> = Vec::new();
    edits.push(Edit::SetDep { doc: Doc::User, table: strs1("build-dependencies"), name: crate_name.to_string(), value: build });
    if has_workspace {
        match ws_bp {
            Some(v) => {
                edits.push(Edit::SetDep { doc: Doc::Workspace, table: strs2("workspace", "dependencies"), name: crate_name.to_string(), value: v });
            },
            None => {},
        }
    }
    let ghost e2 = edits.deep_view();
    let ghost keys = crates.keys();
    let ghost vals = crates.vals();
    let ghost f1 = |j: int| EditView::SetDep {
        doc: if has_workspace { Doc::Workspace } else { Doc::User },
        table: if has_workspace { ws_deps_path() } else { section_path(vals[j].dep_kind) },
        name: keys[j],
        value: written_as(vals[j]),
    };
    let ghost f2 = |j: int| EditView::SetDep {
        doc: Doc::User,
        table: section_path(vals[j].dep_kind),
        name: keys[j],
        value: (2, Seq::<char>::empty(), Seq::<Seq<char>>::empty()),
    };
    let n = crates.entries.len();
    let mut i: usize = 0;
    while i < n
        invariant
            n == crates.entries@.len(),
            keys == crates.keys(),
            vals == crates.vals(),
            i <= n,
            f1 == (|j: int| EditView::SetDep {
                doc: if has_workspace { Doc::Workspace } else { Doc::User },
                table: if has_workspace { ws_deps_path() } else { section_path(vals[j].dep_kind) },
                name: keys[j],
                value: written_as(vals[j]),
            }),
            edits.deep_view() == e2 + Seq::new(i as nat, f1),
        decreases n - i,
    {
        let name = crates.entries[i].0.clone();
        let spec = &crates.entries[i].1;
        let table = if has_workspace { strs2("workspace", "dependencies") } else { strs1(spec.dep_kind.section()) };
        let doc = if has_workspace { Doc::Workspace } else { Doc::User };
        let ghost before = edits.deep_view();
        edits.push(Edit::SetDep { doc, table, name, value: dep_value_for(spec) });
        proof {
            assert(keys[i as int] == crates.entries@[i as int].0@);
            assert(vals[i as int] == crates.entries@[i as int].1.deep_view());
            assert(edits.deep_view() =~= before.push(f1(i as int)));
            assert(Seq::new((i + 1) as nat, f1) =~= Seq::new(i as nat, f1).push(f1(i as int)));
            assert(edits.deep_view() =~= e2 + Seq::new((i + 1) as nat, f1));
        }
        i += 1;
    }
    let ghost e3 = edits.deep_view();
    if has_workspace {
        let mut i: usize = 0;
        while i < n
            invariant
                n == crates.entries@.len(),
                keys == crates.keys(),
                vals == crates.vals(),
                i <= n,
                f2 == (|j: int| EditView::SetDep {
                    doc: Doc::User,
                    table: section_path(vals[j].dep_kind),
                    name: keys[j],
                    value: (2, Seq::<char>::empty(), Seq::<Seq<char>>::empty()),
                }),
                edits.deep_view() == e3 + Seq::new(i as nat, f2),
            decreases n - i,
        {
            let name = crates.entries[i].0.clone();
            let table = strs1(crates.entries[i].1.dep_kind.section());
            let ghost before = edits.deep_view();
            edits.push(Edit::SetDep { doc: Doc::User, table, name, value: DepValue::Workspace });
            proof {
                assert(keys[i as int] == crates.entries@[i as int].0@);
                assert(vals[i as int] == crates.entries@[i as int].1.deep_view());
                assert(edits.deep_view() =~= before.push(f2(i as int)));
                assert(Seq::new((i + 1) as nat, f2) =~= Seq::new(i as nat, f2).push(f2(i as int)));
                assert(edits.deep_view() =~= e3 + Seq::new((i + 1) as nat, f2));
            }
            i += 1;
        }
    }
    let ghost e4 = edits.deep_view();
    let prefix = if in_ws { strs2("workspace", "metadata") } else { strs2("package", "metadata") };
    let doc = if in_ws { Doc::Workspace } else { Doc::User };
    edits.push(Edit::SetFeatures { doc, prefix, bp_name: crate_name.to_string(), features: active_features.deep_clone() });
    proof {
        let spec_edits = add_plan_spec(crate_name@, opt_ref(bp_version), opt_ref(path), keys, vals, active_features.deep_view(), target, has_workspace);
        let meta = edits.deep_view().last();
        assert(edits.deep_view() =~= e4.push(meta));
        if has_workspace {
            assert(crate_edits(keys, vals, true) =~= Seq::new(n as nat, f1) + Seq::new(n as nat, f2));
            assert(e4 =~= e2 + (Seq::new(n as nat, f1) + Seq::new(n as nat, f2)));
        } else {
            assert(crate_edits(keys, vals, false) =~= Seq::new(n as nat, f1));
        }
        assert(edits.deep_view() =~= spec_edits->Ok_0->0);
    }
    Ok(AddOutcome::Edits(edits))
}

} // verus!
