//! Reading facts out of Cargo.toml text: the installed packs, their active
//! features, where the metadata lives, what kind of manifest it is, the
//! dependency versions, and the packs a generated manifest registers.
use vstd::prelude::*;
use crate::managed::{check_from, check_managed};
use crate::manifest_write::metadata_prefix;
use crate::strmap::{StrMap, sorted_keys};
use crate::toml_model::{
    TomlValue, bp_names_in, collect_user_dep_versions, features_at, find_installed_bp_names, get, get_opt, get_path,
    opt_deref, read_features_at, table_entries, toml_get, user_versions,
};
use crate::toml_text::{parse_toml_model, toml_model};
use crate::validate::{ManifestKindError, check_manifest_kind};

verus! {

/// A manifest's text in the model: what `toml` reads from it, or `None`
/// when it is not TOML.
pub fn toml_model_of(text: &str) -> (r: Option<TomlValue>)
    ensures
        r == toml_model(text@),
{
    parse_toml_model(text)
}

/// The battery packs a Cargo.toml installs: its `[build-dependencies]`
/// ending in `-battery-pack`, or named `battery-pack`, in the table's order; an
/// error when the text is not TOML.
pub fn installed_bp_names_in(manifest: &str) -> (r: Result<Vec<String>, String>)
    ensures
        match toml_model(manifest@) {
            None => r matches Err(e) && e@ == "Failed to parse Cargo.toml"@,
            Some(raw) => r matches Ok(ns) && ns.deep_view() == bp_names_in(table_entries(toml_get(raw, "build-dependencies"@))),
        },
{
    match parse_toml_model(manifest) {
        None => Err("Failed to parse Cargo.toml".to_string()),
        Some(raw) => Ok(find_installed_bp_names(&raw)),
    }
}

/// The model of an optional manifest text.
pub open spec fn opt_model(text: Option<&str>) -> Option<TomlValue> {
    match text {
        Some(t) => toml_model(t@),
        None => None,
    }
}

/// The active features of a pack, read from package metadata or, with
/// `in_workspace`, from workspace metadata, in ascending order: those
/// recorded, or `default` alone when the text is absent or not TOML or
/// records none.
pub fn active_features_in(manifest: Option<&str>, in_workspace: bool, bp_name: &str) -> (r: Vec<String>)
    ensures
        sorted_keys(r.deep_view()),
        r.deep_view().to_set() == features_at(opt_model(manifest), metadata_prefix(in_workspace), bp_name@),
{
    let raw = match manifest {
        Some(t) => parse_toml_model(t),
        None => None,
    };
    let prefix: [&str; 2] = if in_workspace { ["workspace", "metadata"] } else { ["package", "metadata"] };
    proof {
        assert(prefix@.map_values(|s: &str| s@) =~= metadata_prefix(in_workspace));
    }
    assert(raw == opt_model(manifest));
    let rr = raw.as_ref();
    assert(opt_deref(rr) == raw);
    read_features_at(rr, &prefix, bp_name)
}

/// Whether a workspace manifest already holds `workspace.metadata.battery-pack`
/// (and so is where pack metadata lives); an error when it is not TOML.
pub fn workspace_holds_metadata(ws_manifest: &str) -> (r: Result<bool, String>)
    ensures
        match toml_model(ws_manifest@) {
            None => r matches Err(e) && e@ == "Failed to parse workspace Cargo.toml"@,
            Some(raw) => r == Ok::<bool, String>(get_path(Some(raw), seq!["workspace"@, "metadata"@, "battery-pack"@]) is Some),
        },
{
    match parse_toml_model(ws_manifest) {
        None => Err("Failed to parse workspace Cargo.toml".to_string()),
        Some(raw) => {
            proof {
                reveal_with_fuel(get_path, 4);
            }
            Ok(get_opt(get_opt(get(&raw, "workspace"), "metadata"), "battery-pack").is_some())
        },
    }
}

/// Whether a manifest can be validated as a battery pack: it must be TOML
/// and have a `[package]`; a workspace manifest and anything else are told
/// apart.
pub fn manifest_kind_in(manifest: &str) -> (r: Result<(), ManifestKindError>)
    ensures
        match toml_model(manifest@) {
            None => r == Err::<(), ManifestKindError>(ManifestKindError::NotToml),
            Some(raw) => {
                &&& toml_get(raw, "package"@) is Some ==> r is Ok
                &&& toml_get(raw, "package"@) is None && toml_get(raw, "workspace"@) is Some ==> r == Err::<(), ManifestKindError>(ManifestKindError::Workspace)
                &&& toml_get(raw, "package"@) is None && toml_get(raw, "workspace"@) is None ==> r == Err::<(), ManifestKindError>(ManifestKindError::NoPackage)
            },
        },
{
    match parse_toml_model(manifest) {
        None => Err(ManifestKindError::NotToml),
        Some(raw) => check_manifest_kind(&raw),
    }
}

/// The dependency versions a user manifest states (see `user_versions`),
/// with the workspace manifest's text when the crate is in a workspace; an
/// error when either text is not TOML.
pub fn user_dep_versions_in(manifest: &str, ws_manifest: Option<&str>) -> (r: Result<StrMap<String>, String>)
    ensures
        match toml_model(manifest@) {
            None => r matches Err(e) && e@ == "Failed to parse Cargo.toml"@,
            Some(raw) => match ws_manifest {
                Some(w) if toml_model(w@) is None => r matches Err(e) && e@ == "Failed to parse workspace Cargo.toml"@,
                _ => r matches Ok(m) && m.wf() && m.map() == user_versions(raw, opt_model(ws_manifest)),
            },
        },
{
    let raw = match parse_toml_model(manifest) {
        None => return Err("Failed to parse Cargo.toml".to_string()),
        Some(raw) => raw,
    };
    let ws_raw = match ws_manifest {
        None => None,
        Some(w) => match parse_toml_model(w) {
            None => return Err("Failed to parse workspace Cargo.toml".to_string()),
            Some(x) => Some(x),
        },
    };
    Ok(collect_user_dep_versions(&raw, ws_raw.as_ref()))
}

/// The packs a manifest registers under `package.metadata.battery-pack`, in
/// the table's order.
pub open spec fn registered_names(raw: TomlValue) -> Seq<Seq<char>> {
    table_entries(get_path(Some(raw), seq!["package"@, "metadata"@, "battery-pack"@])).map_values(|e: (String, TomlValue)| e.0@)
}

/// For a generated Cargo.toml: `None` when it has no `bp-managed = true`
/// dependency (nothing to resolve); otherwise the packs it registers, whose
/// specs the resolution needs. Errors when the text is not TOML or a managed
/// entry also sets other keys.
pub fn managed_packs_in(content: &str) -> (r: Result<Option<Vec<String>>, String>)
    ensures
        match toml_model(content@) {
            None => r matches Err(e) && e@ == "failed to parse Cargo.toml"@,
            Some(raw) => match check_from(raw, 0) {
                Err(m) => r matches Err(e) && e@ == m,
                Ok(false) => r matches Ok(None),
                Ok(true) => r matches Ok(Some(ns)) && ns.deep_view() == registered_names(raw),
            },
        },
{
    let raw = match parse_toml_model(content) {
        None => return Err("failed to parse Cargo.toml".to_string()),
        Some(raw) => raw,
    };
    match check_managed(&raw) {
        Err(m) => return Err(m),
        Ok(false) => return Ok(None),
        Ok(true) => {},
    }
    proof {
        reveal_with_fuel(get_path, 4);
    }
    let node = get_opt(get_opt(get(&raw, "package"), "metadata"), "battery-pack");
    let mut names: Vec<String> = Vec::new();
    match node {
        Some(TomlValue::Table(es)) => {
            let mut i: usize = 0;
            while i < es.len()
                invariant
                    i <= es@.len(),
                    names.deep_view() == es@.take(i as int).map_values(|e: (String, TomlValue)| e.0@),
                decreases es.len() - i,
            {
                let ghost before = names.deep_view();
                names.push(es[i].0.clone());
                assert(names.deep_view() =~= before.push(es@[i as int].0@));
                assert(es@.take(i + 1) =~= es@.take(i as int).push(es@[i as int]));
                assert(es@.take(i + 1).map_values(|e: (String, TomlValue)| e.0@) =~= es@.take(i as int).map_values(|e: (String, TomlValue)| e.0@).push(es@[i as int].0@));
                i += 1;
            }
            assert(es@.take(i as int) =~= es@);
        },
        _ => {
            assert(names.deep_view() =~= Seq::<Seq<char>>::empty());
        },
    }
    Ok(Some(names))
}

} // verus!
