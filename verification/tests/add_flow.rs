use battery_pack::cli::AddTarget;
use battery_pack::commands::{resolve_add_crates, ResolvedAdd};
use battery_pack::manifest_write::{add_to_manifest, ManifestWrite};
use battery_pack::manifest::{BatteryPackSpec, Error};
use battery_pack::naming::resolve_crate_name;
use battery_pack::manifest_read::toml_model_of;
use battery_pack::raw::{
    from_raw, RawBatteryMetadata, RawBatteryPackMetadata, RawManifest, RawMetadata, RawPackage,
    RawTemplateSpec,
};
use battery_pack::toml_model::TomlValue;

/// The entries of a top-level table of a manifest's model, taken out of it.
fn take_section(model: &mut Option<TomlValue>, key: &str) -> Vec<(String, TomlValue)> {
    let Some(TomlValue::Table(es)) = model else { return Vec::new() };
    match es.iter().position(|(k, _)| k == key) {
        Some(i) => match es.remove(i).1 {
            TomlValue::Table(t) => t,
            _ => Vec::new(),
        },
        None => Vec::new(),
    }
}

fn type_error(what: &str, expected: &str) -> Error {
    Error::Toml(format!("invalid type for `{what}`: expected {expected}"))
}

/// A list of strings, as serde reads it: absent is empty, anything but an
/// array of strings is an error.
fn string_list(v: Option<&toml::Value>, what: &str) -> Result<Vec<String>, Error> {
    let Some(v) = v else { return Ok(Vec::new()) };
    let arr = v.as_array().ok_or_else(|| type_error(what, "a sequence"))?;
    arr.iter()
        .map(|s| s.as_str().map(String::from).ok_or_else(|| type_error(what, "a string")))
        .collect()
}

/// An optional string, as serde reads it: anything but a string is an error.
fn string_field(v: Option<&toml::Value>, what: &str) -> Result<Option<String>, Error> {
    match v {
        None => Ok(None),
        Some(s) => s.as_str().map(|s| Some(s.to_string())).ok_or_else(|| type_error(what, "a string")),
    }
}

fn required_string(v: Option<&toml::Value>, what: &str) -> Result<String, Error> {
    string_field(v, what)?.ok_or_else(|| Error::Toml(format!("missing field `{what}`")))
}

fn raw_templates(b: &toml::Value) -> Result<Vec<(String, RawTemplateSpec)>, Error> {
    let Some(t) = b.get("templates") else { return Ok(Vec::new()) };
    let t = t.as_table().ok_or_else(|| type_error("templates", "a map"))?;
    let mut out = Vec::new();
    for (k, v) in t {
        let path = required_string(v.get("path"), "path")?;
        let description = Some(required_string(v.get("description"), "description")?);
        out.push((k.clone(), RawTemplateSpec { path, description }));
    }
    Ok(out)
}

fn raw_package(p: &toml::Value) -> Result<RawPackage, Error> {
    let metadata = match p.get("metadata") {
        None => None,
        Some(m) => Some(RawMetadata {
            battery_pack: match m.get("battery-pack") {
                None => None,
                Some(bp) => Some(RawBatteryPackMetadata { hidden: string_list(bp.get("hidden"), "hidden")? }),
            },
            battery: match m.get("battery") {
                None => None,
                Some(b) => Some(RawBatteryMetadata { templates: raw_templates(b)? }),
            },
        }),
    };
    Ok(RawPackage {
        name: string_field(p.get("name"), "name")?,
        version: string_field(p.get("version"), "version")?,
        description: string_field(p.get("description"), "description")?,
        repository: string_field(p.get("repository"), "repository")?,
        keywords: string_list(p.get("keywords"), "keywords")?,
        metadata,
    })
}

/// Read a battery pack manifest the way the tool does: TOML first, then the spec.
pub fn parse_battery_pack(manifest: &str) -> Result<BatteryPackSpec, Error> {
    let v: toml::Value = toml::from_str(manifest).map_err(|e| Error::Toml(e.to_string()))?;
    let package = match v.get("package") {
        None => None,
        Some(p) => Some(raw_package(p)?),
    };
    let mut features = Vec::new();
    if let Some(f) = v.get("features") {
        let t = f.as_table().ok_or_else(|| type_error("features", "a map"))?;
        for (k, list) in t {
            features.push((k.clone(), string_list(Some(list), "features")?));
        }
    }
    let mut model = toml_model_of(manifest);
    let raw = RawManifest {
        package,
        features,
        dependencies: take_section(&mut model, "dependencies"),
        dev_dependencies: take_section(&mut model, "dev-dependencies"),
        build_dependencies: take_section(&mut model, "build-dependencies"),
    };
    from_raw(&raw)
}

const BASIC_FIXTURE: &str = r#"
[package]
name = "basic-battery-pack"
version = "0.1.0"
description = "A simple test battery pack"
keywords = ["battery-pack"]

[dependencies]
anyhow = "1"
thiserror = "2"
eyre = { version = "0.6", optional = true }

[features]
default = ["anyhow", "thiserror"]
"#;

const FANCY_FIXTURE: &str = r#"
[package]
name = "fancy-battery-pack"
version = "0.2.0"
description = "A feature-rich test battery pack"
keywords = ["battery-pack"]

[dependencies]
clap = { version = "4", features = ["derive"], optional = true }
dialoguer = { version = "0.11", optional = true }
indicatif = { version = "0.17", optional = true }
console = { version = "0.15", optional = true }
serde = { version = "1", features = ["derive"] }
serde_json = "1"

[dev-dependencies]
assert_cmd = "2"
predicates = "3"

[build-dependencies]
cc = "1"

[features]
default = ["clap", "dialoguer"]
fancy = ["clap", "dialoguer", "indicatif", "console"]
indicators = ["console", "indicatif"]

[package.metadata.battery-pack]
hidden = ["serde*", "cc"]
"#;

const MANAGED_FIXTURE: &str = r#"
[package]
name = "managed-battery-pack"
version = "0.2.0"
description = "A battery pack whose crates projects take as bp-managed"
keywords = ["battery-pack"]

[dependencies]
anyhow = "1"
clap = { version = "4", features = ["derive"] }

[dev-dependencies]
insta = "1.34"

[build-dependencies]
cc = "1.0"
"#;

const PROJECT: &str = r#"[package]
name = "test-project"
version = "0.1.0"
edition = "2021"
"#;

#[derive(Clone, Copy)]
enum FeatureMode {
    Default,
    NoDefault,
    All,
}

fn fixture_text(fixture: &str) -> &'static str {
    match fixture {
        "basic-battery-pack" => BASIC_FIXTURE,
        "fancy-battery-pack" => FANCY_FIXTURE,
        "managed-battery-pack" => MANAGED_FIXTURE,
        other => panic!("unknown fixture {other}"),
    }
}

/// Run the add flow against a project manifest: resolve the crates, plan the
/// edits, and write them into the manifest text.
fn add(
    pack_name: &str,
    fixture: &str,
    features: &[&str],
    feature_mode: FeatureMode,
    specific_crates: &[&str],
    target: Option<AddTarget>,
    project: &mut String,
) {
    let (no_default_features, all_features) = match feature_mode {
        FeatureMode::Default => (false, false),
        FeatureMode::NoDefault => (true, false),
        FeatureMode::All => (false, true),
    };
    let crate_name = resolve_crate_name(pack_name);
    let spec = parse_battery_pack(fixture_text(fixture)).unwrap();
    let features: Vec<String> = features.iter().map(|s| s.to_string()).collect();
    let specific: Vec<String> = specific_crates.iter().map(|s| s.to_string()).collect();
    let (active, crates) = match resolve_add_crates(&spec, &crate_name, &features, no_default_features, all_features, &specific) {
        ResolvedAdd::Crates { active_features, crates } => (active_features, crates),
        ResolvedAdd::Interactive => (vec!["default".to_string()], spec.resolve_crates(&["default"])),
    };
    let fixture_path = format!("/fixtures/{fixture}");
    match add_to_manifest(project, None, &crate_name, None, Some(&fixture_path), &crates, &active, target).unwrap() {
        ManifestWrite::NoCrates => {}
        ManifestWrite::Write { manifest, workspace } => {
            assert!(workspace.is_none());
            *project = manifest;
        }
    }
}

/// Extract a TOML section by header name (e.g. "[dependencies]") from raw text.
fn extract_section(toml_text: &str, section: &str) -> String {
    let mut result = String::new();
    let mut in_section = false;
    for line in toml_text.lines() {
        if line.trim() == section {
            in_section = true;
            result.push_str(line);
            result.push('\n');
            continue;
        }
        if in_section {
            if line.starts_with('[') {
                break;
            }
            result.push_str(line);
            result.push('\n');
        }
    }
    result
}

/// The pack's metadata table, pretty-printed.
fn extract_metadata(toml_text: &str, bp_name: &str) -> String {
    let doc: toml::Value = toml::from_str(toml_text).unwrap();
    let bp_meta = doc
        .get("package")
        .and_then(|p| p.get("metadata"))
        .and_then(|m| m.get("battery-pack"))
        .and_then(|bp| bp.get(bp_name));
    match bp_meta {
        Some(val) => format!("[package.metadata.battery-pack.{bp_name}]\n{}", toml::to_string_pretty(val).unwrap()),
        None => String::new(),
    }
}

#[test]
fn tests_add_registers_build_dep() {
    let mut project = PROJECT.to_string();
    add("basic", "basic-battery-pack", &["default"], FeatureMode::Default, &[], None, &mut project);
    let build_deps = extract_section(&project, "[build-dependencies]");
    assert!(build_deps.contains("basic-battery-pack"), "battery pack should appear in [build-dependencies]: {build_deps}");
    assert!(build_deps.contains("path ="), "should be a path dependency: {build_deps}");
}

#[test]
fn add_default_includes_dev_and_build_deps() {
    let mut project = PROJECT.to_string();
    add("managed", "managed-battery-pack", &["default"], FeatureMode::Default, &[], None, &mut project);
    let dev_deps = extract_section(&project, "[dev-dependencies]");
    let build_deps = extract_section(&project, "[build-dependencies]");
    assert!(dev_deps.contains("insta"), "dev-dep should be included with default features: {dev_deps}");
    assert!(build_deps.contains("cc"), "build-dep should be included with default features: {build_deps}");
}

#[test]
fn tests_add_with_named_feature_writes_deps() {
    let mut project = PROJECT.to_string();
    add("fancy", "fancy-battery-pack", &["indicators"], FeatureMode::Default, &[], None, &mut project);
    let deps = extract_section(&project, "[dependencies]");
    assert!(deps.contains("clap"), "Expected clap");
    assert!(deps.contains("console"), "Expected console");
    assert!(deps.contains("dialoguer"), "Expected dialoguer");
    assert!(deps.contains("indicatif"), "Expected indicatif");
}

#[test]
fn tests_add_no_default_features_with_feature() {
    let mut project = PROJECT.to_string();
    add("fancy", "fancy-battery-pack", &["indicators"], FeatureMode::NoDefault, &[], None, &mut project);
    let deps = extract_section(&project, "[dependencies]");
    assert!(deps.contains("console"), "Expected console dependency");
    assert!(deps.contains("indicatif"), "Expected indicatif dependency");
}

#[test]
fn tests_add_no_default_features_alone_writes_no_deps() {
    let mut project = PROJECT.to_string();
    add("basic", "basic-battery-pack", &[], FeatureMode::NoDefault, &[], None, &mut project);
    let deps = extract_section(&project, "[dependencies]");
    assert!(deps.is_empty(), "Expected empty dependencies");
}

#[test]
fn tests_add_all_features_basic() {
    let mut project = PROJECT.to_string();
    add("basic", "basic-battery-pack", &[], FeatureMode::All, &[], None, &mut project);
    let deps = extract_section(&project, "[dependencies]");
    assert!(deps.contains("anyhow"), "Expected anyhow dependency");
    assert!(deps.contains("eyre"), "Expected eyre dependency");
    assert!(deps.contains("thiserror"), "Expected thiserror dependency");
}

#[test]
fn tests_add_all_features_records_metadata() {
    let mut project = PROJECT.to_string();
    add("basic", "basic-battery-pack", &[], FeatureMode::All, &[], None, &mut project);
    let meta = extract_metadata(&project, "basic-battery-pack");
    assert!(meta.contains("basic-battery-pack"), "Expected basic-battery-pack metadata");
    assert!(meta.contains("features"), "Expected features");
    assert!(meta.contains("all"), "Expected all feature");
}

#[test]
fn tests_add_all_features_fancy() {
    let mut project = PROJECT.to_string();
    add("fancy", "fancy-battery-pack", &[], FeatureMode::All, &[], None, &mut project);
    let deps = extract_section(&project, "[dependencies]");
    let dev_deps = extract_section(&project, "[dev-dependencies]");
    let build_deps = extract_section(&project, "[build-dependencies]");
    assert!(deps.contains("clap"), "Expected clap dependency");
    assert!(deps.contains("console"), "Expected console dependency");
    assert!(deps.contains("dialoguer"), "Expected dialoguer dependency");
    assert!(deps.contains("indicatif"), "Expected indicatif dependency");
    assert!(dev_deps.contains("assert_cmd"), "Expected assert_cmd in dev-dependencies");
    assert!(dev_deps.contains("predicates"), "Expected predicates in dev-dependencies");
    assert!(!build_deps.contains("cc = \"1.0\""), "cc is hidden and should not appear in [build-dependencies]: {build_deps}");
}

#[test]
fn tests_add_specific_crates_writes_only_named() {
    let mut project = PROJECT.to_string();
    add("fancy", "fancy-battery-pack", &[], FeatureMode::Default, &["clap"], None, &mut project);
    let deps = extract_section(&project, "[dependencies]");
    assert!(deps.contains("clap"), "Expected clap dependency with derive feature");
    assert!(deps.contains("version"), "Expected version");
}

#[test]
fn tests_add_unknown_crate_writes_valid_ones() {
    let mut project = PROJECT.to_string();
    add("fancy", "fancy-battery-pack", &[], FeatureMode::Default, &["nonexistent", "clap"], None, &mut project);
    let deps = extract_section(&project, "[dependencies]");
    assert!(deps.contains("clap"), "Expected clap dependency");
    assert!(!deps.contains("nonexistent"), "Expected nonexistent to not be in deps");
}

#[test]
fn tests_add_target_package_writes_metadata() {
    let mut project = PROJECT.to_string();
    add("basic", "basic-battery-pack", &["default"], FeatureMode::Default, &[], Some(AddTarget::Package), &mut project);
    let meta = extract_metadata(&project, "basic-battery-pack");
    assert!(meta.contains("basic-battery-pack"), "Expected basic-battery-pack metadata");
    assert!(meta.contains("features"), "Expected features");
    assert!(meta.contains("default"), "Expected default feature");
}

#[test]
fn add_writes_exact_entries_for_basic_defaults() {
    let mut project = PROJECT.to_string();
    add("basic", "basic-battery-pack", &["default"], FeatureMode::Default, &[], None, &mut project);
    let deps = extract_section(&project, "[dependencies]");
    assert_eq!(deps, "[dependencies]\nanyhow = \"1\"\nthiserror = \"2\"\n");
    let meta = extract_metadata(&project, "basic-battery-pack");
    assert_eq!(meta, "[package.metadata.battery-pack.basic-battery-pack]\nfeatures = [\"default\"]\n");
}

#[test]
fn add_twice_leaves_one_entry_per_crate() {
    let mut project = PROJECT.to_string();
    add("basic", "basic-battery-pack", &["default"], FeatureMode::Default, &[], None, &mut project);
    let first = project.clone();
    add("basic", "basic-battery-pack", &["default"], FeatureMode::Default, &[], None, &mut project);
    assert_eq!(first, project);
}

#[test]
fn add_twice_leaves_manifest_unchanged() {
    let mut project = PROJECT.to_string();
    add("fancy", "fancy-battery-pack", &["indicators"], FeatureMode::Default, &[], None, &mut project);
    let once = project.clone();
    add("fancy", "fancy-battery-pack", &["indicators"], FeatureMode::Default, &[], None, &mut project);
    assert_eq!(project, once);
}

#[test]
fn add_keeps_existing_formatting_and_order() {
    let mut project = String::from("[package]\nname = \"p\"   # the name\nversion = \"0.1.0\"\n\n[dependencies]\nzzz = \"1\"\naaa = \"2\"\n");
    add("basic", "basic-battery-pack", &["default"], FeatureMode::Default, &[], None, &mut project);
    assert!(project.starts_with("[package]\nname = \"p\"   # the name\nversion = \"0.1.0\"\n"), "{project}");
    let deps = extract_section(&project, "[dependencies]");
    assert!(deps.starts_with("[dependencies]\nzzz = \"1\"\naaa = \"2\"\n"), "{deps}");
    assert!(deps.contains("anyhow = \"1\""), "{deps}");
    assert!(deps.find("zzz").unwrap() < deps.find("anyhow").unwrap(), "{deps}");
}

#[test]
fn add_with_workspace_writes_both_manifests() {
    let spec = parse_battery_pack(BASIC_FIXTURE).unwrap();
    let crates = spec.resolve_crates(&["default"]);
    let active = vec!["default".to_string()];
    let ws = "[workspace]\nmembers = [\"p\"]\n";
    match add_to_manifest(PROJECT, Some(ws), "basic-battery-pack", Some("0.1.0"), None, &crates, &active, None).unwrap() {
        ManifestWrite::Write { manifest, workspace } => {
            let workspace = workspace.unwrap();
            let ws_deps = extract_section(&workspace, "[workspace.dependencies]");
            assert!(ws_deps.contains("basic-battery-pack = \"0.1.0\""), "{workspace}");
            assert!(ws_deps.contains("anyhow = \"1\""), "{workspace}");
            let deps = extract_section(&manifest, "[dependencies]");
            assert!(deps.contains("anyhow = { workspace = true }"), "{manifest}");
            let build = extract_section(&manifest, "[build-dependencies]");
            assert!(build.contains("basic-battery-pack = { workspace = true }"), "{manifest}");
            assert!(workspace.contains("[workspace.metadata.battery-pack.basic-battery-pack]"), "{workspace}");
        }
        ManifestWrite::NoCrates => panic!("crates were selected"),
    }
}

#[test]
fn add_reports_unparsable_manifest() {
    let spec = parse_battery_pack(BASIC_FIXTURE).unwrap();
    let crates = spec.resolve_crates(&["default"]);
    let active = vec!["default".to_string()];
    let r = add_to_manifest("[package\n", None, "basic-battery-pack", Some("0.1.0"), None, &crates, &active, None);
    assert_eq!(r.unwrap_err(), "Failed to parse Cargo.toml");
}
