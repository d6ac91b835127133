use battery_pack::managed::RegisteredPack;
use battery_pack::manifest_read::{active_features_in, managed_packs_in};
use battery_pack::manifest_write::resolve_bp_managed_content;
use battery_pack::manifest::{BatteryPackSpec, Error};
use battery_pack::manifest_read::toml_model_of;
use battery_pack::raw::{
    from_raw, RawBatteryMetadata, RawBatteryPackMetadata, RawManifest, RawMetadata, RawPackage,
    RawTemplateSpec,
};
use battery_pack::toml_model::TomlValue;

/// The entries of a top-level table of a manifest's model, taken out of it.
fn take_section(model: &mut Option<TomlValue>, key: &str) -> Vec<(String, TomlValue)> {
    let Some(TomlValue::Table(es)) = model else { return Vec::new() };
    match es.iter().position(|(k, _)| k == key) {
        Some(i) => match es.remove(i).1 {
            TomlValue::Table(t) => t,
            _ => Vec::new(),
        },
        None => Vec::new(),
    }
}

fn type_error(what: &str, expected: &str) -> Error {
    Error::Toml(format!("invalid type for `{what}`: expected {expected}"))
}

/// A list of strings, as serde reads it: absent is empty, anything but an
/// array of strings is an error.
fn string_list(v: Option<&toml::Value>, what: &str) -> Result<Vec<String>, Error> {
    let Some(v) = v else { return Ok(Vec::new()) };
    let arr = v.as_array().ok_or_else(|| type_error(what, "a sequence"))?;
    arr.iter()
        .map(|s| s.as_str().map(String::from).ok_or_else(|| type_error(what, "a string")))
        .collect()
}

/// An optional string, as serde reads it: anything but a string is an error.
fn string_field(v: Option<&toml::Value>, what: &str) -> Result<Option<String>, Error> {
    match v {
        None => Ok(None),
        Some(s) => s.as_str().map(|s| Some(s.to_string())).ok_or_else(|| type_error(what, "a string")),
    }
}

fn required_string(v: Option<&toml::Value>, what: &str) -> Result<String, Error> {
    string_field(v, what)?.ok_or_else(|| Error::Toml(format!("missing field `{what}`")))
}

fn raw_templates(b: &toml::Value) -> Result<Vec<(String, RawTemplateSpec)>, Error> {
    let Some(t) = b.get("templates") else { return Ok(Vec::new()) };
    let t = t.as_table().ok_or_else(|| type_error("templates", "a map"))?;
    let mut out = Vec::new();
    for (k, v) in t {
        let path = required_string(v.get("path"), "path")?;
        let description = Some(required_string(v.get("description"), "description")?);
        out.push((k.clone(), RawTemplateSpec { path, description }));
    }
    Ok(out)
}

fn raw_package(p: &toml::Value) -> Result<RawPackage, Error> {
    let metadata = match p.get("metadata") {
        None => None,
        Some(m) => Some(RawMetadata {
            battery_pack: match m.get("battery-pack") {
                None => None,
                Some(bp) => Some(RawBatteryPackMetadata { hidden: string_list(bp.get("hidden"), "hidden")? }),
            },
            battery: match m.get("battery") {
                None => None,
                Some(b) => Some(RawBatteryMetadata { templates: raw_templates(b)? }),
            },
        }),
    };
    Ok(RawPackage {
        name: string_field(p.get("name"), "name")?,
        version: string_field(p.get("version"), "version")?,
        description: string_field(p.get("description"), "description")?,
        repository: string_field(p.get("repository"), "repository")?,
        keywords: string_list(p.get("keywords"), "keywords")?,
        metadata,
    })
}

/// Read a battery pack manifest the way the tool does: TOML first, then the spec.
pub fn parse_battery_pack(manifest: &str) -> Result<BatteryPackSpec, Error> {
    let v: toml::Value = toml::from_str(manifest).map_err(|e| Error::Toml(e.to_string()))?;
    let package = match v.get("package") {
        None => None,
        Some(p) => Some(raw_package(p)?),
    };
    let mut features = Vec::new();
    if let Some(f) = v.get("features") {
        let t = f.as_table().ok_or_else(|| type_error("features", "a map"))?;
        for (k, list) in t {
            features.push((k.clone(), string_list(Some(list), "features")?));
        }
    }
    let mut model = toml_model_of(manifest);
    let raw = RawManifest {
        package,
        features,
        dependencies: take_section(&mut model, "dependencies"),
        dev_dependencies: take_section(&mut model, "dev-dependencies"),
        build_dependencies: take_section(&mut model, "build-dependencies"),
    };
    from_raw(&raw)
}

const BASIC_FIXTURE: &str = r#"
[package]
name = "basic-battery-pack"
version = "0.1.0"
description = "A simple test battery pack"
keywords = ["battery-pack"]

[dependencies]
anyhow = "1"
thiserror = "2"
eyre = { version = "0.6", optional = true }

[features]
default = ["anyhow", "thiserror"]
"#;

const FANCY_FIXTURE: &str = r#"
[package]
name = "fancy-battery-pack"
version = "0.2.0"
description = "A feature-rich test battery pack"
keywords = ["battery-pack"]

[dependencies]
clap = { version = "4", features = ["derive"], optional = true }
dialoguer = { version = "0.11", optional = true }
indicatif = { version = "0.17", optional = true }
console = { version = "0.15", optional = true }
serde = { version = "1", features = ["derive"] }
serde_json = "1"

[dev-dependencies]
assert_cmd = "2"
predicates = "3"

[build-dependencies]
cc = "1"

[features]
default = ["clap", "dialoguer"]
fancy = ["clap", "dialoguer", "indicatif", "console"]
indicators = ["console", "indicatif"]

[package.metadata.battery-pack]
hidden = ["serde*", "cc"]
"#;

const MANAGED_FIXTURE: &str = r#"
[package]
name = "managed-battery-pack"
version = "0.2.0"
description = "A battery pack whose crates projects take as bp-managed"
keywords = ["battery-pack"]

[dependencies]
anyhow = "1"
clap = { version = "4", features = ["derive"] }

[dev-dependencies]
insta = "1.34"

[build-dependencies]
cc = "1.0"
"#;

/// Resolve the bp-managed entries of a generated manifest against the
/// battery packs it registers (here: the managed fixture).
fn resolve_with_fixture(cargo_toml: &str) -> Result<String, String> {
    let Some(bp_names) = managed_packs_in(cargo_toml)? else {
        return Ok(cargo_toml.to_string());
    };
    let mut packs = Vec::new();
    for name in bp_names {
        let spec = match name.as_str() {
            "managed-battery-pack" => parse_battery_pack(MANAGED_FIXTURE).unwrap(),
            other => return Err(format!("battery pack '{other}' not found locally or on crates.io")),
        };
        let active_features = active_features_in(Some(cargo_toml), false, &name);
        packs.push(RegisteredPack { name, spec, active_features });
    }
    resolve_bp_managed_content(cargo_toml, &packs)
}

#[test]
fn tests_resolve_bp_managed_resolves_versions() {
    let cargo_toml = r#"[package]
name = "my-app"
version = "0.1.0"

[dependencies]
anyhow.bp-managed = true
clap.bp-managed = true

[build-dependencies]
managed-battery-pack.bp-managed = true

[package.metadata.battery-pack]
managed-battery-pack = { features = ["default"] }
"#;
    let result = resolve_with_fixture(cargo_toml).unwrap();
    assert!(result.contains(r#"name = "my-app""#), "Expected package name");
    assert!(result.contains(r#"anyhow = "1""#), "Expected anyhow version");
    assert!(result.contains(r#"clap = { version = "4""#), "Expected clap version");
    assert!(result.contains(r#"managed-battery-pack = "0.2.0""#), "Expected managed-battery-pack version");
}

#[test]
fn resolve_bp_managed_resolves_dev_and_build_deps() {
    let cargo_toml = r#"[package]
name = "my-app"
version = "0.1.0"

[dependencies]
anyhow.bp-managed = true

[dev-dependencies]
insta.bp-managed = true

[build-dependencies]
cc.bp-managed = true

[package.metadata.battery-pack]
managed-battery-pack = { features = ["default"] }
"#;
    let result = resolve_with_fixture(cargo_toml).unwrap();
    assert!(result.contains(r#"name = "my-app""#), "Expected package name");
    assert!(result.contains(r#"anyhow = "1""#), "Expected anyhow");
    assert!(result.contains(r#"insta = "1.34""#), "Expected insta");
    assert!(result.contains(r#"cc = "1.0""#), "Expected cc");
}

#[test]
fn tests_resolve_bp_managed_errors_on_version_and_bp_managed() {
    let cargo_toml = r#"[package]
name = "my-app"
version = "0.1.0"

[dependencies]
anyhow = { version = "1", bp-managed = true }

[package.metadata.battery-pack]
managed-battery-pack = { features = ["default"] }
"#;
    let err = resolve_with_fixture(cargo_toml).unwrap_err();
    assert!(
        err.contains("bp-managed") && err.contains("conflicting keys"),
        "should error on both bp-managed and version: {err}"
    );
}

#[test]
fn tests_resolve_bp_managed_leaves_explicit_versions_untouched() {
    let cargo_toml = r#"[package]
name = "my-app"
version = "0.1.0"

[dependencies]
serde = "1.0.200"

[package.metadata.battery-pack]
managed-battery-pack = { features = ["default"] }
"#;
    let result = resolve_with_fixture(cargo_toml).unwrap();
    assert!(result.contains(r#"serde = "1.0.200""#), "explicit version should be untouched: {result}");
}

#[test]
fn tests_resolve_bp_managed_errors_on_unresolvable_dep() {
    let cargo_toml = r#"[package]
name = "my-app"
version = "0.1.0"

[dependencies]
nonexistent.bp-managed = true

[package.metadata.battery-pack]
managed-battery-pack = { features = ["default"] }
"#;
    let err = resolve_with_fixture(cargo_toml).unwrap_err();
    assert!(
        err.contains("nonexistent") && err.contains("no battery pack provides it"),
        "should error on unresolvable dep: {err}"
    );
}

#[test]
fn tests_resolve_bp_managed_noop_without_managed_deps() {
    let cargo_toml = r#"[package]
name = "my-app"
version = "0.1.0"

[dependencies]
serde = "1"
"#;
    let result = resolve_with_fixture(cargo_toml).unwrap();
    assert!(result.contains(r#"serde = "1""#), "should be unchanged: {result}");
}

#[test]
fn tests_resolve_bp_managed_errors_on_features_and_bp_managed() {
    let cargo_toml = r#"[package]
name = "my-app"
version = "0.1.0"

[dependencies]
clap = { bp-managed = true, features = ["derive"] }

[package.metadata.battery-pack]
managed-battery-pack = { features = ["default"] }
"#;
    let err = resolve_with_fixture(cargo_toml).unwrap_err();
    assert!(
        err.contains("conflicting keys") && err.contains("features"),
        "should error on bp-managed with features: {err}"
    );
}

#[test]
fn tests_resolve_bp_managed_errors_on_no_default_features_and_bp_managed() {
    let cargo_toml = r#"[package]
name = "my-app"
version = "0.1.0"

[dependencies]
clap = { bp-managed = true, default-features = false }

[package.metadata.battery-pack]
managed-battery-pack = { features = ["default"] }
"#;
    let err = resolve_with_fixture(cargo_toml).unwrap_err();
    assert!(
        err.contains("conflicting keys") && err.contains("default-features"),
        "should error on bp-managed with default-features: {err}"
    );
}

#[test]
fn resolve_bp_managed_inline_table_syntax() {
    let cargo_toml = r#"[package]
name = "my-app"
version = "0.1.0"

[dependencies]
anyhow = { bp-managed = true }
clap = { bp-managed = true }

[build-dependencies]
managed-battery-pack = { bp-managed = true }

[package.metadata.battery-pack]
managed-battery-pack = { features = ["default"] }
"#;
    let result = resolve_with_fixture(cargo_toml).unwrap();
    assert!(result.contains(r#"name = "my-app""#), "Expected package name");
    assert!(result.contains(r#"anyhow = "1""#), "Expected anyhow");
    assert!(result.contains(r#"clap = { version = "4""#), "Expected clap");
    assert!(result.contains(r#"managed-battery-pack = "0.2.0""#), "Expected managed-battery-pack");
}

#[test]
fn resolve_bp_managed_error_message_is_exact() {
    let cargo_toml = r#"[package]
name = "my-app"
version = "0.1.0"

[dev-dependencies]
ghost.bp-managed = true

[package.metadata.battery-pack]
managed-battery-pack = { features = ["default"] }
"#;
    let err = resolve_with_fixture(cargo_toml).unwrap_err();
    assert_eq!(err, "dependency 'ghost' in [dev-dependencies] has `bp-managed = true` but no battery pack provides it");
}

#[test]
fn resolve_bp_managed_reports_unparsable_manifest() {
    let packs: Vec<RegisteredPack> = Vec::new();
    assert_eq!(resolve_bp_managed_content("[package\n", &packs).unwrap_err(), "failed to parse Cargo.toml");
    let plain = "[package]\nname = \"x\"\n\n[dependencies]\nanyhow = \"1\"\n";
    assert_eq!(resolve_bp_managed_content(plain, &packs).unwrap(), plain);
}
