use battery_pack::commands::{pack_warnings, picker_label_parts, picker_result, picker_rows};
use battery_pack::manifest::{BatteryPackSpec, CrateSpec, DepKind, Error};
use battery_pack::manifest_read::toml_model_of;
use battery_pack::raw::{
    from_raw, RawBatteryMetadata, RawBatteryPackMetadata, RawManifest, RawMetadata, RawPackage,
    RawTemplateSpec,
};
use battery_pack::strmap::StrMap;
use battery_pack::toml_model::TomlValue;

/// The entries of a top-level table of a manifest's model, taken out of it.
fn take_section(model: &mut Option<TomlValue>, key: &str) -> Vec<(String, TomlValue)> {
    let Some(TomlValue::Table(es)) = model else { return Vec::new() };
    match es.iter().position(|(k, _)| k == key) {
        Some(i) => match es.remove(i).1 {
            TomlValue::Table(t) => t,
            _ => Vec::new(),
        },
        None => Vec::new(),
    }
}

fn type_error(what: &str, expected: &str) -> Error {
    Error::Toml(format!("invalid type for `{what}`: expected {expected}"))
}

/// A list of strings, as serde reads it: absent is empty, anything but an
/// array of strings is an error.
fn string_list(v: Option<&toml::Value>, what: &str) -> Result<Vec<String>, Error> {
    let Some(v) = v else { return Ok(Vec::new()) };
    let arr = v.as_array().ok_or_else(|| type_error(what, "a sequence"))?;
    arr.iter()
        .map(|s| s.as_str().map(String::from).ok_or_else(|| type_error(what, "a string")))
        .collect()
}

/// An optional string, as serde reads it: anything but a string is an error.
fn string_field(v: Option<&toml::Value>, what: &str) -> Result<Option<String>, Error> {
    match v {
        None => Ok(None),
        Some(s) => s.as_str().map(|s| Some(s.to_string())).ok_or_else(|| type_error(what, "a string")),
    }
}

fn required_string(v: Option<&toml::Value>, what: &str) -> Result<String, Error> {
    string_field(v, what)?.ok_or_else(|| Error::Toml(format!("missing field `{what}`")))
}

fn raw_templates(b: &toml::Value) -> Result<Vec<(String, RawTemplateSpec)>, Error> {
    let Some(t) = b.get("templates") else { return Ok(Vec::new()) };
    let t = t.as_table().ok_or_else(|| type_error("templates", "a map"))?;
    let mut out = Vec::new();
    for (k, v) in t {
        let path = required_string(v.get("path"), "path")?;
        let description = Some(required_string(v.get("description"), "description")?);
        out.push((k.clone(), RawTemplateSpec { path, description }));
    }
    Ok(out)
}

fn raw_package(p: &toml::Value) -> Result<RawPackage, Error> {
    let metadata = match p.get("metadata") {
        None => None,
        Some(m) => Some(RawMetadata {
            battery_pack: match m.get("battery-pack") {
                None => None,
                Some(bp) => Some(RawBatteryPackMetadata { hidden: string_list(bp.get("hidden"), "hidden")? }),
            },
            battery: match m.get("battery") {
                None => None,
                Some(b) => Some(RawBatteryMetadata { templates: raw_templates(b)? }),
            },
        }),
    };
    Ok(RawPackage {
        name: string_field(p.get("name"), "name")?,
        version: string_field(p.get("version"), "version")?,
        description: string_field(p.get("description"), "description")?,
        repository: string_field(p.get("repository"), "repository")?,
        keywords: string_list(p.get("keywords"), "keywords")?,
        metadata,
    })
}

/// Read a battery pack manifest the way the tool does: TOML first, then the spec.
pub fn parse_battery_pack(manifest: &str) -> Result<BatteryPackSpec, Error> {
    let v: toml::Value = toml::from_str(manifest).map_err(|e| Error::Toml(e.to_string()))?;
    let package = match v.get("package") {
        None => None,
        Some(p) => Some(raw_package(p)?),
    };
    let mut features = Vec::new();
    if let Some(f) = v.get("features") {
        let t = f.as_table().ok_or_else(|| type_error("features", "a map"))?;
        for (k, list) in t {
            features.push((k.clone(), string_list(Some(list), "features")?));
        }
    }
    let mut model = toml_model_of(manifest);
    let raw = RawManifest {
        package,
        features,
        dependencies: take_section(&mut model, "dependencies"),
        dev_dependencies: take_section(&mut model, "dev-dependencies"),
        build_dependencies: take_section(&mut model, "build-dependencies"),
    };
    from_raw(&raw)
}

const BASIC_FIXTURE: &str = r#"
[package]
name = "basic-battery-pack"
version = "0.1.0"
description = "A simple test battery pack"
keywords = ["battery-pack"]

[dependencies]
anyhow = "1"
thiserror = "2"
eyre = { version = "0.6", optional = true }

[features]
default = ["anyhow", "thiserror"]
"#;

const FANCY_FIXTURE: &str = r#"
[package]
name = "fancy-battery-pack"
version = "0.2.0"
description = "A feature-rich test battery pack"
keywords = ["battery-pack"]

[dependencies]
clap = { version = "4", features = ["derive"], optional = true }
dialoguer = { version = "0.11", optional = true }
indicatif = { version = "0.17", optional = true }
console = { version = "0.15", optional = true }
serde = { version = "1", features = ["derive"] }
serde_json = "1"

[dev-dependencies]
assert_cmd = "2"
predicates = "3"

[build-dependencies]
cc = "1"

[features]
default = ["clap", "dialoguer"]
fancy = ["clap", "dialoguer", "indicatif", "console"]
indicators = ["console", "indicatif"]

[package.metadata.battery-pack]
hidden = ["serde*", "cc"]
"#;

const MANAGED_FIXTURE: &str = r#"
[package]
name = "managed-battery-pack"
version = "0.2.0"
description = "A battery pack whose crates projects take as bp-managed"
keywords = ["battery-pack"]

[dependencies]
anyhow = "1"
clap = { version = "4", features = ["derive"] }

[dev-dependencies]
insta = "1.34"

[build-dependencies]
cc = "1.0"
"#;

#[test]
fn picker_rows_label_version_features_and_group() {
    let spec = parse_battery_pack(FANCY_FIXTURE).unwrap();
    let rows = picker_rows(&spec).unwrap();
    let labels: Vec<(String, String, String)> = rows
        .iter()
        .map(|r| {
            let (v, g) = picker_label_parts(r);
            (r.name.clone(), v, g)
        })
        .collect();
    assert!(labels.contains(&("clap".to_string(), "(4, features: derive)".to_string(), String::new())));
    assert!(labels.contains(&("indicatif".to_string(), "(0.17)".to_string(), " [fancy]".to_string())));
    let empty = parse_battery_pack("[package]\nname = \"empty-battery-pack\"\nversion = \"0.1.0\"\n").unwrap();
    assert_eq!(picker_rows(&empty).unwrap_err(), "Battery pack has no crates to add");
}

#[test]
fn picker_selection_records_covered_features() {
    let spec = parse_battery_pack(FANCY_FIXTURE).unwrap();
    let rows = picker_rows(&spec).unwrap();
    let pick = |names: &[&str]| -> Vec<usize> {
        names.iter().map(|n| rows.iter().position(|r| r.name == *n).unwrap()).collect()
    };
    let r = picker_result(&spec, &rows, &pick(&["console", "indicatif"]));
    let crates: Vec<&str> = r.crates.entries.iter().map(|(k, _)| k.as_str()).collect();
    assert_eq!(crates, vec!["console", "indicatif"]);
    assert_eq!(r.active_features, vec!["default", "indicators"]);
    let r = picker_result(&spec, &rows, &pick(&["clap", "dialoguer", "console", "indicatif"]));
    assert_eq!(r.active_features, vec!["default", "fancy", "indicators"]);
}

#[test]
fn status_warns_only_about_outdated_crates() {
    let mut expected = StrMap::new();
    let s = |v: &str| CrateSpec { version: v.to_string(), features: vec![], dep_kind: DepKind::Normal, optional: false };
    expected.insert("anyhow".to_string(), s("1.0.80"));
    expected.insert("clap".to_string(), s("4.5"));
    expected.insert("serde".to_string(), s(""));
    expected.insert("tokio".to_string(), s("1"));
    let mut user = StrMap::new();
    user.insert("anyhow".to_string(), "1.0.50".to_string());
    user.insert("clap".to_string(), "4.6".to_string());
    user.insert("serde".to_string(), "0.9".to_string());
    let w = pack_warnings(&expected, &user);
    assert_eq!(w, vec![("anyhow".to_string(), "1.0.50".to_string(), "1.0.80".to_string())]);
    let _ = TomlValue::Other;
}
