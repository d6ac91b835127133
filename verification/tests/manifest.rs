use battery_pack::docs::{build_context, crate_table};
use battery_pack::glob::glob_match;
use battery_pack::manifest::{BatteryPackSpec, CrateSpec, DepKind, Error};
use battery_pack::report::{Severity, ValidationReport};
use battery_pack::merge_specs::merge_crate_specs;
use battery_pack::manifest_read::toml_model_of;
use battery_pack::raw::{
    from_raw, keep_battery_packs, RawBatteryMetadata, RawBatteryPackMetadata, RawManifest, RawMetadata, RawPackage,
    RawTemplateSpec,
};
use battery_pack::strmap::StrMap;
use battery_pack::toml_model::TomlValue;
use battery_pack::version::compare_versions;
use std::cmp::Ordering;

/// The entries of a top-level table of a manifest's model, taken out of it.
fn take_section(model: &mut Option<TomlValue>, key: &str) -> Vec<(String, TomlValue)> {
    let Some(TomlValue::Table(es)) = model else { return Vec::new() };
    match es.iter().position(|(k, _)| k == key) {
        Some(i) => match es.remove(i).1 {
            TomlValue::Table(t) => t,
            _ => Vec::new(),
        },
        None => Vec::new(),
    }
}

fn type_error(what: &str, expected: &str) -> Error {
    Error::Toml(format!("invalid type for `{what}`: expected {expected}"))
}

/// A list of strings, as serde reads it: absent is empty, anything but an
/// array of strings is an error.
fn string_list(v: Option<&toml::Value>, what: &str) -> Result<Vec<String>, Error> {
    let Some(v) = v else { return Ok(Vec::new()) };
    let arr = v.as_array().ok_or_else(|| type_error(what, "a sequence"))?;
    arr.iter()
        .map(|s| s.as_str().map(String::from).ok_or_else(|| type_error(what, "a string")))
        .collect()
}

/// An optional string, as serde reads it: anything but a string is an error.
fn string_field(v: Option<&toml::Value>, what: &str) -> Result<Option<String>, Error> {
    match v {
        None => Ok(None),
        Some(s) => s.as_str().map(|s| Some(s.to_string())).ok_or_else(|| type_error(what, "a string")),
    }
}

fn required_string(v: Option<&toml::Value>, what: &str) -> Result<String, Error> {
    string_field(v, what)?.ok_or_else(|| Error::Toml(format!("missing field `{what}`")))
}

fn raw_templates(b: &toml::Value) -> Result<Vec<(String, RawTemplateSpec)>, Error> {
    let Some(t) = b.get("templates") else { return Ok(Vec::new()) };
    let t = t.as_table().ok_or_else(|| type_error("templates", "a map"))?;
    let mut out = Vec::new();
    for (k, v) in t {
        let path = required_string(v.get("path"), "path")?;
        let description = Some(required_string(v.get("description"), "description")?);
        out.push((k.clone(), RawTemplateSpec { path, description }));
    }
    Ok(out)
}

fn raw_package(p: &toml::Value) -> Result<RawPackage, Error> {
    let metadata = match p.get("metadata") {
        None => None,
        Some(m) => Some(RawMetadata {
            battery_pack: match m.get("battery-pack") {
                None => None,
                Some(bp) => Some(RawBatteryPackMetadata { hidden: string_list(bp.get("hidden"), "hidden")? }),
            },
            battery: match m.get("battery") {
                None => None,
                Some(b) => Some(RawBatteryMetadata { templates: raw_templates(b)? }),
            },
        }),
    };
    Ok(RawPackage {
        name: string_field(p.get("name"), "name")?,
        version: string_field(p.get("version"), "version")?,
        description: string_field(p.get("description"), "description")?,
        repository: string_field(p.get("repository"), "repository")?,
        keywords: string_list(p.get("keywords"), "keywords")?,
        metadata,
    })
}

/// Read a battery pack manifest the way the tool does: TOML first, then the spec.
pub fn parse_battery_pack(manifest: &str) -> Result<BatteryPackSpec, Error> {
    let v: toml::Value = toml::from_str(manifest).map_err(|e| Error::Toml(e.to_string()))?;
    let package = match v.get("package") {
        None => None,
        Some(p) => Some(raw_package(p)?),
    };
    let mut features = Vec::new();
    if let Some(f) = v.get("features") {
        let t = f.as_table().ok_or_else(|| type_error("features", "a map"))?;
        for (k, list) in t {
            features.push((k.clone(), string_list(Some(list), "features")?));
        }
    }
    let mut model = toml_model_of(manifest);
    let raw = RawManifest {
        package,
        features,
        dependencies: take_section(&mut model, "dependencies"),
        dev_dependencies: take_section(&mut model, "dev-dependencies"),
        build_dependencies: take_section(&mut model, "build-dependencies"),
    };
    from_raw(&raw)
}

const BASIC_FIXTURE: &str = r#"
[package]
name = "basic-battery-pack"
version = "0.1.0"
description = "A simple test battery pack"
keywords = ["battery-pack"]

[dependencies]
anyhow = "1"
thiserror = "2"
eyre = { version = "0.6", optional = true }

[features]
default = ["anyhow", "thiserror"]
"#;

const FANCY_FIXTURE: &str = r#"
[package]
name = "fancy-battery-pack"
version = "0.1.0"
description = "A fancy test battery pack"
keywords = ["battery-pack"]

[dependencies]
clap = { version = "4", features = ["derive"], optional = true }
dialoguer = { version = "0.11", optional = true }
indicatif = { version = "0.17", optional = true }
console = { version = "0.15", optional = true }
serde = { version = "1", features = ["derive"] }
serde_json = "1"

[dev-dependencies]
assert_cmd = "2"
predicates = "3"

[build-dependencies]
cc = "1"

[features]
default = ["clap", "dialoguer"]
fancy = ["clap", "dialoguer", "indicatif", "console"]
indicators = ["console", "indicatif"]

[package.metadata.battery-pack]
hidden = ["serde*", "cc"]
"#;

fn mock_descriptions() -> StrMap<String> {
    let mut m = StrMap::new();
    for (k, v) in [
        ("anyhow", "Flexible concrete Error type built on std::error::Error"),
        ("thiserror", "derive(Error)"),
        ("eyre", "Flexible concrete Error type for easy idiomatic error handling"),
        ("clap", "A simple to use, efficient, and full-featured Command Line Argument Parser"),
        ("dialoguer", "A command line prompting library"),
        ("indicatif", "A progress bar and CLI reporting library"),
        ("console", "A terminal and console abstraction for Rust"),
        ("serde", "A serialization framework"),
        ("serde_json", "A JSON serialization file format"),
        ("cc", "A build-time C compiler detection"),
        ("assert_cmd", "Easy command testing"),
        ("predicates", "Boolean predicate combinators"),
    ] {
        m.insert(k.to_string(), v.to_string());
    }
    m
}

fn crate_spec(version: &str, features: &[&str], dep_kind: DepKind) -> CrateSpec {
    CrateSpec {
        version: version.to_string(),
        features: features.iter().map(|s| s.to_string()).collect(),
        dep_kind,
        optional: false,
    }
}

fn pack(entries: Vec<(&str, CrateSpec)>) -> StrMap<CrateSpec> {
    let mut m = StrMap::new();
    for (k, v) in entries {
        m.insert(k.to_string(), v);
    }
    m
}

#[test]
fn test_context_readme() {
    let spec = parse_battery_pack(BASIC_FIXTURE).unwrap();
    let descriptions = mock_descriptions();
    let readme = "# My Battery Pack\n\nThis is great.";
    let ctx = build_context(&spec, &descriptions, readme);
    assert_eq!(ctx.readme, readme);
}

#[test]
fn test_context_dep_kinds() {
    let spec = parse_battery_pack(FANCY_FIXTURE).unwrap();
    let descriptions = mock_descriptions();
    let ctx = build_context(&spec, &descriptions, "");

    let clap = ctx.crates.iter().find(|c| c.name == "clap").unwrap();
    assert_eq!(clap.dep_kind, "dependencies");

    let assert_cmd = ctx.crates.iter().find(|c| c.name == "assert_cmd").unwrap();
    assert_eq!(assert_cmd.dep_kind, "dev-dependencies");

    assert!(ctx.crates.iter().all(|c| c.name != "cc"));
}

#[test]
fn context_lists_visible_crates_and_features_in_order() {
    let spec = parse_battery_pack(FANCY_FIXTURE).unwrap();
    let ctx = build_context(&spec, &mock_descriptions(), "");
    let names: Vec<&str> = ctx.crates.iter().map(|c| c.name.as_str()).collect();
    assert_eq!(names.join(", "), "assert_cmd, clap, console, dialoguer, indicatif, predicates");
    let feature_names: Vec<&str> = ctx.features.iter().map(|f| f.name.as_str()).collect();
    assert_eq!(feature_names.join(", "), "default, fancy, indicators");
    let indicators = ctx.features.iter().find(|f| f.name == "indicators").unwrap();
    assert_eq!(indicators.crates, vec!["console", "indicatif"]);
    let clap = ctx.crates.iter().find(|c| c.name == "clap").unwrap();
    assert_eq!(clap.description, "A simple to use, efficient, and full-featured Command Line Argument Parser");
    assert_eq!(clap.features, vec!["derive"]);
}

#[test]
fn crate_table_lists_visible_crates() {
    let spec = parse_battery_pack(BASIC_FIXTURE).unwrap();
    let ctx = build_context(&spec, &mock_descriptions(), "");
    let table = crate_table(&ctx);
    let mut lines = table.lines();
    assert_eq!(lines.next(), Some("| Crate | Version | Description |"));
    assert_eq!(lines.next(), Some("|-------|---------|-------------|"));
    let anyhow = ctx.crates.iter().find(|c| c.name == "anyhow").unwrap();
    let row = format!("| [anyhow](https://crates.io/crates/anyhow) | 1 | {} |", anyhow.description);
    assert!(table.lines().any(|l| l == row), "{table}");
    assert_eq!(table.lines().count(), 2 + ctx.crates.len());
    let empty = parse_battery_pack("[package]\nname = \"empty-battery-pack\"\nversion = \"0.1.0\"\n").unwrap();
    assert_eq!(crate_table(&build_context(&empty, &mock_descriptions(), "")), "");
}

#[test]
fn full_battery_pack_parse() {
    let manifest = r#"
        [package]
        name = "cli-battery-pack"
        version = "0.3.0"
        description = "CLI essentials for Rust applications"
        repository = "https://github.com/battery-pack-rs/battery-pack"
        keywords = ["battery-pack"]

        [dependencies]
        clap = { version = "4", features = ["derive"] }
        dialoguer = "0.11"
        indicatif = { version = "0.17", optional = true }
        console = { version = "0.15", optional = true }

        [dev-dependencies]
        assert_cmd = "2.0"

        [build-dependencies]
        cc = "1.0"

        [features]
        default = ["clap", "dialoguer"]
        indicators = ["indicatif", "console"]
        fancy = ["clap", "indicatif", "console"]

        [package.metadata.battery-pack]
        hidden = ["cc"]

        [package.metadata.battery.templates]
        default = { path = "templates/default", description = "Basic CLI app" }
    "#;

    let spec = parse_battery_pack(manifest).unwrap();
    assert!(spec.validate().is_ok());
    assert_eq!(spec.name, "cli-battery-pack");
    assert_eq!(spec.version, "0.3.0");
    assert_eq!(spec.description, "CLI essentials for Rust applications");
    assert_eq!(spec.crates.len(), 6);
    assert_eq!(spec.crates.get("clap").unwrap().dep_kind, DepKind::Normal);
    assert_eq!(spec.crates.get("assert_cmd").unwrap().dep_kind, DepKind::Dev);
    assert_eq!(spec.crates.get("cc").unwrap().dep_kind, DepKind::Build);
    assert!(spec.crates.get("indicatif").unwrap().optional);
    assert!(!spec.crates.get("clap").unwrap().optional);
    assert_eq!(spec.features.len(), 3);
    assert!(spec.is_hidden("cc"));
    assert!(!spec.is_hidden("clap"));
    assert_eq!(spec.visible_crates().len(), 5);
    assert_eq!(spec.templates.len(), 1);

    let default = spec.resolve_crates(&[]);
    assert_eq!(default.len(), 2);
    assert!(default.contains_key("clap"));
    assert!(default.contains_key("dialoguer"));
    let with_indicators = spec.resolve_crates(&["default", "indicators"]);
    assert_eq!(with_indicators.len(), 4);
    let only_indicators = spec.resolve_crates(&["indicators"]);
    assert_eq!(only_indicators.len(), 2);
    assert!(only_indicators.contains_key("indicatif"));
    assert!(only_indicators.contains_key("console"));
    assert_eq!(spec.resolve_all().len(), 6);
}

#[test]
fn missing_package_fields_are_errors() {
    assert!(matches!(parse_battery_pack("[dependencies]\nx = \"1\"\n"), Err(Error::MissingField("[package] section"))));
    assert!(matches!(parse_battery_pack("[package]\nversion = \"1\"\n"), Err(Error::MissingField("package.name"))));
    assert!(matches!(parse_battery_pack("[package]\nname = \"a\"\n"), Err(Error::MissingField("package.version"))));
}

#[test]
fn validate_spec_reports_name_keyword_and_features() {
    let spec = parse_battery_pack(
        r#"
        [package]
        name = "oops"
        version = "0.1.0"

        [dependencies]
        a = "1"

        [features]
        default = ["a", "missing"]
        "#,
    )
    .unwrap();
    let report = spec.validate_spec();
    assert!(report.has_errors());
    assert!(report.diagnostics.iter().any(|d| d.rule == "format.crate.name" && d.severity == Severity::Error));
    assert!(report.diagnostics.iter().any(|d| d.rule == "format.features.grouping" && d.message.contains("missing")));
    assert!(matches!(spec.validate(), Err(Error::InvalidName { .. })));
}

#[test]
fn glob_match_basics() {
    assert!(glob_match("*", "anything"));
    assert!(glob_match("serde*", "serde"));
    assert!(glob_match("serde*", "serde_json"));
    assert!(glob_match("serde*", "serde_derive"));
    assert!(!glob_match("serde*", "clap"));

    assert!(glob_match("*-sys", "openssl-sys"));
    assert!(!glob_match("*-sys", "openssl"));

    assert!(glob_match("?lap", "clap"));
    assert!(!glob_match("?lap", "claps"));

    assert!(glob_match("exact", "exact"));
    assert!(!glob_match("exact", "exacto"));
}

#[test]
fn merge_version_newest_wins() {
    let pack_a = pack(vec![("serde", crate_spec("1.0.100", &["derive"], DepKind::Normal))]);
    let pack_b = pack(vec![("serde", crate_spec("1.0.210", &["derive"], DepKind::Normal))]);
    let merged = merge_crate_specs(&[pack_a, pack_b]);
    assert_eq!(merged.get("serde").unwrap().version, "1.0.210");
}

#[test]
fn merge_version_across_major() {
    let pack_a = pack(vec![("clap", crate_spec("3.4.0", &[], DepKind::Normal))]);
    let pack_b = pack(vec![("clap", crate_spec("4.5.0", &[], DepKind::Normal))]);
    let merged = merge_crate_specs(&[pack_a, pack_b]);
    assert_eq!(merged.get("clap").unwrap().version, "4.5.0");
}

#[test]
fn merge_version_same_version_no_conflict() {
    let pack_a = pack(vec![("anyhow", crate_spec("1.0.80", &[], DepKind::Normal))]);
    let pack_b = pack(vec![("anyhow", crate_spec("1.0.80", &[], DepKind::Normal))]);
    let merged = merge_crate_specs(&[pack_a, pack_b]);
    assert_eq!(merged.get("anyhow").unwrap().version, "1.0.80");
}

#[test]
fn merge_features_union() {
    let pack_a = pack(vec![("tokio", crate_spec("1", &["macros", "rt"], DepKind::Normal))]);
    let pack_b = pack(vec![("tokio", crate_spec("1", &["rt", "net", "io-util"], DepKind::Normal))]);
    let merged = merge_crate_specs(&[pack_a, pack_b]);
    let features = &merged.get("tokio").unwrap().features;
    assert!(features.contains(&"macros".to_string()));
    assert!(features.contains(&"rt".to_string()));
    assert!(features.contains(&"net".to_string()));
    assert!(features.contains(&"io-util".to_string()));
    assert_eq!(features.iter().filter(|f| f.as_str() == "rt").count(), 1);
}

#[test]
fn merge_dep_kind_normal_wins_over_dev() {
    let pack_a = pack(vec![("serde", crate_spec("1", &[], DepKind::Normal))]);
    let pack_b = pack(vec![("serde", crate_spec("1", &[], DepKind::Dev))]);
    let merged = merge_crate_specs(&[pack_a, pack_b]);
    assert_eq!(merged.get("serde").unwrap().dep_kinds, vec![DepKind::Normal]);
}

#[test]
fn merge_dep_kind_normal_wins_over_build() {
    let pack_a = pack(vec![("cc", crate_spec("1", &[], DepKind::Build))]);
    let pack_b = pack(vec![("cc", crate_spec("1", &[], DepKind::Normal))]);
    let merged = merge_crate_specs(&[pack_a, pack_b]);
    assert_eq!(merged.get("cc").unwrap().dep_kinds, vec![DepKind::Normal]);
}

#[test]
fn merge_dep_kind_dev_and_build_yields_both() {
    let pack_a = pack(vec![("serde", crate_spec("1", &[], DepKind::Dev))]);
    let pack_b = pack(vec![("serde", crate_spec("1", &[], DepKind::Build))]);
    let merged = merge_crate_specs(&[pack_a, pack_b]);
    let kinds = &merged.get("serde").unwrap().dep_kinds;
    assert_eq!(kinds.len(), 2);
    assert!(kinds.contains(&DepKind::Dev));
    assert!(kinds.contains(&DepKind::Build));
}

#[test]
fn merge_three_packs_all_rules() {
    let pack_a = pack(vec![
        ("tokio", crate_spec("1.35.0", &["macros"], DepKind::Normal)),
        ("serde", crate_spec("1.0.100", &["derive"], DepKind::Dev)),
    ]);
    let pack_b = pack(vec![
        ("tokio", crate_spec("1.38.0", &["rt"], DepKind::Dev)),
        ("serde", crate_spec("1.0.210", &["alloc"], DepKind::Build)),
    ]);
    let pack_c = pack(vec![
        ("tokio", crate_spec("1.36.0", &["net", "macros"], DepKind::Normal)),
        ("anyhow", crate_spec("1.0.80", &[], DepKind::Normal)),
    ]);
    let merged = merge_crate_specs(&[pack_a, pack_b, pack_c]);

    let tokio = merged.get("tokio").unwrap();
    assert_eq!(tokio.version, "1.38.0");
    assert!(tokio.features.contains(&"macros".to_string()));
    assert!(tokio.features.contains(&"rt".to_string()));
    assert!(tokio.features.contains(&"net".to_string()));
    assert_eq!(tokio.dep_kinds, vec![DepKind::Normal]);

    let serde = merged.get("serde").unwrap();
    assert_eq!(serde.version, "1.0.210");
    assert!(serde.features.contains(&"derive".to_string()));
    assert!(serde.features.contains(&"alloc".to_string()));
    assert_eq!(serde.dep_kinds.len(), 2);
    assert!(serde.dep_kinds.contains(&DepKind::Dev));
    assert!(serde.dep_kinds.contains(&DepKind::Build));

    let anyhow = merged.get("anyhow").unwrap();
    assert_eq!(anyhow.version, "1.0.80");
    assert_eq!(anyhow.dep_kinds, vec![DepKind::Normal]);
}

#[test]
fn merge_non_overlapping_crates() {
    let pack_a = pack(vec![("serde", crate_spec("1.0.210", &["derive"], DepKind::Normal))]);
    let pack_b = pack(vec![("clap", crate_spec("4.5.0", &["derive"], DepKind::Normal))]);
    let merged = merge_crate_specs(&[pack_a, pack_b]);
    assert_eq!(merged.len(), 2);
    assert_eq!(merged.get("serde").unwrap().version, "1.0.210");
    assert_eq!(merged.get("clap").unwrap().version, "4.5.0");
}

#[test]
fn merge_empty_input() {
    let merged = merge_crate_specs(&[]);
    assert!(merged.is_empty());
}

#[test]
fn merge_single_pack() {
    let p = pack(vec![
        ("serde", crate_spec("1", &["derive"], DepKind::Normal)),
        ("clap", crate_spec("4", &[], DepKind::Normal)),
    ]);
    let merged = merge_crate_specs(&[p]);
    assert_eq!(merged.len(), 2);
    assert_eq!(merged.get("serde").unwrap().version, "1");
    assert_eq!(merged.get("serde").unwrap().features, vec!["derive"]);
    assert_eq!(merged.get("serde").unwrap().dep_kinds, vec![DepKind::Normal]);
}

#[test]
fn compare_versions_basic() {
    assert_eq!(compare_versions("1.0.0", "1.0.0"), Ordering::Equal);
    assert_eq!(compare_versions("1.0.1", "1.0.0"), Ordering::Greater);
    assert_eq!(compare_versions("1.0.0", "1.0.1"), Ordering::Less);
    assert_eq!(compare_versions("2.0.0", "1.9.9"), Ordering::Greater);
    assert_eq!(compare_versions("1", "1.0"), Ordering::Equal);
    assert_eq!(compare_versions("1", "2"), Ordering::Less);
    assert_eq!(compare_versions("1.0.210", "1.0.100"), Ordering::Greater);
}

#[test]
fn workspace_discovery_keeps_only_battery_packs() {
    let helper = parse_battery_pack("[package]\nname = \"helper\"\nversion = \"0.1.0\"\n").unwrap();
    let specs = vec![parse_battery_pack(BASIC_FIXTURE).unwrap(), helper, parse_battery_pack(FANCY_FIXTURE).unwrap()];
    let kept = keep_battery_packs(specs);
    let names: Vec<&str> = kept.iter().map(|s| s.name.as_str()).collect();
    assert_eq!(names, vec!["basic-battery-pack", "fancy-battery-pack"]);
    assert!(keep_battery_packs(vec![]).is_empty());
}

#[test]
fn validate_spec_name() {
    let good = parse_battery_pack(
        r#"
        [package]
        name = "test-battery-pack"
        version = "0.1.0"
        keywords = ["battery-pack"]
    "#,
    )
    .unwrap();
    assert!(good.validate_spec().is_clean());

    let bad = parse_battery_pack(
        r#"
        [package]
        name = "not-a-pack"
        version = "0.1.0"
        keywords = ["battery-pack"]
    "#,
    )
    .unwrap();
    let report = bad.validate_spec();
    assert!(report.has_errors());
    assert!(report.diagnostics.iter().any(|d| d.rule == "format.crate.name"));
}

#[test]
fn validate_spec_keyword() {
    let good = parse_battery_pack(
        r#"
        [package]
        name = "test-battery-pack"
        version = "0.1.0"
        keywords = ["battery-pack", "helpers"]
    "#,
    )
    .unwrap();
    assert!(good.validate_spec().is_clean());

    let missing = parse_battery_pack(
        r#"
        [package]
        name = "test-battery-pack"
        version = "0.1.0"
    "#,
    )
    .unwrap();
    let report = missing.validate_spec();
    assert!(report.has_errors());
    assert!(report.diagnostics.iter().any(|d| d.rule == "format.crate.keyword"));

    let wrong = parse_battery_pack(
        r#"
        [package]
        name = "test-battery-pack"
        version = "0.1.0"
        keywords = ["cli", "helpers"]
    "#,
    )
    .unwrap();
    let report = wrong.validate_spec();
    assert!(report.has_errors());
    assert!(report.diagnostics.iter().any(|d| d.rule == "format.crate.keyword"));
}

#[test]
fn validate_spec_features() {
    let good = parse_battery_pack(
        r#"
        [package]
        name = "test-battery-pack"
        version = "0.1.0"
        keywords = ["battery-pack"]

        [dependencies]
        clap = "4"

        [features]
        default = ["clap"]
    "#,
    )
    .unwrap();
    assert!(good.validate_spec().is_clean());

    let bad = parse_battery_pack(
        r#"
        [package]
        name = "test-battery-pack"
        version = "0.1.0"
        keywords = ["battery-pack"]

        [dependencies]
        clap = "4"

        [features]
        default = ["clap", "ghost"]
    "#,
    )
    .unwrap();
    let report = bad.validate_spec();
    assert!(report.has_errors());
    assert!(report.diagnostics.iter().any(|d| d.rule == "format.features.grouping" && d.message.contains("ghost")));
}

#[test]
fn validate_repository_warns_only_without_repository() {
    let spec = parse_battery_pack("[package]\nname = \"x-battery-pack\"\nversion = \"0.1.0\"\nkeywords = [\"battery-pack\"]\n").unwrap();
    let mut report = ValidationReport::new();
    battery_pack::validate::validate_repository(&spec, &mut report);
    assert_eq!(report.diagnostics.len(), 1);
    assert_eq!(report.diagnostics[0].rule, "format.crate.repository");
    assert_eq!(report.diagnostics[0].severity, Severity::Warning);
    let with_repo = parse_battery_pack("[package]\nname = \"x-battery-pack\"\nversion = \"0.1.0\"\nrepository = \"https://r\"\n").unwrap();
    let mut report = ValidationReport::new();
    battery_pack::validate::validate_repository(&with_repo, &mut report);
    assert!(report.is_clean());
}

#[test]
fn default_list_equals_no_list_and_unknown_gives_nothing() {
    let spec = parse_battery_pack(BASIC_FIXTURE).unwrap();
    let a = spec.resolve_crates(&["default"]);
    let b = spec.resolve_crates(&[]);
    assert_eq!(a.entries.len(), b.entries.len());
    for ((ka, va), (kb, vb)) in a.entries.iter().zip(b.entries.iter()) {
        assert_eq!(ka, kb);
        assert_eq!(va.version, vb.version);
        assert_eq!(va.features, vb.features);
    }
    assert!(spec.resolve_crates(&["nope"]).entries.is_empty());
}
