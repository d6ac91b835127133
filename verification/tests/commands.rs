use battery_pack::commands::{resolve_template, TemplateError};
use battery_pack::manifest_read::toml_model_of;
use battery_pack::manifest::TemplateSpec;
use battery_pack::strmap::StrMap;
use battery_pack::toml_model::{collect_user_dep_versions, find_installed_bp_names, read_features_at, TomlValue};
use battery_pack::validate::is_unpublished_workspace_dep;
use battery_pack::version::should_upgrade_version;

/// Convert a parsed TOML value into the library's model.
fn parse(content: &str) -> TomlValue {
    toml_model_of(content).unwrap()
}

/// Collect versions from a Cargo.toml that is not inside a workspace.
fn collect_versions(toml_content: &str) -> StrMap<String> {
    let raw = parse(toml_content);
    collect_user_dep_versions(&raw, None)
}

fn template(path: &str, description: Option<&str>) -> TemplateSpec {
    TemplateSpec { path: path.to_string(), description: description.map(|d| d.to_string()) }
}

#[test]
fn resolve_template_single_template_uses_it() {
    let mut templates = StrMap::new();
    templates.insert("simple".to_string(), template("templates/simple", Some("A simple template")));
    let result = resolve_template(&templates, None).unwrap();
    assert_eq!(result, "templates/simple");
}

#[test]
fn resolve_template_picks_default_when_present() {
    let mut templates = StrMap::new();
    templates.insert("default".to_string(), template("templates/default", Some("The default template")));
    templates.insert("advanced".to_string(), template("templates/advanced", Some("An advanced template")));
    let result = resolve_template(&templates, None).unwrap();
    assert_eq!(result, "templates/default");
}

#[test]
fn resolve_template_unknown_name_errors() {
    let mut templates = StrMap::new();
    templates.insert("simple".to_string(), template("templates/simple", None));
    templates.insert("advanced".to_string(), template("templates/advanced", None));
    let result = resolve_template(&templates, Some("nonexistent"));
    assert!(result.is_err());
    let err = result.unwrap_err().to_string();
    assert!(err.contains("not found"), "error should say template not found: {err}");
    assert!(err.contains("simple") && err.contains("advanced"), "error should list available templates: {err}");
}

#[test]
fn resolve_template_explicit_flag_overrides() {
    let mut templates = StrMap::new();
    templates.insert("simple".to_string(), template("templates/simple", None));
    templates.insert("advanced".to_string(), template("templates/advanced", None));
    let result = resolve_template(&templates, Some("advanced")).unwrap();
    assert_eq!(result, "templates/advanced");
}

#[test]
fn resolve_template_several_without_default_needs_choice() {
    let mut templates = StrMap::new();
    templates.insert("simple".to_string(), template("templates/simple", None));
    templates.insert("advanced".to_string(), template("templates/advanced", None));
    let err = resolve_template(&templates, None).unwrap_err();
    assert!(matches!(err, TemplateError::NeedsChoice));
    assert_eq!(
        err.to_string(),
        "Multiple templates available. Please specify one with --template <name>"
    );
    let err = resolve_template(&templates, Some("x")).unwrap_err();
    assert_eq!(err.to_string(), "Template 'x' not found. Available templates: advanced, simple");
}

#[test]
fn tests_collects_simple_string_versions() {
    let versions = collect_versions(
        r#"
[package]
name = "test"
version = "0.1.0"

[dependencies]
serde = "1.0"
anyhow = "1.0.86"
"#,
    );
    assert_eq!(versions.get("serde").unwrap(), "1.0");
    assert_eq!(versions.get("anyhow").unwrap(), "1.0.86");
}

#[test]
fn tests_collects_inline_table_versions() {
    let versions = collect_versions(
        r#"
[package]
name = "test"
version = "0.1.0"

[dependencies]
tokio = { version = "1.38.0", features = ["full"] }
serde = { version = "1.0", features = ["derive"] }
"#,
    );
    assert_eq!(versions.get("tokio").unwrap(), "1.38.0");
    assert_eq!(versions.get("serde").unwrap(), "1.0");
}

#[test]
fn tests_collects_from_all_dep_sections() {
    let versions = collect_versions(
        r#"
[package]
name = "test"
version = "0.1.0"

[dependencies]
serde = "1.0"

[dev-dependencies]
insta = "1.39"

[build-dependencies]
cc = "1.0"
"#,
    );
    assert_eq!(versions.get("serde").unwrap(), "1.0");
    assert_eq!(versions.get("insta").unwrap(), "1.39");
    assert_eq!(versions.get("cc").unwrap(), "1.0");
}

#[test]
fn tests_skips_deps_without_version() {
    let versions = collect_versions(
        r#"
[package]
name = "test"
version = "0.1.0"

[dependencies]
my-local = { path = "../my-local" }
serde = "1.0"
"#,
    );
    assert!(!versions.contains_key("my-local"), "path deps have no version");
    assert_eq!(versions.get("serde").unwrap(), "1.0");
}

#[test]
fn tests_should_upgrade_detects_older_version() {
    let versions = collect_versions(
        r#"
[package]
name = "test"
version = "0.1.0"

[dependencies]
serde = "1.0"
tokio = "1.40.0"
"#,
    );
    assert_eq!(versions.get("serde").unwrap(), "1.0");
    assert_eq!(versions.get("tokio").unwrap(), "1.40.0");
    // And the comparison status relies on.
    assert!(should_upgrade_version(versions.get("serde").unwrap(), "1.2"));
    assert!(!should_upgrade_version(versions.get("tokio").unwrap(), "1.38.0"));
}

#[test]
fn collects_workspace_versions_and_first_section_wins() {
    let user = parse(
        r#"
[package]
name = "member"
version = "0.1.0"

[dependencies]
serde = { workspace = true }
anyhow = "1.0"

[dev-dependencies]
anyhow = "0.9"
clap = { workspace = true }
"#,
    );
    let ws = parse(
        r#"
[workspace]
members = ["member"]

[workspace.dependencies]
serde = "1.0.200"
"#,
    );
    let versions = collect_user_dep_versions(&user, Some(&ws));
    assert_eq!(versions.get("serde").unwrap(), "1.0.200");
    assert_eq!(versions.get("anyhow").unwrap(), "1.0");
    assert!(!versions.contains_key("clap"));
    assert_eq!(versions.len(), 2);
}

#[test]
fn should_upgrade_falls_back_to_inequality() {
    assert!(should_upgrade_version("1.0", "1.0.1"));
    assert!(!should_upgrade_version("1.0.1", "1.0"));
    assert!(!should_upgrade_version("2", "2"));
    assert!(should_upgrade_version("git-main", "1.0"));
    assert!(!should_upgrade_version("weird", "weird"));
}

#[test]
fn installed_battery_packs_come_from_build_dependencies() {
    let raw = parse(
        r#"
[package]
name = "app"
version = "0.1.0"

[dependencies]
cli-battery-pack = "0.1"

[build-dependencies]
battery-pack = "0.4"
cli-battery-pack = "0.1"
cc = "1"
error-battery-pack = { path = "../error" }
"#,
    );
    let names = find_installed_bp_names(&raw);
    assert_eq!(names, vec!["battery-pack", "cli-battery-pack", "error-battery-pack"]);
}

#[test]
fn active_features_default_when_absent() {
    let raw = parse(
        r#"
[package]
name = "app"
version = "0.1.0"

[package.metadata.battery-pack.cli-battery-pack]
features = ["indicators", "default", "indicators"]
"#,
    );
    assert_eq!(
        read_features_at(Some(&raw), &["package", "metadata"], "cli-battery-pack"),
        vec!["default", "indicators"]
    );
    assert_eq!(
        read_features_at(Some(&raw), &["package", "metadata"], "other-battery-pack"),
        vec!["default"]
    );
    assert_eq!(read_features_at(None, &["workspace", "metadata"], "cli-battery-pack"), vec!["default"]);
}

#[test]
fn unpublished_workspace_dep_is_detected() {
    let stderr = r#"error: failed to prepare local package for uploading

Caused by:
  failed to select a version for the requirement `bphelper-build = "^0.4.7"`
  candidate versions found which didn't match: 0.4.6, 0.4.5, 0.4.4, ...
  location searched: crates.io index
  required by package `battery-pack v0.5.2`"#;
    let workspace = vec!["bphelper-build".to_string(), "battery-pack".to_string()];
    assert!(is_unpublished_workspace_dep(stderr, &workspace));
}

#[test]
fn unpublished_external_dep_is_not_skipped() {
    let stderr = r#"error: failed to prepare local package for uploading

Caused by:
  failed to select a version for the requirement `serde = "^99.0.0"`
  candidate versions found which didn't match: 1.0.219, ...
  location searched: crates.io index
  required by package `battery-pack v0.5.2`"#;
    let workspace = vec!["bphelper-build".to_string(), "battery-pack".to_string()];
    assert!(!is_unpublished_workspace_dep(stderr, &workspace));
}
