use battery_pack::manifest_read::{
    active_features_in, installed_bp_names_in, managed_packs_in, manifest_kind_in, toml_model_of, user_dep_versions_in,
    workspace_holds_metadata,
};
use battery_pack::validate::ManifestKindError;

const USER: &str = r#"[package]
name = "app"
version = "0.1.0"

[dependencies]
anyhow = "1.0.1"
serde = { workspace = true }

[build-dependencies]
cli-battery-pack = "0.3"
battery-pack = "0.1"
cc = "1"

[package.metadata.battery-pack.cli-battery-pack]
features = ["extra", "default"]
"#;

#[test]
fn installed_names_come_from_build_dependencies() {
    let mut names = installed_bp_names_in(USER).unwrap();
    names.sort();
    assert_eq!(names, vec!["battery-pack".to_string(), "cli-battery-pack".to_string()]);
    assert_eq!(installed_bp_names_in("[package\n").unwrap_err(), "Failed to parse Cargo.toml");
}

#[test]
fn active_features_read_where_the_metadata_lives() {
    assert_eq!(active_features_in(Some(USER), false, "cli-battery-pack"), vec!["default".to_string(), "extra".to_string()]);
    assert_eq!(active_features_in(Some(USER), false, "other-battery-pack"), vec!["default".to_string()]);
    assert_eq!(active_features_in(Some(USER), true, "cli-battery-pack"), vec!["default".to_string()]);
    assert_eq!(active_features_in(None, true, "x"), vec!["default".to_string()]);
    assert_eq!(active_features_in(Some("not toml ["), false, "x"), vec!["default".to_string()]);
    let ws = "[workspace]\n[workspace.metadata.battery-pack.x]\nfeatures = [\"a\"]\n";
    assert_eq!(active_features_in(Some(ws), true, "x"), vec!["a".to_string()]);
    assert!(workspace_holds_metadata(ws).unwrap());
    assert!(!workspace_holds_metadata("[workspace]\nmembers = []\n").unwrap());
    assert_eq!(workspace_holds_metadata("[").unwrap_err(), "Failed to parse workspace Cargo.toml");
}

#[test]
fn manifest_kinds() {
    assert_eq!(manifest_kind_in(USER), Ok(()));
    assert_eq!(manifest_kind_in("[workspace]\nmembers = []\n"), Err(ManifestKindError::Workspace));
    assert_eq!(manifest_kind_in("[dependencies]\n"), Err(ManifestKindError::NoPackage));
    assert_eq!(manifest_kind_in("[x"), Err(ManifestKindError::NotToml));
    assert_eq!(ManifestKindError::NotToml.message("a/Cargo.toml"), "failed to parse a/Cargo.toml");
}

#[test]
fn dependency_versions_use_the_workspace() {
    let ws = "[workspace]\n[workspace.dependencies]\nserde = \"1.0.200\"\n";
    let v = user_dep_versions_in(USER, Some(ws)).unwrap();
    assert_eq!(v.get("anyhow").map(|s| s.as_str()), Some("1.0.1"));
    assert_eq!(v.get("serde").map(|s| s.as_str()), Some("1.0.200"));
    assert_eq!(user_dep_versions_in(USER, Some("[")).unwrap_err(), "Failed to parse workspace Cargo.toml");
    assert_eq!(user_dep_versions_in("[", None).unwrap_err(), "Failed to parse Cargo.toml");
}

#[test]
fn managed_packs_only_when_something_is_managed() {
    assert_eq!(managed_packs_in(USER).unwrap(), None);
    let managed = "[package]\nname = \"a\"\n\n[dependencies]\nclap.bp-managed = true\n\n[package.metadata.battery-pack]\ncli-battery-pack = { features = [\"default\"] }\n";
    assert_eq!(managed_packs_in(managed).unwrap(), Some(vec!["cli-battery-pack".to_string()]));
    assert_eq!(managed_packs_in("[").unwrap_err(), "failed to parse Cargo.toml");
    assert!(toml_model_of("a = 1").is_some());
}
