use battery_pack::report::{Diagnostic, Severity};
use battery_pack::toml_model::TomlValue;
use battery_pack::validate::{
    check_manifest_kind, crates_io_patches, diag_line, forwarded_patches, outcome_message, ManifestKindError, ValidateOutcome,
};

#[test]
fn manifest_kind_is_checked_before_parsing() {
    let package = TomlValue::Table(vec![("package".into(), TomlValue::Table(vec![]))]);
    assert!(check_manifest_kind(&package).is_ok());
    let ws = TomlValue::Table(vec![("workspace".into(), TomlValue::Table(vec![]))]);
    assert_eq!(check_manifest_kind(&ws), Err(ManifestKindError::Workspace));
    assert_eq!(check_manifest_kind(&TomlValue::Table(vec![])), Err(ManifestKindError::NoPackage));
    assert_eq!(
        ManifestKindError::Workspace.message("x/Cargo.toml"),
        "x/Cargo.toml is a workspace manifest, not a battery pack crate.\nRun this from a battery pack crate directory, or use --path to point to one."
    );
    assert_eq!(
        ManifestKindError::NoPackage.message("Cargo.toml"),
        "Cargo.toml has no [package] section — is this a battery pack crate?"
    );
}

#[test]
fn findings_and_outcomes_are_worded_as_printed() {
    let d = Diagnostic { severity: Severity::Warning, rule: "format.crate.keyword", message: "missing keyword".into() };
    assert_eq!(diag_line(&d), "warning[format.crate.keyword]: missing keyword");
    assert_eq!(outcome_message(ValidateOutcome::Clean, "cli-battery-pack"), Ok("cli-battery-pack is valid".to_string()));
    assert_eq!(
        outcome_message(ValidateOutcome::WarningsOnly { warnings: 2 }, "x"),
        Ok("x is valid (2 warning(s))".to_string())
    );
    assert_eq!(
        outcome_message(ValidateOutcome::Failed { errors: 12, warnings: 0 }, "x"),
        Err("validation failed: 12 error(s), 0 warning(s)".to_string())
    );
}

#[test]
fn patches_point_at_local_packages() {
    let pkgs = vec![("battery-pack".to_string(), "/ws/src/battery-pack".to_string()), ("bphelper-cli".to_string(), "/ws/cli".to_string())];
    assert_eq!(
        crates_io_patches(&pkgs),
        "[patch.crates-io]\nbattery-pack = { path = \"/ws/src/battery-pack\" }\nbphelper-cli = { path = \"/ws/cli\" }\n"
    );
    assert_eq!(crates_io_patches(&vec![]), "[patch.crates-io]\n");
}

#[test]
fn forwarded_patches_skip_workspace_members() {
    let entries = vec![
        ("battery-pack".to_string(), "{ path = \"/elsewhere\" }".to_string()),
        ("serde".to_string(), "{ git = \"https://example.com/serde\" }".to_string()),
    ];
    let members = vec!["battery-pack".to_string()];
    assert_eq!(forwarded_patches(&entries, &members), "serde = { git = \"https://example.com/serde\" }\n");
    assert_eq!(forwarded_patches(&entries, &vec![]).lines().count(), 2);
    assert_eq!(forwarded_patches(&vec![], &members), "");
}
