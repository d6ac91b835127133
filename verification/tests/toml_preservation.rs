use battery_pack::manifest::{CrateSpec, DepKind};
use battery_pack::manifest_write::sync_user_manifest;
use battery_pack::strmap::StrMap;

fn simple_spec(version: &str) -> CrateSpec {
    CrateSpec { version: version.to_string(), features: vec![], dep_kind: DepKind::Normal, optional: false }
}

fn spec_with_features(version: &str, features: &[&str]) -> CrateSpec {
    CrateSpec {
        version: version.to_string(),
        features: features.iter().map(|s| s.to_string()).collect(),
        dep_kind: DepKind::Normal,
        optional: false,
    }
}

/// Sync one crate into a manifest's text: the new text, and whether the
/// crate's entry changed.
fn sync_one(input: &str, name: &str, spec: CrateSpec) -> (String, bool) {
    let mut expected = StrMap::new();
    expected.insert(name.to_string(), spec);
    let (output, log) = sync_user_manifest(input, &expected).unwrap();
    (output, !log.is_empty())
}

#[test]
fn comments_survive_add_dep() {
    let input = "\
# My project dependencies
[dependencies]
# Error handling
anyhow = \"1\"  # we love anyhow
serde = { version = \"1\", features = [\"derive\"] }
";
    let (output, changed) = sync_one(input, "tokio", simple_spec("1.0"));
    assert!(changed);
    assert!(output.contains("# My project dependencies"), "header comment lost: {output}");
    assert!(output.contains("# Error handling"), "inline section comment lost: {output}");
    assert!(output.contains("# we love anyhow"), "trailing comment lost: {output}");
    assert!(output.contains("anyhow = \"1\""), "anyhow entry changed: {output}");
    assert!(output.contains("serde = { version = \"1\", features = [\"derive\"] }"), "serde entry changed: {output}");
    assert!(output.contains("tokio = \"1.0\""), "tokio not added: {output}");
}

#[test]
fn comments_survive_sync_dep() {
    let input = "\
[dependencies]
# important crate
anyhow = \"1.0.0\"  # pinned for reasons
";
    let (output, changed) = sync_one(input, "anyhow", simple_spec("1.1.0"));
    assert!(changed, "sync should report a change");
    assert!(output.contains("# important crate"), "comment above entry lost: {output}");
}

#[test]
fn ordering_preserved_after_sync() {
    let input = "\
[dependencies]
zebra = \"1.0\"
alpha = \"2.0\"
middle = \"3.0\"
";
    let (output, changed) = sync_one(input, "middle", simple_spec("3.1"));
    assert!(changed);
    let z_pos = output.find("zebra").expect("zebra missing");
    let a_pos = output.find("alpha").expect("alpha missing");
    let m_pos = output.find("middle").expect("middle missing");
    assert!(z_pos < a_pos, "zebra should come before alpha: {output}");
    assert!(a_pos < m_pos, "alpha should come before middle: {output}");
    assert!(output.contains("middle = \"3.1\""), "middle version not updated: {output}");
}

#[test]
fn ordering_preserved_after_add() {
    let input = "\
[dependencies]
zebra = \"1.0\"
alpha = \"2.0\"
";
    let (output, _) = sync_one(input, "new-crate", simple_spec("0.5"));
    let z_pos = output.find("zebra").expect("zebra missing");
    let a_pos = output.find("alpha").expect("alpha missing");
    assert!(z_pos < a_pos, "existing ordering (zebra before alpha) must survive: {output}");
}

#[test]
fn blank_lines_and_sections_preserved() {
    let input = "\
[package]
name = \"my-project\"
version = \"0.1.0\"

[dependencies]
anyhow = \"1\"

[dev-dependencies]
assert_cmd = \"2\"
";
    let (output, _) = sync_one(input, "serde", simple_spec("1"));
    assert!(output.contains("[package]"), "package section lost: {output}");
    assert!(output.contains("[dependencies]"), "dependencies section lost: {output}");
    assert!(output.contains("[dev-dependencies]"), "dev-dependencies section lost: {output}");
    let pkg_pos = output.find("[package]").unwrap();
    let dep_pos = output.find("[dependencies]").unwrap();
    let dev_pos = output.find("[dev-dependencies]").unwrap();
    assert!(pkg_pos < dep_pos, "package should precede dependencies");
    assert!(dep_pos < dev_pos, "dependencies should precede dev-dependencies");
    assert!(output.contains("name = \"my-project\""), "package.name changed: {output}");
    assert!(output.contains("assert_cmd = \"2\""), "dev-dep lost: {output}");
}

#[test]
fn full_document_round_trip_with_multiple_sections() {
    let input = "\
[package]
name = \"example\"
version = \"0.1.0\"
edition = \"2021\"

# Runtime deps
[dependencies]
tokio = { version = \"1\", features = [\"full\"] }

# Test deps
[dev-dependencies]
pretty_assertions = \"1\"
";
    let (output, _) = sync_one(input, "serde", spec_with_features("1", &["derive"]));
    assert!(output.contains("# Runtime deps"), "section comment lost: {output}");
    assert!(output.contains("# Test deps"), "section comment lost: {output}");
    assert!(output.contains("tokio = { version = \"1\", features = [\"full\"] }"), "tokio entry mangled: {output}");
    assert!(output.contains("serde"), "serde not added: {output}");
}

#[test]
fn add_dep_uses_plain_string_for_version_only() {
    let input = "\
[dependencies]
existing = \"1.0\"
";
    let (output, _) = sync_one(input, "simple", simple_spec("2.0"));
    assert!(output.contains("simple = \"2.0\""), "version-only dep should be a plain string: {output}");
}

#[test]
fn add_dep_uses_inline_table_for_features() {
    let input = "\
[dependencies]
existing = { version = \"1.0\", features = [\"foo\"] }
";
    let (output, _) = sync_one(input, "new-crate", spec_with_features("3.0", &["bar", "baz"]));
    assert!(output.contains("new-crate = { version = \"3.0\""), "dep with features should use inline table: {output}");
    assert!(output.contains("bar"), "feature 'bar' missing: {output}");
    assert!(output.contains("baz"), "feature 'baz' missing: {output}");
}

#[test]
fn sync_preserves_inline_table_format() {
    let input = "\
[dependencies]
serde = { version = \"1.0.0\", features = [\"derive\"] }
";
    let (output, changed) = sync_one(input, "serde", spec_with_features("1.1.0", &["derive"]));
    assert!(changed, "version bump should count as change");
    assert!(output.contains("serde = {"), "inline table format should be preserved: {output}");
    assert!(output.contains("\"1.1.0\""), "version should be updated: {output}");
    assert!(output.contains("\"derive\""), "existing feature should survive: {output}");
}

#[test]
fn sync_adds_features_without_losing_existing() {
    let input = "\
[dependencies]
serde = { version = \"1.0.0\", features = [\"derive\"] }
";
    let (output, changed) = sync_one(input, "serde", spec_with_features("1.0.0", &["rc"]));
    assert!(changed, "adding a new feature should count as change");
    assert!(output.contains("derive"), "existing feature 'derive' lost: {output}");
    assert!(output.contains("rc"), "new feature 'rc' not added: {output}");
}

#[test]
fn sync_no_change_when_already_current() {
    let input = "\
[dependencies]
anyhow = \"1.0.0\"
";
    let (output, changed) = sync_one(input, "anyhow", simple_spec("1.0.0"));
    assert!(!changed, "syncing same version should report no change");
    assert_eq!(output, input, "document should be byte-identical when nothing changed");
}

#[test]
fn sync_table_entry_keeps_version_key_formatting() {
    let input = "\
[dependencies.serde]
version    = \"1.0.0\"  # pinned
optional = true
";
    let (output, changed) = sync_one(input, "serde", simple_spec("1.2.0"));
    assert!(changed);
    assert!(output.contains("version    = \"1.2.0\""), "{output}");
    assert!(output.contains("optional = true"), "{output}");
}

#[test]
fn sync_twice_changes_nothing_the_second_time() {
    let input = "\
[dependencies]
serde = { version = \"1.0.0\" }
anyhow = \"1\"
";
    let (once, changed) = sync_one(input, "serde", spec_with_features("1.2.0", &["derive"]));
    assert!(changed);
    let (twice, changed_again) = sync_one(&once, "serde", spec_with_features("1.2.0", &["derive"]));
    assert!(!changed_again);
    assert_eq!(twice, once);
}

#[test]
fn sync_reports_unparsable_manifest() {
    let mut expected = StrMap::new();
    expected.insert("anyhow".to_string(), simple_spec("1"));
    assert_eq!(sync_user_manifest("[dependencies\n", &expected).unwrap_err(), "Failed to parse Cargo.toml");
}
