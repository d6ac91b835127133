use battery_pack::manifest_write::merge_toml_text;
use battery_pack::yaml_text::merge_yaml_text;

fn merge_toml(existing: &str, template: &str) -> Result<String, String> {
    merge_toml_text(existing, template)
}

fn merge_yaml(existing: &str, template: &str) -> Result<String, String> {
    merge_yaml_text(existing, template)
}

#[test]
fn merge_toml_adds_new_dependency() {
    let existing = "[package]\nname = \"my-project\"\nversion = \"0.1.0\"\n\n[dependencies]\nserde = \"1\"\n";
    let template = "[package]\nname = \"template-project\"\n\n[dependencies]\nclap = { version = \"4\", features = [\"derive\"] }\n";
    let result = merge_toml(existing, template).unwrap();
    assert!(result.contains("serde"));
    assert!(result.contains("clap"));
    assert!(result.contains(r#"features = ["derive"]"#));
    assert!(result.contains(r#"name = "my-project""#));
}

#[test]
fn merge_toml_upgrades_older_version() {
    let result = merge_toml("[dependencies]\nclap = \"3\"\n", "[dependencies]\nclap = \"4\"\n").unwrap();
    assert!(result.contains(r#"clap = "4""#));
}

#[test]
fn merge_toml_preserves_newer_version() {
    let result = merge_toml("[dependencies]\nclap = \"5\"\n", "[dependencies]\nclap = \"4\"\n").unwrap();
    assert!(result.contains(r#"clap = "5""#));
}

#[test]
fn merge_toml_unions_features() {
    let existing = "[dependencies]\nclap = { version = \"4\", features = [\"derive\"] }\n";
    let template = "[dependencies]\nclap = { version = \"4\", features = [\"env\"] }\n";
    let result = merge_toml(existing, template).unwrap();
    assert!(result.contains("derive"));
    assert!(result.contains("env"));
}

#[test]
fn merge_toml_adds_new_section() {
    let existing = "[dependencies]\nserde = \"1\"\n";
    let template = "[dependencies]\nserde = \"1\"\n\n[dev-dependencies]\ncriterion = { version = \"0.5\", features = [\"html_reports\"] }\n";
    let result = merge_toml(existing, template).unwrap();
    assert!(result.contains("[dev-dependencies]"));
    assert!(result.contains("criterion"));
}

#[test]
fn merge_toml_preserves_existing_section() {
    let result = merge_toml("[dev-dependencies]\ntokio-test = \"0.4\"\n", "[dev-dependencies]\ncriterion = \"0.5\"\n").unwrap();
    assert!(result.contains("tokio-test"));
    assert!(result.contains("criterion"));
}

#[test]
fn merge_toml_adds_non_dep_section() {
    let existing = "[package]\nname = \"my-project\"\n\n[dependencies]\nserde = \"1\"\n";
    let template = "[package]\nname = \"template\"\n\n[[bin]]\nname = \"my-tool\"\npath = \"src/main.rs\"\n";
    let result = merge_toml(existing, template).unwrap();
    assert!(result.contains("[[bin]]"));
    assert!(result.contains(r#"name = "my-project""#));
}

#[test]
fn merge_toml_preserves_existing_non_dep_section() {
    let existing = "[package]\nname = \"my-project\"\n\n[features]\ndefault = [\"serde\"]\n";
    let template = "[package]\nname = \"template\"\n\n[features]\ndefault = [\"clap\"]\n";
    let result = merge_toml(existing, template).unwrap();
    assert!(result.contains(r#"default = ["serde"]"#));
}

#[test]
fn merge_toml_adds_package_metadata() {
    let existing = "[package]\nname = \"my-project\"\nversion = \"0.1.0\"\n";
    let template = "[package]\nname = \"template\"\nversion = \"0.1.0\"\n\n[package.metadata.binstall]\npkg-url = \"{ repo }/releases/download/v{ version }/{ name }-{ target }{ archive-suffix }\"\n";
    let result = merge_toml(existing, template).unwrap();
    assert!(result.contains("[package.metadata.binstall]"));
    assert!(result.contains("pkg-url"));
}

#[test]
fn merge_toml_adds_nested_metadata_when_metadata_exists() {
    let existing = "[package]\nname = \"my-project\"\n\n[package.metadata.docs.rs]\nall-features = true\n";
    let template = "[package]\nname = \"template\"\n\n[package.metadata.binstall]\npkg-url = \"{ repo }/releases/download/v{ version }/{ name }-{ target }{ archive-suffix }\"\n";
    let result = merge_toml(existing, template).unwrap();
    assert!(result.contains("docs.rs") || result.contains("[package.metadata.docs]"));
    assert!(result.contains("binstall"));
    assert!(result.contains("pkg-url"));
}

#[test]
fn merge_toml_preserves_existing_nested_metadata() {
    let existing = "[package]\nname = \"my-project\"\n\n[package.metadata.binstall]\npkg-url = \"custom-url\"\n";
    let template = "[package]\nname = \"template\"\n\n[package.metadata.binstall]\npkg-url = \"template-url\"\n";
    let result = merge_toml(existing, template).unwrap();
    assert!(result.contains("custom-url"));
    assert!(!result.contains("template-url"));
}

#[test]
fn merge_toml_generic_file_adds_new_keys() {
    let existing = "[default.extend-words]\n\n[files]\nextend-exclude = [\"*.lock\"]\n";
    let template = "[default.extend-words]\n\n[default.extend-identifiers]\ncrate = \"crate\"\n\n[files]\nextend-exclude = [\"*.lock\", \"target/\"]\n";
    let result = merge_toml(existing, template).unwrap();
    assert!(result.contains("extend-identifiers"));
    assert!(result.contains("extend-exclude"));
}

#[test]
fn merge_toml_release_plz_adds_new_section() {
    let existing = "[workspace]\nchangelog_update = false\n";
    let template = "[workspace]\nchangelog_update = false\n\n[[package]]\nname = \"my-crate\"\npublish = true\n";
    let result = merge_toml(existing, template).unwrap();
    assert!(result.contains("[[package]]"));
    assert!(result.contains("changelog_update"));
}

#[test]
fn merge_toml_keeps_text_when_template_adds_nothing() {
    let existing = "[package]\nname = \"p\"  # mine\n\n[dependencies]\nclap = \"5\"\n";
    let template = "[package]\nname = \"t\"\n";
    assert_eq!(merge_toml(existing, template).unwrap(), existing);
}

#[test]
fn merge_toml_reports_unparsable_inputs() {
    assert_eq!(merge_toml("[x", "").unwrap_err(), "failed to parse existing Cargo.toml");
    assert_eq!(merge_toml("", "[x").unwrap_err(), "failed to parse template Cargo.toml");
}

#[test]
fn merge_yaml_adds_new_job() {
    let existing = "name: CI\non: [push]\njobs:\n  test:\n    runs-on: ubuntu-latest\n    steps:\n      - uses: actions/checkout@v4\n";
    let template = "name: CI\non: [push]\njobs:\n  lint:\n    runs-on: ubuntu-latest\n    steps:\n      - uses: actions/checkout@v4\n";
    let result = merge_yaml(existing, template).unwrap();
    assert!(result.contains("test:"));
    assert!(result.contains("lint:"));
}

#[test]
fn merge_yaml_preserves_existing_job() {
    let existing = "name: CI\njobs:\n  test:\n    runs-on: ubuntu-latest\n    steps:\n      - run: cargo test\n";
    let template = "name: CI\njobs:\n  test:\n    runs-on: ubuntu-latest\n    steps:\n      - run: cargo test --all\n";
    let result = merge_yaml(existing, template).unwrap();
    assert!(result.contains("cargo test"));
    assert!(!result.contains("cargo test --all"));
}

#[test]
fn merge_yaml_adds_new_trigger() {
    let existing = "on:\n  push:\n    branches: [main]\njobs:\n  test:\n    runs-on: ubuntu-latest\n";
    let template = "on:\n  push:\n    branches: [main]\n  pull_request: {}\njobs:\n  test:\n    runs-on: ubuntu-latest\n";
    let result = merge_yaml(existing, template).unwrap();
    assert!(result.contains("pull_request"));
    assert!(result.contains("push"));
}

#[test]
fn merge_yaml_new_file_passthrough() {
    let template = "name: Typos\non: [push]\njobs:\n  spellcheck:\n    runs-on: ubuntu-latest\n";
    let result = merge_yaml("", template).unwrap();
    assert!(result.contains("spellcheck"));
}

#[test]
fn merge_yaml_adds_permissions() {
    let existing = "permissions:\n  contents: read\njobs:\n  test:\n    runs-on: ubuntu-latest\n";
    let template = "permissions:\n  contents: read\n  security-events: write\njobs:\n  test:\n    runs-on: ubuntu-latest\n";
    let result = merge_yaml(existing, template).unwrap();
    assert!(result.contains("security-events"));
    assert!(result.contains("contents"));
}

#[test]
fn merge_yaml_keeps_values_and_unusual_keys() {
    let existing = "1: one\nname: \"yes\"\nlist: [a, 2, 3.5]\n";
    let template = "2: two\nname: other\n";
    let result = merge_yaml(existing, template).unwrap();
    assert_eq!(result, "1: one\nname: \"yes\"\nlist:\n  - a\n  - 2\n  - 3.5\n2: two");
}
