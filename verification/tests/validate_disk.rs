use battery_pack::manifest::{BatteryPackSpec, TemplateSpec};
use battery_pack::report::{Severity, ValidationReport};
use battery_pack::strmap::StrMap;
use battery_pack::validate::{
    is_full_project, validate_lib_rs, validate_on_disk, validation_outcome, DiskFacts, TemplateOnDisk,
    ValidateOutcome,
};

fn spec_with_templates(templates: &[(&str, &str)]) -> BatteryPackSpec {
    let mut t = StrMap::new();
    for (name, path) in templates {
        t.insert(name.to_string(), TemplateSpec { path: path.to_string(), description: None });
    }
    BatteryPackSpec {
        name: "test-battery-pack".to_string(),
        version: "0.1.0".to_string(),
        description: String::new(),
        repository: None,
        keywords: vec!["battery-pack".to_string()],
        crates: StrMap::new(),
        features: StrMap::new(),
        hidden: Vec::new(),
        templates: t,
    }
}

fn facts(lib_rs: &str, src_files: &[&str], templates: Vec<TemplateOnDisk>) -> DiskFacts {
    DiskFacts {
        lib_rs: Some(lib_rs.to_string()),
        src_files: src_files.iter().map(|s| s.to_string()).collect(),
        templates,
    }
}

#[test]
fn lib_rs_with_only_docs_is_clean() {
    let spec = spec_with_templates(&[]);
    let report = validate_on_disk(&spec, &facts("//! Doc comment\n\n// Regular comment\n", &["lib.rs"], vec![]));
    assert!(report.is_clean());
    let report = validate_on_disk(
        &spec,
        &facts("#![doc = include_str!(\"../README.md\")]\r\n   include!(\"x.rs\");\n", &["lib.rs"], vec![]),
    );
    assert!(report.is_clean());
}

#[test]
fn lib_rs_with_code_warns_once() {
    let spec = spec_with_templates(&[]);
    let report = validate_on_disk(&spec, &facts("//! Doc comment\n   pub fn hello() {}  \nfn x() {}\n", &["lib.rs"], vec![]));
    assert!(!report.is_clean());
    assert!(!report.has_errors());
    assert_eq!(report.diagnostics.len(), 1);
    let d = &report.diagnostics[0];
    assert_eq!(d.rule, "format.crate.lib");
    assert_eq!(d.severity, Severity::Warning);
    assert_eq!(d.message, "src/lib.rs contains code beyond doc-comments and includes: pub fn hello() {}");
}

#[test]
fn missing_lib_rs_is_not_this_checks_concern() {
    let mut report = ValidationReport::new();
    validate_lib_rs(None, &mut report);
    assert!(report.is_clean());
}

#[test]
fn extra_rust_files_are_errors() {
    let spec = spec_with_templates(&[]);
    let report = validate_on_disk(&spec, &facts("//! Doc\n", &["lib.rs", "helper.rs", "notes.md", ".rs"], vec![]));
    assert!(report.has_errors());
    assert_eq!(report.diagnostics.len(), 1);
    assert_eq!(report.diagnostics[0].rule, "format.crate.no-code");
    assert_eq!(
        report.diagnostics[0].message,
        "src/ contains 'helper.rs' — battery packs must not contain functional code"
    );
}

#[test]
fn templates_must_exist_with_cargo_generate() {
    let spec = spec_with_templates(&[("a", "templates/a"), ("b", "templates/b"), ("c", "templates/c")]);
    let states = vec![
        TemplateOnDisk { dir_exists: false, has_cargo_generate: false },
        TemplateOnDisk { dir_exists: true, has_cargo_generate: false },
        TemplateOnDisk { dir_exists: true, has_cargo_generate: true },
    ];
    let report = validate_on_disk(&spec, &facts("//! Doc\n", &["lib.rs"], states));
    assert_eq!(report.diagnostics.len(), 2);
    assert_eq!(report.diagnostics[0].rule, "format.templates.directory");
    assert_eq!(report.diagnostics[0].message, "template 'a' path 'templates/a' does not exist");
    assert_eq!(report.diagnostics[1].rule, "format.templates.cargo-generate");
    assert_eq!(report.diagnostics[1].message, "template 'b' is missing cargo-generate.toml in 'templates/b'");
}

#[test]
fn outcome_counts_errors_and_warnings() {
    let mut report = ValidationReport::new();
    assert_eq!(validation_outcome(&report), ValidateOutcome::Clean);
    report.warning("w", "one".to_string());
    assert_eq!(validation_outcome(&report), ValidateOutcome::WarningsOnly { warnings: 1 });
    report.error("e", "two".to_string());
    report.warning("w", "three".to_string());
    assert_eq!(validation_outcome(&report), ValidateOutcome::Failed { errors: 1, warnings: 2 });
}

#[test]
fn full_project_has_root_cargo_toml() {
    assert!(is_full_project(&vec!["src/main.rs".to_string(), "Cargo.toml".to_string()]));
    assert!(!is_full_project(&vec!["sub/Cargo.toml".to_string()]));
}
