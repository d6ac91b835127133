use battery_pack::file_merge::{
    merge_choice, merge_insert_paths, parse_dep_as_spec, plain_choice, plain_conflict_action, structured_merge_action,
    template_deps, BatchDecision, MergeReply, PlainAction, PlainReply, StructuredAction,
};
use battery_pack::manifest::DepKind;
use battery_pack::manifest_read::toml_model_of;
use battery_pack::toml_model::TomlValue;
use battery_pack::yaml_merge::{merge_yaml_values, YamlKey, YamlValue};

fn model(text: &str) -> TomlValue {
    toml_model_of(text).unwrap()
}

fn paths(existing: &str, template: &str) -> Vec<String> {
    merge_insert_paths(&model(existing), &model(template)).into_iter().map(|p| p.join(".")).collect()
}

#[test]
fn plain_conflicts_follow_flags_and_batch() {
    assert_eq!(plain_conflict_action(true, true, BatchDecision::Undecided), PlainAction::Overwrite);
    assert_eq!(plain_conflict_action(false, true, BatchDecision::AcceptAll), PlainAction::Overwrite);
    assert_eq!(plain_conflict_action(false, false, BatchDecision::Undecided), PlainAction::Skip);
    assert_eq!(plain_conflict_action(false, true, BatchDecision::SkipAll), PlainAction::Skip);
    assert_eq!(plain_conflict_action(false, true, BatchDecision::Undecided), PlainAction::Prompt);
}

#[test]
fn prompt_choices_set_the_batch() {
    let mut batch = BatchDecision::Undecided;
    assert_eq!(plain_choice(2, &mut batch), PlainReply::ShowDiff);
    assert_eq!(batch, BatchDecision::Undecided);
    assert_eq!(plain_choice(4, &mut batch), PlainReply::Overwrite);
    assert_eq!(batch, BatchDecision::AcceptAll);
    assert_eq!(plain_choice(3, &mut batch), PlainReply::Skip);
    assert_eq!(batch, BatchDecision::SkipAll);
    let mut batch = BatchDecision::Undecided;
    assert_eq!(merge_choice(2, &mut batch), MergeReply::Edit);
    assert_eq!(merge_choice(3, &mut batch), MergeReply::Accept);
    assert_eq!(batch, BatchDecision::AcceptAll);
    assert_eq!(merge_choice(4, &mut batch), MergeReply::Skip);
    assert_eq!(batch, BatchDecision::SkipAll);
}

#[test]
fn structured_merges_apply_without_a_terminal() {
    assert_eq!(structured_merge_action("a", "a", true, BatchDecision::Undecided), StructuredAction::Unchanged);
    assert_eq!(structured_merge_action("a", "b", false, BatchDecision::SkipAll), StructuredAction::Apply);
    assert_eq!(structured_merge_action("a", "b", true, BatchDecision::SkipAll), StructuredAction::Skip);
    assert_eq!(structured_merge_action("a", "b", true, BatchDecision::Undecided), StructuredAction::Prompt);
}

#[test]
fn template_dependencies_are_read_per_section() {
    let t = model(
        r#"
[dependencies]
serde = "1"
clap = { version = "4", features = ["derive"], optional = true }

[dev-dependencies]
criterion = { version = "0.5", features = ["html_reports"] }
"#,
    );
    let deps = template_deps(&t);
    let mut summary: Vec<(String, String, String, Vec<String>, bool)> = deps
        .into_iter()
        .map(|(s, n, c)| (s, n, c.version, c.features, c.optional))
        .collect();
    summary.sort();
    assert_eq!(
        summary,
        vec![
            ("dependencies".into(), "clap".into(), "4".into(), vec!["derive".to_string()], true),
            ("dependencies".into(), "serde".into(), "1".into(), vec![], false),
            ("dev-dependencies".into(), "criterion".into(), "0.5".into(), vec!["html_reports".to_string()], false),
        ]
    );
    let c = parse_dep_as_spec(&TomlValue::Str("2".into()), "build-dependencies");
    assert_eq!(c.dep_kind, DepKind::Build);
    assert_eq!(c.version, "2");
}

#[test]
fn merge_toml_adds_non_dep_section_paths() {
    let existing = "[package]\nname = \"my-project\"\n\n[dependencies]\nserde = \"1\"\n";
    let template = "[package]\nname = \"template\"\n\n[[bin]]\nname = \"my-tool\"\npath = \"src/main.rs\"\n";
    assert_eq!(paths(existing, template), vec!["bin"]);
}

#[test]
fn merge_toml_keeps_existing_values() {
    let existing = "[package]\nname = \"my-project\"\n\n[features]\ndefault = [\"serde\"]\n";
    let template = "[package]\nname = \"template\"\n\n[features]\ndefault = [\"clap\"]\n";
    assert!(paths(existing, template).is_empty());
}

#[test]
fn merge_toml_adds_nested_metadata() {
    let existing = "[package]\nname = \"my-project\"\n\n[package.metadata.docs.rs]\nall-features = true\n";
    let template = "[package]\nname = \"template\"\n\n[package.metadata.binstall]\npkg-url = \"x\"\n";
    assert_eq!(paths(existing, template), vec!["package.metadata.binstall"]);
    let existing = "[package]\nname = \"my-project\"\nversion = \"0.1.0\"\n";
    assert_eq!(paths(existing, template), vec!["package.metadata"]);
}

#[test]
fn merge_toml_leaves_dependency_sections_to_sync() {
    let existing = "[dependencies]\nserde = \"1\"\n";
    let template = "[dependencies]\nserde = \"1\"\n\n[dev-dependencies]\ncriterion = \"0.5\"\n\n[lints.rust]\nunsafe_code = \"forbid\"\n";
    assert_eq!(paths(existing, template), vec!["lints"]);
}

fn leaf(text: &str) -> YamlValue {
    YamlValue::Leaf(text.to_string())
}

fn hash(entries: Vec<(&str, YamlValue)>) -> YamlValue {
    YamlValue::Hash(entries.into_iter().map(|(k, v)| (YamlKey::Str(k.to_string()), v)).collect())
}

fn keys(v: &YamlValue) -> Vec<String> {
    match v {
        YamlValue::Hash(es) => es
            .iter()
            .map(|(k, _)| match k {
                YamlKey::Str(s) => s.clone(),
                YamlKey::Other(s) => s.clone(),
            })
            .collect(),
        _ => vec![],
    }
}

fn child<'a>(v: &'a YamlValue, key: &str) -> &'a YamlValue {
    match v {
        YamlValue::Hash(es) => &es.iter().find(|(k, _)| matches!(k, YamlKey::Str(s) if s == key)).unwrap().1,
        _ => panic!("not a mapping"),
    }
}

#[test]
fn yaml_adds_new_jobs_and_keeps_existing_ones() {
    let existing = hash(vec![("name", leaf("1")), ("jobs", hash(vec![("test", leaf("2"))]))]);
    let template = hash(vec![
        ("name", leaf("10")),
        ("jobs", hash(vec![("test", leaf("11")), ("lint", leaf("12"))])),
    ]);
    let merged = merge_yaml_values(&existing, &template);
    assert_eq!(keys(&merged), vec!["name", "jobs"]);
    assert!(matches!(child(&merged, "name"), YamlValue::Leaf(x) if x == "1"));
    let jobs = child(&merged, "jobs");
    assert_eq!(keys(jobs), vec!["test", "lint"]);
    assert!(matches!(child(jobs, "test"), YamlValue::Leaf(x) if x == "2"));
    assert!(matches!(child(jobs, "lint"), YamlValue::Leaf(x) if x == "12"));
}

#[test]
fn yaml_other_keys_are_atomic() {
    let existing = hash(vec![("env", hash(vec![("A", leaf("1"))]))]);
    let template = hash(vec![("env", hash(vec![("B", leaf("2"))])), ("permissions", hash(vec![]))]);
    let merged = merge_yaml_values(&existing, &template);
    assert_eq!(keys(child(&merged, "env")), vec!["A"]);
    assert_eq!(keys(&merged), vec!["env", "permissions"]);
}

#[test]
fn yaml_empty_file_takes_the_template() {
    let template = hash(vec![("jobs", hash(vec![("spellcheck", leaf("3"))]))]);
    let merged = merge_yaml_values(&YamlValue::Null, &template);
    assert_eq!(keys(child(&merged, "jobs")), vec!["spellcheck"]);
    assert!(matches!(merge_yaml_values(&leaf("5"), &template), YamlValue::Leaf(x) if x == "5"));
}
