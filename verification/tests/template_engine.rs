use battery_pack::strmap::StrMap;
use battery_pack::template::{
    answer_value, base_variables, finish_rendered, global_value, has_char, latest_tag, parse_ls_remote_tags,
    pin_action_calls, pin_github_action_text, placeholder_step, plan_includes, prepare_render, preview_defines,
    ref_sha, resolve_placeholders, should_ignore, GlobalValue, PlaceholderDef, PlaceholderKind, PlaceholderStep,
    PreviewBuilder, PromptAnswer, RenderedFile,
};

fn def(kind: PlaceholderKind, default: Option<&str>, options: &[&str]) -> PlaceholderDef {
    PlaceholderDef {
        prompt: None,
        default: default.map(String::from),
        kind,
        options: options.iter().map(|s| s.to_string()).collect(),
    }
}

fn map(pairs: &[(&str, &str)]) -> StrMap<String> {
    let mut m = StrMap::new();
    for (k, v) in pairs {
        m.insert(k.to_string(), v.to_string());
    }
    m
}

fn defs(pairs: Vec<(&str, PlaceholderDef)>) -> StrMap<PlaceholderDef> {
    let mut m = StrMap::new();
    for (k, d) in pairs {
        m.insert(k.to_string(), d);
    }
    m
}

fn get<'a>(m: &'a StrMap<String>, k: &str) -> Option<&'a str> {
    m.get(k).map(|s| s.as_str())
}

#[test]
fn dashed_placeholder_names_are_refused() {
    let d = def(PlaceholderKind::Text, Some("x"), &[]);
    let err = placeholder_step("my-name", &d, None, false).unwrap_err();
    assert_eq!(err, "placeholder 'my-name' contains '-'; use snake_case (MiniJinja treats '-' as minus)");
}

#[test]
fn given_values_win_over_defaults() {
    let d = def(PlaceholderKind::Text, Some("default"), &[]);
    let given = "given".to_string();
    match placeholder_step("name", &d, Some(&given), true).unwrap() {
        PlaceholderStep::Value(v) => assert_eq!(v, "given"),
        other => panic!("unexpected {other:?}"),
    }
}

#[test]
fn text_without_default_fails_when_nobody_is_asked() {
    let d = def(PlaceholderKind::Text, None, &[]);
    let err = placeholder_step("owner", &d, None, false).unwrap_err();
    assert_eq!(err, "placeholder 'owner' has no default and no value provided");
}

#[test]
fn bool_defaults_to_false_and_reads_true_in_any_case() {
    let d = def(PlaceholderKind::Bool, None, &[]);
    match placeholder_step("flag", &d, None, false).unwrap() {
        PlaceholderStep::Value(v) => assert_eq!(v, "false"),
        other => panic!("unexpected {other:?}"),
    }
    let d = def(PlaceholderKind::Bool, Some("TrUe"), &[]);
    match placeholder_step("flag", &d, None, true).unwrap() {
        PlaceholderStep::AskBool { prompt, default } => {
            assert_eq!(prompt, "flag");
            assert!(default);
        }
        other => panic!("unexpected {other:?}"),
    }
    let d = def(PlaceholderKind::Bool, Some("yes"), &[]);
    match placeholder_step("flag", &d, None, true).unwrap() {
        PlaceholderStep::AskBool { default, .. } => assert!(!default),
        other => panic!("unexpected {other:?}"),
    }
}

#[test]
fn select_needs_options_and_a_valid_default() {
    let d = def(PlaceholderKind::Select, Some("a"), &[]);
    assert_eq!(placeholder_step("ci", &d, None, true).unwrap_err(), "select placeholder 'ci' has no options");
    let d = def(PlaceholderKind::Select, Some("gitlab"), &["github", "none"]);
    assert_eq!(
        placeholder_step("ci", &d, None, false).unwrap_err(),
        "placeholder 'ci' default 'gitlab' is not in options: [\"github\", \"none\"]"
    );
    let d = def(PlaceholderKind::Select, Some("none"), &["github", "none"]);
    match placeholder_step("ci", &d, None, true).unwrap() {
        PlaceholderStep::AskSelect { options, default_index, .. } => {
            assert_eq!(options, vec!["github", "none"]);
            assert_eq!(default_index, 1);
        }
        other => panic!("unexpected {other:?}"),
    }
    match placeholder_step("ci", &d, None, false).unwrap() {
        PlaceholderStep::Value(v) => assert_eq!(v, "none"),
        other => panic!("unexpected {other:?}"),
    }
}

#[test]
fn prompt_falls_back_to_the_name() {
    let mut d = def(PlaceholderKind::Text, Some("x"), &[]);
    match placeholder_step("owner", &d, None, true).unwrap() {
        PlaceholderStep::AskText { prompt, default } => {
            assert_eq!(prompt, "owner");
            assert_eq!(default.as_deref(), Some("x"));
        }
        other => panic!("unexpected {other:?}"),
    }
    d.prompt = Some("Who owns it?".to_string());
    match placeholder_step("owner", &d, None, true).unwrap() {
        PlaceholderStep::AskText { prompt, .. } => assert_eq!(prompt, "Who owns it?"),
        other => panic!("unexpected {other:?}"),
    }
}

#[test]
fn answers_become_values() {
    let step = PlaceholderStep::AskSelect { prompt: "p".into(), options: vec!["a".into(), "b".into()], default_index: 0 };
    assert_eq!(answer_value(&step, PromptAnswer::Index(1)).as_deref(), Some("b"));
    assert_eq!(answer_value(&step, PromptAnswer::Index(2)), None);
    let step = PlaceholderStep::AskBool { prompt: "p".into(), default: false };
    assert_eq!(answer_value(&step, PromptAnswer::Bool(true)).as_deref(), Some("true"));
    assert_eq!(answer_value(&step, PromptAnswer::Text("x".into())), None);
}

#[test]
fn resolution_stops_at_the_first_failure() {
    let ds = defs(vec![
        ("a_first", def(PlaceholderKind::Text, Some("one"), &[])),
        ("b_second", def(PlaceholderKind::Text, None, &[])),
        ("c_third", def(PlaceholderKind::Bool, None, &[])),
    ]);
    let mut vars = StrMap::new();
    let err = resolve_placeholders(&ds, &map(&[]), &mut vars).unwrap_err();
    assert_eq!(err, "placeholder 'b_second' has no default and no value provided");
    assert_eq!(get(&vars, "a_first"), Some("one"));
    assert_eq!(get(&vars, "c_third"), None);
    let mut vars = StrMap::new();
    resolve_placeholders(&ds, &map(&[("b_second", "two")]), &mut vars).unwrap();
    assert_eq!(get(&vars, "b_second"), Some("two"));
    assert_eq!(get(&vars, "c_third"), Some("false"));
}

#[test]
fn variables_carry_project_and_crate_names() {
    let v = base_variables("my-cool-app");
    assert_eq!(get(&v, "project_name"), Some("my-cool-app"));
    assert_eq!(get(&v, "crate_name"), Some("my_cool_app"));
    let ds = defs(vec![("description", def(PlaceholderKind::Text, Some(""), &[]))]);
    let v = prepare_render("x-y", &ds, &map(&[])).unwrap();
    assert_eq!(get(&v, "crate_name"), Some("x_y"));
    assert_eq!(get(&v, "description"), Some(""));
}

#[test]
fn previews_fill_in_stand_ins() {
    let ds = defs(vec![
        ("owner", def(PlaceholderKind::Text, None, &[])),
        ("license", def(PlaceholderKind::Text, Some("MIT"), &[])),
        ("given", def(PlaceholderKind::Text, None, &[])),
    ]);
    let mut defines = map(&[("given", "here")]);
    preview_defines(&ds, &mut defines);
    assert_eq!(get(&defines, "owner"), Some("<owner>"));
    assert_eq!(get(&defines, "license"), Some("MIT"));
    assert_eq!(get(&defines, "given"), Some("here"));
}

#[test]
fn true_and_false_become_booleans() {
    assert!(matches!(global_value("true"), GlobalValue::Bool(true)));
    assert!(matches!(global_value("false"), GlobalValue::Bool(false)));
    assert!(matches!(global_value("True"), GlobalValue::Text(t) if t == "True"));
}

#[test]
fn ignore_matches_any_path_component() {
    let ignore = vec!["target".to_string(), ".git".to_string()];
    let p = |parts: &[&str]| parts.iter().map(|s| s.to_string()).collect::<Vec<_>>();
    assert!(should_ignore(&p(&["src", "target", "x.rs"]), &ignore));
    assert!(!should_ignore(&p(&["src", "targets", "x.rs"]), &ignore));
    assert!(has_char("a-b", '-'));
    assert!(!has_char("a_b", '-'));
}

#[test]
fn includes_never_replace_rendered_files() {
    let paths = vec!["Cargo.toml".to_string(), "src/main.rs".to_string()];
    let dests = vec!["LICENSE".to_string(), "Cargo.toml".to_string(), "LICENSE".to_string()];
    assert_eq!(plan_includes(&paths, &dests), vec![true, false, false]);
}

#[test]
fn rendered_files_are_sorted_and_blank_ones_dropped() {
    let f = |p: &str, c: &str| RenderedFile { path: p.to_string(), content: c.to_string() };
    let files = vec![f("src/main.rs", "fn main() {}"), f("README.md", "  \n\t"), f("Cargo.toml", "[package]"), f("b", "x")];
    let out = finish_rendered(&files);
    let paths: Vec<&str> = out.iter().map(|f| f.path.as_str()).collect();
    assert_eq!(paths, vec!["Cargo.toml", "b", "src/main.rs"]);
}

#[test]
fn preview_builder_collects_settings() {
    let b = PreviewBuilder::new("/pack".to_string())
        .template("templates/full".to_string())
        .define("ci_platform".to_string(), "github".to_string());
    assert_eq!(b.project_name, "test-project");
    assert_eq!(b.template_path, "templates/full");
    assert_eq!(get(&b.defines, "ci_platform"), Some("github"));
    let ds = defs(vec![("repo_owner", def(PlaceholderKind::Text, None, &[]))]);
    let vars = b.preview_variables(&ds).unwrap();
    assert_eq!(get(&vars, "repo_owner"), Some("<repo_owner>"));
    let files = b.preview(&vec![RenderedFile { path: "a".into(), content: "x".into() }]);
    assert_eq!(files.len(), 1);
    assert_eq!(files[0].path, "a");
}

const LS_REMOTE: &str = "aaa\trefs/tags/v4.0.0\nbbb\trefs/tags/v4.1.0\nccc\trefs/tags/v4.1.0^{}\nddd\trefs/tags/v4\n";

#[test]
fn ls_remote_tags_follow_annotated_tags() {
    let tags = parse_ls_remote_tags(LS_REMOTE);
    assert_eq!(
        tags,
        vec![
            ("aaa".to_string(), "v4.0.0".to_string()),
            ("ccc".to_string(), "v4.1.0".to_string()),
            ("ddd".to_string(), "v4".to_string()),
        ]
    );
}

#[test]
fn latest_tag_picks_the_highest_version() {
    assert_eq!(latest_tag("actions/checkout", "v4", LS_REMOTE).unwrap(), ("ccc".to_string(), "v4.1.0".to_string()));
    let only_exact = "eee\trefs/tags/v4\n";
    assert_eq!(latest_tag("actions/checkout", "v4", only_exact).unwrap(), ("eee".to_string(), "v4".to_string()));
    assert_eq!(latest_tag("o/r", "v9", "").unwrap_err(), "no tags matching 'v9*' found in o/r");
    assert_eq!(latest_tag("o/r", "v9", "fff\trefs/tags/v9x\n").unwrap_err(), "tag 'v9' not found in o/r");
}

#[test]
fn refs_resolve_to_their_first_sha() {
    assert_eq!(ref_sha("o/r", "stable", "abc\trefs/heads/stable\n").unwrap(), ("abc".to_string(), "stable".to_string()));
    assert_eq!(ref_sha("o/r", "stable", "").unwrap_err(), "ref 'stable' not found in o/r");
}

#[test]
fn pinned_actions_render_with_their_sha() {
    let ok = Ok(("abc123".to_string(), "v4.1.0".to_string()));
    assert_eq!(pin_github_action_text("actions/checkout", "v4", &ok), "actions/checkout@abc123 # v4.1.0");
    let err = Err("nope".to_string());
    assert_eq!(
        pin_github_action_text("actions/checkout", "v4", &err),
        "actions/checkout@could-not-resolve-git-sha-for-v4 # TODO: run 'git ls-remote --tags https://github.com/actions/checkout.git \"refs/tags/v4.*\"' and pin"
    );
}

#[test]
fn pin_calls_are_found_in_templates() {
    let text = "uses: {{ pin_github_action(\"actions/checkout\", \"v4\") }}\nx: {{ pin_github_action( \"github/codeql-action/upload-sarif\" ,\"v3\" ) }}";
    assert_eq!(
        pin_action_calls(text),
        vec![
            ("actions/checkout".to_string(), "v4".to_string()),
            ("github/codeql-action/upload-sarif".to_string(), "v3".to_string()),
        ]
    );
    assert!(pin_action_calls("no calls here").is_empty());
}

#[test]
fn trim_drops_unicode_white_space() {
    assert_eq!(battery_pack::lines::trim("\u{3000}\u{85} body\u{a0}\t\n"), "body");
    assert_eq!(battery_pack::lines::trim("\u{200b}x"), "\u{200b}x");
}
