use battery_pack::registry::{
    collect_examples, crate_info_url, download_url, example_description, latest_version, owners_url,
    registry_summaries, search_url, summarize_local_packages, BatteryPackSummary,
};

/// The packages of the fixtures workspace, as `cargo metadata` lists them.
fn fixture_packages() -> Vec<(String, String, String)> {
    [
        ("basic-battery-pack", "0.1.0", "A simple test battery pack"),
        ("broken-battery-pack", "0.1.0", "A deliberately broken battery pack for testing validation"),
        ("fancy-battery-pack", "0.2.0", "A feature-rich test battery pack"),
        ("managed-battery-pack", "0.2.0", "A battery pack whose crates projects take as bp-managed"),
    ]
    .iter()
    .map(|(n, v, d)| (n.to_string(), v.to_string(), d.to_string()))
    .collect()
}

fn list(filter: Option<&str>) -> Vec<BatteryPackSummary> {
    summarize_local_packages(&fixture_packages(), filter).entries.into_iter().map(|(_, s)| s).collect()
}

fn format_summaries(packs: &[BatteryPackSummary]) -> String {
    packs.iter().map(|bp| format!("{} {} -- {}", bp.name, bp.version, bp.description)).collect::<Vec<_>>().join("\n")
}

#[test]
fn tests_list_discovers_local_battery_packs() {
    let packs = list(None);
    let formatted = format_summaries(&packs);
    assert!(formatted.contains("basic-battery-pack"), "Expected basic-battery-pack");
    assert!(formatted.contains("broken-battery-pack"), "Expected broken-battery-pack");
    assert!(formatted.contains("fancy-battery-pack"), "Expected fancy-battery-pack");
    assert!(formatted.contains("managed-battery-pack"), "Expected managed-battery-pack");
}

#[test]
fn tests_list_filter_narrows_results() {
    let packs = list(Some("basic"));
    let formatted = format_summaries(&packs);
    assert_eq!(packs.len(), 1, "Expected exactly 1 result");
    assert!(formatted.contains("basic-battery-pack"), "Expected basic-battery-pack");
}

#[test]
fn tests_list_filter_no_match_returns_empty() {
    let packs = list(Some("nonexistent"));
    assert!(packs.is_empty());
}

#[test]
fn list_list_filter_no_match_returns_empty() {
    let packs = list(Some("nonexistent"));
    assert!(packs.is_empty());
}

#[test]
fn tests_list_short_names_are_correct() {
    let packs = list(None);
    let short_names: Vec<&str> = packs.iter().map(|bp| bp.short_name.as_str()).collect();
    assert_eq!(short_names.len(), 4, "Expected 4 packs");
    assert!(short_names.contains(&"basic"), "Expected 'basic'");
    assert!(short_names.contains(&"broken"), "Expected 'broken'");
    assert!(short_names.contains(&"fancy"), "Expected 'fancy'");
    assert!(short_names.contains(&"managed"), "Expected 'managed'");
}

#[test]
fn local_listing_skips_other_packages_and_orders_by_name() {
    let mut packages = fixture_packages();
    packages.insert(0, ("zeta-battery-pack".into(), "1.0.0".into(), "z".into()));
    packages.push(("helper".into(), "0.1.0".into(), "not a pack".into()));
    let packs = summarize_local_packages(&packages, None);
    let names: Vec<&str> = packs.entries.iter().map(|(k, _)| k.as_str()).collect();
    assert_eq!(names, vec!["basic-battery-pack", "broken-battery-pack", "fancy-battery-pack", "managed-battery-pack", "zeta-battery-pack"]);
}

#[test]
fn registry_search_keeps_battery_packs() {
    let found = vec![
        ("cli-battery-pack".to_string(), "0.3.0".to_string(), Some("CLI essentials".to_string())),
        ("battery".to_string(), "1.0.0".to_string(), None),
        ("web-battery-pack".to_string(), "0.1.0".to_string(), None),
    ];
    let out = registry_summaries(&found);
    let rows: Vec<(&str, &str, &str, &str)> =
        out.iter().map(|s| (s.name.as_str(), s.short_name.as_str(), s.version.as_str(), s.description.as_str())).collect();
    assert_eq!(rows, vec![("cli-battery-pack", "cli", "0.3.0", "CLI essentials"), ("web-battery-pack", "web", "0.1.0", "")]);
}

#[test]
fn crates_io_urls() {
    assert_eq!(search_url(None), "https://crates.io/api/v1/crates?keyword=battery-pack&per_page=50");
    assert_eq!(search_url(Some("cli")), "https://crates.io/api/v1/crates?q=cli&keyword=battery-pack&per_page=50");
    assert_eq!(search_url(Some("a b&c")), "https://crates.io/api/v1/crates?q=a%20b%26c&keyword=battery-pack&per_page=50");
    assert_eq!(crate_info_url("cli-battery-pack"), "https://crates.io/api/v1/crates/cli-battery-pack");
    assert_eq!(owners_url("x"), "https://crates.io/api/v1/crates/x/owners");
    assert_eq!(download_url("x", "1.2.3"), "https://static.crates.io/crates/x/x-1.2.3.crate");
}

#[test]
fn latest_version_skips_yanked() {
    let vs = vec![("2.0.0".to_string(), true), ("1.9.0".to_string(), false), ("1.8.0".to_string(), false)];
    assert_eq!(latest_version(&vs, "x").unwrap(), "1.9.0");
    let vs = vec![("2.0.0".to_string(), true)];
    assert_eq!(latest_version(&vs, "x").unwrap_err(), "No non-yanked versions found for 'x'");
}

#[test]
fn example_descriptions_come_from_leading_doc_comments() {
    assert_eq!(example_description("//! Parse arguments\nfn main() {}").as_deref(), Some("Parse arguments"));
    assert_eq!(example_description("// license\n\n//!\n//!   Spinner demo  \nfn main() {}").as_deref(), Some("Spinner demo"));
    assert_eq!(example_description("use std::io;\n//! late").as_deref(), None);
    assert_eq!(example_description("").as_deref(), None);
}

#[test]
fn examples_are_collected_and_sorted() {
    let files = vec![
        ("spinner.rs".to_string(), Some("//! Show a spinner\nfn main() {}".to_string())),
        ("README.md".to_string(), Some("# examples".to_string())),
        ("args.rs".to_string(), None),
        (".rs".to_string(), None),
    ];
    let tree = vec!["crates/bp/examples/spinner.rs".to_string(), "crates/bp/src/lib.rs".to_string()];
    let ex = collect_examples(&files, Some(&tree));
    let rows: Vec<(&str, Option<&str>, Option<&str>)> =
        ex.iter().map(|e| (e.name.as_str(), e.description.as_deref(), e.repo_path.as_deref())).collect();
    assert_eq!(rows, vec![("args", None, None), ("spinner", Some("Show a spinner"), Some("crates/bp/examples/spinner.rs"))]);
}

#[test]
fn search_url_percent_encodes_the_query_bytes() {
    assert_eq!(
        search_url(Some("web api/é~")),
        "https://crates.io/api/v1/crates?q=web%20api%2F%C3%A9~&keyword=battery-pack&per_page=50"
    );
}
