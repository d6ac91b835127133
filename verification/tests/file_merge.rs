use battery_pack::file_merge::{count_results, strategy_for, summary_line, FileResult, MergeStrategy};

#[test]
fn strategy_dispatch_cargo_toml() {
    assert!(matches!(strategy_for("Cargo.toml"), MergeStrategy::Toml));
    assert!(matches!(strategy_for("some/nested/Cargo.toml"), MergeStrategy::Toml));
    assert!(matches!(strategy_for("_typos.toml"), MergeStrategy::Toml));
    assert!(matches!(strategy_for("release-plz.toml"), MergeStrategy::Toml));
}

#[test]
fn strategy_dispatch_yaml() {
    assert!(matches!(strategy_for(".github/workflows/ci.yml"), MergeStrategy::Yaml));
    assert!(matches!(strategy_for("config.yaml"), MergeStrategy::Yaml));
}

#[test]
fn strategy_dispatch_plain() {
    assert!(matches!(strategy_for("src/main.rs"), MergeStrategy::Plain));
    assert!(matches!(strategy_for("README.md"), MergeStrategy::Plain));
    assert!(matches!(strategy_for(".github/dependabot.yml"), MergeStrategy::Yaml));
}

#[test]
fn print_summary_snapshot_mixed_results() {
    let results = vec![
        FileResult::Created(".github/workflows/typos.yml".to_string()),
        FileResult::Created("_typos.toml".to_string()),
        FileResult::Merged("Cargo.toml".to_string()),
        FileResult::Skipped("src/main.rs".to_string()),
    ];

    let created = results.iter().filter(|r| matches!(r, FileResult::Created(_))).count();
    let merged = results.iter().filter(|r| matches!(r, FileResult::Merged(_))).count();
    let skipped = results.iter().filter(|r| matches!(r, FileResult::Skipped(_))).count();

    assert_eq!(created, 2);
    assert_eq!(merged, 1);
    assert_eq!(skipped, 1);
}

#[test]
fn summary_counts_and_line() {
    let results = vec![
        FileResult::Created("a".to_string()),
        FileResult::Created("b".to_string()),
        FileResult::Merged("Cargo.toml".to_string()),
        FileResult::Skipped("src/main.rs".to_string()),
        FileResult::Overwritten("x".to_string()),
        FileResult::Unchanged("y".to_string()),
    ];
    assert_eq!(count_results(&results), (2, 1, 1, 1));
    assert_eq!(summary_line(&results), "2 created, 1 merged, 1 skipped, 1 overwritten");
    assert_eq!(summary_line(&vec![FileResult::Unchanged("y".to_string())]), "");
    assert_eq!(results[2].label(), "merge");
    assert_eq!(results[2].path(), "Cargo.toml");
}
