use battery_pack::cli::{AddTarget, BpCommands, Cli, CliErrorKind, Commands};

/// Unwrap `Commands::Bp { command }` → `Option<BpCommands>`.
fn unwrap_bp_command(cli: Cli) -> Option<BpCommands> {
    match cli.command {
        Commands::Bp { command, .. } => command,
    }
}

/// Parsed `Add` fields.
struct ParsedAdd {
    _battery_pack: Option<String>,
    crates: Vec<String>,
    features: Vec<String>,
    _no_default_features: bool,
    _all_features: bool,
    target: Option<AddTarget>,
    _path: Option<String>,
}

/// Parse args as `cargo bp add ...` and return all Add fields.
fn parse_add_command(args: &[&str]) -> ParsedAdd {
    let cli = Cli::try_parse_from(args).unwrap_or_else(|e| panic!("parse failed for {args:?}: {e:?}"));
    match unwrap_bp_command(cli) {
        Some(BpCommands::Add {
            battery_pack,
            crates,
            features,
            no_default_features,
            all_features,
            target,
            path,
        }) => ParsedAdd {
            _battery_pack: battery_pack,
            crates,
            features,
            _no_default_features: no_default_features,
            _all_features: all_features,
            target,
            _path: path,
        },
        None => panic!("expected Some(Add), got None"),
        Some(other) => panic!("expected Add, got {:?}", std::mem::discriminant(&other)),
    }
}

#[test]
fn bare_cargo_bp_produces_none_command() {
    let cli = Cli::try_parse_from(&["cargo", "bp"]).expect("bare `cargo bp` should parse");
    assert!(unwrap_bp_command(cli).is_none(), "bare `cargo bp` should produce command: None");
}

#[test]
fn new_name_flag_is_parsed() {
    let cli = Cli::try_parse_from(&["cargo", "bp", "new", "cli", "--name", "my-project"])
        .expect("--name flag should be accepted");
    match unwrap_bp_command(cli) {
        Some(BpCommands::New { name, .. }) => {
            assert_eq!(name.as_deref(), Some("my-project"));
        }
        None => panic!("expected Some(New), got None"),
        Some(other) => panic!("expected New, got {:?}", std::mem::discriminant(&other)),
    }
}

#[test]
fn new_name_short_flag_is_parsed() {
    let cli = Cli::try_parse_from(&["cargo", "bp", "new", "cli", "-n", "my-project"])
        .expect("-n flag should be accepted");
    match unwrap_bp_command(cli) {
        Some(BpCommands::New { name, .. }) => {
            assert_eq!(name.as_deref(), Some("my-project"));
        }
        None => panic!("expected Some(New), got None"),
        Some(other) => panic!("expected New, got {:?}", std::mem::discriminant(&other)),
    }
}

#[test]
fn new_without_name_parses_as_none() {
    let cli = Cli::try_parse_from(&["cargo", "bp", "new", "cli"]).expect("new without --name should parse");
    match unwrap_bp_command(cli) {
        Some(BpCommands::New { name, .. }) => {
            assert!(name.is_none(), "name should be None when --name is omitted");
        }
        None => panic!("expected Some(New), got None"),
        Some(other) => panic!("expected New, got {:?}", std::mem::discriminant(&other)),
    }
}

#[test]
fn show_non_interactive_flag_is_parsed() {
    let cli = Cli::try_parse_from(&["cargo", "bp", "show", "cli", "--non-interactive"])
        .expect("--non-interactive should be accepted");
    match unwrap_bp_command(cli) {
        Some(BpCommands::Show { non_interactive, .. }) => {
            assert!(non_interactive, "non_interactive should be true");
        }
        None => panic!("expected Some(Show), got None"),
        Some(other) => panic!("expected Show, got {:?}", std::mem::discriminant(&other)),
    }
}

#[test]
fn show_defaults_to_interactive() {
    let cli = Cli::try_parse_from(&["cargo", "bp", "show", "cli"]).expect("show without --non-interactive should parse");
    match unwrap_bp_command(cli) {
        Some(BpCommands::Show { non_interactive, .. }) => {
            assert!(!non_interactive, "non_interactive should default to false");
        }
        None => panic!("expected Some(Show), got None"),
        Some(other) => panic!("expected Show, got {:?}", std::mem::discriminant(&other)),
    }
}

#[test]
fn list_non_interactive_flag_is_parsed() {
    let cli = Cli::try_parse_from(&["cargo", "bp", "list", "--non-interactive"])
        .expect("--non-interactive should be accepted");
    match unwrap_bp_command(cli) {
        Some(BpCommands::List { non_interactive, .. }) => {
            assert!(non_interactive, "non_interactive should be true");
        }
        None => panic!("expected Some(List), got None"),
        Some(other) => panic!("expected List, got {:?}", std::mem::discriminant(&other)),
    }
}

#[test]
fn list_defaults_to_interactive() {
    let cli = Cli::try_parse_from(&["cargo", "bp", "list"]).expect("list without --non-interactive should parse");
    match unwrap_bp_command(cli) {
        Some(BpCommands::List { non_interactive, .. }) => {
            assert!(!non_interactive, "non_interactive should default to false");
        }
        None => panic!("expected Some(List), got None"),
        Some(other) => panic!("expected List, got {:?}", std::mem::discriminant(&other)),
    }
}

#[test]
fn tests_features_long_flag_parsed() {
    let add = parse_add_command(&["cargo", "bp", "add", "cli", "--features", "indicators"]);
    assert_eq!(add.features, vec!["indicators"]);
}

#[test]
fn tests_features_short_flag_parsed() {
    let add = parse_add_command(&["cargo", "bp", "add", "cli", "-F", "indicators"]);
    assert_eq!(add.features, vec!["indicators"]);
}

#[test]
fn tests_features_old_with_flag_rejected() {
    let result = Cli::try_parse_from(&["cargo", "bp", "add", "cli", "--with", "indicators"]);
    assert!(result.is_err(), "old --with flag should be rejected");
}

#[test]
fn tests_features_comma_separated() {
    let add = parse_add_command(&["cargo", "bp", "add", "cli", "-F", "indicators,fancy"]);
    assert_eq!(add.features, vec!["indicators", "fancy"]);
}

#[test]
fn tests_features_repeated_flag() {
    let add = parse_add_command(&["cargo", "bp", "add", "cli", "-F", "indicators", "-F", "fancy"]);
    assert_eq!(add.features, vec!["indicators", "fancy"]);
}

#[test]
fn tests_specific_crates_parsed() {
    let add = parse_add_command(&["cargo", "bp", "add", "cli", "clap", "dialoguer"]);
    assert_eq!(add.crates, vec!["clap", "dialoguer"]);
}

#[test]
fn tests_target_values_parsed() {
    for (arg, expected) in [
        ("workspace", AddTarget::Workspace),
        ("package", AddTarget::Package),
        ("default", AddTarget::Default),
    ] {
        let add = parse_add_command(&["cargo", "bp", "add", "cli", "--target", arg]);
        assert_eq!(add.target, Some(expected), "for --target {arg}");
    }
}

#[test]
fn tests_target_omitted_is_none() {
    let add = parse_add_command(&["cargo", "bp", "add", "cli"]);
    assert!(add.target.is_none());
}

#[test]
fn tests_target_invalid_value_rejected() {
    let result = Cli::try_parse_from(&["cargo", "bp", "add", "cli", "--target", "invalid"]);
    assert!(result.is_err());
}

// ---------------------------------------------------------------------------
// Further cases of the command-line grammar
// ---------------------------------------------------------------------------

#[test]
fn crate_source_before_subcommand_is_kept() {
    let cli = Cli::try_parse_from(&["cargo", "bp", "--crate-source", "/ws", "list"]).unwrap();
    match cli.command {
        Commands::Bp { crate_source, command } => {
            assert_eq!(crate_source.as_deref(), Some("/ws"));
            assert!(matches!(command, Some(BpCommands::List { filter: None, non_interactive: false })));
        }
    }
    let cli = Cli::try_parse_from(&["cargo", "bp", "--crate-source=/ws"]).unwrap();
    match cli.command {
        Commands::Bp { crate_source, command } => {
            assert_eq!(crate_source.as_deref(), Some("/ws"));
            assert!(command.is_none());
        }
    }
}

#[test]
fn aliases_name_the_same_subcommands() {
    assert!(matches!(
        unwrap_bp_command(Cli::try_parse_from(&["cargo", "bp", "ls", "web"]).unwrap()),
        Some(BpCommands::List { filter: Some(f), .. }) if f == "web"
    ));
    assert!(matches!(
        unwrap_bp_command(Cli::try_parse_from(&["cargo", "bp", "info", "cli"]).unwrap()),
        Some(BpCommands::Show { battery_pack, .. }) if battery_pack == "cli"
    ));
    assert!(matches!(
        unwrap_bp_command(Cli::try_parse_from(&["cargo", "bp", "stat"]).unwrap()),
        Some(BpCommands::Status { path: None })
    ));
}

#[test]
fn new_takes_all_its_options() {
    let cli = Cli::try_parse_from(&[
        "cargo", "bp", "new", "cli", "-t", "simple", "--path=../cli", "-d", "description=My app",
        "--define", "x=1=2",
    ])
    .unwrap();
    match unwrap_bp_command(cli) {
        Some(BpCommands::New { battery_pack, name, template, path, define }) => {
            assert_eq!(battery_pack, "cli");
            assert_eq!(name, None);
            assert_eq!(template.as_deref(), Some("simple"));
            assert_eq!(path.as_deref(), Some("../cli"));
            assert_eq!(
                define,
                vec![
                    ("description".to_string(), "My app".to_string()),
                    ("x".to_string(), "1=2".to_string())
                ]
            );
        }
        _ => panic!("expected New"),
    }
}

#[test]
fn grammar_errors_are_reported() {
    let kind = |args: &[&str]| Cli::try_parse_from(args).unwrap_err().kind;
    assert_eq!(kind(&["cargo"]), CliErrorKind::MissingSubcommand);
    assert_eq!(kind(&["cargo", "frob"]), CliErrorKind::UnknownSubcommand);
    assert_eq!(kind(&["cargo", "--version"]), CliErrorKind::DisplayVersion);
    assert_eq!(kind(&["cargo", "bp", "--help"]), CliErrorKind::DisplayHelp);
    assert_eq!(kind(&["cargo", "bp", "add", "-h"]), CliErrorKind::DisplayHelp);
    assert_eq!(kind(&["cargo", "bp", "frob"]), CliErrorKind::UnknownSubcommand);
    assert_eq!(kind(&["cargo", "bp", "new"]), CliErrorKind::MissingRequired);
    assert_eq!(kind(&["cargo", "bp", "new", "cli", "--name"]), CliErrorKind::MissingValue);
    assert_eq!(kind(&["cargo", "bp", "new", "cli", "--name", "-x"]), CliErrorKind::MissingValue);
    assert_eq!(kind(&["cargo", "bp", "new", "cli", "-n", "a", "-n", "b"]), CliErrorKind::Repeated);
    assert_eq!(kind(&["cargo", "bp", "new", "cli", "-d", "novalue"]), CliErrorKind::InvalidValue);
    assert_eq!(kind(&["cargo", "bp", "new", "a", "b"]), CliErrorKind::UnexpectedArgument);
    assert_eq!(kind(&["cargo", "bp", "list", "--non-interactive=yes"]), CliErrorKind::UnexpectedValue);
    assert_eq!(kind(&["cargo", "bp", "sync", "x"]), CliErrorKind::UnexpectedArgument);
}

#[test]
fn double_dash_ends_options() {
    let add = parse_add_command(&["cargo", "bp", "add", "cli", "--", "-F"]);
    assert_eq!(add.crates, vec!["-F"]);
    assert!(add.features.is_empty());
}

#[test]
fn short_values_may_be_attached() {
    let add = parse_add_command(&["cargo", "bp", "add", "cli", "-Fa,b", "-F=c"]);
    assert_eq!(add.features, vec!["a", "b", "c"]);
}
