use battery_pack::detail_screen::{detail_footer, detail_screen_lines, scroll_offset, ItemColor, ScreenLine};
use battery_pack::detail_text::{detail_text, DetailLine};
use battery_pack::tui::DetailScreen;
use battery_pack::registry::{BatteryPackDetail, ExampleInfo, OwnerInfo, TemplateInfo};
use battery_pack::strmap::StrMap;

fn render(lines: &[DetailLine]) -> Vec<String> {
    lines
        .iter()
        .map(|l| match l {
            DetailLine::Blank => String::new(),
            DetailLine::Title { name, version } => format!("{name} {version}"),
            DetailLine::Text(t) => t.clone(),
            DetailLine::Heading(h) => h.clone(),
            DetailLine::Entry(e) => format!("  {e}"),
            DetailLine::Template { name, width, description } | DetailLine::Example { name, width, description } => {
                match description {
                    Some(d) => format!("  {:<width$}  {}", name, d, width = *width),
                    None => format!("  {:<width$}", name, width = *width),
                }
            }
        })
        .collect()
}

#[test]
fn detail_text_lists_sections_in_order() {
    let detail = BatteryPackDetail {
        name: "cli-battery-pack".to_string(),
        short_name: "cli".to_string(),
        version: "0.3.0".to_string(),
        description: "CLI tools".to_string(),
        repository: None,
        owners: vec![
            OwnerInfo { login: "alice".to_string(), name: Some("Alice A".to_string()) },
            OwnerInfo { login: "bob".to_string(), name: None },
        ],
        crates: vec!["anyhow".to_string(), "clap".to_string()],
        extends: vec![],
        features: StrMap::new(),
        templates: vec![
            TemplateInfo { name: "default".to_string(), path: "templates/default".to_string(), description: Some("A basic CLI".to_string()), repo_path: None },
            TemplateInfo { name: "x".to_string(), path: "templates/x".to_string(), description: None, repo_path: None },
        ],
        examples: vec![],
    };
    let lines = render(&detail_text(&detail));
    assert_eq!(
        lines,
        vec![
            "",
            "cli-battery-pack 0.3.0",
            "CLI tools",
            "",
            "Authors:",
            "  Alice A (alice)",
            "  bob",
            "",
            "Crates:",
            "  anyhow",
            "  clap",
            "",
            "Templates:",
            "  default  A basic CLI",
            "  x      ",
            "",
            "Install:",
            "  cargo bp add cli",
            "  cargo bp new cli",
            "",
        ]
    );
}

#[test]
fn detail_screen_highlights_the_selected_item() {
    let mut features = StrMap::new();
    features.insert("cli".to_string(), vec!["anyhow".to_string(), "clap".to_string()]);
    let detail = BatteryPackDetail {
        name: "cli-battery-pack".to_string(),
        short_name: "cli".to_string(),
        version: "0.3.0".to_string(),
        description: String::new(),
        repository: None,
        owners: vec![],
        crates: vec!["anyhow".to_string(), "clap".to_string()],
        extends: vec!["error".to_string()],
        features,
        templates: vec![TemplateInfo { name: "default".to_string(), path: "t".to_string(), description: Some("basic".to_string()), repo_path: None }],
        examples: vec![ExampleInfo { name: "demo".to_string(), description: None, repo_path: None }],
    };
    let screen = DetailScreen { detail: std::rc::Rc::new(detail), selected_index: 3, came_from_list: true, in_project: false, is_installed: false };
    let (lines, selected) = detail_screen_lines(&screen);
    let shown: Vec<String> = lines
        .iter()
        .map(|l| match l {
            ScreenLine::Blank => String::new(),
            ScreenLine::Text(t) | ScreenLine::Heading(t) => t.clone(),
            ScreenLine::Item { text, color, selected } => format!("{text}|{:?}|{selected}", color),
        })
        .collect();
    assert_eq!(
        shown,
        vec![
            "Crates:",
            "  anyhow|Plain|false",
            "  clap|Plain|false",
            "",
            "Features:",
            "  cli → anyhow, clap",
            "",
            "Extends:",
            "  error|Yellow|false",
            "",
            "Templates:",
            "> default - basic|Cyan|true",
            "",
            "Examples:",
            "  demo|Magenta|false",
            "",
            "Actions:",
            "  Open on crates.io|Plain|false",
            "  Add to project (not in a project)|Plain|false",
            "  Create new project from template|Plain|false",
            "",
        ]
    );
    assert_eq!(selected, Some(11));
    assert!(matches!(lines[11], ScreenLine::Item { color: ItemColor::Cyan, selected: true, .. }));
    assert_eq!(scroll_offset(selected, 5), 7);
    assert_eq!(scroll_offset(selected, 0), 11);
    assert_eq!(scroll_offset(None, 5), 0);
    assert_eq!(detail_footer(true, true), "↑↓/jk Navigate | Enter Open | p Preview | n New project | u Use in project | Esc Back");
    assert_eq!(detail_footer(false, false), "↑↓/jk Navigate | Enter Open/Select | Esc/q Quit");
}
