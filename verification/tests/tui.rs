use battery_pack::registry::{BatteryPackDetail, ExampleInfo, TemplateInfo};
use battery_pack::strmap::StrMap;
use battery_pack::tui::{list_nav, wrapping_nav, DetailItem, DetailScreen};
use std::rc::Rc;

/// Create a BatteryPackDetail for DetailScreen tests.
fn make_detail(crates: &[&str], templates: &[&str], examples: &[&str]) -> BatteryPackDetail {
    BatteryPackDetail {
        name: "test-battery-pack".to_string(),
        short_name: "test".to_string(),
        version: "1.0.0".to_string(),
        description: "Test battery pack".to_string(),
        repository: Some("https://github.com/test/test".to_string()),
        owners: Vec::new(),
        crates: crates.iter().map(|s| s.to_string()).collect(),
        extends: Vec::new(),
        features: StrMap::new(),
        templates: templates
            .iter()
            .map(|name| TemplateInfo {
                name: name.to_string(),
                path: format!("templates/{}", name),
                description: None,
                repo_path: None,
            })
            .collect(),
        examples: examples
            .iter()
            .map(|name| ExampleInfo { name: name.to_string(), description: None, repo_path: None })
            .collect(),
    }
}

#[test]
fn detail_selectable_items_includes_all_sections() {
    let detail = make_detail(&["serde", "tokio"], &["basic", "advanced"], &["hello-world"]);
    let screen = DetailScreen {
        detail: Rc::new(detail),
        selected_index: 0,
        came_from_list: false,
        in_project: true,
        is_installed: false,
    };
    let items = screen.selectable_items();
    assert_eq!(screen.item_count(), items.len());
    assert_eq!(items.len(), 8);
    assert!(matches!(&items[0], DetailItem::Crate(n) if n == "serde"));
    assert!(matches!(&items[1], DetailItem::Crate(n) if n == "tokio"));
    assert!(matches!(&items[2], DetailItem::Template { _path, .. } if _path == "templates/basic"));
    assert!(matches!(&items[3], DetailItem::Template { _path, .. } if _path == "templates/advanced"));
    assert!(matches!(&items[4], DetailItem::Example { _name, .. } if _name == "hello-world"));
    assert!(matches!(items[5], DetailItem::ActionOpenCratesIo));
    assert!(matches!(items[6], DetailItem::ActionAddToProject));
    assert!(matches!(items[7], DetailItem::ActionNewProject));
}

#[test]
fn detail_navigation_wraps() {
    let detail = make_detail(&["serde"], &[], &[]);
    let mut screen = DetailScreen {
        detail: Rc::new(detail),
        selected_index: 0,
        came_from_list: false,
        in_project: true,
        is_installed: false,
    };

    // 1 crate + 3 actions = 4 items
    assert_eq!(screen.item_count(), 4);

    screen.select_prev();
    assert_eq!(screen.selected_index, 3);

    screen.select_next();
    assert_eq!(screen.selected_index, 0);
}

#[test]
fn detail_selected_item_returns_correct_item() {
    let detail = make_detail(&["serde", "tokio"], &[], &[]);
    let screen = DetailScreen {
        detail: Rc::new(detail),
        selected_index: 1,
        came_from_list: false,
        in_project: true,
        is_installed: false,
    };
    let item = screen.selected_item().unwrap();
    assert!(matches!(item, DetailItem::Crate(n) if n == "tokio"));
}

/// Context detection (finding Cargo.toml, walking up to the workspace root)
/// is cargo_metadata's job; the library does no project discovery of its own.
#[test]
fn context_detection_delegated_to_cargo_metadata() {
    // Intentionally empty — see doc comment.
}

/// Non-blocking network behavior is a property of the event loop: loading
/// runs at the top of each iteration and input polling has a short timeout.
#[test]
fn network_non_blocking_is_architectural() {
    // Intentionally empty — see doc comment.
}

/// Template listing is shown in the detail screen's selectable items
/// (covered by detail_selectable_items_includes_all_sections).
#[test]
fn template_list_covered_by_detail_screen_tests() {
    // Intentionally empty — see doc comment.
}

/// Project creation runs `cargo bp new` as an external process.
#[test]
fn new_project_creates_via_external_process() {
    // Intentionally empty — see doc comment.
}

#[test]
fn navigation_helpers_wrap_both_ways() {
    let mut i = 0usize;
    wrapping_nav(&mut i, 3, false);
    assert_eq!(i, 2);
    wrapping_nav(&mut i, 3, true);
    assert_eq!(i, 0);
    wrapping_nav(&mut i, 0, true);
    assert_eq!(i, 0);
    assert_eq!(list_nav(None, 3, true), None);
    assert_eq!(list_nav(Some(1), 3, true), Some(2));
    assert_eq!(list_nav(Some(2), 3, true), Some(2));
    assert_eq!(list_nav(Some(0), 3, false), Some(0));
    assert_eq!(list_nav(Some(1), 0, true), Some(1));
}
