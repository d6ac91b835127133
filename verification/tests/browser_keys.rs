use battery_pack::browser::{
    App, CrateSource, ErrorScreen, Key, ListScreen, LoadingState, LoadingTarget, PendingAction, PreviewScreen, Screen,
};
use battery_pack::registry::{BatteryPackDetail, BatteryPackSummary, TemplateInfo};
use battery_pack::strmap::StrMap;
use battery_pack::tui::{DetailScreen, FormField};
use std::rc::Rc;

fn make_detail(crates: &[&str], templates: &[&str], examples: &[&str]) -> BatteryPackDetail {
    BatteryPackDetail {
        name: "test-battery-pack".to_string(),
        short_name: "test".to_string(),
        version: "1.0.0".to_string(),
        description: "Test battery pack".to_string(),
        repository: Some("https://github.com/test/test".to_string()),
        owners: Vec::new(),
        crates: crates.iter().map(|s| s.to_string()).collect(),
        extends: Vec::new(),
        features: StrMap::new(),
        templates: templates
            .iter()
            .map(|name| TemplateInfo {
                name: name.to_string(),
                path: format!("templates/{}", name),
                description: None,
                repo_path: Some(format!("bp/templates/{}", name)),
            })
            .collect(),
        examples: examples
            .iter()
            .map(|name| battery_pack::registry::ExampleInfo {
                name: name.to_string(),
                description: None,
                repo_path: None,
            })
            .collect(),
    }
}

fn make_app(screen: Screen) -> App {
    App {
        source: CrateSource::Registry,
        screen,
        should_quit: false,
        pending_action: None,
        in_project: true,
        installed_bp_names: Vec::new(),
        cwd: "/work".to_string(),
    }
}

fn make_summary(short_name: &str, version: &str, desc: &str) -> BatteryPackSummary {
    BatteryPackSummary {
        name: format!("{}-battery-pack", short_name),
        short_name: short_name.to_string(),
        version: version.to_string(),
        description: desc.to_string(),
    }
}

fn detail_screen(detail: BatteryPackDetail, selected_index: usize, came_from_list: bool) -> Screen {
    Screen::Detail(DetailScreen {
        detail: Rc::new(detail),
        selected_index,
        came_from_list,
        in_project: true,
        is_installed: false,
    })
}

fn press(app: &mut App, key: Key) {
    assert!(app.key_is_ok(key));
    let _ = app.handle_key(key);
}

fn unwrap_list_screen(app: &App) -> &ListScreen {
    match &app.screen {
        Screen::List(state) => state,
        _ => panic!("Expected List screen"),
    }
}

fn unwrap_detail_screen(app: &App) -> &DetailScreen {
    match &app.screen {
        Screen::Detail(state) => state,
        _ => panic!("Expected Detail screen"),
    }
}

#[test]
fn list_j_k_navigation() {
    let mut app = make_app(Screen::List(ListScreen {
        items: vec![make_summary("a", "1.0.0", "Pack A"), make_summary("b", "1.0.0", "Pack B")],
        selected: Some(0),
        filter: None,
    }));
    press(&mut app, Key::Char('j'));
    assert_eq!(unwrap_list_screen(&app).selected, Some(1));
    press(&mut app, Key::Char('k'));
    assert_eq!(unwrap_list_screen(&app).selected, Some(0));
}

#[test]
fn list_q_quits() {
    let mut app = make_app(Screen::List(ListScreen {
        items: vec![make_summary("a", "1.0.0", "")],
        selected: Some(0),
        filter: None,
    }));
    press(&mut app, Key::Char('q'));
    assert!(app.should_quit);
}

#[test]
fn list_esc_quits() {
    let mut app = make_app(Screen::List(ListScreen { items: Vec::new(), selected: Some(0), filter: None }));
    press(&mut app, Key::Esc);
    assert!(app.should_quit);
}

#[test]
fn list_enter_loads_the_selected_pack() {
    let mut app = make_app(Screen::List(ListScreen {
        items: vec![make_summary("a", "1.0.0", ""), make_summary("b", "1.0.0", "")],
        selected: Some(1),
        filter: None,
    }));
    press(&mut app, Key::Enter);
    match &app.screen {
        Screen::Loading(LoadingState { message, target: LoadingTarget::Detail { name, path, came_from_list } }) => {
            assert_eq!(message, "Loading b...");
            assert_eq!(name, "b-battery-pack");
            assert!(path.is_none());
            assert!(*came_from_list);
        }
        _ => panic!("expected a detail load"),
    }
}

#[test]
fn detail_tab_and_arrows_navigate() {
    let mut app = make_app(detail_screen(make_detail(&["serde", "tokio"], &[], &[]), 0, false));
    press(&mut app, Key::Tab);
    assert_eq!(unwrap_detail_screen(&app).selected_index, 1);
    press(&mut app, Key::Down);
    assert_eq!(unwrap_detail_screen(&app).selected_index, 2);
    press(&mut app, Key::Up);
    assert_eq!(unwrap_detail_screen(&app).selected_index, 1);
}

#[test]
fn detail_esc_when_came_from_list_goes_back() {
    let mut app = make_app(detail_screen(make_detail(&["serde"], &[], &[]), 0, true));
    press(&mut app, Key::Esc);
    assert!(!app.should_quit);
    assert!(matches!(&app.screen, Screen::Loading(LoadingState { target: LoadingTarget::List { filter: None }, .. })));
}

#[test]
fn detail_esc_when_not_from_list_quits() {
    let mut app = make_app(detail_screen(make_detail(&["serde"], &[], &[]), 0, false));
    press(&mut app, Key::Esc);
    assert!(app.should_quit);
}

#[test]
fn detail_q_quits() {
    let mut app = make_app(detail_screen(make_detail(&["serde"], &[], &[]), 0, true));
    press(&mut app, Key::Char('q'));
    assert!(app.should_quit);
}

#[test]
fn detail_enter_opens_urls() {
    // items: serde, template "basic", OpenCratesIo, Add, New
    let mut app = make_app(detail_screen(make_detail(&["serde"], &["basic"], &[]), 0, false));
    press(&mut app, Key::Enter);
    match app.pending_action.take() {
        Some(PendingAction::OpenUrl { url }) => assert_eq!(url, "https://crates.io/crates/serde"),
        _ => panic!("expected a URL"),
    }
    press(&mut app, Key::Tab);
    press(&mut app, Key::Enter);
    match app.pending_action.take() {
        Some(PendingAction::OpenUrl { url }) => {
            assert_eq!(url, "https://github.com/test/test/tree/main/bp/templates/basic")
        }
        _ => panic!("expected a URL"),
    }
    press(&mut app, Key::Tab);
    press(&mut app, Key::Enter);
    match app.pending_action.take() {
        Some(PendingAction::OpenUrl { url }) => assert_eq!(url, "https://crates.io/crates/test-battery-pack"),
        _ => panic!("expected a URL"),
    }
    press(&mut app, Key::Tab);
    press(&mut app, Key::Enter);
    match app.take_pending_action() {
        Some(PendingAction::AddToProject { battery_pack }) => assert_eq!(battery_pack, "test"),
        _ => panic!("expected add"),
    }
}

#[test]
fn new_project_form_flow() {
    let mut app = make_app(detail_screen(make_detail(&[], &["basic"], &[]), 0, true));
    press(&mut app, Key::Char('n'));
    match &app.screen {
        Screen::NewProjectForm(f) => {
            assert_eq!(f.template.as_deref(), Some("basic"));
            assert_eq!(f.directory, "/work");
            assert_eq!(f.focused_field, FormField::ProjectName);
        }
        _ => panic!("expected the form"),
    }
    // Enter with an empty name does nothing.
    press(&mut app, Key::Enter);
    assert!(app.pending_action.is_none());
    for c in "my-app".chars() {
        press(&mut app, Key::Char(c));
    }
    press(&mut app, Key::Left);
    press(&mut app, Key::Backspace);
    press(&mut app, Key::Home);
    press(&mut app, Key::Delete);
    press(&mut app, Key::End);
    press(&mut app, Key::Char('!'));
    press(&mut app, Key::Enter);
    match app.take_pending_action() {
        Some(PendingAction::NewProject { battery_pack, template, directory, name }) => {
            assert_eq!(battery_pack, "test");
            assert_eq!(template.as_deref(), Some("basic"));
            assert_eq!(directory, "/work");
            assert_eq!(name, "y-ap!");
        }
        _ => panic!("expected a new project"),
    }
    assert_eq!(unwrap_detail_screen(&app).selected_index, 0);
    assert!(unwrap_detail_screen(&app).came_from_list);
}

#[test]
fn form_edit_at_a_non_boundary_is_refused() {
    let mut app = make_app(detail_screen(make_detail(&[], &[], &[]), 2, false));
    press(&mut app, Key::Enter); // new project
    press(&mut app, Key::Char('é'));
    // The cursor now sits inside the two-byte character.
    assert!(!app.key_is_ok(Key::Char('x')));
    assert!(app.key_is_ok(Key::Left));
}

#[test]
fn preview_request_and_back() {
    let mut app = make_app(detail_screen(make_detail(&[], &["basic"], &[]), 0, true));
    let req = app.handle_key(Key::Char('p')).expect("a preview request");
    assert_eq!(req.template_path, "templates/basic");
    assert_eq!(req.template_name, "basic");
    app.open_preview(req, 10);
    press(&mut app, Key::End);
    match &app.screen {
        Screen::Preview(p) => assert_eq!(p.scroll, 9),
        _ => panic!("expected the preview"),
    }
    press(&mut app, Key::Esc);
    assert_eq!(unwrap_detail_screen(&app).selected_index, 0);
}

#[test]
fn preview_esc_returns_to_detail() {
    let detail = make_detail(&["serde"], &["default"], &[]);
    let mut app = make_app(Screen::Preview(PreviewScreen {
        battery_pack_name: "test-battery-pack".to_string(),
        template_name: "default".to_string(),
        scroll: 0,
        line_count: 1,
        detail: Some(Rc::new(detail)),
        selected_index: 2,
        came_from_list: true,
    }));
    press(&mut app, Key::Esc);
    assert!(matches!(app.screen, Screen::Detail(_)));
    if let Screen::Detail(state) = &app.screen {
        assert_eq!(state.selected_index, 2);
        assert!(state.came_from_list);
    }
}

#[test]
fn preview_scroll_down_and_up() {
    let detail = make_detail(&[], &["default"], &[]);
    let mut app = make_app(Screen::Preview(PreviewScreen {
        battery_pack_name: "test-battery-pack".to_string(),
        template_name: "default".to_string(),
        scroll: 0,
        line_count: 5,
        detail: Some(Rc::new(detail)),
        selected_index: 0,
        came_from_list: false,
    }));
    let scroll = |app: &App| match &app.screen {
        Screen::Preview(state) => state.scroll,
        _ => panic!("expected preview"),
    };
    press(&mut app, Key::Down);
    assert_eq!(scroll(&app), 1);
    press(&mut app, Key::Char('j'));
    assert_eq!(scroll(&app), 2);
    press(&mut app, Key::Up);
    assert_eq!(scroll(&app), 1);
    press(&mut app, Key::Char('k'));
    assert_eq!(scroll(&app), 0);
}

#[test]
fn preview_scroll_clamps_at_bounds() {
    let detail = make_detail(&[], &["default"], &[]);
    let mut app = make_app(Screen::Preview(PreviewScreen {
        battery_pack_name: "test-battery-pack".to_string(),
        template_name: "default".to_string(),
        scroll: 0,
        line_count: 2,
        detail: Some(Rc::new(detail)),
        selected_index: 0,
        came_from_list: false,
    }));
    press(&mut app, Key::Up);
    if let Screen::Preview(state) = &app.screen {
        assert_eq!(state.scroll, 0);
    }
}

#[test]
fn standalone_preview_esc_quits() {
    let mut app = App::new_preview(CrateSource::Registry, "x".to_string(), "t".to_string(), 3);
    press(&mut app, Key::Esc);
    assert!(app.should_quit);
}

#[test]
fn error_screen_enter_retries() {
    let mut app = make_app(Screen::Error(ErrorScreen {
        message: "timeout".to_string(),
        retry_target: LoadingTarget::List { filter: Some("test".to_string()) },
    }));
    press(&mut app, Key::Enter);
    let Screen::Loading(LoadingState { target: LoadingTarget::List { filter }, .. }) = &app.screen else {
        panic!("expected Screen::Loading(LoadingTarget::List)");
    };
    assert_eq!(filter.as_deref(), Some("test"));
}

#[test]
fn error_screen_r_retries() {
    let mut app = make_app(Screen::Error(ErrorScreen {
        message: "timeout".to_string(),
        retry_target: LoadingTarget::List { filter: None },
    }));
    press(&mut app, Key::Char('r'));
    assert!(matches!(app.screen, Screen::Loading(_)));
}

#[test]
fn error_screen_esc_quits() {
    let mut app = make_app(Screen::Error(ErrorScreen {
        message: "error".to_string(),
        retry_target: LoadingTarget::List { filter: None },
    }));
    press(&mut app, Key::Esc);
    assert!(app.should_quit);
}

#[test]
fn error_screen_q_quits() {
    let mut app = make_app(Screen::Error(ErrorScreen {
        message: "error".to_string(),
        retry_target: LoadingTarget::List { filter: None },
    }));
    press(&mut app, Key::Char('q'));
    assert!(app.should_quit);
}

#[test]
fn loads_finish_into_screens() {
    let mut app = App::new_list(CrateSource::Registry, Some("cli".to_string()), false, vec![], ".".to_string());
    app.finish_list_load(Err("offline".to_string()));
    match &app.screen {
        Screen::Error(e) => {
            assert_eq!(e.message, "offline");
            assert!(matches!(&e.retry_target, LoadingTarget::List { filter: Some(f) } if f == "cli"));
        }
        _ => panic!("expected an error"),
    }
    press(&mut app, Key::Enter);
    app.finish_list_load(Ok(vec![make_summary("cli", "1.0.0", "")]));
    assert_eq!(unwrap_list_screen(&app).selected, Some(0));

    let mut app = App::new_show("test", None, CrateSource::Registry, true, vec!["test-battery-pack".to_string()], ".".to_string());
    app.finish_detail_load(Ok(make_detail(&["a", "b"], &["t"], &[])));
    let d = unwrap_detail_screen(&app);
    assert_eq!(d.selected_index, 3);
    assert!(d.is_installed);
    assert!(!d.came_from_list);
}
