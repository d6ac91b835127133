//! The interactive browser: its screens, and how each key moves between them.
//!
//! The terminal loop lives outside the library: it draws the current screen,
//! reads a key, hands it to [`App::handle_key`], and performs what the app
//! asks for (loading a list or a pack, rendering a template preview, running
//! a pending action).
use vstd::prelude::*;
use std::rc::Rc;
use vstd::utf8::{encode_utf8, is_char_boundary, length_of_first_scalar};
use crate::registry::{BatteryPackDetail, BatteryPackSummary, TemplateInfo};
use crate::tui::{DetailItem, DetailScreen, FormField, FormScreen, items_spec, item_view, list_nav};
use crate::text::{cat, cat3, ends_with, seq_ends_with};
use crate::naming::{build_github_url, build_github_blob_url, github_ref_url_spec, opt_str_view};
use crate::common::{vec_contains_str, DeepClone};

verus! {

/// A key press, as the browser reads it.
#[derive(Debug, Clone, Copy, PartialEq, Eq, Structural)]
pub enum Key {
    Up,
    Down,
    Left,
    Right,
    Home,
    End,
    PageUp,
    PageDown,
    Tab,
    BackTab,
    Enter,
    Esc,
    Backspace,
    Delete,
    Char(char),
    Other,
}

/// Where battery packs come from.
#[derive(Debug)]
pub enum CrateSource {
    /// crates.io.
    Registry,
    /// A local workspace.
    Local(String),
}

/// What a loading screen is loading.
#[derive(Debug)]
pub enum LoadingTarget {
    /// The list of battery packs, with an optional name filter.
    List { filter: Option<String> },
    /// One pack's details.
    Detail { name: String, path: Option<String>, came_from_list: bool },
}

/// A loading screen.
#[derive(Debug)]
pub struct LoadingState {
    pub message: String,
    pub target: LoadingTarget,
}

/// An error screen, with what a retry loads.
#[derive(Debug)]
pub struct ErrorScreen {
    pub message: String,
    pub retry_target: LoadingTarget,
}

/// The list of battery packs.
#[derive(Debug)]
pub struct ListScreen {
    pub items: Vec<BatteryPackSummary>,
    /// The selected row, if any.
    pub selected: Option<usize>,
    pub filter: Option<String>,
}

/// A rendered template preview (its text is kept by the terminal loop).
pub struct PreviewScreen {
    pub battery_pack_name: String,
    pub template_name: String,
    /// Vertical scroll offset.
    pub scroll: u16,
    /// Number of lines of the rendered text.
    pub line_count: u16,
    /// The detail screen to return to; none when the preview stands alone.
    pub detail: Option<Rc<BatteryPackDetail>>,
    pub selected_index: usize,
    pub came_from_list: bool,
}

/// The screens of the browser.
pub enum Screen {
    /// A placeholder while a screen is being replaced.
    Empty,
    Loading(LoadingState),
    Error(ErrorScreen),
    List(ListScreen),
    Detail(DetailScreen),
    NewProjectForm(FormScreen),
    Preview(PreviewScreen),
}

/// Work the browser leaves the terminal to run it.
#[derive(Debug)]
pub enum PendingAction {
    /// Open a URL in the browser.
    OpenUrl { url: String },
    /// Run `cargo bp add <battery_pack>`.
    AddToProject { battery_pack: String },
    /// Run `cargo bp new <battery_pack> -n <name> [-t <template>]` in `directory`.
    NewProject { battery_pack: String, template: Option<String>, directory: String, name: String },
    /// Run `cargo bp [--crate-source <source>] add <battery_pack> -t <template>`.
    UseTemplate { battery_pack: String, template: String, source: Option<String> },
}

/// A template preview to render; the terminal loop renders it and calls
/// [`App::open_preview`].
#[derive(Debug)]
pub struct PreviewRequest {
    pub battery_pack_name: String,
    pub template_path: String,
    pub template_name: String,
}

/// The browser's state.
pub struct App {
    pub source: CrateSource,
    pub screen: Screen,
    pub should_quit: bool,
    pub pending_action: Option<PendingAction>,
    /// Whether the browser was started inside a Cargo project.
    pub in_project: bool,
    /// The battery packs installed in that project.
    pub installed_bp_names: Vec<String>,
    /// The directory new projects are created in by default.
    pub cwd: String,
}

/// The crates.io page of a crate.
pub open spec fn crates_io_url(name: Seq<char>) -> Seq<char> {
    "https://crates.io/crates/"@ + name
}

/// A battery pack's full crate name.
pub open spec fn full_bp_name(n: Seq<char>) -> Seq<char> {
    if seq_ends_with(n, "-battery-pack"@) {
        n
    } else {
        n + "-battery-pack"@
    }
}

/// The name of the first template with the given path.
pub open spec fn template_name_of(ts: Seq<TemplateInfo>, path: Seq<char>) -> Option<Seq<char>>
    decreases ts.len(),
{
    if ts.len() == 0 {
        None
    } else if ts[0].path@ == path {
        Some(ts[0].name@)
    } else {
        template_name_of(ts.drop_first(), path)
    }
}

/// The URL Enter opens for an item of a detail view (tags 0 to 4).
pub open spec fn item_url(d: BatteryPackDetail, it: (int, Seq<char>, Option<Seq<char>>)) -> Seq<char> {
    let repo = opt_str_view(d.repository);
    if it.0 == 0 {
        crates_io_url(it.1)
    } else if it.0 == 1 {
        crates_io_url(full_bp_name(it.1))
    } else if it.0 == 2 || it.0 == 3 {
        match it.2 {
            Some(p) => github_ref_url_spec(repo, if it.0 == 2 { "tree"@ } else { "blob"@ }, p),
            None => match repo {
                Some(r) => r,
                None => "https://crates.io"@,
            },
        }
    } else {
        crates_io_url(d.name@)
    }
}

/// Clamped list movement.
pub open spec fn list_nav_spec(selected: Option<usize>, count: usize, forward: bool) -> Option<usize> {
    match selected {
        None => None,
        Some(s) => Some(
            if forward && s + 1 < count {
                (s + 1) as usize
            } else if !forward && s > 0 {
                (s - 1) as usize
            } else {
                s
            },
        ),
    }
}

/// The new scroll offset after moving by `delta`, kept within the text.
pub open spec fn clamp_scroll(scroll: u16, delta: int, line_count: u16) -> u16 {
    let hi: int = if line_count > 0 { line_count - 1 } else { 0 };
    let v = scroll + delta;
    (if v < 0 { 0 } else if v > hi { hi } else { v }) as u16
}

/// The text of the focused field of a form.
pub open spec fn focused_text(f: FormScreen) -> Seq<char> {
    match f.focused_field {
        FormField::Directory => f.directory@,
        FormField::ProjectName => f.project_name@,
    }
}

/// The UTF-8 bytes of the focused field.
pub open spec fn focused_bytes(f: FormScreen) -> Seq<u8> {
    encode_utf8(focused_text(f))
}

/// `f2` is `f` with the focused field's bytes now `b` and the cursor at `c`.
pub open spec fn form_edited(f: FormScreen, f2: FormScreen, b: Seq<u8>, c: int) -> bool {
    &&& f2.battery_pack == f.battery_pack
    &&& f2.template == f.template
    &&& f2.focused_field == f.focused_field
    &&& f2.detail == f.detail
    &&& f2.selected_index == f.selected_index
    &&& f2.came_from_list == f.came_from_list
    &&& f2.cursor_position == c
    &&& focused_bytes(f2) == b
    &&& (f.focused_field == FormField::Directory ==> f2.project_name == f.project_name)
    &&& (f.focused_field == FormField::ProjectName ==> f2.directory == f.directory)
}

/// The detail screen shown for a pack again, with the app's project state.
pub open spec fn detail_again(a: App, d: Rc<BatteryPackDetail>, sel: usize, came: bool) -> Screen {
    Screen::Detail(
        DetailScreen {
            detail: d,
            selected_index: sel,
            came_from_list: came,
            in_project: a.in_project,
            is_installed: a.installed_bp_names.deep_view().contains(d.name@),
        },
    )
}

/// Nothing changes.
pub open spec fn stays(a: App, b: App) -> bool {
    b.screen == a.screen && b.should_quit == a.should_quit && b.pending_action == a.pending_action
}

/// The browser quits.
pub open spec fn quits(a: App, b: App) -> bool {
    b.screen == a.screen && b.should_quit && b.pending_action == a.pending_action
}

/// The screen becomes `s`, nothing else changes.
pub open spec fn moves_to(a: App, b: App, s: Screen) -> bool {
    b.screen == s && b.should_quit == a.should_quit && b.pending_action == a.pending_action
}

/// A URL is to be opened.
pub open spec fn opens_url(a: App, b: App, url: Seq<char>) -> bool {
    &&& b.screen == a.screen
    &&& b.should_quit == a.should_quit
    &&& b.pending_action matches Some(PendingAction::OpenUrl { url: u }) && u@ == url
}

/// The list of packs is to be loaded again.
pub open spec fn loads_list(a: App, b: App) -> bool {
    &&& b.should_quit == a.should_quit
    &&& b.pending_action == a.pending_action
    &&& b.screen matches Screen::Loading(st) && st.message@ == "Loading battery packs..."@
        && (st.target matches LoadingTarget::List { filter } && filter is None)
}

/// The project state the browser runs in is kept.
pub open spec fn same_context(a: App, b: App) -> bool {
    &&& a.source == b.source
    &&& a.in_project == b.in_project
    &&& a.installed_bp_names == b.installed_bp_names
    &&& a.cwd == b.cwd
}

/// A key on the error screen: Enter or `r` retries, Esc or `q` quits.
pub open spec fn error_post(a: App, b: App, e: ErrorScreen, key: Key) -> bool {
    if key == Key::Enter || key == Key::Char('r') {
        &&& b.should_quit == a.should_quit
        &&& b.pending_action == a.pending_action
        &&& b.screen matches Screen::Loading(st) && st.message@ == "Loading..."@ && st.target
            == e.retry_target
    } else if key == Key::Esc || key == Key::Char('q') {
        quits(a, b)
    } else {
        stays(a, b)
    }
}

/// A key on the list: move, open the selected pack, or quit.
pub open spec fn list_post(a: App, b: App, l: ListScreen, key: Key) -> bool {
    if key == Key::Up || key == Key::Char('k') || key == Key::Down || key == Key::Char('j') {
        let forward = key == Key::Down || key == Key::Char('j');
        &&& b.should_quit == a.should_quit
        &&& b.pending_action == a.pending_action
        &&& b.screen matches Screen::List(l2) && l2.items == l.items && l2.filter == l.filter
            && l2.selected == list_nav_spec(l.selected, l.items@.len() as usize, forward)
    } else if key == Key::Enter {
        match l.selected {
            Some(i) => if i < l.items@.len() {
                let bp = l.items@[i as int];
                &&& b.should_quit == a.should_quit
                &&& b.pending_action == a.pending_action
                &&& b.screen matches Screen::Loading(st) && st.message@ == "Loading "@
                    + bp.short_name@ + "..."@ && (st.target matches LoadingTarget::Detail {
                    name,
                    path,
                    came_from_list,
                } && name@ == bp.name@ && path is None && came_from_list)
            } else {
                stays(a, b)
            },
            None => stays(a, b),
        }
    } else if key == Key::Char('q') || key == Key::Esc {
        quits(a, b)
    } else {
        stays(a, b)
    }
}

/// The new-project form opened from a detail screen.
pub open spec fn opens_form(a: App, b: App, d: DetailScreen, template: Option<Seq<char>>) -> bool {
    &&& b.should_quit == a.should_quit
    &&& b.pending_action == a.pending_action
    &&& b.screen matches Screen::NewProjectForm(f) && f.battery_pack@ == d.detail.short_name@
        && opt_str_view(f.template) == template && f.directory == a.cwd && f.project_name@
        == Seq::<char>::empty() && f.focused_field == FormField::ProjectName && f.cursor_position
        == 0 && f.detail == d.detail && f.selected_index == d.selected_index && f.came_from_list
        == d.came_from_list
}

/// The keys that move the selection on a pack's detail screen.
pub open spec fn moves_selection(key: Key) -> bool {
    key == Key::Tab || key == Key::Down || key == Key::Char('j') || key == Key::BackTab || key == Key::Up || key == Key::Char('k')
}

/// A key on a pack's detail screen.
pub open spec fn detail_post(a: App, b: App, d: DetailScreen, key: Key, out: Option<PreviewRequest>) -> bool {
    let items = items_spec(*d.detail);
    let i = d.selected_index;
    let n = items.len();
    let sel = if i < n { Some(items[i as int]) } else { None };
    let on_template = sel matches Some(it) && it.0 == 2;
    &&& (key != Key::Char('p') || !on_template) ==> out is None
    &&& if key == Key::Tab || key == Key::Down || key == Key::Char('j') {
        moves_to(a, b, Screen::Detail(DetailScreen { selected_index: ((i + 1) % (n as int)) as usize, ..d }))
    } else if key == Key::BackTab || key == Key::Up || key == Key::Char('k') {
        moves_to(a, b, Screen::Detail(DetailScreen { selected_index: ((i + n - 1) % (n as int)) as usize, ..d }))
    } else if key == Key::Enter {
        match sel {
            Some(it) => if it.0 <= 4 {
                opens_url(a, b, item_url(*d.detail, it))
            } else if it.0 == 5 {
                if d.in_project {
                    &&& b.screen == a.screen
                    &&& b.should_quit == a.should_quit
                    &&& b.pending_action matches Some(PendingAction::AddToProject { battery_pack })
                        && battery_pack@ == d.detail.short_name@
                } else {
                    stays(a, b)
                }
            } else {
                opens_form(a, b, d, None)
            },
            None => stays(a, b),
        }
    } else if key == Key::Char('n') {
        if on_template {
            opens_form(a, b, d, template_name_of(d.detail.templates@, (sel->0).1))
        } else {
            stays(a, b)
        }
    } else if key == Key::Char('p') {
        if on_template {
            &&& stays(a, b)
            &&& out matches Some(r) && r.battery_pack_name@ == d.detail.name@ && r.template_path@
                == (sel->0).1 && r.template_name@ == match template_name_of(d.detail.templates@, (sel->0).1) {
                Some(t) => t,
                None => (sel->0).1,
            }
        } else {
            stays(a, b)
        }
    } else if key == Key::Char('u') {
        if d.in_project && on_template && template_name_of(d.detail.templates@, (sel->0).1) is Some {
            &&& b.should_quit == a.should_quit
            &&& b.screen == detail_again(a, d.detail, d.selected_index, d.came_from_list)
            &&& b.pending_action matches Some(PendingAction::UseTemplate { battery_pack, template, source })
                && battery_pack@ == d.detail.short_name@ && template@ == template_name_of(d.detail.templates@, (sel->0).1)->0
                && opt_str_view(source) == match a.source {
                CrateSource::Local(p) => Some(p@),
                CrateSource::Registry => None,
            }
        } else {
            stays(a, b)
        }
    } else if key == Key::Esc {
        if d.came_from_list {
            loads_list(a, b)
        } else {
            quits(a, b)
        }
    } else if key == Key::Char('q') {
        quits(a, b)
    } else {
        stays(a, b)
    }
}

/// A key on the new-project form.
pub open spec fn form_post(a: App, b: App, f: FormScreen, key: Key) -> bool {
    let bytes = focused_bytes(f);
    let blen = bytes.len() as usize;
    let c = f.cursor_position;
    if key == Key::Tab {
        &&& b.should_quit == a.should_quit
        &&& b.pending_action == a.pending_action
        &&& b.screen matches Screen::NewProjectForm(f2) && f2.focused_field == match f.focused_field {
            FormField::Directory => FormField::ProjectName,
            FormField::ProjectName => FormField::Directory,
        } && f2.cursor_position == focused_bytes(f2).len() as usize && f2.directory == f.directory
            && f2.project_name == f.project_name && f2.battery_pack == f.battery_pack && f2.template
            == f.template && f2.detail == f.detail && f2.selected_index == f.selected_index
            && f2.came_from_list == f.came_from_list
    } else if key == Key::Enter {
        if f.project_name@.len() > 0 {
            &&& b.should_quit == a.should_quit
            &&& b.screen == detail_again(a, f.detail, f.selected_index, f.came_from_list)
            &&& b.pending_action matches Some(PendingAction::NewProject { battery_pack, template, directory, name })
                && battery_pack == f.battery_pack && template == f.template && directory == f.directory
                && name == f.project_name
        } else {
            stays(a, b)
        }
    } else if key == Key::Esc {
        moves_to(a, b, detail_again(a, f.detail, f.selected_index, f.came_from_list))
    } else if key is Char {
        let ch = key->0;
        &&& b.should_quit == a.should_quit
        &&& b.pending_action == a.pending_action
        &&& b.screen matches Screen::NewProjectForm(f2) && form_edited(
            f,
            f2,
            bytes.take(c as int) + encode_utf8(seq![ch]) + bytes.skip(c as int),
            c + 1,
        )
    } else if key == Key::Backspace && c > 0 || key == Key::Delete && c < blen {
        let at: int = if key == Key::Backspace { c - 1 } else { c as int };
        &&& b.should_quit == a.should_quit
        &&& b.pending_action == a.pending_action
        &&& b.screen matches Screen::NewProjectForm(f2) && form_edited(
            f,
            f2,
            bytes.take(at) + bytes.skip(at + length_of_first_scalar(bytes.skip(at))),
            at,
        )
    } else if key == Key::Left || key == Key::Right && c < blen || key == Key::Home || key == Key::End {
        let c2: int = if key == Key::Left {
            if c > 0 { c - 1 } else { 0 }
        } else if key == Key::Right {
            c + 1
        } else if key == Key::Home {
            0
        } else {
            blen as int
        };
        &&& b.should_quit == a.should_quit
        &&& b.pending_action == a.pending_action
        &&& b.screen matches Screen::NewProjectForm(f2) && form_edited(f, f2, bytes, c2)
    } else {
        stays(a, b)
    }
}

/// How far a key scrolls a preview, if it does.
pub open spec fn scroll_delta(key: Key) -> Option<int> {
    if key == Key::Down || key == Key::Char('j') {
        Some(1)
    } else if key == Key::Up || key == Key::Char('k') {
        Some(-1)
    } else if key == Key::PageDown || key == Key::Char('f') {
        Some(20)
    } else if key == Key::PageUp || key == Key::Char('b') {
        Some(-20)
    } else if key == Key::Home || key == Key::Char('g') {
        Some(-30000)
    } else if key == Key::End || key == Key::Char('G') {
        Some(30000)
    } else {
        None
    }
}

/// A key on a template preview.
pub open spec fn preview_post(a: App, b: App, p: PreviewScreen, key: Key) -> bool {
    if key == Key::Esc || key == Key::Char('q') {
        match p.detail {
            Some(d) => moves_to(a, b, detail_again(a, d, p.selected_index, p.came_from_list)),
            None => quits(a, b),
        }
    } else {
        match scroll_delta(key) {
            Some(delta) => moves_to(a, b, Screen::Preview(PreviewScreen { scroll: clamp_scroll(p.scroll, delta, p.line_count), ..p })),
            None => stays(a, b),
        }
    }
}

impl App {
    /// A key can be handled without a panic: form edits fall on character
    /// boundaries and counters stay within `usize`.
    pub open spec fn key_ok(&self, key: Key) -> bool {
        match self.screen {
            Screen::NewProjectForm(f) => {
                let b = focused_bytes(f);
                let c = f.cursor_position;
                &&& key is Char ==> c < usize::MAX && is_char_boundary(b, c as int)
                &&& key == Key::Backspace && c > 0 ==> c - 1 < b.len() as usize && is_char_boundary(b, c - 1)
                &&& key == Key::Delete && c < b.len() as usize ==> is_char_boundary(b, c as int)
            },
            Screen::Detail(d) => moves_selection(key) ==> d.selected_index + items_spec(*d.detail).len() <= usize::MAX,
            _ => true,
        }
    }

    /// What a key does on each screen.
    pub open spec fn key_post(a: App, b: App, key: Key, out: Option<PreviewRequest>) -> bool {
        &&& same_context(a, b)
        &&& !(a.screen is Detail) ==> out is None
        &&& match a.screen {
            Screen::Empty | Screen::Loading(_) => stays(a, b),
            Screen::Error(e) => error_post(a, b, e, key),
            Screen::List(l) => list_post(a, b, l, key),
            Screen::Detail(d) => detail_post(a, b, d, key, out),
            Screen::NewProjectForm(f) => form_post(a, b, f, key),
            Screen::Preview(p) => preview_post(a, b, p, key),
        }
    }
}


/// Calls `String::insert`, which inserts `c` at byte position `idx`; it
/// panics unless `idx` lies on a character boundary (the end included).
#[verifier::external_body]
fn string_insert(s: &mut String, idx: usize, c: char)
    requires
        is_char_boundary(encode_utf8(old(s)@), idx as int),
    ensures
        encode_utf8(final(s)@) == encode_utf8(old(s)@).take(idx as int) + encode_utf8(seq![c])
            + encode_utf8(old(s)@).skip(idx as int),
{
    s.insert(idx, c)
}

/// Calls `String::remove`, which removes the character whose encoding starts
/// at byte position `idx`; it panics unless `idx` lies on a character
/// boundary before the end.
#[verifier::external_body]
fn string_remove(s: &mut String, idx: usize)
    requires
        idx < encode_utf8(old(s)@).len(),
        is_char_boundary(encode_utf8(old(s)@), idx as int),
    ensures
        encode_utf8(final(s)@) == encode_utf8(old(s)@).take(idx as int) + encode_utf8(old(s)@).skip(
            idx + length_of_first_scalar(encode_utf8(old(s)@).skip(idx as int)),
        ),
{
    s.remove(idx);
}

proof fn lemma_lt_trunc(x: usize, n: nat)
    requires
        x < n as usize,
    ensures
        x < n,
{
    if n <= usize::MAX {
        assert(n as usize == n);
    }
}

/// The name of the first template with the given path.
fn find_template_name(ts: &Vec<TemplateInfo>, path: &str) -> (r: Option<String>)
    ensures
        opt_str_view(r) == template_name_of(ts@, path@),
{
    let mut i: usize = 0;
    assert(ts@.skip(0) =~= ts@);
    while i < ts.len()
        invariant
            i <= ts@.len(),
            template_name_of(ts@, path@) == template_name_of(ts@.skip(i as int), path@),
        decreases ts.len() - i,
    {
        assert(ts@.skip(i as int)[0] == ts@[i as int]);
        assert(ts@.skip(i as int).drop_first() =~= ts@.skip(i + 1));
        if crate::text::str_eq(ts[i].path.as_str(), path) {
            return Some(ts[i].name.clone());
        }
        i += 1;
    }
    None
}

fn opt_as_str(o: &Option<String>) -> (r: Option<&str>)
    ensures
        match r {
            Some(x) => opt_str_view(*o) == Some(x@),
            None => o is None,
        },
{
    match o {
        Some(s) => Some(s.as_str()),
        None => None,
    }
}

impl App {
    /// Whether `handle_key` can take this key (see `key_ok`).
    pub fn key_is_ok(&self, key: Key) -> (b: bool)
        ensures
            b == self.key_ok(key),
    {
        match &self.screen {
            Screen::NewProjectForm(f) => {
                let t: &str = match f.focused_field {
                    FormField::Directory => f.directory.as_str(),
                    FormField::ProjectName => f.project_name.as_str(),
                };
                let c = f.cursor_position;
                let ok1 = match key {
                    Key::Char(_) => c < usize::MAX && t.is_char_boundary(c),
                    _ => true,
                };
                let ok2 = if key == Key::Backspace && c > 0 {
                    c - 1 < t.len() && t.is_char_boundary(c - 1)
                } else {
                    true
                };
                let ok3 = if key == Key::Delete && c < t.len() {
                    t.is_char_boundary(c)
                } else {
                    true
                };
                ok1 && ok2 && ok3
            },
            Screen::Detail(d) => {
                let dd = &*d.detail;
                let total = d.selected_index.checked_add(dd.crates.len());
                let total = match total { Some(t) => t.checked_add(dd.extends.len()), None => None };
                let total = match total { Some(t) => t.checked_add(dd.templates.len()), None => None };
                let total = match total { Some(t) => t.checked_add(dd.examples.len()), None => None };
                let total = match total { Some(t) => t.checked_add(3), None => None };
                assert(items_spec(*dd).len() == dd.crates@.len() + dd.extends@.len() + dd.templates@.len() + dd.examples@.len() + 3);
                let moves = key == Key::Tab || key == Key::Down || key == Key::Char('j') || key == Key::BackTab
                    || key == Key::Up || key == Key::Char('k');
                !moves || total.is_some()
            },
            _ => true,
        }
    }

    fn key_error(&mut self, e: ErrorScreen, key: Key)
        ensures
            same_context(*old(self), *final(self)),
            error_post(App { screen: Screen::Error(e), ..*old(self) }, *final(self), e, key),
    {
        if key == Key::Enter || key == Key::Char('r') {
            self.screen = Screen::Loading(LoadingState { message: "Loading...".to_string(), target: e.retry_target });
        } else if key == Key::Esc || key == Key::Char('q') {
            self.screen = Screen::Error(e);
            self.should_quit = true;
        } else {
            self.screen = Screen::Error(e);
        }
    }

    fn key_list(&mut self, l: ListScreen, key: Key)
        ensures
            same_context(*old(self), *final(self)),
            list_post(App { screen: Screen::List(l), ..*old(self) }, *final(self), l, key),
    {
        let mut l = l;
        if key == Key::Up || key == Key::Char('k') || key == Key::Down || key == Key::Char('j') {
            let forward = key == Key::Down || key == Key::Char('j');
            l.selected = list_nav(l.selected, l.items.len(), forward);
            self.screen = Screen::List(l);
        } else if key == Key::Enter {
            match l.selected {
                Some(i) => {
                    if i < l.items.len() {
                        let bp = &l.items[i];
                        let message = cat3("Loading ", bp.short_name.as_str(), "...");
                        let name = bp.name.clone();
                        self.screen = Screen::Loading(LoadingState {
                            message,
                            target: LoadingTarget::Detail { name, path: None, came_from_list: true },
                        });
                    } else {
                        self.screen = Screen::List(l);
                    }
                },
                None => {
                    self.screen = Screen::List(l);
                },
            }
        } else if key == Key::Char('q') || key == Key::Esc {
            self.screen = Screen::List(l);
            self.should_quit = true;
        } else {
            self.screen = Screen::List(l);
        }
    }

    /// The detail screen of a pack again, with this app's project state.
    fn detail_again_exec(&self, detail: Rc<BatteryPackDetail>, selected_index: usize, came_from_list: bool) -> (s: Screen)
        ensures
            s == detail_again(*self, detail, selected_index, came_from_list),
    {
        let is_installed = vec_contains_str(&self.installed_bp_names, detail.name.as_str());
        Screen::Detail(DetailScreen { detail, selected_index, came_from_list, in_project: self.in_project, is_installed })
    }

    fn open_form(&mut self, d: DetailScreen, template: Option<String>)
        ensures
            same_context(*old(self), *final(self)),
            opens_form(App { screen: Screen::Detail(d), ..*old(self) }, *final(self), d, opt_str_view(template)),
    {
        let f = FormScreen {
            battery_pack: d.detail.short_name.clone(),
            template,
            directory: self.cwd.clone(),
            project_name: String::new(),
            focused_field: FormField::ProjectName,
            cursor_position: 0,
            detail: d.detail,
            selected_index: d.selected_index,
            came_from_list: d.came_from_list,
        };
        self.screen = Screen::NewProjectForm(f);
    }

    fn key_detail(&mut self, d: DetailScreen, key: Key) -> (out: Option<PreviewRequest>)
        requires
            moves_selection(key) ==> d.selected_index + items_spec(*d.detail).len() <= usize::MAX,
        ensures
            same_context(*old(self), *final(self)),
            detail_post(App { screen: Screen::Detail(d), ..*old(self) }, *final(self), d, key, out),
    {
        let mut d = d;
        if key == Key::Tab || key == Key::Down || key == Key::Char('j') {
            d.select_next();
            self.screen = Screen::Detail(d);
            return None;
        }
        if key == Key::BackTab || key == Key::Up || key == Key::Char('k') {
            d.select_prev();
            self.screen = Screen::Detail(d);
            return None;
        }
        let item = d.selected_item();
        if key == Key::Enter {
            match item {
                Some(DetailItem::Crate(n)) => {
                    let url = cat("https://crates.io/crates/", n.as_str());
                    self.pending_action = Some(PendingAction::OpenUrl { url });
                    self.screen = Screen::Detail(d);
                },
                Some(DetailItem::Extends(bp)) => {
                    let full = if ends_with(bp.as_str(), "-battery-pack") {
                        bp
                    } else {
                        cat(bp.as_str(), "-battery-pack")
                    };
                    let url = cat("https://crates.io/crates/", full.as_str());
                    self.pending_action = Some(PendingAction::OpenUrl { url });
                    self.screen = Screen::Detail(d);
                },
                Some(DetailItem::Template { _path, repo_path }) => {
                    let url = match repo_path {
                        Some(p) => build_github_url(opt_as_str(&d.detail.repository), p.as_str()),
                        None => match &d.detail.repository {
                            Some(r) => r.clone(),
                            None => "https://crates.io".to_string(),
                        },
                    };
                    self.pending_action = Some(PendingAction::OpenUrl { url });
                    self.screen = Screen::Detail(d);
                },
                Some(DetailItem::Example { _name, repo_path }) => {
                    let url = match repo_path {
                        Some(p) => build_github_blob_url(opt_as_str(&d.detail.repository), p.as_str()),
                        None => match &d.detail.repository {
                            Some(r) => r.clone(),
                            None => "https://crates.io".to_string(),
                        },
                    };
                    self.pending_action = Some(PendingAction::OpenUrl { url });
                    self.screen = Screen::Detail(d);
                },
                Some(DetailItem::ActionOpenCratesIo) => {
                    let url = cat("https://crates.io/crates/", d.detail.name.as_str());
                    self.pending_action = Some(PendingAction::OpenUrl { url });
                    self.screen = Screen::Detail(d);
                },
                Some(DetailItem::ActionAddToProject) => {
                    if d.in_project {
                        self.pending_action = Some(PendingAction::AddToProject { battery_pack: d.detail.short_name.clone() });
                    }
                    self.screen = Screen::Detail(d);
                },
                Some(DetailItem::ActionNewProject) => {
                    self.open_form(d, None);
                },
                None => {
                    self.screen = Screen::Detail(d);
                },
            }
            return None;
        }
        if key == Key::Char('n') {
            match item {
                Some(DetailItem::Template { _path, .. }) => {
                    let name = find_template_name(&d.detail.templates, _path.as_str());
                    self.open_form(d, name);
                },
                _ => {
                    self.screen = Screen::Detail(d);
                },
            }
            return None;
        }
        if key == Key::Char('p') {
            match item {
                Some(DetailItem::Template { _path, .. }) => {
                    let template_name = match find_template_name(&d.detail.templates, _path.as_str()) {
                        Some(n) => n,
                        None => _path.clone(),
                    };
                    let req = PreviewRequest {
                        battery_pack_name: d.detail.name.clone(),
                        template_path: _path,
                        template_name,
                    };
                    self.screen = Screen::Detail(d);
                    return Some(req);
                },
                _ => {
                    self.screen = Screen::Detail(d);
                    return None;
                },
            }
        }
        if key == Key::Char('u') {
            if d.in_project {
                match item {
                    Some(DetailItem::Template { _path, .. }) => {
                        match find_template_name(&d.detail.templates, _path.as_str()) {
                            Some(name) => {
                                let source = match &self.source {
                                    CrateSource::Local(p) => Some(p.clone()),
                                    CrateSource::Registry => None,
                                };
                                self.pending_action = Some(PendingAction::UseTemplate {
                                    battery_pack: d.detail.short_name.clone(),
                                    template: name,
                                    source,
                                });
                                let sel = d.selected_index;
                                let came = d.came_from_list;
                                let s = self.detail_again_exec(d.detail, sel, came);
                                self.screen = s;
                                return None;
                            },
                            None => {},
                        }
                    },
                    _ => {},
                }
            }
            self.screen = Screen::Detail(d);
            return None;
        }
        if key == Key::Esc {
            if d.came_from_list {
                self.screen = Screen::Loading(LoadingState {
                    message: "Loading battery packs...".to_string(),
                    target: LoadingTarget::List { filter: None },
                });
            } else {
                self.screen = Screen::Detail(d);
                self.should_quit = true;
            }
            return None;
        }
        if key == Key::Char('q') {
            self.should_quit = true;
        }
        self.screen = Screen::Detail(d);
        None
    }

    fn key_form(&mut self, f: FormScreen, key: Key)
        requires
            ({
                let b = focused_bytes(f);
                let c = f.cursor_position;
                &&& key is Char ==> c < usize::MAX && is_char_boundary(b, c as int)
                &&& key == Key::Backspace && c > 0 ==> c - 1 < b.len() as usize && is_char_boundary(b, c - 1)
                &&& key == Key::Delete && c < b.len() as usize ==> is_char_boundary(b, c as int)
            }),
        ensures
            same_context(*old(self), *final(self)),
            form_post(App { screen: Screen::NewProjectForm(f), ..*old(self) }, *final(self), f, key),
    {
        let mut f = f;
        let ghost f0 = f;
        let ghost bytes = focused_bytes(f);
        let c = f.cursor_position;
        match key {
            Key::Tab => {
                f.focused_field = match f.focused_field {
                    FormField::Directory => FormField::ProjectName,
                    FormField::ProjectName => FormField::Directory,
                };
                f.cursor_position = f.focused_field_len();
                self.screen = Screen::NewProjectForm(f);
            },
            Key::Enter => {
                if !f.project_name.as_str().is_empty() {
                    let sel = f.selected_index;
                    let came = f.came_from_list;
                    let s = self.detail_again_exec(f.detail, sel, came);
                    self.pending_action = Some(PendingAction::NewProject {
                        battery_pack: f.battery_pack,
                        template: f.template,
                        directory: f.directory,
                        name: f.project_name,
                    });
                    self.screen = s;
                } else {
                    self.screen = Screen::NewProjectForm(f);
                }
            },
            Key::Esc => {
                let sel = f.selected_index;
                let came = f.came_from_list;
                let s = self.detail_again_exec(f.detail, sel, came);
                self.screen = s;
            },
            Key::Char(ch) => {
                match f.focused_field {
                    FormField::Directory => string_insert(&mut f.directory, c, ch),
                    FormField::ProjectName => string_insert(&mut f.project_name, c, ch),
                }
                f.cursor_position = c + 1;
                assert(form_edited(f0, f, bytes.take(c as int) + encode_utf8(seq![ch]) + bytes.skip(c as int), c + 1));
                self.screen = Screen::NewProjectForm(f);
            },
            Key::Backspace | Key::Delete => {
                let len = f.focused_field_len();
                let at_opt: Option<usize> = if key == Key::Backspace {
                    if c > 0 { Some(c - 1) } else { None }
                } else {
                    if c < len { Some(c) } else { None }
                };
                match at_opt {
                    Some(at) => {
                        proof {
                            lemma_lt_trunc(at, bytes.len());
                        }
                        match f.focused_field {
                            FormField::Directory => string_remove(&mut f.directory, at),
                            FormField::ProjectName => string_remove(&mut f.project_name, at),
                        }
                        f.cursor_position = at;
                        self.screen = Screen::NewProjectForm(f);
                    },
                    None => {
                        self.screen = Screen::NewProjectForm(f);
                    },
                }
            },
            Key::Left => {
                f.cursor_position = if c > 0 { c - 1 } else { 0 };
                self.screen = Screen::NewProjectForm(f);
            },
            Key::Right => {
                if c < f.focused_field_len() {
                    f.cursor_position = c + 1;
                }
                self.screen = Screen::NewProjectForm(f);
            },
            Key::Home => {
                f.cursor_position = 0;
                self.screen = Screen::NewProjectForm(f);
            },
            Key::End => {
                f.cursor_position = f.focused_field_len();
                self.screen = Screen::NewProjectForm(f);
            },
            _ => {
                self.screen = Screen::NewProjectForm(f);
            },
        }
    }

    fn key_preview(&mut self, p: PreviewScreen, key: Key)
        ensures
            same_context(*old(self), *final(self)),
            preview_post(App { screen: Screen::Preview(p), ..*old(self) }, *final(self), p, key),
    {
        let mut p = p;
        if key == Key::Esc || key == Key::Char('q') {
            match p.detail {
                Some(d) => {
                    let s = self.detail_again_exec(d, p.selected_index, p.came_from_list);
                    self.screen = s;
                },
                None => {
                    self.screen = Screen::Preview(p);
                    self.should_quit = true;
                },
            }
            return;
        }
        let delta: Option<i32> = if key == Key::Down || key == Key::Char('j') {
            Some(1)
        } else if key == Key::Up || key == Key::Char('k') {
            Some(-1)
        } else if key == Key::PageDown || key == Key::Char('f') {
            Some(20)
        } else if key == Key::PageUp || key == Key::Char('b') {
            Some(-20)
        } else if key == Key::Home || key == Key::Char('g') {
            Some(-30000)
        } else if key == Key::End || key == Key::Char('G') {
            Some(30000)
        } else {
            None
        };
        match delta {
            Some(dl) => {
                let hi: i32 = if p.line_count > 0 { (p.line_count - 1) as i32 } else { 0 };
                let v: i32 = p.scroll as i32 + dl;
                let nv: i32 = if v < 0 { 0 } else if v > hi { hi } else { v };
                p.scroll = nv as u16;
                self.screen = Screen::Preview(p);
            },
            None => {
                self.screen = Screen::Preview(p);
            },
        }
    }

    /// Handle a key press on the current screen.
    pub fn handle_key(&mut self, key: Key) -> (out: Option<PreviewRequest>)
        requires
            old(self).key_ok(key),
        ensures
            App::key_post(*old(self), *final(self), key, out),
    {
        let mut screen = Screen::Empty;
        std::mem::swap(&mut screen, &mut self.screen);
        match screen {
            Screen::Empty => {
                self.screen = Screen::Empty;
                None
            },
            Screen::Loading(st) => {
                self.screen = Screen::Loading(st);
                None
            },
            Screen::Error(e) => {
                self.key_error(e, key);
                None
            },
            Screen::List(l) => {
                self.key_list(l, key);
                None
            },
            Screen::Detail(d) => self.key_detail(d, key),
            Screen::NewProjectForm(f) => {
                self.key_form(f, key);
                None
            },
            Screen::Preview(p) => {
                self.key_preview(p, key);
                None
            },
        }
    }
}

impl App {
    /// An app that starts by loading the list of packs.
    pub fn new_list(source: CrateSource, filter: Option<String>, in_project: bool, installed_bp_names: Vec<String>, cwd: String) -> (a: App)
        ensures
            a.source == source && a.in_project == in_project && a.installed_bp_names == installed_bp_names && a.cwd == cwd,
            !a.should_quit && a.pending_action is None,
            a.screen matches Screen::Loading(st) && st.message@ == "Loading battery packs..."@
                && st.target == (LoadingTarget::List { filter }),
    {
        App {
            source,
            screen: Screen::Loading(LoadingState {
                message: "Loading battery packs...".to_string(),
                target: LoadingTarget::List { filter },
            }),
            should_quit: false,
            pending_action: None,
            in_project,
            installed_bp_names,
            cwd,
        }
    }

    /// An app that starts by loading one pack.
    pub fn new_show(name: &str, path: Option<String>, source: CrateSource, in_project: bool, installed_bp_names: Vec<String>, cwd: String) -> (a: App)
        ensures
            a.source == source && a.in_project == in_project && a.installed_bp_names == installed_bp_names && a.cwd == cwd,
            !a.should_quit && a.pending_action is None,
            a.screen matches Screen::Loading(st) && st.message@ == "Loading "@ + name@ + "..."@
                && (st.target matches LoadingTarget::Detail { name: n, path: p, came_from_list }
                && n@ == name@ && p == path && !came_from_list),
    {
        App {
            source,
            screen: Screen::Loading(LoadingState {
                message: cat3("Loading ", name, "..."),
                target: LoadingTarget::Detail { name: name.to_string(), path, came_from_list: false },
            }),
            should_quit: false,
            pending_action: None,
            in_project,
            installed_bp_names,
            cwd,
        }
    }

    /// An app showing a standalone preview (Esc quits).
    pub fn new_preview(source: CrateSource, battery_pack_name: String, template_name: String, line_count: u16) -> (a: App)
        ensures
            a.source == source && !a.in_project && a.installed_bp_names@.len() == 0,
            !a.should_quit && a.pending_action is None,
            a.screen == Screen::Preview(PreviewScreen {
                battery_pack_name,
                template_name,
                scroll: 0,
                line_count,
                detail: None,
                selected_index: 0,
                came_from_list: false,
            }),
    {
        App {
            source,
            screen: Screen::Preview(PreviewScreen {
                battery_pack_name,
                template_name,
                scroll: 0,
                line_count,
                detail: None,
                selected_index: 0,
                came_from_list: false,
            }),
            should_quit: false,
            pending_action: None,
            in_project: false,
            installed_bp_names: Vec::new(),
            cwd: String::new(),
        }
    }

    /// The list of packs has been fetched, or failed: show it (the first row
    /// selected when there is one), or show the error with a retry.
    pub fn finish_list_load(&mut self, result: Result<Vec<BatteryPackSummary>, String>)
        requires
            old(self).screen matches Screen::Loading(st) && st.target is List,
        ensures
            same_context(*old(self), *final(self)),
            final(self).should_quit == old(self).should_quit,
            final(self).pending_action == old(self).pending_action,
            ({
                let filter = old(self).screen->Loading_0.target->List_filter;
                match result {
                    Ok(items) => final(self).screen == Screen::List(ListScreen {
                        items,
                        selected: if items@.len() > 0 { Some(0usize) } else { None },
                        filter,
                    }),
                    Err(m) => final(self).screen == Screen::Error(ErrorScreen {
                        message: m,
                        retry_target: LoadingTarget::List { filter },
                    }),
                }
            }),
    {
        let mut screen = Screen::Empty;
        std::mem::swap(&mut screen, &mut self.screen);
        let filter = match screen {
            Screen::Loading(LoadingState { target: LoadingTarget::List { filter }, .. }) => filter,
            _ => None,
        };
        match result {
            Ok(items) => {
                let selected = if items.len() > 0 { Some(0usize) } else { None };
                self.screen = Screen::List(ListScreen { items, selected, filter });
            },
            Err(m) => {
                self.screen = Screen::Error(ErrorScreen { message: m, retry_target: LoadingTarget::List { filter } });
            },
        }
    }

    /// A pack's details have been fetched, or failed: show them with the
    /// first action selected, or show the error with a retry.
    pub fn finish_detail_load(&mut self, result: Result<BatteryPackDetail, String>)
        requires
            old(self).screen matches Screen::Loading(st) && st.target is Detail,
            result matches Ok(d) ==> d.crates@.len() + d.extends@.len() + d.templates@.len() + d.examples@.len() <= usize::MAX,
        ensures
            same_context(*old(self), *final(self)),
            final(self).should_quit == old(self).should_quit,
            final(self).pending_action == old(self).pending_action,
            ({
                let t = old(self).screen->Loading_0.target;
                match result {
                    Ok(d) => final(self).screen matches Screen::Detail(s) && *s.detail == d
                        && s.selected_index == d.crates@.len() + d.extends@.len() + d.templates@.len() + d.examples@.len()
                        && s.came_from_list == t->Detail_came_from_list && s.in_project == old(self).in_project
                        && s.is_installed == old(self).installed_bp_names.deep_view().contains(d.name@),
                    Err(m) => final(self).screen == Screen::Error(ErrorScreen { message: m, retry_target: t }),
                }
            }),
    {
        let mut screen = Screen::Empty;
        std::mem::swap(&mut screen, &mut self.screen);
        let target = match screen {
            Screen::Loading(st) => st.target,
            _ => LoadingTarget::List { filter: None },
        };
        match result {
            Ok(d) => {
                let came = match &target {
                    LoadingTarget::Detail { came_from_list, .. } => *came_from_list,
                    _ => false,
                };
                let idx = d.crates.len() + d.extends.len() + d.templates.len() + d.examples.len();
                let is_installed = vec_contains_str(&self.installed_bp_names, d.name.as_str());
                self.screen = Screen::Detail(DetailScreen {
                    detail: Rc::new(d),
                    selected_index: idx,
                    came_from_list: came,
                    in_project: self.in_project,
                    is_installed,
                });
            },
            Err(m) => {
                self.screen = Screen::Error(ErrorScreen { message: m, retry_target: target });
            },
        }
    }

    /// A requested preview has been rendered into `line_count` lines: show it,
    /// returning to the detail screen it was opened from.
    pub fn open_preview(&mut self, req: PreviewRequest, line_count: u16)
        requires
            old(self).screen is Detail,
        ensures
            same_context(*old(self), *final(self)),
            final(self).should_quit == old(self).should_quit,
            final(self).pending_action == old(self).pending_action,
            ({
                let d = old(self).screen->Detail_0;
                final(self).screen == Screen::Preview(PreviewScreen {
                    battery_pack_name: req.battery_pack_name,
                    template_name: req.template_name,
                    scroll: 0,
                    line_count,
                    detail: Some(d.detail),
                    selected_index: d.selected_index,
                    came_from_list: d.came_from_list,
                })
            }),
    {
        let mut screen = Screen::Empty;
        std::mem::swap(&mut screen, &mut self.screen);
        match screen {
            Screen::Detail(d) => {
                self.screen = Screen::Preview(PreviewScreen {
                    battery_pack_name: req.battery_pack_name,
                    template_name: req.template_name,
                    scroll: 0,
                    line_count,
                    detail: Some(d.detail),
                    selected_index: d.selected_index,
                    came_from_list: d.came_from_list,
                });
            },
            other => {
                self.screen = other;
            },
        }
    }

    /// Take the pending action, leaving none.
    pub fn take_pending_action(&mut self) -> (a: Option<PendingAction>)
        ensures
            a == old(self).pending_action,
            final(self).pending_action is None,
            final(self).screen == old(self).screen,
            final(self).should_quit == old(self).should_quit,
            same_context(*old(self), *final(self)),
    {
        let mut a: Option<PendingAction> = None;
        std::mem::swap(&mut a, &mut self.pending_action);
        a
    }
}

} // verus!
