//! The text of the browser's detail screen: its lines, which one is
//! highlighted, how far it scrolls, and its key hints; drawing is left to
//! the caller.
use vstd::prelude::*;
use crate::detail_text::owner_text;
use crate::registry::{BatteryPackDetail, ExampleInfo, OwnerInfo, TemplateInfo};
use crate::text::{cat, cat3, join_strs, seq_join};
use crate::tui::DetailScreen;

verus! {

/// The colour of a selectable line that is not highlighted.
#[derive(Debug, Clone, Copy, PartialEq, Eq, Structural)]
pub enum ItemColor {
    Plain,
    Yellow,
    Cyan,
    Magenta,
}

/// One line of the detail screen.
#[derive(Debug)]
pub enum ScreenLine {
    Blank,
    Text(String),
    Heading(String),
    /// A selectable item: its text (with a `> ` or two-space prefix), its
    /// colour, and whether it is the highlighted one.
    Item { text: String, color: ItemColor, selected: bool },
}

/// The content of a screen line.
pub enum ScreenLineView {
    Blank,
    Text(Seq<char>),
    Heading(Seq<char>),
    Item(Seq<char>, ItemColor, bool),
}

impl DeepView for ScreenLine {
    type V = ScreenLineView;

    open spec fn deep_view(&self) -> ScreenLineView {
        match self {
            ScreenLine::Blank => ScreenLineView::Blank,
            ScreenLine::Text(s) => ScreenLineView::Text(s@),
            ScreenLine::Heading(s) => ScreenLineView::Heading(s@),
            ScreenLine::Item { text, color, selected } => ScreenLineView::Item(text@, *color, *selected),
        }
    }
}

/// The items of a selectable section, numbered from `start`; the one
/// numbered `sel` is highlighted and marked `> `.
pub open spec fn sel_items(texts: Seq<Seq<char>>, color: ItemColor, start: int, sel: int) -> Seq<ScreenLineView> {
    Seq::new(texts.len(), |j: int| ScreenLineView::Item(
        (if start + j == sel { "> "@ } else { "  "@ }) + texts[j], color, start + j == sel))
}

/// A selectable section: its heading, its items and a blank line; nothing
/// when it has no items.
pub open spec fn sel_section(label: Seq<char>, texts: Seq<Seq<char>>, color: ItemColor, start: int, sel: int) -> Seq<ScreenLineView> {
    if texts.len() == 0 {
        Seq::empty()
    } else {
        seq![ScreenLineView::Heading(label)] + sel_items(texts, color, start, sel) + seq![ScreenLineView::Blank]
    }
}

/// How a template or example is listed: `name - description`, or its name.
pub open spec fn named_text(name: Seq<char>, description: Option<Seq<char>>) -> Seq<char> {
    match description {
        Some(d) => name + " - "@ + d,
        None => name,
    }
}

/// The label of the add action.
pub open spec fn add_label(in_project: bool, is_installed: bool) -> Seq<char> {
    if !in_project {
        "Add to project (not in a project)"@
    } else if is_installed {
        "Add crates or features"@
    } else {
        "Add to project"@
    }
}

/// The lines of the detail screen: the description, the authors, then the
/// selectable crates, the features (`name → crates`), and the selectable
/// extended packs, templates, examples and actions, numbered in that order.
pub open spec fn screen_lines(s: DetailScreen) -> Seq<ScreenLineView> {
    let d = *s.detail;
    let sel = s.selected_index as int;
    let nc = d.crates@.len() as int;
    let ne = d.extends@.len() as int;
    let nt = d.templates@.len() as int;
    let nx = d.examples@.len() as int;
    (if d.description@.len() > 0 { seq![ScreenLineView::Text(d.description@), ScreenLineView::Blank] } else { Seq::empty() })
        + (if d.owners@.len() > 0 {
            seq![ScreenLineView::Heading("Authors:"@)]
                + d.owners@.map_values(|o: OwnerInfo| ScreenLineView::Text("  "@ + owner_text(o)))
                + seq![ScreenLineView::Blank]
        } else {
            Seq::empty()
        })
        + sel_section("Crates:"@, d.crates.deep_view(), ItemColor::Plain, 0, sel)
        + (if d.features.entries@.len() > 0 {
            seq![ScreenLineView::Heading("Features:"@)]
                + d.features.entries@.map_values(|e: (String, Vec<String>)| ScreenLineView::Text("  "@ + e.0@ + " → "@ + seq_join(e.1.deep_view(), ", "@)))
                + seq![ScreenLineView::Blank]
        } else {
            Seq::empty()
        })
        + sel_section("Extends:"@, d.extends.deep_view(), ItemColor::Yellow, nc, sel)
        + sel_section("Templates:"@, d.templates@.map_values(|t: TemplateInfo| named_text(t.name@, crate::manifest::opt_view(t.description))), ItemColor::Cyan, nc + ne, sel)
        + sel_section("Examples:"@, d.examples@.map_values(|e: ExampleInfo| named_text(e.name@, crate::manifest::opt_view(e.description))), ItemColor::Magenta, nc + ne + nt, sel)
        + sel_section("Actions:"@, seq!["Open on crates.io"@, add_label(s.in_project, s.is_installed), "Create new project from template"@], ItemColor::Plain, nc + ne + nt + nx, sel)
}

/// The first highlighted line, if any.
pub open spec fn first_selected(ls: Seq<ScreenLineView>) -> Option<int>
    decreases ls.len(),
{
    if ls.len() == 0 {
        None
    } else {
        match first_selected(ls.drop_last()) {
            Some(k) => Some(k),
            None => if ls.last() matches ScreenLineView::Item(_, _, true) { Some(ls.len() - 1) } else { None },
        }
    }
}

fn push_sel_section(out: &mut Vec<ScreenLine>, label: &str, texts: &Vec<String>, color: ItemColor, start: usize, sel: usize)
    requires
        start + texts@.len() <= usize::MAX,
    ensures
        final(out).deep_view() == old(out).deep_view() + sel_section(label@, texts.deep_view(), color, start as int, sel as int),
{
    if texts.len() == 0 {
        assert(out.deep_view() =~= old(out).deep_view() + sel_section(label@, texts.deep_view(), color, start as int, sel as int));
        return;
    }
    let ghost before = out.deep_view();
    out.push(ScreenLine::Heading(label.to_string()));
    let mut i: usize = 0;
    while i < texts.len()
        invariant
            start + texts@.len() <= usize::MAX,
            i <= texts@.len(),
            out.deep_view() == before + seq![ScreenLineView::Heading(label@)] + sel_items(texts.deep_view().take(i as int), color, start as int, sel as int),
        decreases texts.len() - i,
    {
        let selected = start + i == sel;
        let text = if selected { cat("> ", texts[i].as_str()) } else { cat("  ", texts[i].as_str()) };
        let ghost prev = out.deep_view();
        out.push(ScreenLine::Item { text, color, selected });
        assert(out.deep_view() =~= before + seq![ScreenLineView::Heading(label@)] + sel_items(texts.deep_view().take(i + 1), color, start as int, sel as int)) by {
            assert(out.deep_view() =~= prev.push(ScreenLineView::Item((if start + i == sel { "> "@ } else { "  "@ }) + texts@[i as int]@, color, start + i == sel)));
        }
        i += 1;
    }
    assert(texts.deep_view().take(i as int) =~= texts.deep_view());
    let ghost mid = out.deep_view();
    out.push(ScreenLine::Blank);
    assert(out.deep_view() =~= mid.push(ScreenLineView::Blank));
    assert(out.deep_view() =~= before + sel_section(label@, texts.deep_view(), color, start as int, sel as int));
}

fn named_texts_t(ts: &Vec<TemplateInfo>) -> (r: Vec<String>)
    ensures
        r.deep_view() == ts@.map_values(|t: TemplateInfo| named_text(t.name@, crate::manifest::opt_view(t.description))),
{
    let mut r: Vec<String> = Vec::new();
    let mut i: usize = 0;
    while i < ts.len()
        invariant
            i <= ts@.len(),
            r.deep_view() == ts@.take(i as int).map_values(|t: TemplateInfo| named_text(t.name@, crate::manifest::opt_view(t.description))),
        decreases ts.len() - i,
    {
        let t = &ts[i];
        let s = match &t.description {
            Some(d) => cat3(t.name.as_str(), " - ", d.as_str()),
            None => t.name.clone(),
        };
        let ghost prev = r.deep_view();
        r.push(s);
        assert(r.deep_view() =~= prev.push(named_text(t.name@, crate::manifest::opt_view(t.description))));
        assert(ts@.take(i + 1) =~= ts@.take(i as int).push(ts@[i as int]));
        i += 1;
    }
    assert(ts@.take(i as int) =~= ts@);
    r
}

fn named_texts_e(es: &Vec<ExampleInfo>) -> (r: Vec<String>)
    ensures
        r.deep_view() == es@.map_values(|e: ExampleInfo| named_text(e.name@, crate::manifest::opt_view(e.description))),
{
    let mut r: Vec<String> = Vec::new();
    let mut i: usize = 0;
    while i < es.len()
        invariant
            i <= es@.len(),
            r.deep_view() == es@.take(i as int).map_values(|e: ExampleInfo| named_text(e.name@, crate::manifest::opt_view(e.description))),
        decreases es.len() - i,
    {
        let e = &es[i];
        let s = match &e.description {
            Some(d) => cat3(e.name.as_str(), " - ", d.as_str()),
            None => e.name.clone(),
        };
        let ghost prev = r.deep_view();
        r.push(s);
        assert(r.deep_view() =~= prev.push(named_text(e.name@, crate::manifest::opt_view(e.description))));
        assert(es@.take(i + 1) =~= es@.take(i as int).push(es@[i as int]));
        i += 1;
    }
    assert(es@.take(i as int) =~= es@);
    r
}

fn owner_lines(owners: &Vec<OwnerInfo>) -> (r: Vec<ScreenLine>)
    ensures
        r.deep_view() == owners@.map_values(|o: OwnerInfo| ScreenLineView::Text("  "@ + owner_text(o))),
{
    let mut r: Vec<ScreenLine> = Vec::new();
    let mut i: usize = 0;
    while i < owners.len()
        invariant
            i <= owners@.len(),
            r.deep_view() == owners@.take(i as int).map_values(|o: OwnerInfo| ScreenLineView::Text("  "@ + owner_text(o))),
        decreases owners.len() - i,
    {
        let o = &owners[i];
        let text = match &o.name {
            Some(n) => {
                let a = cat3("  ", n.as_str(), " (");
                cat3(a.as_str(), o.login.as_str(), ")")
            },
            None => cat("  ", o.login.as_str()),
        };
        assert(text@ =~= "  "@ + owner_text(*o));
        let ghost prev = r.deep_view();
        r.push(ScreenLine::Text(text));
        assert(r.deep_view() =~= prev.push(ScreenLineView::Text("  "@ + owner_text(owners@[i as int]))));
        assert(owners@.take(i + 1) =~= owners@.take(i as int).push(owners@[i as int]));
        i += 1;
    }
    assert(owners@.take(i as int) =~= owners@);
    r
}

fn feature_lines(fs: &Vec<(String, Vec<String>)>) -> (r: Vec<ScreenLine>)
    ensures
        r.deep_view() == fs@.map_values(|e: (String, Vec<String>)| ScreenLineView::Text("  "@ + e.0@ + " → "@ + seq_join(e.1.deep_view(), ", "@))),
{
    let mut r: Vec<ScreenLine> = Vec::new();
    let mut i: usize = 0;
    while i < fs.len()
        invariant
            i <= fs@.len(),
            r.deep_view() == fs@.take(i as int).map_values(|e: (String, Vec<String>)| ScreenLineView::Text("  "@ + e.0@ + " → "@ + seq_join(e.1.deep_view(), ", "@))),
        decreases fs.len() - i,
    {
        let members = join_strs(&fs[i].1, ", ");
        let a = cat3("  ", fs[i].0.as_str(), " → ");
        let text = cat(a.as_str(), members.as_str());
        let ghost prev = r.deep_view();
        r.push(ScreenLine::Text(text));
        assert(r.deep_view() =~= prev.push(ScreenLineView::Text("  "@ + fs@[i as int].0@ + " → "@ + seq_join(fs@[i as int].1.deep_view(), ", "@))));
        assert(fs@.take(i + 1) =~= fs@.take(i as int).push(fs@[i as int]));
        i += 1;
    }
    assert(fs@.take(i as int) =~= fs@);
    r
}

fn append_lines(out: &mut Vec<ScreenLine>, heading: &str, ls: Vec<ScreenLine>)
    ensures
        final(out).deep_view() == old(out).deep_view() + (if ls@.len() > 0 {
            seq![ScreenLineView::Heading(heading@)] + ls.deep_view() + seq![ScreenLineView::Blank]
        } else {
            Seq::empty()
        }),
{
    if ls.len() > 0 {
        let ghost before = out.deep_view();
        let ghost lv = ls.deep_view();
        out.push(ScreenLine::Heading(heading.to_string()));
        let mut ls = ls;
        out.append(&mut ls);
        out.push(ScreenLine::Blank);
        assert(out.deep_view() =~= before + (seq![ScreenLineView::Heading(heading@)] + lv + seq![ScreenLineView::Blank]));
    } else {
        assert(out.deep_view() =~= old(out).deep_view() + Seq::<ScreenLineView>::empty());
    }
}

fn first_selected_exec(ls: &Vec<ScreenLine>) -> (r: Option<usize>)
    ensures
        match r {
            Some(k) => first_selected(ls.deep_view()) == Some(k as int),
            None => first_selected(ls.deep_view()) is None,
        },
{
    let ghost lv = ls.deep_view();
    let mut i: usize = 0;
    while i < ls.len()
        invariant
            lv == ls.deep_view(),
            i <= ls@.len(),
            first_selected(lv.take(i as int)) is None,
        decreases ls.len() - i,
    {
        proof {
            assert(lv.take(i + 1).drop_last() =~= lv.take(i as int));
            assert(lv.take(i + 1).last() == lv[i as int]);
        }
        match &ls[i] {
            ScreenLine::Item { selected: true, .. } => {
                proof {
                    assert(first_selected(lv.take(i + 1)) == Some(i as int));
                    lemma_first_selected_prefix(lv, i + 1);
                }
                return Some(i);
            },
            _ => {},
        }
        i += 1;
    }
    assert(lv.take(i as int) =~= lv);
    None
}

proof fn lemma_first_selected_prefix(ls: Seq<ScreenLineView>, n: int)
    requires
        0 <= n <= ls.len(),
        first_selected(ls.take(n)) is Some,
    ensures
        first_selected(ls) == first_selected(ls.take(n)),
    decreases ls.len() - n,
{
    if n < ls.len() {
        assert(ls.take(n + 1).drop_last() =~= ls.take(n));
        lemma_first_selected_prefix(ls, n + 1);
    } else {
        assert(ls.take(n) =~= ls);
    }
}

/// The detail screen's lines (see `screen_lines`) and the first highlighted one.
pub fn detail_screen_lines(s: &DetailScreen) -> (r: (Vec<ScreenLine>, Option<usize>))
    requires
        s.detail.crates@.len() + s.detail.extends@.len() + s.detail.templates@.len() + s.detail.examples@.len() + 3 <= usize::MAX,
    ensures
        r.0.deep_view() == screen_lines(*s),
        match r.1 {
            Some(k) => first_selected(screen_lines(*s)) == Some(k as int),
            None => first_selected(screen_lines(*s)) is None,
        },
{
    let d: &BatteryPackDetail = &*s.detail;
    let sel = s.selected_index;
    let mut out: Vec<ScreenLine> = Vec::new();
    if crate::text::str_chars(d.description.as_str()).len() > 0 {
        out.push(ScreenLine::Text(d.description.clone()));
        out.push(ScreenLine::Blank);
    }
    let ghost p0 = if d.description@.len() > 0 { seq![ScreenLineView::Text(d.description@), ScreenLineView::Blank] } else { Seq::empty() };
    assert(out.deep_view() =~= p0);
    append_lines(&mut out, "Authors:", owner_lines(&d.owners));
    push_sel_section(&mut out, "Crates:", &d.crates, ItemColor::Plain, 0, sel);
    append_lines(&mut out, "Features:", feature_lines(&d.features.entries));
    let nc = d.crates.len();
    let ne = d.extends.len();
    let nt = d.templates.len();
    let nx = d.examples.len();
    push_sel_section(&mut out, "Extends:", &d.extends, ItemColor::Yellow, nc, sel);
    push_sel_section(&mut out, "Templates:", &named_texts_t(&d.templates), ItemColor::Cyan, nc + ne, sel);
    push_sel_section(&mut out, "Examples:", &named_texts_e(&d.examples), ItemColor::Magenta, nc + ne + nt, sel);
    let mut actions: Vec<String> = Vec::new();
    actions.push("Open on crates.io".to_string());
    actions.push(
        if !s.in_project {
            "Add to project (not in a project)".to_string()
        } else if s.is_installed {
            "Add crates or features".to_string()
        } else {
            "Add to project".to_string()
        },
    );
    actions.push("Create new project from template".to_string());
    assert(actions.deep_view() =~= seq!["Open on crates.io"@, add_label(s.in_project, s.is_installed), "Create new project from template"@]);
    push_sel_section(&mut out, "Actions:", &actions, ItemColor::Plain, nc + ne + nt + nx, sel);
    assert(out.deep_view() =~= screen_lines(*s));
    let first = first_selected_exec(&out);
    (out, first)
}

/// How far the screen scrolls: enough to show the highlighted line in a
/// view of `visible_height` rows.
pub open spec fn scroll_for(selected_line: Option<usize>, visible_height: usize) -> int {
    match selected_line {
        Some(l) => {
            let h = if visible_height > 0 { visible_height - 1 } else { 0 };
            if l > h { l - h } else { 0 }
        },
        None => 0,
    }
}

/// The scroll offset of the detail screen (see `scroll_for`).
pub fn scroll_offset(selected_line: Option<usize>, visible_height: usize) -> (r: usize)
    ensures
        r == scroll_for(selected_line, visible_height),
{
    match selected_line {
        Some(l) => l.saturating_sub(visible_height.saturating_sub(1)),
        None => 0,
    }
}

/// The key hints of the detail screen.
pub open spec fn footer_for(template_selected: bool, came_from_list: bool) -> Seq<char> {
    let back = if came_from_list { "Esc Back"@ } else { "Esc/q Quit"@ };
    if template_selected {
        "↑↓/jk Navigate | Enter Open | p Preview | n New project | u Use in project | "@ + back
    } else {
        "↑↓/jk Navigate | Enter Open/Select | "@ + back
    }
}

/// The key hints of the detail screen (see `footer_for`).
pub fn detail_footer(template_selected: bool, came_from_list: bool) -> (r: String)
    ensures
        r@ == footer_for(template_selected, came_from_list),
{
    let back = if came_from_list { "Esc Back" } else { "Esc/q Quit" };
    if template_selected {
        cat("↑↓/jk Navigate | Enter Open | p Preview | n New project | u Use in project | ", back)
    } else {
        cat("↑↓/jk Navigate | Enter Open/Select | ", back)
    }
}

} // verus!
