//! What `cargo bp show` prints for a battery pack, line by line; the
//! terminal styling is left to the caller.
use vstd::prelude::*;
use crate::manifest::opt_view;
use crate::registry::{BatteryPackDetail, OwnerInfo};
use crate::text::{cat, cat3};

verus! {

/// One printed line.
#[derive(Debug)]
pub enum DetailLine {
    Blank,
    /// The pack's name and version.
    Title { name: String, version: String },
    /// Plain text.
    Text(String),
    /// A section heading.
    Heading(String),
    /// An indented entry.
    Entry(String),
    /// A template: its name padded to `width` bytes, and its description.
    Template { name: String, width: usize, description: Option<String> },
    /// An example: its name padded to `width` bytes, and its description.
    Example { name: String, width: usize, description: Option<String> },
}

/// The content of a printed line.
pub enum LineView {
    Blank,
    Title(Seq<char>, Seq<char>),
    Text(Seq<char>),
    Heading(Seq<char>),
    Entry(Seq<char>),
    Template(Seq<char>, nat, Option<Seq<char>>),
    Example(Seq<char>, nat, Option<Seq<char>>),
}

impl DeepView for DetailLine {
    type V = LineView;

    open spec fn deep_view(&self) -> LineView {
        match self {
            DetailLine::Blank => LineView::Blank,
            DetailLine::Title { name, version } => LineView::Title(name@, version@),
            DetailLine::Text(s) => LineView::Text(s@),
            DetailLine::Heading(s) => LineView::Heading(s@),
            DetailLine::Entry(s) => LineView::Entry(s@),
            DetailLine::Template { name, width, description } => LineView::Template(name@, *width as nat, opt_view(*description)),
            DetailLine::Example { name, width, description } => LineView::Example(name@, *width as nat, opt_view(*description)),
        }
    }
}

/// How an owner is shown: `name (login)`, or the login alone.
pub open spec fn owner_text(o: OwnerInfo) -> Seq<char> {
    match o.name {
        Some(n) => n@ + " ("@ + o.login@ + ")"@,
        None => o.login@,
    }
}

/// The length of a text in UTF-8 bytes.
pub open spec fn byte_len(s: Seq<char>) -> nat {
    vstd::utf8::encode_utf8(s).len()
}

/// The longest byte length among some names (0 for none).
pub open spec fn max_byte_len(names: Seq<Seq<char>>) -> nat
    decreases names.len(),
{
    if names.len() == 0 {
        0
    } else {
        let m = max_byte_len(names.drop_last());
        let l = byte_len(names.last());
        if l > m { l } else { m }
    }
}

/// The padding width is that of the longest name: no name is longer, and
/// some name (when there is one) is exactly that long, so every listed
/// description starts in the same column.
pub proof fn law_max_byte_len(names: Seq<Seq<char>>)
    ensures
        forall|i: int| 0 <= i < names.len() ==> byte_len(#[trigger] names[i]) <= max_byte_len(names),
        names.len() > 0 ==> exists|i: int| 0 <= i < names.len() && byte_len(#[trigger] names[i]) == max_byte_len(names),
    decreases names.len(),
{
    if names.len() > 0 {
        let init = names.drop_last();
        law_max_byte_len(init);
        assert forall|i: int| 0 <= i < names.len() implies byte_len(#[trigger] names[i]) <= max_byte_len(names) by {
            if i < names.len() - 1 {
                assert(names[i] == init[i]);
            }
        }
        if byte_len(names.last()) > max_byte_len(init) || init.len() == 0 {
            assert(byte_len(names[names.len() - 1]) == max_byte_len(names));
        } else {
            let i = choose|i: int| 0 <= i < init.len() && byte_len(#[trigger] init[i]) == max_byte_len(init);
            assert(names[i] == init[i]);
            assert(byte_len(names[i]) == max_byte_len(names));
        }
    }
}

/// A section: a blank line, its heading and its lines; nothing when it has
/// no lines.
pub open spec fn section(heading: Seq<char>, ls: Seq<LineView>) -> Seq<LineView> {
    if ls.len() == 0 {
        Seq::empty()
    } else {
        seq![LineView::Blank, LineView::Heading(heading)] + ls
    }
}

/// The lines `cargo bp show` prints for a pack: its name and version, its
/// description when it has one, its authors, crates, extended packs,
/// templates and examples (each section only when not empty; template and
/// example names padded to the longest of their section), and how to
/// install it.
pub open spec fn detail_lines(d: &BatteryPackDetail) -> Seq<LineView> {
    let tw = max_byte_len(d.templates@.map_values(|t: crate::registry::TemplateInfo| t.name@));
    let ew = max_byte_len(d.examples@.map_values(|e: crate::registry::ExampleInfo| e.name@));
    seq![LineView::Blank, LineView::Title(d.name@, d.version@)]
        + (if d.description@.len() > 0 { seq![LineView::Text(d.description@)] } else { Seq::empty() })
        + section("Authors:"@, d.owners@.map_values(|o: OwnerInfo| LineView::Entry(owner_text(o))))
        + section("Crates:"@, d.crates@.map_values(|c: String| LineView::Entry(c@)))
        + section("Extends:"@, d.extends@.map_values(|c: String| LineView::Entry(c@)))
        + section("Templates:"@, d.templates@.map_values(|t: crate::registry::TemplateInfo| LineView::Template(t.name@, tw, opt_view(t.description))))
        + section("Examples:"@, d.examples@.map_values(|e: crate::registry::ExampleInfo| LineView::Example(e.name@, ew, opt_view(e.description))))
        + seq![
            LineView::Blank,
            LineView::Heading("Install:"@),
            LineView::Entry("cargo bp add "@ + d.short_name@),
            LineView::Entry("cargo bp new "@ + d.short_name@),
            LineView::Blank,
        ]
}

fn push_section(out: &mut Vec<DetailLine>, heading: &str, ls: Vec<DetailLine>)
    ensures
        final(out).deep_view() == old(out).deep_view() + section(heading@, ls.deep_view()),
{
    if ls.len() > 0 {
        let ghost before = out.deep_view();
        let ghost lv = ls.deep_view();
        out.push(DetailLine::Blank);
        out.push(DetailLine::Heading(heading.to_string()));
        let mut ls = ls;
        out.append(&mut ls);
        assert(out.deep_view() =~= before + (seq![LineView::Blank, LineView::Heading(heading@)] + lv));
    } else {
        assert(out.deep_view() =~= old(out).deep_view() + section(heading@, ls.deep_view()));
    }
}

fn string_entries(items: &Vec<String>) -> (r: Vec<DetailLine>)
    ensures
        r.deep_view() == items@.map_values(|c: String| LineView::Entry(c@)),
{
    let mut r: Vec<DetailLine> = Vec::new();
    let mut i: usize = 0;
    while i < items.len()
        invariant
            i <= items@.len(),
            r.deep_view() == items@.take(i as int).map_values(|c: String| LineView::Entry(c@)),
        decreases items.len() - i,
    {
        let ghost before = r.deep_view();
        r.push(DetailLine::Entry(items[i].clone()));
        assert(r.deep_view() =~= before.push(LineView::Entry(items@[i as int]@)));
        assert(items@.take(i + 1) =~= items@.take(i as int).push(items@[i as int]));
        assert(r.deep_view() =~= items@.take(i + 1).map_values(|c: String| LineView::Entry(c@)));
        i += 1;
    }
    assert(items@.take(i as int) =~= items@);
    r
}

fn owner_entries(owners: &Vec<OwnerInfo>) -> (r: Vec<DetailLine>)
    ensures
        r.deep_view() == owners@.map_values(|o: OwnerInfo| LineView::Entry(owner_text(o))),
{
    let mut r: Vec<DetailLine> = Vec::new();
    let mut i: usize = 0;
    while i < owners.len()
        invariant
            i <= owners@.len(),
            r.deep_view() == owners@.take(i as int).map_values(|o: OwnerInfo| LineView::Entry(owner_text(o))),
        decreases owners.len() - i,
    {
        let o = &owners[i];
        let text = match &o.name {
            Some(n) => {
                let a = cat3(n.as_str(), " (", o.login.as_str());
                cat(a.as_str(), ")")
            },
            None => o.login.clone(),
        };
        let ghost before = r.deep_view();
        r.push(DetailLine::Entry(text));
        assert(r.deep_view() =~= before.push(LineView::Entry(owner_text(owners@[i as int]))));
        assert(owners@.take(i + 1) =~= owners@.take(i as int).push(owners@[i as int]));
        assert(r.deep_view() =~= owners@.take(i + 1).map_values(|o: OwnerInfo| LineView::Entry(owner_text(o))));
        i += 1;
    }
    assert(owners@.take(i as int) =~= owners@);
    r
}

fn max_len(names: &Vec<&str>) -> (r: usize)
    ensures
        r as nat == max_byte_len(names@.map_values(|s: &str| s@)),
{
    let mut m: usize = 0;
    let mut i: usize = 0;
    while i < names.len()
        invariant
            i <= names@.len(),
            m as nat == max_byte_len(names@.take(i as int).map_values(|s: &str| s@)),
        decreases names.len() - i,
    {
        let l = names[i].as_bytes().len();
        proof {
            let t = names@.take(i + 1).map_values(|s: &str| s@);
            assert(t.drop_last() =~= names@.take(i as int).map_values(|s: &str| s@));
            assert(t.last() == names@[i as int]@);
        }
        if l > m {
            m = l;
        }
        i += 1;
    }
    assert(names@.take(i as int) =~= names@);
    m
}

/// The lines `cargo bp show` prints for a pack (see `detail_lines`).
pub fn detail_text(d: &BatteryPackDetail) -> (r: Vec<DetailLine>)
    ensures
        r.deep_view() == detail_lines(d),
{
    let mut out: Vec<DetailLine> = Vec::new();
    out.push(DetailLine::Blank);
    out.push(DetailLine::Title { name: d.name.clone(), version: d.version.clone() });
    if crate::text::str_chars(d.description.as_str()).len() > 0 {
        out.push(DetailLine::Text(d.description.clone()));
    }
    let ghost p0 = seq![LineView::Blank, LineView::Title(d.name@, d.version@)]
        + (if d.description@.len() > 0 { seq![LineView::Text(d.description@)] } else { Seq::empty() });
    assert(out.deep_view() =~= p0);
    push_section(&mut out, "Authors:", owner_entries(&d.owners));
    let ghost p1 = p0 + section("Authors:"@, d.owners@.map_values(|o: OwnerInfo| LineView::Entry(owner_text(o))));
    assert(out.deep_view() == p1);
    push_section(&mut out, "Crates:", string_entries(&d.crates));
    let ghost p2 = p1 + section("Crates:"@, d.crates@.map_values(|c: String| LineView::Entry(c@)));
    assert(out.deep_view() == p2);
    push_section(&mut out, "Extends:", string_entries(&d.extends));
    let ghost p3 = p2 + section("Extends:"@, d.extends@.map_values(|c: String| LineView::Entry(c@)));
    assert(out.deep_view() == p3);

    let mut tnames: Vec<&str> = Vec::new();
    let mut i: usize = 0;
    while i < d.templates.len()
        invariant
            i <= d.templates@.len(),
            tnames@.map_values(|s: &str| s@) == d.templates@.take(i as int).map_values(|t: crate::registry::TemplateInfo| t.name@),
        decreases d.templates.len() - i,
    {
        let ghost before = tnames@.map_values(|s: &str| s@);
        tnames.push(d.templates[i].name.as_str());
        assert(tnames@.map_values(|s: &str| s@) =~= before.push(d.templates@[i as int].name@));
        assert(d.templates@.take(i + 1) =~= d.templates@.take(i as int).push(d.templates@[i as int]));
        assert(tnames@.map_values(|s: &str| s@) =~= d.templates@.take(i + 1).map_values(|t: crate::registry::TemplateInfo| t.name@));
        i += 1;
    }
    assert(d.templates@.take(i as int) =~= d.templates@);
    let tw = max_len(&tnames);
    let mut ts: Vec<DetailLine> = Vec::new();
    let mut i: usize = 0;
    while i < d.templates.len()
        invariant
            i <= d.templates@.len(),
            ts.deep_view() == d.templates@.take(i as int).map_values(|t: crate::registry::TemplateInfo| LineView::Template(t.name@, tw as nat, opt_view(t.description))),
        decreases d.templates.len() - i,
    {
        let t = &d.templates[i];
        let ghost before = ts.deep_view();
        ts.push(DetailLine::Template { name: t.name.clone(), width: tw, description: crate::common::DeepClone::deep_clone(&t.description) });
        assert(ts.deep_view() =~= before.push(LineView::Template(t.name@, tw as nat, opt_view(t.description))));
        assert(d.templates@.take(i + 1) =~= d.templates@.take(i as int).push(d.templates@[i as int]));
        assert(ts.deep_view() =~= d.templates@.take(i + 1).map_values(|t: crate::registry::TemplateInfo| LineView::Template(t.name@, tw as nat, opt_view(t.description))));
        i += 1;
    }
    assert(d.templates@.take(i as int) =~= d.templates@);
    push_section(&mut out, "Templates:", ts);
    let ghost p4 = p3 + section("Templates:"@, d.templates@.map_values(|t: crate::registry::TemplateInfo| LineView::Template(t.name@, tw as nat, opt_view(t.description))));
    assert(out.deep_view() == p4);

    let mut enames: Vec<&str> = Vec::new();
    let mut i: usize = 0;
    while i < d.examples.len()
        invariant
            i <= d.examples@.len(),
            enames@.map_values(|s: &str| s@) == d.examples@.take(i as int).map_values(|e: crate::registry::ExampleInfo| e.name@),
        decreases d.examples.len() - i,
    {
        let ghost before = enames@.map_values(|s: &str| s@);
        enames.push(d.examples[i].name.as_str());
        assert(enames@.map_values(|s: &str| s@) =~= before.push(d.examples@[i as int].name@));
        assert(d.examples@.take(i + 1) =~= d.examples@.take(i as int).push(d.examples@[i as int]));
        assert(enames@.map_values(|s: &str| s@) =~= d.examples@.take(i + 1).map_values(|e: crate::registry::ExampleInfo| e.name@));
        i += 1;
    }
    assert(d.examples@.take(i as int) =~= d.examples@);
    let ew = max_len(&enames);
    let mut es: Vec<DetailLine> = Vec::new();
    let mut i: usize = 0;
    while i < d.examples.len()
        invariant
            i <= d.examples@.len(),
            es.deep_view() == d.examples@.take(i as int).map_values(|e: crate::registry::ExampleInfo| LineView::Example(e.name@, ew as nat, opt_view(e.description))),
        decreases d.examples.len() - i,
    {
        let e = &d.examples[i];
        let ghost before = es.deep_view();
        es.push(DetailLine::Example { name: e.name.clone(), width: ew, description: crate::common::DeepClone::deep_clone(&e.description) });
        assert(es.deep_view() =~= before.push(LineView::Example(e.name@, ew as nat, opt_view(e.description))));
        assert(d.examples@.take(i + 1) =~= d.examples@.take(i as int).push(d.examples@[i as int]));
        assert(es.deep_view() =~= d.examples@.take(i + 1).map_values(|e: crate::registry::ExampleInfo| LineView::Example(e.name@, ew as nat, opt_view(e.description))));
        i += 1;
    }
    assert(d.examples@.take(i as int) =~= d.examples@);
    push_section(&mut out, "Examples:", es);
    let ghost p5 = p4 + section("Examples:"@, d.examples@.map_values(|e: crate::registry::ExampleInfo| LineView::Example(e.name@, ew as nat, opt_view(e.description))));
    assert(out.deep_view() == p5);

    let ghost before = out.deep_view();
    out.push(DetailLine::Blank);
    out.push(DetailLine::Heading("Install:".to_string()));
    out.push(DetailLine::Entry(cat("cargo bp add ", d.short_name.as_str())));
    out.push(DetailLine::Entry(cat("cargo bp new ", d.short_name.as_str())));
    out.push(DetailLine::Blank);
    assert(out.deep_view() =~= p5 + seq![
        LineView::Blank,
        LineView::Heading("Install:"@),
        LineView::Entry("cargo bp add "@ + d.short_name@),
        LineView::Entry("cargo bp new "@ + d.short_name@),
        LineView::Blank,
    ]);
    out
}

} // verus!
