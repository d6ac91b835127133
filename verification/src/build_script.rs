//! Registering a battery pack's `validate()` call in the project's `build.rs`.
use vstd::prelude::*;
use crate::lines::{lines, lines_spec, split_on, strip_cr, lemma_split_on_nonempty};
use crate::text::{seq_contains_str, contains_str, str_chars, string_from_chars, cat, cat3, join_strs, seq_join, str_eq};

verus! {

/// The items of a Rust source file, as `syn` parses it: for each item, the
/// name of the function it declares, if it is one. `None` when the file
/// does not parse.
pub uninterp spec fn rust_items(content: Seq<char>) -> Option<Seq<Option<Seq<char>>>>;

/// Parses `content` as a Rust file with `syn::parse_str::<syn::File>` and
/// gives, per item, the name of the function it declares (`None` when the
/// file does not parse).
#[verifier::external_body]
fn parse_rust_items(content: &str) -> (r: Option<Vec<Option<String>>>)
    ensures
        r.deep_view() == rust_items(content@),
{
    match syn::parse_str::<syn::File>(content) {
        Ok(file) => Some(file.items.iter().map(|item| match item {
            syn::Item::Fn(func) => Some(func.sig.ident.to_string()),
            _ => None,
        }).collect()),
        Err(_) => None,
    }
}

/// A crate name as a Rust identifier: `-` becomes `_`.
pub open spec fn crate_ident(name: Seq<char>) -> Seq<char> {
    name.map_values(|c: char| if c == '-' { '_' } else { c })
}

/// The call a build script makes: `<ident>::validate();`.
pub open spec fn validate_call(name: Seq<char>) -> Seq<char> {
    crate_ident(name) + "::validate();"@
}

/// Process the characters of a line inside `main`, from depth `depth`:
/// the depth after them, or the depth when the brace closing `main` is met.
pub open spec fn scan_chars(cs: Seq<char>, depth: int) -> (int, bool)
    decreases cs.len(),
{
    if cs.len() == 0 {
        (depth, false)
    } else if cs[0] == '{' {
        scan_chars(cs.drop_first(), depth + 1)
    } else if cs[0] == '}' {
        if depth - 1 == 0 {
            (0, true)
        } else {
            scan_chars(cs.drop_first(), depth - 1)
        }
    } else {
        scan_chars(cs.drop_first(), depth)
    }
}

/// Process one line: a line mentioning `fn main` starts `main` over at depth 0.
/// Gives whether `main` is still open, the depth, and whether it closed here.
pub open spec fn scan_line(line: Seq<char>, in_main: bool, depth: int) -> (bool, int, bool) {
    let (im, d) = if seq_contains_str(line, "fn main"@) { (true, 0int) } else { (in_main, depth) };
    if im {
        let (d2, closed) = scan_chars(line, d);
        (!closed, d2, closed)
    } else {
        (im, d, false)
    }
}

/// Process the first `n` lines: the last line where `main` closed, whether
/// `main` is open, and the depth.
pub open spec fn scan_lines(ls: Seq<Seq<char>>, n: int) -> (Option<int>, bool, int)
    decreases n,
{
    if n <= 0 {
        (None, false, 0)
    } else {
        let (ins, im, d) = scan_lines(ls, n - 1);
        let (im2, d2, closed) = scan_line(ls[n - 1], im, d);
        (if closed { Some(n - 1) } else { ins }, im2, d2)
    }
}

/// The total length of some lines.
pub open spec fn total_len(ls: Seq<Seq<char>>) -> int
    decreases ls.len(),
{
    if ls.len() == 0 {
        0
    } else {
        total_len(ls.drop_last()) + ls.last().len()
    }
}

proof fn lemma_split_total(s: Seq<char>, sep: char)
    ensures
        total_len(split_on(s, sep)) <= s.len(),
    decreases s.len(),
{
    if s.len() > 0 {
        lemma_split_total(s.drop_last(), sep);
        lemma_split_on_nonempty(s.drop_last(), sep);
        let r = split_on(s.drop_last(), sep);
        assert(total_len(r) == total_len(r.drop_last()) + r.last().len());
        if s.last() == sep {
            assert(r.push(Seq::<char>::empty()).drop_last() =~= r);
        } else {
            let u = r.update(r.len() - 1, r.last().push(s.last()));
            assert(u.drop_last() =~= r.drop_last());
            assert(u.last() == r.last().push(s.last()));
            assert(total_len(u) == total_len(u.drop_last()) + u.last().len());
        }
    } else {
        reveal_with_fuel(total_len, 2);
        assert(seq![Seq::<char>::empty()].drop_last() =~= Seq::<Seq<char>>::empty());
    }
}

proof fn lemma_strip_total(ls: Seq<Seq<char>>)
    ensures
        total_len(ls.map_values(|l: Seq<char>| strip_cr(l))) <= total_len(ls),
    decreases ls.len(),
{
    if ls.len() > 0 {
        lemma_strip_total(ls.drop_last());
        assert(ls.map_values(|l: Seq<char>| strip_cr(l)).drop_last() =~= ls.drop_last().map_values(|l: Seq<char>| strip_cr(l)));
    }
}

proof fn lemma_lines_total(s: Seq<char>)
    ensures
        total_len(lines_spec(s)) <= s.len(),
{
    let parts = split_on(s, '\n');
    lemma_split_total(s, '\n');
    lemma_split_on_nonempty(s, '\n');
    lemma_strip_total(parts.drop_last());
    let ended = parts.drop_last().map_values(|l: Seq<char>| strip_cr(l));
    assert(total_len(parts) == total_len(parts.drop_last()) + parts.last().len());
    if parts.last().len() != 0 {
        assert(ended.push(parts.last()).drop_last() =~= ended);
    }
}

proof fn lemma_total_nonneg(ls: Seq<Seq<char>>)
    ensures
        total_len(ls) >= 0,
    decreases ls.len(),
{
    if ls.len() > 0 {
        lemma_total_nonneg(ls.drop_last());
    }
}

/// The first `n` lines' total length bounds the depth.
proof fn lemma_scan_bound(ls: Seq<Seq<char>>, n: int)
    requires
        0 <= n <= ls.len(),
    ensures
        -total_len(ls.take(n)) <= scan_lines(ls, n).2 <= total_len(ls.take(n)),
    decreases n,
{
    if n > 0 {
        lemma_scan_bound(ls, n - 1);
        assert(ls.take(n).drop_last() =~= ls.take(n - 1));
        let (ins, im, d) = scan_lines(ls, n - 1);
        let line = ls[n - 1];
        let d0 = if seq_contains_str(line, "fn main"@) { 0int } else { d };
        lemma_scan_chars_bound(line, d0);
    }
}

proof fn lemma_scan_chars_bound(cs: Seq<char>, depth: int)
    ensures
        depth - cs.len() <= scan_chars(cs, depth).0 <= depth + cs.len(),
        scan_chars(cs, depth).0 >= 0 || depth < 0 || depth - cs.len() <= scan_chars(cs, depth).0,
    decreases cs.len(),
{
    if cs.len() > 0 {
        lemma_scan_chars_bound(cs.drop_first(), depth + 1);
        lemma_scan_chars_bound(cs.drop_first(), depth - 1);
        lemma_scan_chars_bound(cs.drop_first(), depth);
    }
}

/// What registering the call does to `build.rs`.
#[derive(Debug)]
pub enum BuildRsChange {
    /// The call is already there.
    Unchanged,
    /// Write this content.
    Write(String),
}

/// The new content of a build script with the call inserted before line `at`.
pub open spec fn with_call_at(ls: Seq<Seq<char>>, at: int, call: Seq<char>) -> Seq<char> {
    seq_join(ls.insert(at, "    "@ + call), "\n"@) + "\n"@
}

/// What `update_build_rs` does with the script's content (`None` when there is no script).
pub open spec fn build_rs_spec(content: Option<Seq<char>>, crate_name: Seq<char>) -> Result<Option<Seq<char>>, Seq<char>> {
    let call = validate_call(crate_name);
    match content {
        None => Ok(Some("fn main() {\n    "@ + call + "\n}\n"@)),
        Some(c) => if seq_contains_str(c, call) {
            Ok(None)
        } else {
            match rust_items(c) {
                None => Err("Failed to parse build.rs"@),
                Some(items) => {
                    let ls = lines_spec(c);
                    let has_main = items.contains(Some("main"@));
                    match (if has_main { scan_lines(ls, ls.len() as int).0 } else { None }) {
                        Some(at) => Ok(Some(with_call_at(ls, at, call))),
                        None => Err("Could not find fn main() in build.rs. Please add `"@ + call + "` manually."@),
                    }
                },
            }
        },
    }
}

pub fn ident_of(name: &str) -> (r: String)
    ensures
        r@ == crate_ident(name@),
{
    let cs = str_chars(name);
    let mut out: Vec<char> = Vec::new();
    let mut i: usize = 0;
    while i < cs.len()
        invariant
            cs@ == name@,
            i <= cs@.len(),
            out@ == cs@.take(i as int).map_values(|c: char| if c == '-' { '_' } else { c }),
        decreases cs.len() - i,
    {
        let c = cs[i];
        out.push(if c == '-' { '_' } else { c });
        assert(out@ =~= cs@.take(i + 1).map_values(|c: char| if c == '-' { '_' } else { c }));
        i += 1;
    }
    assert(cs@.take(i as int) =~= cs@);
    string_from_chars(out.as_slice())
}

fn scan_chars_exec(line: &str, depth: i64) -> (r: (i64, bool))
    requires
        -0x4000_0000_0000_0000 <= depth <= 0x4000_0000_0000_0000,
        line@.len() <= 0x1000_0000_0000_0000,
    ensures
        (r.0 as int, r.1) == scan_chars(line@, depth as int),
{
    let cs = str_chars(line);
    let mut d = depth;
    let mut i: usize = 0;
    assert(cs@.skip(0) =~= cs@);
    while i < cs.len()
        invariant
            cs@ == line@,
            i <= cs@.len(),
            cs@.len() <= 0x1000_0000_0000_0000,
            depth - i <= d <= depth + i,
            -0x4000_0000_0000_0000 <= depth <= 0x4000_0000_0000_0000,
            scan_chars(line@, depth as int) == scan_chars(cs@.skip(i as int), d as int),
        decreases cs.len() - i,
    {
        proof {
            let rest = cs@.skip(i as int);
            assert(rest[0] == cs@[i as int]);
            assert(rest.drop_first() =~= cs@.skip(i + 1));
        }
        let c = cs[i];
        if c == '{' {
            d = d + 1;
        } else if c == '}' {
            if d - 1 == 0 {
                return (0, true);
            }
            d = d - 1;
        }
        i += 1;
    }
    assert(cs@.skip(i as int).len() == 0);
    (d, false)
}

/// Register the battery pack's `validate()` call in a build script.
/// `content` is the script's text, or `None` when there is no script: then
/// a script with a `main` making the call is created. A script already
/// making the call is left as it is. Otherwise the call is inserted before
/// the line closing `fn main`; a script that does not parse, or has no
/// `main` whose end can be found, is an error.
pub fn update_build_rs(content: Option<&str>, crate_name: &str) -> (r: Result<BuildRsChange, String>)
    requires
        content matches Some(c) ==> c@.len() <= 0x1000_0000_0000_0000,
    ensures
        match (r, build_rs_spec(match content { Some(c) => Some(c@), None => None }, crate_name@)) {
            (Ok(BuildRsChange::Unchanged), Ok(None)) => true,
            (Ok(BuildRsChange::Write(s)), Ok(Some(sv))) => s@ == sv,
            (Err(m), Err(mv)) => m@ == mv,
            _ => false,
        },
{
    let ident = ident_of(crate_name);
    let call = cat(ident.as_str(), "::validate();");
    let c = match content {
        None => {
            let a = cat3("fn main() {\n    ", call.as_str(), "\n}\n");
            return Ok(BuildRsChange::Write(a));
        },
        Some(c) => c,
    };
    if contains_str(c, call.as_str()) {
        return Ok(BuildRsChange::Unchanged);
    }
    let items = match parse_rust_items(c) {
        None => return Err("Failed to parse build.rs".to_string()),
        Some(items) => items,
    };
    let mut has_main = false;
    let mut k: usize = 0;
    while k < items.len()
        invariant
            k <= items@.len(),
            has_main == items.deep_view().take(k as int).contains(Some("main"@)),
        decreases items.len() - k,
    {
        let ghost t = items.deep_view().take(k as int);
        assert(items.deep_view().take(k + 1) =~= t.push(items.deep_view()[k as int]));
        match &items[k] {
            Some(n) => {
                if str_eq(n.as_str(), "main") {
                    has_main = true;
                }
            },
            None => {},
        }
        proof {
            let t1 = items.deep_view().take(k + 1);
            if has_main && !t.contains(Some("main"@)) {
                assert(t1[k as int] == Some("main"@));
            }
            if t1.contains(Some("main"@)) && !t.contains(Some("main"@)) {
                let j = choose|j: int| 0 <= j < t1.len() && t1[j] == Some("main"@);
                if j < k {
                    assert(t[j] == t1[j]);
                }
            }
        }
        k += 1;
    }
    assert(items.deep_view().take(k as int) =~= items.deep_view());
    let ls = lines(c);
    let mut insert_line: Option<usize> = None;
    if has_main {
        let mut in_main = false;
        let mut depth: i64 = 0;
        let mut i: usize = 0;
        proof {
            lemma_lines_total(c@);
        }
        while i < ls.len()
            invariant
                ls.deep_view() == lines_spec(c@),
                total_len(lines_spec(c@)) <= c@.len(),
                c@.len() <= 0x1000_0000_0000_0000,
                i <= ls@.len(),
                insert_line matches Some(x) ==> x < ls@.len(),
                scan_lines(lines_spec(c@), i as int) == (match insert_line { Some(x) => Some(x as int), None => None }, in_main, depth as int),
            decreases ls.len() - i,
        {
            proof {
                lemma_scan_bound(lines_spec(c@), i as int);
                lemma_take_total(lines_spec(c@), i as int);
                lemma_take_total(lines_spec(c@), i + 1);
                assert(lines_spec(c@).take(i + 1).drop_last() =~= lines_spec(c@).take(i as int));
            }
            let line = ls[i].as_str();
            if contains_str(line, "fn main") {
                in_main = true;
                depth = 0;
            }
            if in_main {
                let (d2, closed) = scan_chars_exec(line, depth);
                depth = d2;
                if closed {
                    insert_line = Some(i);
                    in_main = false;
                }
            }
            i += 1;
        }
    }
    match insert_line {
        Some(at) => {
            let mut new_lines: Vec<String> = ls;
            let ghost before = new_lines.deep_view();
            let ins = cat("    ", call.as_str());
            let ghost iv = ins@;
            new_lines.insert(at, ins);
            assert(new_lines.deep_view() =~= before.insert(at as int, iv));
            let joined = join_strs(&new_lines, "\n");
            Ok(BuildRsChange::Write(cat(joined.as_str(), "\n")))
        },
        None => {
            let a = cat3("Could not find fn main() in build.rs. Please add `", call.as_str(), "` manually.");
            Err(a)
        },
    }
}

proof fn lemma_take_total(ls: Seq<Seq<char>>, n: int)
    requires
        0 <= n <= ls.len(),
    ensures
        0 <= total_len(ls.take(n)) <= total_len(ls),
    decreases ls.len() - n,
{
    lemma_total_nonneg(ls.take(n));
    if n < ls.len() {
        lemma_take_total(ls, n + 1);
        assert(ls.take(n + 1).drop_last() =~= ls.take(n));
    } else {
        assert(ls.take(n) =~= ls);
    }
}


proof fn lemma_scan_index(ls: Seq<Seq<char>>, n: int)
    requires
        0 <= n <= ls.len(),
    ensures
        scan_lines(ls, n).0 matches Some(at) ==> 0 <= at < n,
    decreases n,
{
    if n > 0 {
        lemma_scan_index(ls, n - 1);
    }
}

/// A text holding `mid` at `a`, where `mid` holds `needle` at `b`, holds
/// `needle` at `a + b`.
proof fn lemma_contains_within(s: Seq<char>, mid: Seq<char>, needle: Seq<char>, a: int, b: int)
    requires
        0 <= a <= s.len() - mid.len(),
        s.subrange(a, a + mid.len()) == mid,
        0 <= b <= mid.len() - needle.len(),
        mid.subrange(b, b + needle.len()) == needle,
    ensures
        seq_contains_str(s, needle),
{
    assert(s.subrange(a + b, a + b + needle.len()) =~= needle) by {
        assert forall|i: int| 0 <= i < needle.len() implies s.subrange(a + b, a + b + needle.len())[i] == needle[i] by {
            assert(needle[i] == mid.subrange(b, b + needle.len())[i]);
            assert(mid[b + i] == s.subrange(a, a + mid.len())[b + i]);
        }
    }
}

/// Each joined line stands in the joined text.
proof fn lemma_join_holds(list: Seq<Seq<char>>, sep: Seq<char>, j: int)
    requires
        0 <= j < list.len(),
    ensures
        exists|a: int| 0 <= a <= seq_join(list, sep).len() - list[j].len()
            && #[trigger] seq_join(list, sep).subrange(a, a + list[j].len()) == list[j],
    decreases list.len(),
{
    let t = seq_join(list, sep);
    let l = list[j].len() as int;
    if list.len() == 1 {
        assert(t.subrange(0, 0 + l) =~= list[j]);
    } else if j == list.len() - 1 {
        let q = seq_join(list.drop_last(), sep);
        assert(t == q + sep + list.last());
        let p = (q.len() + sep.len()) as int;
        assert(t.subrange(p, p + l) =~= list[j]);
    } else {
        lemma_join_holds(list.drop_last(), sep, j);
        let q = seq_join(list.drop_last(), sep);
        assert(t == q + sep + list.last());
        assert(list.drop_last()[j] == list[j]);
        let a = choose|a: int| 0 <= a <= q.len() - list.drop_last()[j].len()
            && #[trigger] q.subrange(a, a + list.drop_last()[j].len()) == list.drop_last()[j];
        assert(t.subrange(a, a + l) =~= q.subrange(a, a + l));
        assert(t.subrange(a, a + l) == list[j]);
    }
}

/// Registering the call twice writes once: a build script `update_build_rs`
/// has written already makes the call, so a second run leaves it unchanged.
pub proof fn law_build_rs_idempotent(content: Option<Seq<char>>, crate_name: Seq<char>, out: Seq<char>)
    requires
        build_rs_spec(content, crate_name) == Ok::<Option<Seq<char>>, Seq<char>>(Some(out)),
    ensures
        build_rs_spec(Some(out), crate_name) == Ok::<Option<Seq<char>>, Seq<char>>(None),
{
    let call = validate_call(crate_name);
    match content {
        None => {
            let pre = "fn main() {\n    "@;
            assert(out.subrange(pre.len() as int, (pre.len() + call.len()) as int) =~= call);
        },
        Some(c) => {
            let ls = lines_spec(c);
            let at = scan_lines(ls, ls.len() as int).0->Some_0;
            lemma_scan_index(ls, ls.len() as int);
            reveal_strlit("    ");
            let line = "    "@ + call;
            let list = ls.insert(at, line);
            assert(list[at] == line);
            lemma_join_holds(list, "\n"@, at);
            let joined = seq_join(list, "\n"@);
            let a = choose|a: int| 0 <= a <= joined.len() - list[at].len()
                && #[trigger] joined.subrange(a, a + list[at].len()) == list[at];
            assert(out.subrange(a, a + line.len()) =~= joined.subrange(a, a + line.len()));
            assert(line.subrange(4, 4 + call.len() as int) =~= call);
            lemma_contains_within(out, line, call, a, 4);
        },
    }
}


/// A crate name as an identifier keeps its length, turns each `-` into `_`,
/// and keeps every other character: no `-` is left.
pub proof fn law_crate_ident(name: Seq<char>)
    ensures
        crate_ident(name).len() == name.len(),
        forall|i: int| 0 <= i < name.len() ==> (#[trigger] crate_ident(name)[i]) == (if name[i] == '-' { '_' } else { name[i] }),
        forall|i: int| 0 <= i < name.len() ==> (#[trigger] crate_ident(name)[i]) != '-',
{
}

/// Whatever `update_build_rs` writes makes the call through the crate's
/// name as a Rust identifier (`cli-battery-pack` is called as
/// `cli_battery_pack::validate();`); a fresh script is a `main` holding
/// just that call.
pub proof fn law_build_rs_calls_ident(content: Option<Seq<char>>, crate_name: Seq<char>, out: Seq<char>)
    requires
        build_rs_spec(content, crate_name) == Ok::<Option<Seq<char>>, Seq<char>>(Some(out)),
    ensures
        seq_contains_str(out, crate_ident(crate_name) + "::validate();"@),
        content is None ==> out == "fn main() {\n    "@ + crate_ident(crate_name) + "::validate();"@ + "\n}\n"@,
{
    law_build_rs_idempotent(content, crate_name, out);
    assert(seq_contains_str(out, validate_call(crate_name)));
}

} // verus!
