//! Summaries and details of battery packs, as shown by `list` and `show`.
use vstd::prelude::*;
use crate::common::{DeepClone};
use crate::manifest::{BatteryPackSpec, CrateSpec, TemplateSpec, hidden_by, opt_view};
use crate::naming::{first_ending_with, find_template_path, opt_str_view, short_name, short_name_spec, suffix};
use crate::strmap::StrMap;
use crate::text::{contains_str, ends_with, seq_contains_str, seq_ends_with, seq_starts_with, starts_with, strip_prefix,
    str_chars};
use crate::lines::{lines, lines_spec, trim, trim_spec};
use crate::text::{cat, cat3};
use crate::sorting::{sort_by_key, lemma_insert_at};

verus! {

/// Summary info for displaying in a list.
#[derive(Debug, Clone)]
pub struct BatteryPackSummary {
    pub name: String,
    pub short_name: String,
    pub version: String,
    pub description: String,
}

/// A crate owner on crates.io.
#[derive(Debug, Clone)]
pub struct OwnerInfo {
    pub login: String,
    pub name: Option<String>,
}

/// A template of a pack, with its path in the repository when known.
#[derive(Debug, Clone)]
pub struct TemplateInfo {
    pub name: String,
    pub path: String,
    pub description: Option<String>,
    /// Full path in the repository, found in the repository's file tree.
    pub repo_path: Option<String>,
}

/// An example of a pack, with its path in the repository when known.
#[derive(Debug, Clone)]
pub struct ExampleInfo {
    pub name: String,
    pub description: Option<String>,
    pub repo_path: Option<String>,
}

/// Detailed battery pack info.
#[derive(Debug)]
pub struct BatteryPackDetail {
    pub name: String,
    pub short_name: String,
    pub version: String,
    pub description: String,
    pub repository: Option<String>,
    pub owners: Vec<OwnerInfo>,
    /// Visible crates that are not battery packs, in name order.
    pub crates: Vec<String>,
    /// Short names of visible crates that are battery packs, in name order.
    pub extends: Vec<String>,
    /// Features with their visible crates; features left empty are dropped.
    pub features: StrMap<Vec<String>>,
    pub templates: Vec<TemplateInfo>,
    pub examples: Vec<ExampleInfo>,
}

/// The visible crates of a pack, in name order.
pub open spec fn visible_keys(spec: &BatteryPackSpec) -> Seq<Seq<char>> {
    spec.crates.keys().filter(|k: Seq<char>| !hidden_by(spec.hidden.deep_view(), k))
}

/// A feature's crate list without hidden crates.
pub open spec fn visible_members(hidden: Seq<Seq<char>>, members: Seq<Seq<char>>) -> Seq<Seq<char>> {
    members.filter(|c: Seq<char>| !hidden_by(hidden, c))
}

/// Names of the first `n` crates sorted into extends (packs) and plain crates.
pub open spec fn partition_names(keys: Seq<Seq<char>>, hidden: Seq<Seq<char>>, n: int) -> (Seq<Seq<char>>, Seq<Seq<char>>)
    decreases n,
{
    if n <= 0 {
        (Seq::empty(), Seq::empty())
    } else {
        let (e, c) = partition_names(keys, hidden, n - 1);
        let k = keys[n - 1];
        if hidden_by(hidden, k) {
            (e, c)
        } else if seq_ends_with(k, suffix()) {
            (e.push(short_name_spec(k)), c)
        } else {
            (e, c.push(k))
        }
    }
}

impl BatteryPackSpec {
    /// A feature's members without the hidden crates.
    pub fn visible_feature_members(&self, members: &Vec<String>) -> (r: Vec<String>)
        ensures
            r.deep_view() == visible_members(self.hidden.deep_view(), members.deep_view()),
    {
        let ghost pred = |c: Seq<char>| !hidden_by(self.hidden.deep_view(), c);
        let mut r: Vec<String> = Vec::new();
        let mut i: usize = 0;
        while i < members.len()
            invariant
                pred == (|c: Seq<char>| !hidden_by(self.hidden.deep_view(), c)),
                i <= members@.len(),
                r.deep_view() == members.deep_view().take(i as int).filter(pred),
            decreases members.len() - i,
        {
            proof {
                let t = members.deep_view().take(i + 1);
                assert(t.drop_last() =~= members.deep_view().take(i as int));
                assert(t.last() == members@[i as int]@);
                reveal_with_fuel(Seq::<Seq<char>>::filter, 1);
            }
            if !self.is_hidden(members[i].as_str()) {
                let ghost before = r.deep_view();
                r.push(members[i].clone());
                proof {
                    assert(r.deep_view() =~= before.push(members@[i as int]@));
                }
            }
            i += 1;
        }
        proof {
            assert(members.deep_view().take(i as int) =~= members.deep_view());
        }
        r
    }
}

/// Build the detail view of a pack from its spec, its owners, the
/// repository's file tree (when fetched) and its scanned examples.
pub fn build_battery_pack_detail(
    spec: &BatteryPackSpec,
    owners: Vec<OwnerInfo>,
    repo_tree: Option<Vec<String>>,
    examples: Vec<ExampleInfo>,
) -> (d: BatteryPackDetail)
    requires
        spec.wf(),
    ensures
        d.name@ == spec.name@,
        d.short_name@ == short_name_spec(spec.name@),
        d.version@ == spec.version@,
        d.description@ == spec.description@,
        opt_view(d.repository) == opt_view(spec.repository),
        d.owners@ == owners@,
        (d.extends.deep_view(), d.crates.deep_view()) == partition_names(
            spec.crates.keys(),
            spec.hidden.deep_view(),
            spec.crates.keys().len() as int,
        ),
        d.templates@.len() == spec.templates.keys().len(),
        forall|i: int|
            0 <= i < d.templates@.len() ==> {
                let t = #[trigger] d.templates@[i];
                &&& t.name@ == spec.templates.keys()[i]
                &&& t.path@ == spec.templates.vals()[i].path
                &&& opt_view(t.description) == spec.templates.vals()[i].description
                &&& opt_str_view(t.repo_path) == match repo_tree {
                    Some(tree) => first_ending_with(tree.deep_view(), spec.templates.vals()[i].path),
                    None => None,
                }
            },
        d.examples@ == examples@,
        d.features.wf(),
        forall|k: Seq<char>|
            #[trigger] d.features@.contains_key(k) <==> (spec.features@.contains_key(k)
                && visible_members(spec.hidden.deep_view(), spec.features@[k]).len() > 0),
        forall|k: Seq<char>|
            #[trigger] d.features@.contains_key(k) ==> d.features@[k] == visible_members(
                spec.hidden.deep_view(),
                spec.features@[k],
            ),
{
    let mut extends: Vec<String> = Vec::new();
    let mut crates: Vec<String> = Vec::new();
    let mut i: usize = 0;
    while i < spec.crates.entries.len()
        invariant
            spec.wf(),
            i <= spec.crates.entries@.len(),
            (extends.deep_view(), crates.deep_view()) == partition_names(
                spec.crates.keys(),
                spec.hidden.deep_view(),
                i as int,
            ),
        decreases spec.crates.entries.len() - i,
    {
        let name = &spec.crates.entries[i].0;
        let ghost e0 = extends.deep_view();
        let ghost c0 = crates.deep_view();
        if !spec.is_hidden(name.as_str()) {
            if ends_with(name.as_str(), "-battery-pack") {
                let s = short_name(name.as_str());
                extends.push(s);
                assert(extends.deep_view() =~= e0.push(s@));
            } else {
                crates.push(name.clone());
                assert(crates.deep_view() =~= c0.push(name@));
            }
        }
        i += 1;
    }
    let mut templates: Vec<TemplateInfo> = Vec::new();
    let mut j: usize = 0;
    while j < spec.templates.entries.len()
        invariant
            spec.wf(),
            j <= spec.templates.entries@.len(),
            templates@.len() == j,
            forall|a: int|
                0 <= a < j ==> {
                    let t = #[trigger] templates@[a];
                    &&& t.name@ == spec.templates.keys()[a]
                    &&& t.path@ == spec.templates.vals()[a].path
                    &&& opt_view(t.description) == spec.templates.vals()[a].description
                    &&& opt_str_view(t.repo_path) == match repo_tree {
                        Some(tree) => first_ending_with(tree.deep_view(), spec.templates.vals()[a].path),
                        None => None,
                    }
                },
        decreases spec.templates.entries.len() - j,
    {
        let tname = &spec.templates.entries[j].0;
        let tmpl = &spec.templates.entries[j].1;
        let repo_path = match &repo_tree {
            Some(tree) => find_template_path(tree, tmpl.path.as_str()),
            None => None,
        };
        templates.push(TemplateInfo {
            name: tname.clone(),
            path: tmpl.path.clone(),
            description: tmpl.description.deep_clone(),
            repo_path,
        });
        j += 1;
    }
    let mut features: StrMap<Vec<String>> = StrMap::new();
    let mut f: usize = 0;
    while f < spec.features.entries.len()
        invariant
            spec.wf(),
            features.wf(),
            f <= spec.features.entries@.len(),
            forall|k: Seq<char>|
                #[trigger] features@.contains_key(k) <==> (spec.features.keys().take(f as int).contains(k)
                    && visible_members(spec.hidden.deep_view(), spec.features@[k]).len() > 0),
            forall|k: Seq<char>|
                #[trigger] features@.contains_key(k) ==> features@[k] == visible_members(
                    spec.hidden.deep_view(),
                    spec.features@[k],
                ),
        decreases spec.features.entries.len() - f,
    {
        let fname = &spec.features.entries[f].0;
        let members = &spec.features.entries[f].1;
        proof {
            spec.features.lemma_index(f as int);
        }
        let vis = spec.visible_feature_members(members);
        let ghost before = features@;
        if vis.len() > 0 {
            features.insert(fname.clone(), vis);
        }
        proof {
            let t1 = spec.features.keys().take(f + 1);
            let t0 = spec.features.keys().take(f as int);
            assert(t1 =~= t0.push(fname@));
            assert forall|k: Seq<char>| t1.contains(k) == (t0.contains(k) || k == fname@) by {
                if t1.contains(k) {
                    let w = choose|w: int| 0 <= w < t1.len() && t1[w] == k;
                    if w < f {
                        assert(t0[w] == k);
                    }
                }
                if t0.contains(k) {
                    let w = choose|w: int| 0 <= w < t0.len() && t0[w] == k;
                    assert(t1[w] == k);
                }
                if k == fname@ {
                    assert(t1[f as int] == k);
                }
            }
        }
        f += 1;
    }
    proof {
        assert(spec.features.keys().take(f as int) =~= spec.features.keys());
        assert forall|k: Seq<char>| spec.features.keys().contains(k) == spec.features@.contains_key(k) by {}
    }
    BatteryPackDetail {
        short_name: short_name(spec.name.as_str()),
        name: spec.name.clone(),
        version: spec.version.clone(),
        description: spec.description.clone(),
        repository: spec.repository.deep_clone(),
        owners,
        crates,
        extends,
        features,
        templates,
        examples,
    }
}

/// The content of an optional string slice.
pub open spec fn opt_ref_view(o: Option<&str>) -> Option<Seq<char>> {
    match o {
        Some(q) => Some(q@),
        None => None,
    }
}

/// The summaries a local workspace lists: packages named `*-battery-pack`
/// whose short name contains the filter (when given).
pub open spec fn listed(name: Seq<char>, filter: Option<Seq<char>>) -> bool {
    seq_ends_with(name, suffix()) && match filter {
        Some(q) => seq_contains_str(short_name_spec(name), q),
        None => true,
    }
}

/// The summary of a package `(name, version, description)`.
pub open spec fn summary_of(p: (Seq<char>, Seq<char>, Seq<char>)) -> (Seq<char>, Seq<char>, Seq<char>, Seq<char>) {
    (p.0, short_name_spec(p.0), p.1, p.2)
}

/// The summaries of the first `n` packages that are listed, by name.
pub open spec fn local_summaries(
    packages: Seq<(Seq<char>, Seq<char>, Seq<char>)>,
    filter: Option<Seq<char>>,
    n: nat,
) -> Map<Seq<char>, (Seq<char>, Seq<char>, Seq<char>, Seq<char>)>
    decreases n,
{
    if n == 0 || n > packages.len() {
        Map::empty()
    } else {
        let m = local_summaries(packages, filter, (n - 1) as nat);
        let p = packages[n - 1];
        if listed(p.0, filter) {
            m.insert(p.0, summary_of(p))
        } else {
            m
        }
    }
}

/// The content of a list of (name, version, description) triples.
pub open spec fn triples_view(v: Seq<(String, String, String)>) -> Seq<(Seq<char>, Seq<char>, Seq<char>)> {
    v.map_values(|p: (String, String, String)| (p.0@, p.1@, p.2@))
}

/// Summaries of a workspace's battery packs: `(name, version, description)`
/// per package, kept when listed, in name order.
pub fn summarize_local_packages(
    packages: &Vec<(String, String, String)>,
    filter: Option<&str>,
) -> (r: StrMap<BatteryPackSummary>)
    ensures
        r.wf(),
        r@ == local_summaries(triples_view(packages@), opt_ref_view(filter), packages@.len()),
{
    let ghost pv = triples_view(packages@);
    let mut r: StrMap<BatteryPackSummary> = StrMap::new();
    let mut i: usize = 0;
    while i < packages.len()
        invariant
            r.wf(),
            pv == triples_view(packages@),
            i <= packages@.len(),
            r@ == local_summaries(pv, opt_ref_view(filter), i as nat),
        decreases packages.len() - i,
    {
        let name = &packages[i].0;
        proof {
            assert(pv[i as int] == (name@, packages@[i as int].1@, packages@[i as int].2@));
        }
        let keep = if ends_with(name.as_str(), "-battery-pack") {
            match filter {
                Some(q) => {
                    let s = short_name(name.as_str());
                    contains_str(s.as_str(), q)
                },
                None => true,
            }
        } else {
            false
        };
        let ghost fv = opt_ref_view(filter);
        assert(keep == listed(name@, fv));
        if keep {
            let summary = BatteryPackSummary {
                short_name: short_name(name.as_str()),
                name: name.clone(),
                version: packages[i].1.clone(),
                description: packages[i].2.clone(),
            };
            r.insert(name.clone(), summary);
        }
        i += 1;
    }
    r
}

impl DeepView for BatteryPackSummary {
    type V = (Seq<char>, Seq<char>, Seq<char>, Seq<char>);

    open spec fn deep_view(&self) -> (Seq<char>, Seq<char>, Seq<char>, Seq<char>) {
        (self.name@, self.short_name@, self.version@, self.description@)
    }
}


impl DeepView for ExampleInfo {
    type V = (Seq<char>, (Option<Seq<char>>, Option<Seq<char>>));

    open spec fn deep_view(&self) -> (Seq<char>, (Option<Seq<char>>, Option<Seq<char>>)) {
        (self.name@, (opt_view(self.description), opt_view(self.repo_path)))
    }
}

/// The description of an example from its leading `//!` comment lines: the
/// text of the first one that has some; reading stops at the first line that
/// is neither blank nor a comment.
pub open spec fn example_desc_from(ls: Seq<Seq<char>>) -> Option<Seq<char>>
    decreases ls.len(),
{
    if ls.len() == 0 {
        None
    } else {
        let t = trim_spec(ls[0]);
        if seq_starts_with(t, "//!"@) {
            let d = trim_spec(t.subrange("//!"@.len() as int, t.len() as int));
            if d.len() > 0 {
                Some(d)
            } else {
                example_desc_from(ls.drop_first())
            }
        } else if t.len() > 0 && !seq_starts_with(t, "//"@) {
            None
        } else {
            example_desc_from(ls.drop_first())
        }
    }
}

/// The description an example's source gives itself.
pub fn example_description(content: &str) -> (r: Option<String>)
    ensures
        opt_view(r) == example_desc_from(lines_spec(content@)),
{
    let ls = lines(content);
    let ghost lv = ls.deep_view();
    let mut i: usize = 0;
    assert(lv.skip(0) =~= lv);
    while i < ls.len()
        invariant
            lv == ls.deep_view(),
            lv == lines_spec(content@),
            i <= ls.len(),
            example_desc_from(lv) == example_desc_from(lv.skip(i as int)),
        decreases ls.len() - i,
    {
        proof {
            assert(lv.skip(i as int).drop_first() =~= lv.skip(i + 1));
            assert(lv.skip(i as int)[0] == lv[i as int]);
        }
        let t = trim(ls[i].as_str());
        match strip_prefix(t.as_str(), "//!") {
            Some(rest) => {
                let d = trim(rest.as_str());
                if str_chars(d.as_str()).len() > 0 {
                    return Some(d);
                }
            },
            None => {
                if str_chars(t.as_str()).len() > 0 && !starts_with(t.as_str(), "//") {
                    return None;
                }
            },
        }
        i += 1;
    }
    proof {
        assert(lv.skip(i as int).len() == 0);
    }
    None
}

/// What a file of the `examples` directory contributes: for a `.rs` file
/// with a name before the extension, the example of that name, its
/// description when the file could be read, and its repository path when
/// the repository's file tree is known.
pub open spec fn example_entry(
    file_name: Seq<char>,
    content: Option<Seq<char>>,
    tree: Option<Seq<Seq<char>>>,
) -> Option<(Seq<char>, (Option<Seq<char>>, Option<Seq<char>>))> {
    if seq_ends_with(file_name, ".rs"@) && file_name.len() > ".rs"@.len() {
        let stem = file_name.subrange(0, file_name.len() - ".rs"@.len());
        Some((
            stem,
            (
                match content {
                    Some(c) => example_desc_from(lines_spec(c)),
                    None => None,
                },
                match tree {
                    Some(t) => first_ending_with(t, "examples/"@ + stem + ".rs"@),
                    None => None,
                },
            ),
        ))
    } else {
        None
    }
}

/// The examples of the first `n` files, in file order.
pub open spec fn example_entries(
    files: Seq<(Seq<char>, Option<Seq<char>>)>,
    tree: Option<Seq<Seq<char>>>,
    n: nat,
) -> Seq<(Seq<char>, (Option<Seq<char>>, Option<Seq<char>>))>
    decreases n,
{
    if n == 0 || n > files.len() {
        Seq::empty()
    } else {
        let r = example_entries(files, tree, (n - 1) as nat);
        match example_entry(files[n - 1].0, files[n - 1].1, tree) {
            Some(e) => r.push(e),
            None => r,
        }
    }
}

/// The content of the listed example files: name and text, when read.
pub open spec fn files_view(files: Seq<(String, Option<String>)>) -> Seq<(Seq<char>, Option<Seq<char>>)> {
    files.map_values(|f: (String, Option<String>)| (f.0@, opt_view(f.1)))
}

/// The examples of a pack from the files of its `examples` directory (name,
/// and text when it could be read), ordered by name.
pub fn collect_examples(files: &Vec<(String, Option<String>)>, tree: Option<&Vec<String>>) -> (r: Vec<ExampleInfo>)
    ensures
        r.deep_view() == sort_by_key(example_entries(
            files_view(files@),
            match tree {
                Some(t) => Some(t.deep_view()),
                None => None,
            },
            files@.len(),
        )),
{
    let ghost fv = files_view(files@);
    let ghost tv = match tree {
        Some(t) => Some(t.deep_view()),
        None => None::<Seq<Seq<char>>>,
    };
    let mut found: Vec<ExampleInfo> = Vec::new();
    let mut i: usize = 0;
    while i < files.len()
        invariant
            fv == files_view(files@),
            tv == match tree {
                Some(t) => Some(t.deep_view()),
                None => None::<Seq<Seq<char>>>,
            },
            i <= files.len(),
            found.deep_view() == example_entries(fv, tv, i as nat),
        decreases files.len() - i,
    {
        let name = &files[i].0;
        proof {
            reveal_strlit(".rs");
            assert(fv[i as int] == (name@, opt_view(files@[i as int].1)));
        }
        if ends_with(name.as_str(), ".rs") && str_chars(name.as_str()).len() > 3 {
            let n = str_chars(name.as_str()).len();
            let stem = crate::text::sub_chars(name.as_str(), 0, n - 3);
            let description = match &files[i].1 {
                Some(c) => example_description(c.as_str()),
                None => None,
            };
            let repo_path = match tree {
                Some(t) => crate::naming::find_example_path(t, stem.as_str()),
                None => None,
            };
            let e = ExampleInfo { name: stem, description, repo_path };
            let ghost before = found.deep_view();
            found.push(e);
            proof {
                assert(found.deep_view() =~= before.push(e.deep_view()));
            }
        }
        i += 1;
    }
    let mut out: Vec<ExampleInfo> = Vec::new();
    let ghost es = found.deep_view();
    let mut j: usize = 0;
    while j < found.len()
        invariant
            es == found.deep_view(),
            j <= found.len(),
            out.deep_view() == sort_by_key(es.take(j as int)),
        decreases found.len() - j,
    {
        proof {
            let t = es.take(j + 1);
            assert(t.drop_last() =~= es.take(j as int));
            assert(t.last() == es[j as int]);
        }
        let x = ExampleInfo {
            name: found[j].name.clone(),
            description: found[j].description.deep_clone(),
            repo_path: found[j].repo_path.deep_clone(),
        };
        let ghost xv = x.deep_view();
        let ghost sorted = out.deep_view();
        let mut pos: usize = out.len();
        while pos > 0 && crate::text::str_lt(x.name.as_str(), out[pos - 1].name.as_str())
            invariant
                pos <= out.len(),
                sorted == out.deep_view(),
                xv == x.deep_view(),
                forall|k: int| pos <= k < sorted.len() ==> crate::text::seq_lt(xv.0, #[trigger] sorted[k].0),
            decreases pos,
        {
            pos -= 1;
        }
        proof {
            lemma_insert_at(sorted, xv, pos as int);
        }
        out.insert(pos, x);
        proof {
            assert(out.deep_view() =~= sorted.insert(pos as int, xv));
        }
        j += 1;
    }
    proof {
        assert(es.take(j as int) =~= es);
    }
    out
}


/// A byte `urlencoding::encode` leaves as it is: an ASCII letter or digit,
/// `-`, `.`, `_` or `~`.
pub open spec fn url_safe_byte(b: u8) -> bool {
    (0x30 <= b <= 0x39) || (0x41 <= b <= 0x5A) || (0x61 <= b <= 0x7A) || b == 0x2D || b == 0x2E || b == 0x5F || b == 0x7E
}

/// An upper-case hexadecimal digit.
pub open spec fn hex_digit(d: u8) -> char {
    if d < 10 { (0x30 + d) as char } else { (0x41 + d - 10) as char }
}

/// Percent-encoded bytes: each safe byte as its character, every other as
/// `%` and two upper-case hexadecimal digits.
pub open spec fn percent_encoded(bs: Seq<u8>) -> Seq<char>
    decreases bs.len(),
{
    if bs.len() == 0 {
        Seq::empty()
    } else {
        let b = bs.last();
        percent_encoded(bs.drop_last()) + if url_safe_byte(b) {
            seq![b as char]
        } else {
            seq!['%', hex_digit(b / 16), hex_digit(b % 16)]
        }
    }
}

/// The percent-encoding `urlencoding::encode` gives a text: that of its
/// UTF-8 bytes.
pub open spec fn url_encoded(s: Seq<char>) -> Seq<char> {
    percent_encoded(vstd::utf8::encode_utf8(s))
}

/// A character `urlencoding::encode` leaves as it is: an ASCII letter or
/// digit, `-`, `.`, `_` or `~`.
pub open spec fn url_safe(c: char) -> bool {
    ('0' <= c && c <= '9') || ('A' <= c && c <= 'Z') || ('a' <= c && c <= 'z') || c == '-' || c == '.' || c == '_' || c == '~'
}

/// Calls `urlencoding::encode`: every byte of the UTF-8 text except ASCII
/// letters, digits and `-._~` becomes `%XX` (upper-case hexadecimal), in
/// order; a text of only such characters comes back unchanged.
#[verifier::external_body]
fn url_encode(s: &str) -> (r: String)
    ensures
        r@ == url_encoded(s@),
        (forall|i: int| 0 <= i < s@.len() ==> url_safe(#[trigger] s@[i])) ==> r@ == s@,
{
    urlencoding::encode(s).into_owned()
}

/// The crates.io API endpoint for crates.
pub open spec fn crates_io_api() -> Seq<char> {
    "https://crates.io/api/v1/crates"@
}

/// The crates.io search for battery packs: by keyword, 50 per page, and by
/// the encoded query when there is one.
pub open spec fn search_url_spec(filter: Option<Seq<char>>) -> Seq<char> {
    match filter {
        Some(q) => crates_io_api() + "?q="@ + url_encoded(q) + "&keyword=battery-pack&per_page=50"@,
        None => crates_io_api() + "?keyword=battery-pack&per_page=50"@,
    }
}

/// The URL that lists battery packs on crates.io.
pub fn search_url(filter: Option<&str>) -> (r: String)
    ensures
        r@ == search_url_spec(opt_ref_view(filter)),
{
    match filter {
        Some(q) => {
            let enc = url_encode(q);
            let a = cat3("https://crates.io/api/v1/crates", "?q=", enc.as_str());
            cat(a.as_str(), "&keyword=battery-pack&per_page=50")
        },
        None => cat("https://crates.io/api/v1/crates", "?keyword=battery-pack&per_page=50"),
    }
}

/// The crates.io API URL of a crate.
pub fn crate_info_url(crate_name: &str) -> (r: String)
    ensures
        r@ == crates_io_api() + "/"@ + crate_name@,
{
    cat3("https://crates.io/api/v1/crates", "/", crate_name)
}

/// The crates.io API URL of a crate's owners.
pub fn owners_url(crate_name: &str) -> (r: String)
    ensures
        r@ == crates_io_api() + "/"@ + crate_name@ + "/owners"@,
{
    let a = cat3("https://crates.io/api/v1/crates", "/", crate_name);
    cat(a.as_str(), "/owners")
}

/// Where crates.io serves a crate's archive:
/// `https://static.crates.io/crates/{name}/{name}-{version}.crate`.
pub fn download_url(crate_name: &str, version: &str) -> (r: String)
    ensures
        r@ == "https://static.crates.io/crates"@ + "/"@ + crate_name@ + "/"@ + crate_name@ + "-"@ + version@ + ".crate"@,
{
    let a = cat3("https://static.crates.io/crates", "/", crate_name);
    let b = cat3(a.as_str(), "/", crate_name);
    let c = cat3(b.as_str(), "-", version);
    cat(c.as_str(), ".crate")
}

/// The first version (in the order crates.io lists them, newest first) that
/// is not yanked.
pub open spec fn first_unyanked(vs: Seq<(Seq<char>, bool)>) -> Option<Seq<char>>
    decreases vs.len(),
{
    if vs.len() == 0 {
        None
    } else if !vs[0].1 {
        Some(vs[0].0)
    } else {
        first_unyanked(vs.drop_first())
    }
}

/// The version chosen is never a yanked one: it is the first listed that
/// is not yanked, every version before it being yanked; there is none
/// exactly when every listed version is yanked.
pub proof fn law_first_unyanked(vs: Seq<(Seq<char>, bool)>)
    ensures
        first_unyanked(vs) is None <==> forall|i: int| 0 <= i < vs.len() ==> (#[trigger] vs[i]).1,
        first_unyanked(vs) matches Some(v) ==> exists|i: int| 0 <= i < vs.len() && (#[trigger] vs[i]) == (v, false)
            && forall|j: int| 0 <= j < i ==> (#[trigger] vs[j]).1,
    decreases vs.len(),
{
    if vs.len() > 0 {
        let rest = vs.drop_first();
        law_first_unyanked(rest);
        if vs[0].1 {
            assert forall|i: int| 0 < i < vs.len() implies vs[i] == rest[i - 1] by {}
            if first_unyanked(vs) is None {
                assert forall|i: int| 0 <= i < vs.len() implies (#[trigger] vs[i]).1 by {
                    if i > 0 {
                        assert(rest[i - 1].1);
                    }
                }
            } else {
                let v = first_unyanked(vs)->Some_0;
                let i = choose|i: int| 0 <= i < rest.len() && (#[trigger] rest[i]) == (v, false)
                    && forall|j: int| 0 <= j < i ==> (#[trigger] rest[j]).1;
                assert(vs[i + 1] == (v, false));
                assert forall|j: int| 0 <= j < i + 1 implies (#[trigger] vs[j]).1 by {
                    if j > 0 {
                        assert(rest[j - 1].1);
                    }
                }
            }
        } else {
            assert(vs[0] == (vs[0].0, false));
            assert(!(forall|i: int| 0 <= i < vs.len() ==> (#[trigger] vs[i]).1)) by {
                assert(!vs[0].1);
            }
        }
    }
}

/// The version of a crate to use: the first one listed that is not yanked.
pub fn latest_version(versions: &Vec<(String, bool)>, crate_name: &str) -> (r: Result<String, String>)
    ensures
        match (r, first_unyanked(versions@.map_values(|v: (String, bool)| (v.0@, v.1)))) {
            (Ok(v), Some(w)) => v@ == w,
            (Err(e), None) => e@ == "No non-yanked versions found for '"@ + crate_name@ + "'"@,
            _ => false,
        },
{
    let ghost vs = versions@.map_values(|v: (String, bool)| (v.0@, v.1));
    let mut i: usize = 0;
    assert(vs.skip(0) =~= vs);
    while i < versions.len()
        invariant
            vs == versions@.map_values(|v: (String, bool)| (v.0@, v.1)),
            i <= versions.len(),
            first_unyanked(vs) == first_unyanked(vs.skip(i as int)),
        decreases versions.len() - i,
    {
        proof {
            assert(vs.skip(i as int).drop_first() =~= vs.skip(i + 1));
            assert(vs.skip(i as int)[0] == vs[i as int]);
        }
        if !versions[i].1 {
            return Ok(versions[i].0.clone());
        }
        i += 1;
    }
    proof {
        assert(vs.skip(i as int).len() == 0);
    }
    Err(cat3("No non-yanked versions found for '", crate_name, "'"))
}

/// The summaries a crates.io search gives: of each crate found
/// `(name, newest version, description)`, those named `*-battery-pack`, in
/// the order found, with an empty description when there is none.
pub open spec fn registry_summaries_spec(
    found: Seq<(Seq<char>, Seq<char>, Option<Seq<char>>)>,
) -> Seq<(Seq<char>, Seq<char>, Seq<char>, Seq<char>)>
    decreases found.len(),
{
    if found.len() == 0 {
        Seq::empty()
    } else {
        let r = registry_summaries_spec(found.drop_last());
        let c = found.last();
        if seq_ends_with(c.0, suffix()) {
            r.push((c.0, short_name_spec(c.0), c.1, match c.2 {
                Some(d) => d,
                None => Seq::empty(),
            }))
        } else {
            r
        }
    }
}

/// Keep the battery packs among crates.io search results.
pub fn registry_summaries(found: &Vec<(String, String, Option<String>)>) -> (r: Vec<BatteryPackSummary>)
    ensures
        r.deep_view() == registry_summaries_spec(found@.map_values(|c: (String, String, Option<String>)| (c.0@, c.1@, opt_view(c.2)))),
{
    let ghost fv = found@.map_values(|c: (String, String, Option<String>)| (c.0@, c.1@, opt_view(c.2)));
    let mut out: Vec<BatteryPackSummary> = Vec::new();
    let mut i: usize = 0;
    while i < found.len()
        invariant
            fv == found@.map_values(|c: (String, String, Option<String>)| (c.0@, c.1@, opt_view(c.2))),
            i <= found.len(),
            out.deep_view() == registry_summaries_spec(fv.take(i as int)),
        decreases found.len() - i,
    {
        proof {
            let t = fv.take(i + 1);
            assert(t.drop_last() =~= fv.take(i as int));
            assert(t.last() == fv[i as int]);
        }
        let name = &found[i].0;
        if ends_with(name.as_str(), "-battery-pack") {
            let description = match &found[i].2 {
                Some(d) => d.clone(),
                None => String::new(),
            };
            let s = BatteryPackSummary {
                short_name: short_name(name.as_str()),
                name: name.clone(),
                version: found[i].1.clone(),
                description,
            };
            let ghost before = out.deep_view();
            out.push(s);
            proof {
                assert(out.deep_view() =~= before.push(s.deep_view()));
            }
        }
        i += 1;
    }
    proof {
        assert(fv.take(i as int) =~= fv);
    }
    out
}

} // verus!
