//! Choosing how an existing file is merged with a template's version, and
//! summarizing what happened to each file.
use vstd::prelude::*;
use crate::text::{cat, join_strs, seq_ends_with, seq_join, str_chars, string_from_chars, ends_with};
use crate::manifest::{CrateSpec, CrateSpecView, DepKind};
use crate::raw::{dep_entry, parse_single_dep};
use crate::toml_model::{TomlValue, toml_get, table_entries};
use crate::common::DeepClone;

verus! {

/// How to handle a file that already exists in the target project.
#[derive(Debug, Clone, Copy, PartialEq, Eq, Structural)]
pub enum MergeStrategy {
    /// TOML-aware merge.
    Toml,
    /// YAML-aware merge.
    Yaml,
    /// Plain file: skip or overwrite.
    Plain,
}

/// The part of a path after its last `/`.
pub open spec fn file_name_of(path: Seq<char>) -> Seq<char>
    decreases path.len(),
{
    if path.len() == 0 {
        path
    } else if path.last() == '/' {
        Seq::empty()
    } else {
        file_name_of(path.drop_last()).push(path.last())
    }
}

/// The strategy for a path, by its file name's ending.
pub open spec fn strategy_spec(path: Seq<char>) -> MergeStrategy {
    let f = file_name_of(path);
    if seq_ends_with(f, ".toml"@) {
        MergeStrategy::Toml
    } else if seq_ends_with(f, ".yml"@) || seq_ends_with(f, ".yaml"@) {
        MergeStrategy::Yaml
    } else {
        MergeStrategy::Plain
    }
}

/// The last `/`-separated segment of a path.
pub fn file_name(path: &str) -> (r: String)
    ensures
        r@ == file_name_of(path@),
{
    let cs = str_chars(path);
    let mut out: Vec<char> = Vec::new();
    let mut i: usize = 0;
    while i < cs.len()
        invariant
            cs@ == path@,
            i <= cs@.len(),
            out@ == file_name_of(path@.take(i as int)),
        decreases cs.len() - i,
    {
        proof {
            assert(path@.take(i + 1).drop_last() =~= path@.take(i as int));
        }
        if cs[i] == '/' {
            out = Vec::new();
            assert(out@ =~= Seq::<char>::empty());
        } else {
            out.push(cs[i]);
        }
        i += 1;
    }
    proof {
        assert(path@.take(i as int) =~= path@);
    }
    string_from_chars(out.as_slice())
}

/// Determine the merge strategy for a file based on its path.
pub fn strategy_for(path: &str) -> (s: MergeStrategy)
    ensures
        s == strategy_spec(path@),
{
    let f = file_name(path);
    if ends_with(f.as_str(), ".toml") {
        MergeStrategy::Toml
    } else if ends_with(f.as_str(), ".yml") || ends_with(f.as_str(), ".yaml") {
        MergeStrategy::Yaml
    } else {
        MergeStrategy::Plain
    }
}

/// What happened to a single rendered file.
#[derive(Debug)]
pub enum FileResult {
    /// File was written (new file, no conflict).
    Created(String),
    /// File was merged (structured merge).
    Merged(String),
    /// File was skipped.
    Skipped(String),
    /// File was overwritten.
    Overwritten(String),
    /// Merge produced identical content.
    Unchanged(String),
}

/// The kind of outcome, without the path.
pub open spec fn outcome_code(r: FileResult) -> int {
    match r {
        FileResult::Created(_) => 0,
        FileResult::Merged(_) => 1,
        FileResult::Skipped(_) => 2,
        FileResult::Overwritten(_) => 3,
        FileResult::Unchanged(_) => 4,
    }
}

/// How many results have outcome `code`.
pub open spec fn count_outcome(rs: Seq<FileResult>, code: int) -> nat
    decreases rs.len(),
{
    if rs.len() == 0 {
        0
    } else {
        count_outcome(rs.drop_last(), code) + if outcome_code(rs.last()) == code {
            1nat
        } else {
            0nat
        }
    }
}

/// Decimal digits of a number.
pub open spec fn decimal(n: nat) -> Seq<char>
    decreases n,
{
    if n < 10 {
        seq![digit_char(n)]
    } else {
        decimal(n / 10).push(digit_char(n % 10))
    }
}

/// The character of a digit.
pub open spec fn digit_char(d: nat) -> char {
    if d == 0 { '0' } else if d == 1 { '1' } else if d == 2 { '2' } else if d == 3 { '3' } else if d == 4 { '4' }
    else if d == 5 { '5' } else if d == 6 { '6' } else if d == 7 { '7' } else if d == 8 { '8' } else { '9' }
}

fn digit(d: usize) -> (c: char)
    requires
        d < 10,
    ensures
        c == digit_char(d as nat),
{
    if d == 0 { '0' } else if d == 1 { '1' } else if d == 2 { '2' } else if d == 3 { '3' } else if d == 4 { '4' }
    else if d == 5 { '5' } else if d == 6 { '6' } else if d == 7 { '7' } else if d == 8 { '8' } else { '9' }
}

/// A number in decimal, as `Display` writes it.
pub fn usize_to_string(n: usize) -> (r: String)
    ensures
        r@ == decimal(n as nat),
    decreases n,
{
    if n < 10 {
        let c = digit(n);
        let v: Vec<char> = vec![c];
        assert(v@ =~= seq![c]);
        string_from_chars(v.as_slice())
    } else {
        let head = usize_to_string(n / 10);
        let c = digit(n % 10);
        let v: Vec<char> = vec![c];
        assert(v@ =~= seq![c]);
        let tail = string_from_chars(v.as_slice());
        cat(head.as_str(), tail.as_str())
    }
}

/// `"{n} {word}"` when `n > 0`.
pub open spec fn part_if(n: nat, word: Seq<char>) -> Seq<Seq<char>> {
    if n > 0 {
        seq![decimal(n) + " "@ + word]
    } else {
        seq![]
    }
}

/// The closing summary: non-zero counts of created, merged, skipped and
/// overwritten files, joined with `", "`.
pub open spec fn summary_spec(rs: Seq<FileResult>) -> Seq<char> {
    seq_join(
        part_if(count_outcome(rs, 0), "created"@) + part_if(count_outcome(rs, 1), "merged"@)
            + part_if(count_outcome(rs, 2), "skipped"@) + part_if(count_outcome(rs, 3), "overwritten"@),
        ", "@,
    )
}

impl FileResult {
    /// The file's path.
    pub fn path(&self) -> (p: &String)
        ensures
            p == match self {
                FileResult::Created(x) => x,
                FileResult::Merged(x) => x,
                FileResult::Skipped(x) => x,
                FileResult::Overwritten(x) => x,
                FileResult::Unchanged(x) => x,
            },
    {
        match self {
            FileResult::Created(x) => x,
            FileResult::Merged(x) => x,
            FileResult::Skipped(x) => x,
            FileResult::Overwritten(x) => x,
            FileResult::Unchanged(x) => x,
        }
    }

    /// The verb shown for this outcome.
    pub fn label(&self) -> (s: &'static str)
        ensures
            s@ == match self {
                FileResult::Created(_) => "create"@,
                FileResult::Merged(_) => "merge"@,
                FileResult::Skipped(_) => "skip"@,
                FileResult::Overwritten(_) => "overwrite"@,
                FileResult::Unchanged(_) => "unchanged"@,
            },
    {
        match self {
            FileResult::Created(_) => "create",
            FileResult::Merged(_) => "merge",
            FileResult::Skipped(_) => "skip",
            FileResult::Overwritten(_) => "overwrite",
            FileResult::Unchanged(_) => "unchanged",
        }
    }
}

/// Count the results of each kind: created, merged, skipped, overwritten.
pub fn count_results(results: &Vec<FileResult>) -> (c: (usize, usize, usize, usize))
    ensures
        c.0 == count_outcome(results@, 0),
        c.1 == count_outcome(results@, 1),
        c.2 == count_outcome(results@, 2),
        c.3 == count_outcome(results@, 3),
{
    let mut created: usize = 0;
    let mut merged: usize = 0;
    let mut skipped: usize = 0;
    let mut overwritten: usize = 0;
    let mut i: usize = 0;
    while i < results.len()
        invariant
            i <= results@.len(),
            created == count_outcome(results@.take(i as int), 0),
            merged == count_outcome(results@.take(i as int), 1),
            skipped == count_outcome(results@.take(i as int), 2),
            overwritten == count_outcome(results@.take(i as int), 3),
            created + merged + skipped + overwritten <= i,
        decreases results.len() - i,
    {
        proof {
            assert(results@.take(i + 1).drop_last() =~= results@.take(i as int));
            assert(results@.take(i + 1).last() == results@[i as int]);
        }
        match &results[i] {
            FileResult::Created(_) => created += 1,
            FileResult::Merged(_) => merged += 1,
            FileResult::Skipped(_) => skipped += 1,
            FileResult::Overwritten(_) => overwritten += 1,
            FileResult::Unchanged(_) => {},
        }
        i += 1;
    }
    proof {
        assert(results@.take(i as int) =~= results@);
    }
    (created, merged, skipped, overwritten)
}

/// Append `"{n} {word}"` when `n > 0`.
fn push_part(parts: &mut Vec<String>, n: usize, word: &str)
    ensures
        final(parts).deep_view() == old(parts).deep_view() + part_if(n as nat, word@),
{
    let ghost before = parts.deep_view();
    if n > 0 {
        let num = usize_to_string(n);
        let s = crate::text::cat3(num.as_str(), " ", word);
        parts.push(s);
        assert(parts.deep_view() =~= before + part_if(n as nat, word@));
    } else {
        assert(parts.deep_view() =~= before + part_if(n as nat, word@));
    }
}

/// The closing summary line of a merge.
pub fn summary_line(results: &Vec<FileResult>) -> (s: String)
    ensures
        s@ == summary_spec(results@),
{
    let (created, merged, skipped, overwritten) = count_results(results);
    let mut parts: Vec<String> = Vec::new();
    assert(parts.deep_view() =~= Seq::<Seq<char>>::empty());
    push_part(&mut parts, created, "created");
    push_part(&mut parts, merged, "merged");
    push_part(&mut parts, skipped, "skipped");
    push_part(&mut parts, overwritten, "overwritten");
    proof {
        assert(parts.deep_view() =~= part_if(count_outcome(results@, 0), "created"@) + part_if(count_outcome(results@, 1), "merged"@)
            + part_if(count_outcome(results@, 2), "skipped"@) + part_if(count_outcome(results@, 3), "overwritten"@));
    }
    join_strs(&parts, ", ")
}


/// A decision taken once for all remaining conflicts.
#[derive(Debug, Clone, Copy, PartialEq, Eq, Structural)]
pub enum BatchDecision {
    /// None yet: each conflict is asked about.
    Undecided,
    /// Accept or overwrite every remaining conflict.
    AcceptAll,
    /// Skip every remaining conflict.
    SkipAll,
}

/// What to do with a plain file that already exists.
#[derive(Debug, Clone, Copy, PartialEq, Eq, Structural)]
pub enum PlainAction {
    Overwrite,
    Skip,
    /// Ask the user.
    Prompt,
}

/// A plain file that exists is overwritten when forced or after "overwrite
/// all", skipped when nobody can be asked or after "skip all", else asked about.
pub fn plain_conflict_action(overwrite: bool, interactive: bool, batch: BatchDecision) -> (a: PlainAction)
    ensures
        a == (if overwrite || batch == BatchDecision::AcceptAll {
            PlainAction::Overwrite
        } else if !interactive || batch == BatchDecision::SkipAll {
            PlainAction::Skip
        } else {
            PlainAction::Prompt
        }),
{
    if overwrite || batch == BatchDecision::AcceptAll {
        PlainAction::Overwrite
    } else if !interactive || batch == BatchDecision::SkipAll {
        PlainAction::Skip
    } else {
        PlainAction::Prompt
    }
}

/// The outcome of one answer to a plain-file prompt.
#[derive(Debug, Clone, Copy, PartialEq, Eq, Structural)]
pub enum PlainReply {
    Skip,
    Overwrite,
    /// Show the diff and ask again.
    ShowDiff,
}

/// The entries of the plain-file prompt, in order.
pub open spec fn plain_menu() -> Seq<Seq<char>> {
    seq!["skip"@, "overwrite"@, "view diff"@, "skip all"@, "overwrite all"@]
}

/// Act on the entry chosen at a plain-file prompt (its position in
/// `plain_menu`): "skip all" and "overwrite all" also settle the batch
/// decision for the files that follow.
pub fn plain_choice(choice: usize, batch: &mut BatchDecision) -> (r: PlainReply)
    requires
        choice < 5,
    ensures
        r == (if choice == 0 || choice == 3 {
            PlainReply::Skip
        } else if choice == 1 || choice == 4 {
            PlainReply::Overwrite
        } else {
            PlainReply::ShowDiff
        }),
        *final(batch) == (if choice == 3 {
            BatchDecision::SkipAll
        } else if choice == 4 {
            BatchDecision::AcceptAll
        } else {
            *old(batch)
        }),
{
    if choice == 0 {
        PlainReply::Skip
    } else if choice == 1 {
        PlainReply::Overwrite
    } else if choice == 2 {
        PlainReply::ShowDiff
    } else if choice == 3 {
        *batch = BatchDecision::SkipAll;
        PlainReply::Skip
    } else {
        *batch = BatchDecision::AcceptAll;
        PlainReply::Overwrite
    }
}

/// What to do with a TOML or YAML file once merged.
#[derive(Debug, Clone, Copy, PartialEq, Eq, Structural)]
pub enum StructuredAction {
    /// The merge changes nothing.
    Unchanged,
    /// Write the merged text.
    Apply,
    Skip,
    /// Show the diff and ask the user.
    Prompt,
}

/// A merge that changes nothing leaves the file alone; otherwise it is
/// applied when nobody can be asked or after "accept all" (structured merges
/// only add), skipped after "skip all", else asked about.
pub fn structured_merge_action(existing: &str, merged: &str, interactive: bool, batch: BatchDecision) -> (a: StructuredAction)
    ensures
        a == (if merged@ == existing@ {
            StructuredAction::Unchanged
        } else if !interactive || batch == BatchDecision::AcceptAll {
            StructuredAction::Apply
        } else if batch == BatchDecision::SkipAll {
            StructuredAction::Skip
        } else {
            StructuredAction::Prompt
        }),
{
    if crate::text::str_eq(merged, existing) {
        StructuredAction::Unchanged
    } else if !interactive || batch == BatchDecision::AcceptAll {
        StructuredAction::Apply
    } else if batch == BatchDecision::SkipAll {
        StructuredAction::Skip
    } else {
        StructuredAction::Prompt
    }
}

/// The outcome of one answer to a merge prompt.
#[derive(Debug, Clone, Copy, PartialEq, Eq, Structural)]
pub enum MergeReply {
    Accept,
    Skip,
    /// Edit the merged text and ask again.
    Edit,
}

/// The entries of the merge prompt, in order.
pub open spec fn merge_menu() -> Seq<Seq<char>> {
    seq!["accept"@, "skip"@, "edit"@, "accept all"@, "skip all"@]
}

/// Act on the entry chosen at a merge prompt (its position in `merge_menu`):
/// "accept all" and "skip all" also settle the batch decision.
pub fn merge_choice(choice: usize, batch: &mut BatchDecision) -> (r: MergeReply)
    requires
        choice < 5,
    ensures
        r == (if choice == 0 || choice == 3 {
            MergeReply::Accept
        } else if choice == 1 || choice == 4 {
            MergeReply::Skip
        } else {
            MergeReply::Edit
        }),
        *final(batch) == (if choice == 3 {
            BatchDecision::AcceptAll
        } else if choice == 4 {
            BatchDecision::SkipAll
        } else {
            *old(batch)
        }),
{
    if choice == 0 {
        MergeReply::Accept
    } else if choice == 1 {
        MergeReply::Skip
    } else if choice == 2 {
        MergeReply::Edit
    } else if choice == 3 {
        *batch = BatchDecision::AcceptAll;
        MergeReply::Accept
    } else {
        *batch = BatchDecision::SkipAll;
        MergeReply::Skip
    }
}

/// The dependency kind of a section name: `dev-dependencies` and
/// `build-dependencies` by name, any other section normal.
pub open spec fn kind_of_section(section: Seq<char>) -> DepKind {
    if section == "dev-dependencies"@ {
        DepKind::Dev
    } else if section == "build-dependencies"@ {
        DepKind::Build
    } else {
        DepKind::Normal
    }
}

/// Read a template's dependency entry as the crate spec it recommends.
pub fn parse_dep_as_spec(value: &TomlValue, section: &str) -> (c: CrateSpec)
    ensures
        c.deep_view() == dep_entry(*value, kind_of_section(section@)),
{
    let kind = if crate::text::str_eq(section, "dev-dependencies") {
        DepKind::Dev
    } else if crate::text::str_eq(section, "build-dependencies") {
        DepKind::Build
    } else {
        DepKind::Normal
    };
    parse_single_dep(value, kind)
}


/// The key paths, each below `prefix`, at which merging the template entries
/// `ses` into the table `t` inserts the template's value: a key `t` lacks is
/// inserted whole; a key both hold as tables is merged entry by entry; any
/// other key keeps the existing value. Keys in `skip` are left out. (A table
/// of a parsed document holds each key once.)
pub open spec fn insert_paths(
    t: TomlValue,
    ses: Seq<(String, TomlValue)>,
    prefix: Seq<Seq<char>>,
    skip: Seq<Seq<char>>,
) -> Seq<Seq<Seq<char>>>
    decreases ses,
{
    if ses.len() == 0 {
        Seq::empty()
    } else {
        let last = ses[ses.len() - 1];
        let before = insert_paths(t, ses.subrange(0, ses.len() - 1), prefix, skip);
        if skip.contains(last.0@) {
            before
        } else {
            match toml_get(t, last.0@) {
                None => before.push(prefix.push(last.0@)),
                Some(tv) => match (tv, last.1) {
                    (TomlValue::Table(_), TomlValue::Table(sub)) => before + insert_paths(
                        tv,
                        sub@,
                        prefix.push(last.0@),
                        Seq::empty(),
                    ),
                    _ => before,
                },
            }
        }
    }
}

/// Append the paths `insert_paths` gives to `out`.
fn collect_insert_paths(
    t: &TomlValue,
    ses: &Vec<(String, TomlValue)>,
    prefix: &Vec<String>,
    skip: &Vec<String>,
    out: &mut Vec<Vec<String>>,
)
    ensures
        final(out).deep_view() == old(out).deep_view() + insert_paths(*t, ses@, prefix.deep_view(), skip.deep_view()),
    decreases ses,
{
    let ghost o0 = out.deep_view();
    let mut i: usize = 0;
    proof {
        assert(ses@.subrange(0, 0) =~= Seq::<(String, TomlValue)>::empty());
        assert(o0 + Seq::<Seq<Seq<char>>>::empty() =~= o0);
    }
    while i < ses.len()
        invariant
            i <= ses.len(),
            out.deep_view() == o0 + insert_paths(*t, ses@.subrange(0, i as int), prefix.deep_view(), skip.deep_view()),
        decreases ses.len() - i,
    {
        let ghost pre = ses@.subrange(0, i + 1);
        proof {
            assert(pre.subrange(0, pre.len() - 1) =~= ses@.subrange(0, i as int));
            assert(pre[pre.len() - 1] == ses@[i as int]);
        }
        let key = &ses[i].0;
        let ghost before = out.deep_view();
        if crate::common::vec_contains_str(skip, key.as_str()) {
        } else {
            match crate::toml_model::get(t, key.as_str()) {
                None => {
                    let mut p = prefix.deep_clone();
                    p.push(key.clone());
                    proof {
                        assert(p.deep_view() =~= prefix.deep_view().push(key@));
                    }
                    out.push(p);
                    proof {
                        assert(out.deep_view() =~= before.push(prefix.deep_view().push(key@)));
                    }
                },
                Some(tv) => {
                    match (tv, &ses[i].1) {
                        (TomlValue::Table(_), TomlValue::Table(sub)) => {
                            let mut p = prefix.deep_clone();
                            p.push(key.clone());
                            proof {
                                assert(p.deep_view() =~= prefix.deep_view().push(key@));
                                assert(decreases_to!(*ses => sub)) by {
                                    assert(decreases_to!(*ses => ses@));
                                    assert(decreases_to!(ses@ => ses@[i as int]));
                                    assert(decreases_to!(ses@[i as int] => ses@[i as int].1));
                                    assert(decreases_to!(ses@[i as int].1 => (ses@[i as int].1)->Table_0));
                                }
                            }
                            let none: Vec<String> = Vec::new();
                            proof {
                                assert(none.deep_view() =~= Seq::<Seq<char>>::empty());
                            }
                            collect_insert_paths(tv, sub, &p, &none, out);
                        },
                        _ => {},
                    }
                },
            }
        }
        proof {
            assert(out.deep_view() =~= o0 + insert_paths(*t, pre, prefix.deep_view(), skip.deep_view()));
        }
        i += 1;
    }
    proof {
        assert(ses@.subrange(0, i as int) =~= ses@);
    }
}

/// Where merging a template Cargo.toml into an existing one inserts the
/// template's values: outside the dependency sections (which are synced
/// entry by entry instead), every key path the existing document lacks, with
/// tables both hold merged recursively; nothing the document has is replaced.
pub fn merge_insert_paths(existing: &TomlValue, template: &TomlValue) -> (r: Vec<Vec<String>>)
    ensures
        r.deep_view() == match *template {
            TomlValue::Table(ses) => insert_paths(*existing, ses@, Seq::empty(), crate::toml_model::dep_sections()),
            _ => Seq::<Seq<Seq<char>>>::empty(),
        },
{
    let mut out: Vec<Vec<String>> = Vec::new();
    match template {
        TomlValue::Table(ses) => {
            let prefix: Vec<String> = Vec::new();
            let skip: Vec<String> = vec![
                "dependencies".to_owned(),
                "dev-dependencies".to_owned(),
                "build-dependencies".to_owned(),
            ];
            proof {
                assert(prefix.deep_view() =~= Seq::<Seq<char>>::empty());
                assert(skip.deep_view() =~= crate::toml_model::dep_sections());
                assert(out.deep_view() =~= Seq::<Seq<Seq<char>>>::empty());
            }
            collect_insert_paths(existing, ses, &prefix, &skip, &mut out);
            proof {
                assert(out.deep_view() =~= insert_paths(*existing, ses@, Seq::empty(), crate::toml_model::dep_sections()));
            }
        },
        _ => {
            assert(out.deep_view() =~= Seq::<Seq<Seq<char>>>::empty());
        },
    }
    out
}


/// The dependencies one section of a template declares, as
/// (section, name, recommended spec), in order.
pub open spec fn section_deps(section: Seq<char>, es: Seq<(String, TomlValue)>) -> Seq<(Seq<char>, Seq<char>, CrateSpecView)> {
    es.map_values(|e: (String, TomlValue)| (section, e.0@, dep_entry(e.1, kind_of_section(section))))
}

/// The dependencies a template Cargo.toml declares, section by section
/// (`dependencies`, `dev-dependencies`, `build-dependencies`).
pub open spec fn template_deps_spec(template: TomlValue) -> Seq<(Seq<char>, Seq<char>, CrateSpecView)> {
    section_deps("dependencies"@, table_entries(toml_get(template, "dependencies"@)))
        + section_deps("dev-dependencies"@, table_entries(toml_get(template, "dev-dependencies"@)))
        + section_deps("build-dependencies"@, table_entries(toml_get(template, "build-dependencies"@)))
}

fn push_section_deps(template: &TomlValue, section: &str, out: &mut Vec<(String, String, CrateSpec)>)
    ensures
        final(out).deep_view() == old(out).deep_view() + section_deps(section@, table_entries(toml_get(*template, section@))),
{
    let ghost o0 = out.deep_view();
    match crate::toml_model::get(template, section) {
        Some(TomlValue::Table(es)) => {
            let ghost sd = section_deps(section@, es@);
            let mut i: usize = 0;
            while i < es.len()
                invariant
                    i <= es.len(),
                    sd == section_deps(section@, es@),
                    out.deep_view() == o0 + sd.take(i as int),
                decreases es.len() - i,
            {
                let spec = parse_dep_as_spec(&es[i].1, section);
                let ghost before = out.deep_view();
                out.push((section.to_owned(), es[i].0.clone(), spec));
                proof {
                    assert(out.deep_view() =~= before.push(sd[i as int]));
                    assert(sd.take(i + 1) =~= sd.take(i as int).push(sd[i as int]));
                }
                i += 1;
            }
            proof {
                assert(sd.take(i as int) =~= sd);
            }
        },
        _ => {
            proof {
                assert(section_deps(section@, table_entries(toml_get(*template, section@))) =~= Seq::empty());
                assert(out.deep_view() =~= o0 + Seq::<(Seq<char>, Seq<char>, CrateSpecView)>::empty());
            }
        },
    }
}

/// The dependencies a template declares, each with the spec it recommends,
/// for syncing into an existing manifest's matching section.
pub fn template_deps(template: &TomlValue) -> (r: Vec<(String, String, CrateSpec)>)
    ensures
        r.deep_view() == template_deps_spec(*template),
{
    let mut out: Vec<(String, String, CrateSpec)> = Vec::new();
    assert(out.deep_view() =~= Seq::<(Seq<char>, Seq<char>, CrateSpecView)>::empty());
    push_section_deps(template, "dependencies", &mut out);
    push_section_deps(template, "dev-dependencies", &mut out);
    push_section_deps(template, "build-dependencies", &mut out);
    proof {
        assert(out.deep_view() =~= template_deps_spec(*template));
    }
    out
}

/// Merging never overwrites: each path at which the template's value is
/// inserted holds nothing in the existing document.
pub proof fn law_merge_inserts_only_missing(existing: TomlValue, template: TomlValue, p: Seq<Seq<char>>)
    requires
        (match template {
            TomlValue::Table(ses) => insert_paths(existing, ses@, Seq::empty(), crate::toml_model::dep_sections()),
            _ => Seq::<Seq<Seq<char>>>::empty(),
        }).contains(p),
    ensures
        crate::toml_model::get_path(Some(existing), p) is None,
{
    match template {
        TomlValue::Table(ses) => {
            lemma_insert_paths_missing(existing, ses@, Seq::empty(), crate::toml_model::dep_sections(), existing, p);
        },
        _ => {},
    }
}

/// Following `prefix.push(k)` is following `prefix` and then `k`.
pub proof fn lemma_get_path_push(v: Option<TomlValue>, prefix: Seq<Seq<char>>, k: Seq<char>)
    ensures
        crate::toml_model::get_path(v, prefix.push(k)) == crate::toml_model::opt_get(crate::toml_model::get_path(v, prefix), k),
    decreases prefix.len(),
{
    if prefix.len() == 0 {
        assert(prefix.push(k).drop_first() =~= Seq::<Seq<char>>::empty());
        assert(prefix.push(k)[0] == k);
        assert(crate::toml_model::get_path(crate::toml_model::opt_get(v, k), Seq::<Seq<char>>::empty()) == crate::toml_model::opt_get(v, k));
    } else {
        assert(prefix.push(k).drop_first() =~= prefix.drop_first().push(k));
        assert(prefix.push(k)[0] == prefix[0]);
        lemma_get_path_push(crate::toml_model::opt_get(v, prefix[0]), prefix.drop_first(), k);
    }
}

/// The inserted paths below `prefix` are absent from the root document.
pub proof fn lemma_insert_paths_missing(
    t: TomlValue,
    ses: Seq<(String, TomlValue)>,
    prefix: Seq<Seq<char>>,
    skip: Seq<Seq<char>>,
    root: TomlValue,
    p: Seq<Seq<char>>,
)
    requires
        crate::toml_model::get_path(Some(root), prefix) == Some(t),
        insert_paths(t, ses, prefix, skip).contains(p),
    ensures
        crate::toml_model::get_path(Some(root), p) is None,
    decreases ses,
{
    if ses.len() > 0 {
        let last = ses[ses.len() - 1];
        let init = ses.subrange(0, ses.len() - 1);
        let before = insert_paths(t, init, prefix, skip);
        if before.contains(p) {
            lemma_insert_paths_missing(t, init, prefix, skip, root, p);
        } else if !skip.contains(last.0@) {
            lemma_get_path_push(Some(root), prefix, last.0@);
            match toml_get(t, last.0@) {
                None => {},
                Some(tv) => match (tv, last.1) {
                    (TomlValue::Table(_), TomlValue::Table(sub)) => {
                        let rest = insert_paths(tv, sub@, prefix.push(last.0@), Seq::empty());
                        let k = choose|k: int| 0 <= k < (before + rest).len() && (before + rest)[k] == p;
                        assert(k >= before.len());
                        assert(rest.contains(p)) by {
                            assert(rest[k - before.len()] == p);
                        }
                        assert(decreases_to!(ses => sub@)) by {
                            assert(decreases_to!(ses => ses[ses.len() - 1]));
                            assert(decreases_to!(ses[ses.len() - 1] => ses[ses.len() - 1].1));
                            assert(decreases_to!(ses[ses.len() - 1].1 => (ses[ses.len() - 1].1)->Table_0));
                            assert(decreases_to!((ses[ses.len() - 1].1)->Table_0 => sub@));
                        }
                        lemma_insert_paths_missing(tv, sub@, prefix.push(last.0@), Seq::empty(), root, p);
                    },
                    _ => {},
                },
            }
        }
    }
}

} // verus!
