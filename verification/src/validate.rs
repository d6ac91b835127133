//! Checks on a battery pack's files, and the decisions of the validate command.
use vstd::prelude::*;
use crate::text::{str_chars, seq_starts_with, seq_ends_with, seq_contains_str, starts_with, ends_with, str_eq, contains_str, cat, cat3};
use crate::lines::{lines, lines_spec, trim, trim_spec};
use crate::report::{Diagnostic, ValidationReport, DiagnosticView, Severity, diag};
use crate::toml_model::{TomlValue, toml_get};
use crate::file_merge::{decimal, usize_to_string};
use crate::manifest::{BatteryPackSpec, TemplateSpec};
use crate::strmap::StrMap;

verus! {

/// What `cargo bp validate` adds about the repository: a warning when the
/// pack sets none (templates and examples cannot be linked), nothing
/// otherwise.
pub open spec fn repository_diags(repository: Option<String>) -> Seq<DiagnosticView> {
    if repository is None {
        seq![diag(Severity::Warning, "format.crate.repository"@, "battery pack should set the `repository` field for linking to examples and templates"@)]
    } else {
        seq![]
    }
}

/// Warn, for `cargo bp validate`, when the pack sets no repository.
pub fn validate_repository(spec: &BatteryPackSpec, report: &mut ValidationReport)
    ensures
        final(report).view_seq() == old(report).view_seq() + repository_diags(spec.repository),
{
    if spec.repository.is_none() {
        report.warning(
            "format.crate.repository",
            "battery pack should set the `repository` field for linking to examples and templates".to_owned(),
        );
    } else {
        assert(report.view_seq() =~= old(report).view_seq() + Seq::<DiagnosticView>::empty());
    }
}

/// A trimmed line of `src/lib.rs` that carries no code: blank, a comment,
/// an inner attribute, or an include directive.
pub open spec fn is_non_code_line(t: Seq<char>) -> bool {
    ||| t.len() == 0
    ||| seq_starts_with(t, "//"@)
    ||| seq_starts_with(t, "#!"@)
    ||| seq_starts_with(t, "include!"@)
    ||| seq_starts_with(t, "include_str!"@)
}

/// The first trimmed line among `ls` that carries code.
pub open spec fn first_code_line(ls: Seq<Seq<char>>) -> Option<Seq<char>>
    decreases ls.len(),
{
    if ls.len() == 0 {
        None
    } else if !is_non_code_line(trim_spec(ls[0])) {
        Some(trim_spec(ls[0]))
    } else {
        first_code_line(ls.drop_first())
    }
}

/// What the `lib.rs` check reports for the given file contents.
pub open spec fn lib_rs_diags(content: Option<Seq<char>>) -> Seq<DiagnosticView> {
    match content {
        None => Seq::empty(),
        Some(c) => match first_code_line(lines_spec(c)) {
            None => Seq::empty(),
            Some(t) => seq![diag(
                Severity::Warning,
                "format.crate.lib"@,
                "src/lib.rs contains code beyond doc-comments and includes: "@ + t,
            )],
        },
    }
}

fn is_non_code(t: &str) -> (b: bool)
    ensures
        b == is_non_code_line(t@),
{
    let cs = str_chars(t);
    cs.len() == 0 || starts_with(t, "//") || starts_with(t, "#!") || starts_with(t, "include!")
        || starts_with(t, "include_str!")
}

/// Warn when `src/lib.rs` holds anything beyond doc-comments, blank lines,
/// inner attributes and includes. `content` is `None` when the file could not
/// be read, which is not this check's concern.
pub fn validate_lib_rs(content: Option<&str>, report: &mut ValidationReport)
    ensures
        final(report).view_seq() == old(report).view_seq() + lib_rs_diags(
            match content { Some(c) => Some(c@), None => None },
        ),
{
    let ghost before = report.view_seq();
    let c = match content {
        None => {
            assert(before + Seq::<DiagnosticView>::empty() =~= before);
            return;
        },
        Some(c) => c,
    };
    let ls = lines(c);
    let mut i: usize = 0;
    assert(lines_spec(c@).skip(0) =~= lines_spec(c@));
    while i < ls.len()
        invariant
            ls.deep_view() == lines_spec(c@),
            i <= ls.len(),
            content == Some(c),
            before == old(report).view_seq(),
            report.view_seq() == before,
            first_code_line(lines_spec(c@)) == first_code_line(lines_spec(c@).skip(i as int)),
        decreases ls.len() - i,
    {
        let t = trim(ls[i].as_str());
        proof {
            let rest = lines_spec(c@).skip(i as int);
            assert(rest[0] == ls.deep_view()[i as int]);
            assert(rest.drop_first() =~= lines_spec(c@).skip(i + 1));
        }
        if !is_non_code(t.as_str()) {
            let msg = cat("src/lib.rs contains code beyond doc-comments and includes: ", t.as_str());
            report.warning("format.crate.lib", msg);
            proof {
                let rest = lines_spec(c@).skip(i as int);
                assert(first_code_line(rest) == Some(t@));
                assert(report.view_seq() =~= before + lib_rs_diags(Some(c@)));
            }
            return;
        }
        i += 1;
    }
    proof {
        assert(lines_spec(c@).skip(i as int).len() == 0);
        assert(before + Seq::<DiagnosticView>::empty() =~= before);
    }
}

/// A file name whose extension (as `Path::extension` reads it) is `rs`:
/// it ends in `.rs` with something before the dot.
pub open spec fn has_rs_extension(name: Seq<char>) -> bool {
    name.len() > 3 && seq_ends_with(name, ".rs"@)
}

/// The error reported for one file of `src/`, if any.
pub open spec fn extra_code_diag(name: Seq<char>) -> Seq<DiagnosticView> {
    if has_rs_extension(name) && name != "lib.rs"@ {
        seq![diag(
            Severity::Error,
            "format.crate.no-code"@,
            "src/ contains '"@ + name + "' — battery packs must not contain functional code"@,
        )]
    } else {
        Seq::empty()
    }
}

/// The errors reported for the files of `src/`, in the order given.
pub open spec fn extra_code_diags(names: Seq<Seq<char>>) -> Seq<DiagnosticView>
    decreases names.len(),
{
    if names.len() == 0 {
        Seq::empty()
    } else {
        extra_code_diags(names.drop_last()) + extra_code_diag(names.last())
    }
}

/// Report every Rust source file in `src/` other than `lib.rs`.
/// `file_names` are the names of the regular files directly under `src/`.
pub fn validate_no_extra_code(file_names: &Vec<String>, report: &mut ValidationReport)
    ensures
        final(report).view_seq() == old(report).view_seq() + extra_code_diags(
            file_names.deep_view(),
        ),
{
    let ghost before = report.view_seq();
    let mut i: usize = 0;
    while i < file_names.len()
        invariant
            i <= file_names.len(),
            report.view_seq() == before + extra_code_diags(file_names.deep_view().take(i as int)),
        decreases file_names.len() - i,
    {
        let name = file_names[i].as_str();
        let ghost mid = report.view_seq();
        proof {
            let t = file_names.deep_view().take(i + 1);
            assert(t.drop_last() =~= file_names.deep_view().take(i as int));
            assert(t.last() == name@);
        }
        let n = str_chars(name);
        if n.len() > 3 && ends_with(name, ".rs") && !str_eq(name, "lib.rs") {
            let msg = cat3("src/ contains '", name, "' — battery packs must not contain functional code");
            report.error("format.crate.no-code", msg);
            assert(report.view_seq() =~= before + extra_code_diags(file_names.deep_view().take(i + 1)));
        } else {
            assert(report.view_seq() =~= before + extra_code_diags(file_names.deep_view().take(i + 1)));
        }
        i += 1;
    }
    assert(file_names.deep_view().take(i as int) =~= file_names.deep_view());
}

/// What is on disk for one declared template.
#[derive(Debug, Clone, Copy)]
pub struct TemplateOnDisk {
    /// The template's directory exists.
    pub dir_exists: bool,
    /// The directory holds a `cargo-generate.toml`.
    pub has_cargo_generate: bool,
}

/// The errors reported for one template.
pub open spec fn template_diag(name: Seq<char>, path: Seq<char>, st: TemplateOnDisk) -> Seq<
    DiagnosticView,
> {
    if !st.dir_exists {
        seq![diag(
            Severity::Error,
            "format.templates.directory"@,
            "template '"@ + name + "' path '"@ + path + "' does not exist"@,
        )]
    } else if !st.has_cargo_generate {
        seq![diag(
            Severity::Error,
            "format.templates.cargo-generate"@,
            "template '"@ + name + "' is missing cargo-generate.toml in '"@ + path + "'"@,
        )]
    } else {
        Seq::empty()
    }
}

/// The errors reported for the first `n` templates.
pub open spec fn template_diags(
    names: Seq<Seq<char>>,
    paths: Seq<Seq<char>>,
    states: Seq<TemplateOnDisk>,
    n: int,
) -> Seq<DiagnosticView>
    decreases n,
{
    if n <= 0 {
        Seq::empty()
    } else {
        template_diags(names, paths, states, n - 1) + template_diag(
            names[n - 1],
            paths[n - 1],
            states[n - 1],
        )
    }
}

/// The template paths of a pack, in name order.
pub open spec fn template_paths(t: &StrMap<TemplateSpec>) -> Seq<Seq<char>> {
    t.vals().map_values(|v: crate::manifest::TemplateSpecView| v.path)
}

/// Report each declared template whose directory is missing, or lacks a
/// `cargo-generate.toml`. `states[i]` describes the `i`-th template in name order.
pub fn validate_templates_on_disk(
    spec: &BatteryPackSpec,
    states: &Vec<TemplateOnDisk>,
    report: &mut ValidationReport,
)
    requires
        states@.len() == spec.templates.keys().len(),
    ensures
        final(report).view_seq() == old(report).view_seq() + template_diags(
            spec.templates.keys(),
            template_paths(&spec.templates),
            states@,
            states@.len() as int,
        ),
{
    let ghost before = report.view_seq();
    let ghost paths = template_paths(&spec.templates);
    let mut i: usize = 0;
    while i < spec.templates.entries.len()
        invariant
            states@.len() == spec.templates.keys().len(),
            spec.templates.keys().len() == spec.templates.entries@.len(),
            paths == template_paths(&spec.templates),
            i <= spec.templates.entries.len(),
            report.view_seq() == before + template_diags(
                spec.templates.keys(),
                paths,
                states@,
                i as int,
            ),
        decreases spec.templates.entries.len() - i,
    {
        let name = spec.templates.entries[i].0.as_str();
        let path = spec.templates.entries[i].1.path.as_str();
        let st = states[i];
        proof {
            assert(spec.templates.keys()[i as int] == name@);
            assert(paths[i as int] == path@);
        }
        if !st.dir_exists {
            let m1 = cat3("template '", name, "' path '");
            let msg = cat3(m1.as_str(), path, "' does not exist");
            report.error("format.templates.directory", msg);
        } else if !st.has_cargo_generate {
            let m1 = cat3("template '", name, "' is missing cargo-generate.toml in '");
            let msg = cat3(m1.as_str(), path, "'");
            report.error("format.templates.cargo-generate", msg);
        }
        assert(report.view_seq() =~= before + template_diags(
            spec.templates.keys(),
            paths,
            states@,
            i + 1,
        ));
        i += 1;
    }
}

/// What the on-disk checks read from a battery pack's directory.
#[derive(Debug)]
pub struct DiskFacts {
    /// The contents of `src/lib.rs`, when it could be read.
    pub lib_rs: Option<String>,
    /// The names of the regular files directly under `src/`.
    pub src_files: Vec<String>,
    /// For each template, in name order, what is on disk.
    pub templates: Vec<TemplateOnDisk>,
}

/// Validate a battery pack's on-disk structure against its spec: the
/// `lib.rs` check, then the extra-code check, then the template checks.
pub fn validate_on_disk(spec: &BatteryPackSpec, facts: &DiskFacts) -> (report: ValidationReport)
    requires
        facts.templates@.len() == spec.templates.keys().len(),
    ensures
        report.view_seq() == lib_rs_diags(
            match facts.lib_rs { Some(c) => Some(c@), None => None },
        ) + extra_code_diags(facts.src_files.deep_view()) + template_diags(
            spec.templates.keys(),
            template_paths(&spec.templates),
            facts.templates@,
            facts.templates@.len() as int,
        ),
{
    let mut report = ValidationReport::new();
    let lib: Option<&str> = match &facts.lib_rs {
        Some(c) => Some(c.as_str()),
        None => None,
    };
    validate_lib_rs(lib, &mut report);
    validate_no_extra_code(&facts.src_files, &mut report);
    validate_templates_on_disk(spec, &facts.templates, &mut report);
    assert(report.view_seq() =~= Seq::<DiagnosticView>::empty() + lib_rs_diags(
        match facts.lib_rs { Some(c) => Some(c@), None => None },
    ) + extra_code_diags(facts.src_files.deep_view()) + template_diags(
        spec.templates.keys(),
        template_paths(&spec.templates),
        facts.templates@,
        facts.templates@.len() as int,
    ));
    report
}

/// Whether a `cargo package` failure comes from a workspace crate whose new
/// version is not yet published: the version could not be selected, and the
/// requirement names one of the workspace's crates.
pub open spec fn unpublished_workspace_dep(stderr: Seq<char>, names: Seq<Seq<char>>) -> bool {
    &&& seq_contains_str(stderr, "failed to select a version for the requirement"@)
    &&& exists|i: int|
        0 <= i < names.len() && seq_contains_str(stderr, "`"@ + #[trigger] names[i] + " = "@)
}

/// Whether a `cargo package` failure is caused by a workspace path
/// dependency whose version has not been published yet.
pub fn is_unpublished_workspace_dep(stderr: &str, workspace_names: &[String]) -> (b: bool)
    ensures
        b == unpublished_workspace_dep(stderr@, workspace_names@.map_values(|s: String| s@)),
{
    let ghost names = workspace_names@.map_values(|s: String| s@);
    if !contains_str(stderr, "failed to select a version for the requirement") {
        return false;
    }
    let mut i: usize = 0;
    while i < workspace_names.len()
        invariant
            i <= workspace_names@.len(),
            names == workspace_names@.map_values(|s: String| s@),
            seq_contains_str(stderr@, "failed to select a version for the requirement"@),
            forall|j: int|
                0 <= j < i ==> !seq_contains_str(stderr@, "`"@ + #[trigger] names[j] + " = "@),
        decreases workspace_names.len() - i,
    {
        let needle = cat3("`", workspace_names[i].as_str(), " = ");
        assert(names[i as int] == workspace_names@[i as int]@);
        if contains_str(stderr, needle.as_str()) {
            assert(seq_contains_str(stderr@, "`"@ + names[i as int] + " = "@));
            return true;
        }
        i += 1;
    }
    false
}

/// The number of diagnostics of a severity.
pub open spec fn count_severity(ds: Seq<DiagnosticView>, s: Severity) -> nat
    decreases ds.len(),
{
    if ds.len() == 0 {
        0
    } else {
        count_severity(ds.drop_last(), s) + if ds.last().severity == s { 1nat } else { 0nat }
    }
}

proof fn lemma_count_le(ds: Seq<DiagnosticView>, s: Severity)
    ensures
        count_severity(ds, s) <= ds.len(),
    decreases ds.len(),
{
    if ds.len() > 0 {
        lemma_count_le(ds.drop_last(), s);
    }
}

/// How the validate command ends for a report.
#[derive(Debug, Clone, Copy, PartialEq, Eq, Structural)]
pub enum ValidateOutcome {
    /// No findings at all: the pack is valid.
    Clean,
    /// Only warnings: the pack is valid, with this many warnings.
    WarningsOnly { warnings: usize },
    /// At least one error: validation fails.
    Failed { errors: usize, warnings: usize },
}

/// Decide how the validate command ends, counting errors and warnings.
pub fn validation_outcome(report: &ValidationReport) -> (o: ValidateOutcome)
    ensures
        report.view_seq().len() == 0 ==> o == ValidateOutcome::Clean,
        report.view_seq().len() > 0 && count_severity(report.view_seq(), Severity::Error) == 0
            ==> o == (ValidateOutcome::WarningsOnly {
                warnings: count_severity(report.view_seq(), Severity::Warning) as usize,
            }),
        count_severity(report.view_seq(), Severity::Error) > 0 ==> o == (ValidateOutcome::Failed {
            errors: count_severity(report.view_seq(), Severity::Error) as usize,
            warnings: count_severity(report.view_seq(), Severity::Warning) as usize,
        }),
{
    if report.diagnostics.len() == 0 {
        return ValidateOutcome::Clean;
    }
    let ghost ds = report.view_seq();
    let mut errors: usize = 0;
    let mut warnings: usize = 0;
    let mut i: usize = 0;
    while i < report.diagnostics.len()
        invariant
            ds == report.view_seq(),
            i <= ds.len(),
            errors == count_severity(ds.take(i as int), Severity::Error),
            warnings == count_severity(ds.take(i as int), Severity::Warning),
        decreases report.diagnostics.len() - i,
    {
        proof {
            let t = ds.take(i + 1);
            assert(t.drop_last() =~= ds.take(i as int));
            assert(t.last() == ds[i as int]);
            lemma_count_le(ds.take(i as int), Severity::Error);
            lemma_count_le(ds.take(i as int), Severity::Warning);
        }
        match report.diagnostics[i].severity {
            Severity::Error => {
                errors += 1;
            },
            Severity::Warning => {
                warnings += 1;
            },
        }
        i += 1;
    }
    assert(ds.take(i as int) =~= ds);
    if errors > 0 {
        ValidateOutcome::Failed { errors, warnings }
    } else {
        ValidateOutcome::WarningsOnly { warnings }
    }
}

/// Whether a rendered template is a full project: it has a `Cargo.toml` at its root.
pub fn is_full_project(paths: &Vec<String>) -> (b: bool)
    ensures
        b == paths.deep_view().contains("Cargo.toml"@),
{
    crate::common::vec_contains_str(paths, "Cargo.toml")
}


/// Why a manifest is not a battery pack's.
#[derive(Debug, Clone, Copy, PartialEq, Eq, Structural)]
pub enum ManifestKindError {
    /// A virtual manifest: `[workspace]` and no `[package]`.
    Workspace,
    /// Neither `[package]` nor `[workspace]`.
    NoPackage,
    /// Not TOML at all.
    NotToml,
}

/// A manifest to validate must have a `[package]`; without one, a
/// workspace manifest and anything else are told apart.
pub fn check_manifest_kind(raw: &TomlValue) -> (r: Result<(), ManifestKindError>)
    ensures
        toml_get(*raw, "package"@) is Some ==> r is Ok,
        toml_get(*raw, "package"@) is None && toml_get(*raw, "workspace"@) is Some ==> r == Err::<(), ManifestKindError>(ManifestKindError::Workspace),
        toml_get(*raw, "package"@) is None && toml_get(*raw, "workspace"@) is None ==> r == Err::<(), ManifestKindError>(ManifestKindError::NoPackage),
{
    if crate::toml_model::get(raw, "package").is_some() {
        Ok(())
    } else if crate::toml_model::get(raw, "workspace").is_some() {
        Err(ManifestKindError::Workspace)
    } else {
        Err(ManifestKindError::NoPackage)
    }
}

impl ManifestKindError {
    /// The message for a manifest at `path`.
    pub fn message(&self, path: &str) -> (s: String)
        ensures
            s@ == match *self {
                ManifestKindError::Workspace => path@ + " is a workspace manifest, not a battery pack crate.\nRun this from a battery pack crate directory, or use --path to point to one."@,
                ManifestKindError::NoPackage => path@ + " has no [package] section — is this a battery pack crate?"@,
                ManifestKindError::NotToml => "failed to parse "@ + path@,
            },
    {
        match self {
            ManifestKindError::Workspace => cat(path, " is a workspace manifest, not a battery pack crate.\nRun this from a battery pack crate directory, or use --path to point to one."),
            ManifestKindError::NoPackage => cat(path, " has no [package] section — is this a battery pack crate?"),
            ManifestKindError::NotToml => cat("failed to parse ", path),
        }
    }
}

/// How a finding is printed: `error[rule]: message` or `warning[rule]: message`.
pub open spec fn diag_line_spec(d: DiagnosticView) -> Seq<char> {
    (match d.severity {
        Severity::Error => "error["@,
        Severity::Warning => "warning["@,
    }) + d.rule + "]: "@ + d.message
}

/// The line printed for a finding.
pub fn diag_line(d: &Diagnostic) -> (s: String)
    ensures
        s@ == diag_line_spec(d.deep_view()),
{
    let head = match d.severity {
        Severity::Error => "error[",
        Severity::Warning => "warning[",
    };
    let a = cat3(head, d.rule, "]: ");
    cat(a.as_str(), d.message.as_str())
}

/// The closing message of the validate command: failure with the counts,
/// or the pack declared valid (with its warning count when there are some).
pub open spec fn outcome_message_spec(o: ValidateOutcome, name: Seq<char>) -> Result<Seq<char>, Seq<char>> {
    match o {
        ValidateOutcome::Clean => Ok(name + " is valid"@),
        ValidateOutcome::WarningsOnly { warnings } => Ok(name + " is valid ("@ + decimal(warnings as nat) + " warning(s))"@),
        ValidateOutcome::Failed { errors, warnings } => Err("validation failed: "@ + decimal(errors as nat) + " error(s), "@
            + decimal(warnings as nat) + " warning(s)"@),
    }
}

/// The message the validate command ends with for a pack named `name`.
pub fn outcome_message(o: ValidateOutcome, name: &str) -> (r: Result<String, String>)
    ensures
        match (r, outcome_message_spec(o, name@)) {
            (Ok(a), Ok(b)) => a@ == b,
            (Err(a), Err(b)) => a@ == b,
            _ => false,
        },
{
    match o {
        ValidateOutcome::Clean => Ok(cat(name, " is valid")),
        ValidateOutcome::WarningsOnly { warnings } => {
            let w = usize_to_string(warnings);
            let a = cat3(name, " is valid (", w.as_str());
            Ok(cat(a.as_str(), " warning(s))"))
        },
        ValidateOutcome::Failed { errors, warnings } => {
            let e = usize_to_string(errors);
            let w = usize_to_string(warnings);
            let a = cat3("validation failed: ", e.as_str(), " error(s), ");
            let b = cat3(a.as_str(), w.as_str(), " warning(s)");
            Err(b)
        },
    }
}

/// The `.cargo/config.toml` text that makes a generated project build
/// against local packages: `[patch.crates-io]` and one `name = { path = ".." }`
/// line per package, in order.
pub open spec fn patches_spec(pkgs: Seq<(Seq<char>, Seq<char>)>) -> Seq<char>
    decreases pkgs.len(),
{
    if pkgs.len() == 0 {
        "[patch.crates-io]\n"@
    } else {
        patches_spec(pkgs.drop_last()) + pkgs.last().0 + " = { path = \""@ + pkgs.last().1 + "\" }\n"@
    }
}

/// The patch section for the given (name, directory) packages.
pub fn crates_io_patches(pkgs: &Vec<(String, String)>) -> (r: String)
    ensures
        r@ == patches_spec(crate::template::pairs_view(pkgs@)),
{
    let ghost pv = crate::template::pairs_view(pkgs@);
    let mut out = "[patch.crates-io]\n".to_owned();
    let mut i: usize = 0;
    while i < pkgs.len()
        invariant
            pv == crate::template::pairs_view(pkgs@),
            i <= pkgs.len(),
            out@ == patches_spec(pv.take(i as int)),
        decreases pkgs.len() - i,
    {
        proof {
            let t = pv.take(i + 1);
            assert(t.drop_last() =~= pv.take(i as int));
            assert(t.last() == pv[i as int]);
        }
        let a = cat3(pkgs[i].0.as_str(), " = { path = \"", pkgs[i].1.as_str());
        let b = cat(a.as_str(), "\" }\n");
        out.append(b.as_str());
        proof {
            assert(out@ =~= patches_spec(pv.take(i + 1)));
        }
        i += 1;
    }
    proof {
        assert(pv.take(i as int) =~= pv);
    }
    out
}


/// The patch lines forwarded from the pack's own `.cargo/config.toml`:
/// `name = value` for each entry, in order, except those of workspace
/// members (already patched to their local path).
pub open spec fn forwarded_spec(entries: Seq<(Seq<char>, Seq<char>)>, members: Seq<Seq<char>>) -> Seq<char>
    decreases entries.len(),
{
    if entries.len() == 0 {
        Seq::empty()
    } else {
        let r = forwarded_spec(entries.drop_last(), members);
        let e = entries.last();
        if members.contains(e.0) {
            r
        } else {
            r + e.0 + " = "@ + e.1 + "\n"@
        }
    }
}

/// The forwarded patch lines for (name, value text) entries.
pub fn forwarded_patches(entries: &Vec<(String, String)>, members: &Vec<String>) -> (r: String)
    ensures
        r@ == forwarded_spec(crate::template::pairs_view(entries@), members.deep_view()),
{
    let ghost ev = crate::template::pairs_view(entries@);
    let mut out = String::new();
    let mut i: usize = 0;
    while i < entries.len()
        invariant
            ev == crate::template::pairs_view(entries@),
            i <= entries.len(),
            out@ == forwarded_spec(ev.take(i as int), members.deep_view()),
        decreases entries.len() - i,
    {
        proof {
            let t = ev.take(i + 1);
            assert(t.drop_last() =~= ev.take(i as int));
            assert(t.last() == ev[i as int]);
        }
        if !crate::common::vec_contains_str(members, entries[i].0.as_str()) {
            let a = cat3(entries[i].0.as_str(), " = ", entries[i].1.as_str());
            let b = cat(a.as_str(), "\n");
            out.append(b.as_str());
            proof {
                assert(out@ =~= forwarded_spec(ev.take(i + 1), members.deep_view()));
            }
        }
        i += 1;
    }
    proof {
        assert(ev.take(i as int) =~= ev);
    }
    out
}

} // verus!
