//! The command line of `cargo bp`: its subcommands, options and arguments.
//!
//! The grammar: `cargo bp [--crate-source <PATH>] [<SUBCOMMAND> ...]`. Options
//! are written `--long <v>`, `--long=<v>`, `-s <v>`, `-s<v>` or `-s=<v>`; a
//! value never starts with `-` unless it is `-` itself; `--` ends the options.
//! Options and positional arguments may be interleaved; a single-valued option
//! or a flag may be given once.
use vstd::prelude::*;
use crate::text::{str_chars, str_eq, starts_with, seq_starts_with, cat};
use crate::lines::{split_on, split_char};
use crate::commands::{define_spec, parse_define};
use crate::naming::drop_chars;

verus! {

/// Where `cargo bp add` records the battery pack registration.
#[derive(Debug, Clone, Copy, PartialEq, Eq, Structural)]
pub enum AddTarget {
    /// Register in `workspace.metadata.battery-pack`.
    Workspace,
    /// Register in `package.metadata.battery-pack`.
    Package,
    /// Use workspace if a workspace root exists, otherwise package.
    Default,
}

/// The subcommands of `cargo bp`.
#[derive(Debug, Clone, Copy, PartialEq, Eq, Structural)]
pub enum Sub {
    New,
    Add,
    Sync,
    List,
    Show,
    Status,
    Validate,
}

/// The options a subcommand may take.
#[derive(Debug, Clone, Copy, PartialEq, Eq, Structural)]
pub enum Opt {
    Name,
    Template,
    Path,
    Define,
    Features,
    NoDefaultFeatures,
    AllFeatures,
    Target,
    NonInteractive,
}

/// How an option takes values.
#[derive(Debug, Clone, Copy, PartialEq, Eq, Structural)]
pub enum OptKind {
    /// No value; given at most once.
    Flag,
    /// One value; given at most once.
    Single,
    /// One value per occurrence; may be repeated.
    Multi,
}

/// What went wrong while reading the command line.
#[derive(Debug, Clone, Copy, PartialEq, Eq, Structural)]
pub enum CliErrorKind {
    /// Help was asked for.
    DisplayHelp,
    /// The version was asked for.
    DisplayVersion,
    /// No subcommand where one is required.
    MissingSubcommand,
    /// A word that names no subcommand.
    UnknownSubcommand,
    /// An option that does not exist here, or a positional argument too many.
    UnexpectedArgument,
    /// An option that needs a value was given none.
    MissingValue,
    /// A flag was given a value.
    UnexpectedValue,
    /// An option that may be given once was given again.
    Repeated,
    /// A value that the option does not accept.
    InvalidValue,
    /// A required argument is missing.
    MissingRequired,
}

/// A command-line error: what went wrong, and the argument it concerns.
#[derive(Debug, Clone)]
pub struct CliError {
    pub kind: CliErrorKind,
    pub arg: String,
}

impl DeepView for CliError {
    type V = (CliErrorKind, Seq<char>);

    open spec fn deep_view(&self) -> (CliErrorKind, Seq<char>) {
        (self.kind, self.arg@)
    }
}

/// The subcommand a word names, aliases included.
pub open spec fn sub_named(w: Seq<char>) -> Option<Sub> {
    if w == "new"@ {
        Some(Sub::New)
    } else if w == "add"@ {
        Some(Sub::Add)
    } else if w == "sync"@ {
        Some(Sub::Sync)
    } else if w == "list"@ || w == "ls"@ {
        Some(Sub::List)
    } else if w == "show"@ || w == "info"@ {
        Some(Sub::Show)
    } else if w == "status"@ || w == "stat"@ {
        Some(Sub::Status)
    } else if w == "validate"@ {
        Some(Sub::Validate)
    } else {
        None
    }
}

/// The long option of a subcommand with the given name (without `--`).
pub open spec fn long_opt(sub: Sub, n: Seq<char>) -> Option<Opt> {
    if n == "path"@ && sub != Sub::List {
        Some(Opt::Path)
    } else if n == "name"@ && sub == Sub::New {
        Some(Opt::Name)
    } else if n == "template"@ && sub == Sub::New {
        Some(Opt::Template)
    } else if n == "define"@ && sub == Sub::New {
        Some(Opt::Define)
    } else if n == "features"@ && sub == Sub::Add {
        Some(Opt::Features)
    } else if n == "no-default-features"@ && sub == Sub::Add {
        Some(Opt::NoDefaultFeatures)
    } else if n == "all-features"@ && sub == Sub::Add {
        Some(Opt::AllFeatures)
    } else if n == "target"@ && sub == Sub::Add {
        Some(Opt::Target)
    } else if n == "non-interactive"@ && (sub == Sub::List || sub == Sub::Show) {
        Some(Opt::NonInteractive)
    } else {
        None
    }
}

/// The short option of a subcommand with the given letter.
pub open spec fn short_opt(sub: Sub, c: char) -> Option<Opt> {
    if c == 'n' && sub == Sub::New {
        Some(Opt::Name)
    } else if c == 't' && sub == Sub::New {
        Some(Opt::Template)
    } else if c == 'd' && sub == Sub::New {
        Some(Opt::Define)
    } else if c == 'F' && sub == Sub::Add {
        Some(Opt::Features)
    } else {
        None
    }
}

/// How each option takes values.
pub open spec fn opt_kind(o: Opt) -> OptKind {
    match o {
        Opt::NoDefaultFeatures | Opt::AllFeatures | Opt::NonInteractive => OptKind::Flag,
        Opt::Define | Opt::Features => OptKind::Multi,
        _ => OptKind::Single,
    }
}

/// The long form of an option, as errors name it.
pub open spec fn opt_label(o: Opt) -> Seq<char> {
    match o {
        Opt::Name => "--name"@,
        Opt::Template => "--template"@,
        Opt::Path => "--path"@,
        Opt::Define => "--define"@,
        Opt::Features => "--features"@,
        Opt::NoDefaultFeatures => "--no-default-features"@,
        Opt::AllFeatures => "--all-features"@,
        Opt::Target => "--target"@,
        Opt::NonInteractive => "--non-interactive"@,
    }
}

/// The `--target` value a word names.
pub open spec fn target_named(v: Seq<char>) -> Option<AddTarget> {
    if v == "workspace"@ {
        Some(AddTarget::Workspace)
    } else if v == "package"@ {
        Some(AddTarget::Package)
    } else if v == "default"@ {
        Some(AddTarget::Default)
    } else {
        None
    }
}

/// A word that reads as an option rather than a value: `-` followed by something.
pub open spec fn option_like(t: Seq<char>) -> bool {
    t.len() >= 2 && t[0] == '-'
}

/// Whether the subcommand accepts one more positional argument, having `n`.
pub open spec fn takes_positional(sub: Sub, n: nat) -> bool {
    match sub {
        Sub::Add => true,
        Sub::New | Sub::List | Sub::Show => n < 1,
        _ => false,
    }
}

/// The state of reading a subcommand's arguments.
pub struct ScanView {
    /// The options given so far, in order, each with its value (empty for a flag).
    pub occ: Seq<(Opt, Seq<char>)>,
    /// The positional arguments so far.
    pub pos: Seq<Seq<char>>,
    /// An option waiting for its value.
    pub pending: Option<Opt>,
    /// `--` has been seen.
    pub dashdash: bool,
    /// The first error met.
    pub err: Option<(CliErrorKind, Seq<char>)>,
}

/// Whether an option occurs among `occ`.
pub open spec fn occurs(occ: Seq<(Opt, Seq<char>)>, o: Opt) -> bool {
    exists|i: int| 0 <= i < occ.len() && (#[trigger] occ[i]).0 == o
}

/// `st` with the first error `e` recorded.
pub open spec fn with_err(st: ScanView, kind: CliErrorKind, arg: Seq<char>) -> ScanView {
    ScanView { err: Some((kind, arg)), ..st }
}

/// Record value `v` for option `o`.
pub open spec fn add_value(st: ScanView, o: Opt, v: Seq<char>) -> ScanView {
    if opt_kind(o) == OptKind::Single && occurs(st.occ, o) {
        with_err(st, CliErrorKind::Repeated, opt_label(o))
    } else if o == Opt::Target && target_named(v) is None {
        with_err(st, CliErrorKind::InvalidValue, v)
    } else if o == Opt::Define && define_spec(v) is None {
        with_err(st, CliErrorKind::InvalidValue, v)
    } else {
        ScanView { occ: st.occ.push((o, v)), ..st }
    }
}

/// Record flag `o`.
pub open spec fn add_flag(st: ScanView, o: Opt) -> ScanView {
    if occurs(st.occ, o) {
        with_err(st, CliErrorKind::Repeated, opt_label(o))
    } else {
        ScanView { occ: st.occ.push((o, Seq::<char>::empty())), ..st }
    }
}

/// Record a positional argument.
pub open spec fn add_positional(sub: Sub, st: ScanView, t: Seq<char>) -> ScanView {
    if takes_positional(sub, st.pos.len()) {
        ScanView { pos: st.pos.push(t), ..st }
    } else {
        with_err(st, CliErrorKind::UnexpectedArgument, t)
    }
}

/// Read a `--long` option (`body` is what follows `--`).
pub open spec fn step_long(sub: Sub, st: ScanView, t: Seq<char>, body: Seq<char>) -> ScanView {
    let (n, v) = match define_spec(body) {
        Some((n, v)) => (n, Some(v)),
        None => (body, None::<Seq<char>>),
    };
    if n == "help"@ {
        with_err(st, CliErrorKind::DisplayHelp, t)
    } else {
        match long_opt(sub, n) {
            None => with_err(st, CliErrorKind::UnexpectedArgument, t),
            Some(o) => if opt_kind(o) == OptKind::Flag {
                if v is Some {
                    with_err(st, CliErrorKind::UnexpectedValue, opt_label(o))
                } else {
                    add_flag(st, o)
                }
            } else {
                match v {
                    Some(v) => add_value(st, o, v),
                    None => ScanView { pending: Some(o), ..st },
                }
            },
        }
    }
}

/// Read a `-s` option.
pub open spec fn step_short(sub: Sub, st: ScanView, t: Seq<char>) -> ScanView {
    let c = t[1];
    let rest = t.subrange(2, t.len() as int);
    if c == 'h' {
        with_err(st, CliErrorKind::DisplayHelp, t)
    } else {
        match short_opt(sub, c) {
            None => with_err(st, CliErrorKind::UnexpectedArgument, t),
            Some(o) => if rest.len() == 0 {
                ScanView { pending: Some(o), ..st }
            } else if rest[0] == '=' {
                add_value(st, o, rest.subrange(1, rest.len() as int))
            } else {
                add_value(st, o, rest)
            },
        }
    }
}

/// Read one word of a subcommand's arguments.
pub open spec fn step(sub: Sub, st: ScanView, t: Seq<char>) -> ScanView {
    if st.err is Some {
        st
    } else if st.pending is Some {
        let o = st.pending->0;
        if option_like(t) {
            with_err(st, CliErrorKind::MissingValue, opt_label(o))
        } else {
            add_value(ScanView { pending: None, ..st }, o, t)
        }
    } else if st.dashdash {
        add_positional(sub, st, t)
    } else if t == "--"@ {
        ScanView { dashdash: true, ..st }
    } else if seq_starts_with(t, "--"@) {
        step_long(sub, st, t, t.subrange(2, t.len() as int))
    } else if option_like(t) {
        step_short(sub, st, t)
    } else {
        add_positional(sub, st, t)
    }
}

/// The state before any word.
pub open spec fn scan_start() -> ScanView {
    ScanView {
        occ: Seq::empty(),
        pos: Seq::empty(),
        pending: None,
        dashdash: false,
        err: None,
    }
}

/// The state after reading `ts`.
pub open spec fn scan(sub: Sub, ts: Seq<Seq<char>>) -> ScanView
    decreases ts.len(),
{
    if ts.len() == 0 {
        scan_start()
    } else {
        step(sub, scan(sub, ts.drop_last()), ts.last())
    }
}

/// The value of the first occurrence of `o`.
pub open spec fn first_value(occ: Seq<(Opt, Seq<char>)>, o: Opt) -> Option<Seq<char>>
    decreases occ.len(),
{
    if occ.len() == 0 {
        None
    } else if occ[0].0 == o {
        Some(occ[0].1)
    } else {
        first_value(occ.drop_first(), o)
    }
}

/// The values of every occurrence of `o`, in order.
pub open spec fn all_values(occ: Seq<(Opt, Seq<char>)>, o: Opt) -> Seq<Seq<char>>
    decreases occ.len(),
{
    if occ.len() == 0 {
        Seq::empty()
    } else {
        let r = all_values(occ.drop_last(), o);
        if occ.last().0 == o {
            r.push(occ.last().1)
        } else {
            r
        }
    }
}

/// Each value split at commas, the pieces in order.
pub open spec fn comma_pieces(vals: Seq<Seq<char>>) -> Seq<Seq<char>>
    decreases vals.len(),
{
    if vals.len() == 0 {
        Seq::empty()
    } else {
        comma_pieces(vals.drop_last()) + split_on(vals.last(), ',')
    }
}

/// Each `key=value` definition split at its first `=`.
pub open spec fn define_pairs(vals: Seq<Seq<char>>) -> Seq<(Seq<char>, Seq<char>)> {
    vals.map_values(|v: Seq<char>| define_spec(v)->0)
}

/// A parsed `cargo bp` subcommand.
#[derive(Debug)]
pub enum BpCommands {
    /// Create a new project from a battery pack template.
    New {
        battery_pack: String,
        name: Option<String>,
        template: Option<String>,
        path: Option<String>,
        define: Vec<(String, String)>,
    },
    /// Add a battery pack and sync its dependencies.
    Add {
        battery_pack: Option<String>,
        crates: Vec<String>,
        features: Vec<String>,
        no_default_features: bool,
        all_features: bool,
        target: Option<AddTarget>,
        path: Option<String>,
    },
    /// Update dependencies from installed battery packs.
    Sync { path: Option<String> },
    /// List available battery packs.
    List { filter: Option<String>, non_interactive: bool },
    /// Show detailed information about a battery pack.
    Show { battery_pack: String, path: Option<String>, non_interactive: bool },
    /// Show status of installed battery packs.
    Status { path: Option<String> },
    /// Validate that a battery pack is well-formed.
    Validate { path: Option<String> },
}

/// The mathematical content of a subcommand.
pub enum CommandView {
    New {
        battery_pack: Seq<char>,
        name: Option<Seq<char>>,
        template: Option<Seq<char>>,
        path: Option<Seq<char>>,
        define: Seq<(Seq<char>, Seq<char>)>,
    },
    Add {
        battery_pack: Option<Seq<char>>,
        crates: Seq<Seq<char>>,
        features: Seq<Seq<char>>,
        no_default_features: bool,
        all_features: bool,
        target: Option<AddTarget>,
        path: Option<Seq<char>>,
    },
    Sync { path: Option<Seq<char>> },
    List { filter: Option<Seq<char>>, non_interactive: bool },
    Show { battery_pack: Seq<char>, path: Option<Seq<char>>, non_interactive: bool },
    Status { path: Option<Seq<char>> },
    Validate { path: Option<Seq<char>> },
}

impl DeepView for BpCommands {
    type V = CommandView;

    open spec fn deep_view(&self) -> CommandView {
        match self {
            BpCommands::New { battery_pack, name, template, path, define } => CommandView::New {
                battery_pack: battery_pack@,
                name: name.deep_view(),
                template: template.deep_view(),
                path: path.deep_view(),
                define: define.deep_view(),
            },
            BpCommands::Add {
                battery_pack,
                crates,
                features,
                no_default_features,
                all_features,
                target,
                path,
            } => CommandView::Add {
                battery_pack: battery_pack.deep_view(),
                crates: crates.deep_view(),
                features: features.deep_view(),
                no_default_features: *no_default_features,
                all_features: *all_features,
                target: *target,
                path: path.deep_view(),
            },
            BpCommands::Sync { path } => CommandView::Sync { path: path.deep_view() },
            BpCommands::List { filter, non_interactive } => CommandView::List {
                filter: filter.deep_view(),
                non_interactive: *non_interactive,
            },
            BpCommands::Show { battery_pack, path, non_interactive } => CommandView::Show {
                battery_pack: battery_pack@,
                path: path.deep_view(),
                non_interactive: *non_interactive,
            },
            BpCommands::Status { path } => CommandView::Status { path: path.deep_view() },
            BpCommands::Validate { path } => CommandView::Validate { path: path.deep_view() },
        }
    }
}

/// The subcommand a finished, error-free reading describes.
pub open spec fn command_of(sub: Sub, st: ScanView) -> CommandView {
    let occ = st.occ;
    let pos = st.pos;
    match sub {
        Sub::New => CommandView::New {
            battery_pack: pos[0],
            name: first_value(occ, Opt::Name),
            template: first_value(occ, Opt::Template),
            path: first_value(occ, Opt::Path),
            define: define_pairs(all_values(occ, Opt::Define)),
        },
        Sub::Add => CommandView::Add {
            battery_pack: if pos.len() > 0 { Some(pos[0]) } else { None },
            crates: if pos.len() > 0 { pos.drop_first() } else { pos },
            features: comma_pieces(all_values(occ, Opt::Features)),
            no_default_features: occurs(occ, Opt::NoDefaultFeatures),
            all_features: occurs(occ, Opt::AllFeatures),
            target: match first_value(occ, Opt::Target) {
                Some(v) => target_named(v),
                None => None,
            },
            path: first_value(occ, Opt::Path),
        },
        Sub::Sync => CommandView::Sync { path: first_value(occ, Opt::Path) },
        Sub::List => CommandView::List {
            filter: if pos.len() > 0 { Some(pos[0]) } else { None },
            non_interactive: occurs(occ, Opt::NonInteractive),
        },
        Sub::Show => CommandView::Show {
            battery_pack: pos[0],
            path: first_value(occ, Opt::Path),
            non_interactive: occurs(occ, Opt::NonInteractive),
        },
        Sub::Status => CommandView::Status { path: first_value(occ, Opt::Path) },
        Sub::Validate => CommandView::Validate { path: first_value(occ, Opt::Path) },
    }
}

/// The subcommand that `ts` (the words after its name) describe, or the error.
#[verifier::opaque]
pub open spec fn sub_command(sub: Sub, ts: Seq<Seq<char>>) -> Result<
    CommandView,
    (CliErrorKind, Seq<char>),
> {
    let st = scan(sub, ts);
    if st.err is Some {
        Err(st.err->0)
    } else if st.pending is Some {
        Err((CliErrorKind::MissingValue, opt_label(st.pending->0)))
    } else if (sub == Sub::New || sub == Sub::Show) && st.pos.len() == 0 {
        Err((CliErrorKind::MissingRequired, "<BATTERY_PACK>"@))
    } else {
        Ok(command_of(sub, st))
    }
}

/// The mathematical content of a whole command line.
pub struct CliView {
    pub crate_source: Option<Seq<char>>,
    pub command: Option<CommandView>,
}

/// Read the words of `cargo bp` from position `i` on, with `--crate-source`
/// given as `src` so far.
pub open spec fn bp_level(ts: Seq<Seq<char>>, i: int, src: Option<Seq<char>>) -> Result<
    CliView,
    (CliErrorKind, Seq<char>),
>
    decreases ts.len() - i,
{
    if i < 0 || i >= ts.len() {
        Ok(CliView { crate_source: src, command: None })
    } else {
        let t = ts[i];
        if t == "--help"@ || t == "-h"@ || t == "help"@ {
            Err((CliErrorKind::DisplayHelp, t))
        } else if t == "--crate-source"@ {
            if i + 1 >= ts.len() || option_like(ts[i + 1]) {
                Err((CliErrorKind::MissingValue, "--crate-source"@))
            } else if src is Some {
                Err((CliErrorKind::Repeated, "--crate-source"@))
            } else {
                bp_level(ts, i + 2, Some(ts[i + 1]))
            }
        } else if seq_starts_with(t, "--crate-source="@) {
            if src is Some {
                Err((CliErrorKind::Repeated, "--crate-source"@))
            } else {
                bp_level(ts, i + 1, Some(t.subrange(15, t.len() as int)))
            }
        } else if option_like(t) {
            Err((CliErrorKind::UnexpectedArgument, t))
        } else {
            match sub_named(t) {
                None => Err((CliErrorKind::UnknownSubcommand, t)),
                Some(sub) => match sub_command(sub, ts.subrange(i + 1, ts.len() as int)) {
                    Err(e) => Err(e),
                    Ok(c) => Ok(CliView { crate_source: src, command: Some(c) }),
                },
            }
        }
    }
}

/// What a whole command line (program name first) means, or the error.
pub open spec fn parse_spec(args: Seq<Seq<char>>) -> Result<CliView, (CliErrorKind, Seq<char>)> {
    if args.len() < 2 {
        Err((CliErrorKind::MissingSubcommand, Seq::<char>::empty()))
    } else {
        let t = args[1];
        if t == "bp"@ {
            bp_level(args, 2, None)
        } else if t == "--help"@ || t == "-h"@ || t == "help"@ {
            Err((CliErrorKind::DisplayHelp, t))
        } else if t == "--version"@ || t == "-V"@ {
            Err((CliErrorKind::DisplayVersion, t))
        } else if option_like(t) {
            Err((CliErrorKind::UnexpectedArgument, t))
        } else {
            Err((CliErrorKind::UnknownSubcommand, t))
        }
    }
}


/// Every `--define` value splits at an `=`, and every `--target` value names a target.
pub open spec fn valid_occ(occ: Seq<(Opt, Seq<char>)>) -> bool {
    forall|i: int|
        0 <= i < occ.len() ==> {
            &&& (#[trigger] occ[i]).0 == Opt::Define ==> define_spec(occ[i].1) is Some
            &&& occ[i].0 == Opt::Target ==> target_named(occ[i].1) is Some
        }
}

proof fn lemma_scan_valid(sub: Sub, ts: Seq<Seq<char>>)
    ensures
        valid_occ(scan(sub, ts).occ),
    decreases ts.len(),
{
    if ts.len() > 0 {
        lemma_scan_valid(sub, ts.drop_last());
        let st = scan(sub, ts.drop_last());
        let t = ts.last();
        let r = step(sub, st, t);
        assert forall|i: int| 0 <= i < r.occ.len() implies {
            &&& (#[trigger] r.occ[i]).0 == Opt::Define ==> define_spec(r.occ[i].1) is Some
            &&& r.occ[i].0 == Opt::Target ==> target_named(r.occ[i].1) is Some
        } by {
            if i < st.occ.len() {
                assert(st.occ[i] == r.occ[i]);
            }
        }
    }
}

fn sub_for(w: &str) -> (r: Option<Sub>)
    ensures
        r == sub_named(w@),
{
    if str_eq(w, "new") {
        Some(Sub::New)
    } else if str_eq(w, "add") {
        Some(Sub::Add)
    } else if str_eq(w, "sync") {
        Some(Sub::Sync)
    } else if str_eq(w, "list") || str_eq(w, "ls") {
        Some(Sub::List)
    } else if str_eq(w, "show") || str_eq(w, "info") {
        Some(Sub::Show)
    } else if str_eq(w, "status") || str_eq(w, "stat") {
        Some(Sub::Status)
    } else if str_eq(w, "validate") {
        Some(Sub::Validate)
    } else {
        None
    }
}

fn long_lookup(sub: Sub, n: &str) -> (r: Option<Opt>)
    ensures
        r == long_opt(sub, n@),
{
    if str_eq(n, "path") && sub != Sub::List {
        Some(Opt::Path)
    } else if str_eq(n, "name") && sub == Sub::New {
        Some(Opt::Name)
    } else if str_eq(n, "template") && sub == Sub::New {
        Some(Opt::Template)
    } else if str_eq(n, "define") && sub == Sub::New {
        Some(Opt::Define)
    } else if str_eq(n, "features") && sub == Sub::Add {
        Some(Opt::Features)
    } else if str_eq(n, "no-default-features") && sub == Sub::Add {
        Some(Opt::NoDefaultFeatures)
    } else if str_eq(n, "all-features") && sub == Sub::Add {
        Some(Opt::AllFeatures)
    } else if str_eq(n, "target") && sub == Sub::Add {
        Some(Opt::Target)
    } else if str_eq(n, "non-interactive") && (sub == Sub::List || sub == Sub::Show) {
        Some(Opt::NonInteractive)
    } else {
        None
    }
}

fn short_lookup(sub: Sub, c: char) -> (r: Option<Opt>)
    ensures
        r == short_opt(sub, c),
{
    if c == 'n' && sub == Sub::New {
        Some(Opt::Name)
    } else if c == 't' && sub == Sub::New {
        Some(Opt::Template)
    } else if c == 'd' && sub == Sub::New {
        Some(Opt::Define)
    } else if c == 'F' && sub == Sub::Add {
        Some(Opt::Features)
    } else {
        None
    }
}

fn kind_of(o: Opt) -> (k: OptKind)
    ensures
        k == opt_kind(o),
{
    match o {
        Opt::NoDefaultFeatures | Opt::AllFeatures | Opt::NonInteractive => OptKind::Flag,
        Opt::Define | Opt::Features => OptKind::Multi,
        _ => OptKind::Single,
    }
}

fn label_of(o: Opt) -> (s: &'static str)
    ensures
        s@ == opt_label(o),
{
    match o {
        Opt::Name => "--name",
        Opt::Template => "--template",
        Opt::Path => "--path",
        Opt::Define => "--define",
        Opt::Features => "--features",
        Opt::NoDefaultFeatures => "--no-default-features",
        Opt::AllFeatures => "--all-features",
        Opt::Target => "--target",
        Opt::NonInteractive => "--non-interactive",
    }
}

fn target_for(v: &str) -> (r: Option<AddTarget>)
    ensures
        r == target_named(v@),
{
    if str_eq(v, "workspace") {
        Some(AddTarget::Workspace)
    } else if str_eq(v, "package") {
        Some(AddTarget::Package)
    } else if str_eq(v, "default") {
        Some(AddTarget::Default)
    } else {
        None
    }
}

fn is_option_like(t: &str) -> (b: bool)
    ensures
        b == option_like(t@),
{
    let cs = str_chars(t);
    cs.len() >= 2 && cs[0] == '-'
}

/// The view of a list of option occurrences.
pub open spec fn occ_view(occ: Seq<(Opt, String)>) -> Seq<(Opt, Seq<char>)> {
    occ.map_values(|p: (Opt, String)| (p.0, p.1@))
}

fn has_occ(occ: &Vec<(Opt, String)>, o: Opt) -> (b: bool)
    ensures
        b == occurs(occ_view(occ@), o),
{
    let ghost v = occ_view(occ@);
    let mut i: usize = 0;
    while i < occ.len()
        invariant
            i <= occ@.len(),
            v == occ_view(occ@),
            forall|j: int| 0 <= j < i ==> (#[trigger] v[j]).0 != o,
        decreases occ.len() - i,
    {
        if occ[i].0 == o {
            assert(v[i as int].0 == o);
            return true;
        }
        assert(v[i as int].0 != o);
        i += 1;
    }
    false
}

/// The state of reading a subcommand's arguments.
pub struct Scan {
    pub occ: Vec<(Opt, String)>,
    pub pos: Vec<String>,
    pub pending: Option<Opt>,
    pub dashdash: bool,
    pub err: Option<CliError>,
}

impl Scan {
    pub open spec fn view_scan(&self) -> ScanView {
        ScanView {
            occ: occ_view(self.occ@),
            pos: self.pos.deep_view(),
            pending: self.pending,
            dashdash: self.dashdash,
            err: match self.err {
                Some(e) => Some(e.deep_view()),
                None => None,
            },
        }
    }

    fn start() -> (s: Scan)
        ensures
            s.view_scan() == scan_start(),
    {
        let s = Scan { occ: Vec::new(), pos: Vec::new(), pending: None, dashdash: false, err: None };
        assert(s.view_scan().occ =~= Seq::<(Opt, Seq<char>)>::empty());
        assert(s.view_scan().pos =~= Seq::<Seq<char>>::empty());
        s
    }

    fn fail(&mut self, kind: CliErrorKind, arg: String)
        ensures
            final(self).view_scan() == with_err(old(self).view_scan(), kind, arg@),
    {
        self.err = Some(CliError { kind, arg });
    }

    fn add_value(&mut self, o: Opt, v: String)
        ensures
            final(self).view_scan() == add_value(old(self).view_scan(), o, v@),
    {
        if kind_of(o) == OptKind::Single && has_occ(&self.occ, o) {
            self.fail(CliErrorKind::Repeated, label_of(o).to_string());
        } else if o == Opt::Target && target_for(v.as_str()).is_none() {
            self.fail(CliErrorKind::InvalidValue, v);
        } else if o == Opt::Define && parse_define(v.as_str()).is_err() {
            self.fail(CliErrorKind::InvalidValue, v);
        } else {
            let ghost before = occ_view(self.occ@);
            let ghost vv = v@;
            self.occ.push((o, v));
            assert(occ_view(self.occ@) =~= before.push((o, vv)));
        }
    }

    fn add_flag(&mut self, o: Opt)
        ensures
            final(self).view_scan() == add_flag(old(self).view_scan(), o),
    {
        if has_occ(&self.occ, o) {
            self.fail(CliErrorKind::Repeated, label_of(o).to_string());
        } else {
            let ghost before = occ_view(self.occ@);
            let e = String::new();
            self.occ.push((o, e));
            assert(occ_view(self.occ@) =~= before.push((o, Seq::<char>::empty())));
        }
    }

    fn add_positional(&mut self, sub: Sub, t: String)
        ensures
            final(self).view_scan() == add_positional(sub, old(self).view_scan(), t@),
    {
        let n = self.pos.len();
        let takes = match sub {
            Sub::Add => true,
            Sub::New | Sub::List | Sub::Show => n < 1,
            _ => false,
        };
        if takes {
            let ghost before = self.pos.deep_view();
            let ghost tv = t@;
            self.pos.push(t);
            assert(self.pos.deep_view() =~= before.push(tv));
        } else {
            self.fail(CliErrorKind::UnexpectedArgument, t);
        }
    }

    fn step_long(&mut self, sub: Sub, t: &str)
        requires
            seq_starts_with(t@, "--"@),
        ensures
            final(self).view_scan() == step_long(sub, old(self).view_scan(), t@, t@.subrange(2, t@.len() as int)),
    {
        proof {
            reveal_strlit("--");
        }
        let body = drop_chars(t, 2);
        let (n, v): (String, Option<String>) = match parse_define(body.as_str()) {
            Ok((n, v)) => (n, Some(v)),
            Err(_) => (body, None),
        };
        if str_eq(n.as_str(), "help") {
            self.fail(CliErrorKind::DisplayHelp, t.to_string());
            return;
        }
        match long_lookup(sub, n.as_str()) {
            None => {
                self.fail(CliErrorKind::UnexpectedArgument, t.to_string());
            },
            Some(o) => {
                if kind_of(o) == OptKind::Flag {
                    if v.is_some() {
                        self.fail(CliErrorKind::UnexpectedValue, label_of(o).to_string());
                    } else {
                        self.add_flag(o);
                    }
                } else {
                    match v {
                        Some(v) => self.add_value(o, v),
                        None => {
                            self.pending = Some(o);
                        },
                    }
                }
            },
        }
    }

    fn step_short(&mut self, sub: Sub, t: &str)
        requires
            option_like(t@),
        ensures
            final(self).view_scan() == step_short(sub, old(self).view_scan(), t@),
    {
        let cs = str_chars(t);
        let c = cs[1];
        let rest = drop_chars(t, 2);
        let rc = str_chars(rest.as_str());
        if c == 'h' {
            self.fail(CliErrorKind::DisplayHelp, t.to_string());
            return;
        }
        match short_lookup(sub, c) {
            None => {
                self.fail(CliErrorKind::UnexpectedArgument, t.to_string());
            },
            Some(o) => {
                if rc.len() == 0 {
                    self.pending = Some(o);
                } else if rc[0] == '=' {
                    let v = drop_chars(rest.as_str(), 1);
                    self.add_value(o, v);
                } else {
                    self.add_value(o, rest);
                }
            },
        }
    }

    fn step(&mut self, sub: Sub, t: &str)
        ensures
            final(self).view_scan() == step(sub, old(self).view_scan(), t@),
    {
        if self.err.is_some() {
            return;
        }
        match self.pending {
            Some(o) => {
                if is_option_like(t) {
                    self.fail(CliErrorKind::MissingValue, label_of(o).to_string());
                } else {
                    self.pending = None;
                    self.add_value(o, t.to_string());
                }
                return;
            },
            None => {},
        }
        if self.dashdash {
            self.add_positional(sub, t.to_string());
        } else if str_eq(t, "--") {
            self.dashdash = true;
        } else if starts_with(t, "--") {
            self.step_long(sub, t);
        } else if is_option_like(t) {
            self.step_short(sub, t);
        } else {
            self.add_positional(sub, t.to_string());
        }
    }
}


fn first_val(occ: &Vec<(Opt, String)>, o: Opt) -> (r: Option<String>)
    ensures
        r.deep_view() == first_value(occ_view(occ@), o),
{
    let ghost v = occ_view(occ@);
    let mut i: usize = 0;
    assert(v.skip(0) =~= v);
    while i < occ.len()
        invariant
            i <= occ@.len(),
            v == occ_view(occ@),
            first_value(v, o) == first_value(v.skip(i as int), o),
        decreases occ.len() - i,
    {
        assert(v.skip(i as int)[0] == v[i as int]);
        assert(v.skip(i as int).drop_first() =~= v.skip(i + 1));
        if occ[i].0 == o {
            return Some(occ[i].1.clone());
        }
        i += 1;
    }
    None
}

fn all_vals(occ: &Vec<(Opt, String)>, o: Opt) -> (r: Vec<String>)
    ensures
        r.deep_view() == all_values(occ_view(occ@), o),
{
    let ghost v = occ_view(occ@);
    let mut out: Vec<String> = Vec::new();
    let mut i: usize = 0;
    while i < occ.len()
        invariant
            i <= occ@.len(),
            v == occ_view(occ@),
            out.deep_view() == all_values(v.take(i as int), o),
        decreases occ.len() - i,
    {
        assert(v.take(i + 1).drop_last() =~= v.take(i as int));
        assert(v.take(i + 1).last() == v[i as int]);
        if occ[i].0 == o {
            let ghost before = out.deep_view();
            out.push(occ[i].1.clone());
            assert(out.deep_view() =~= before.push(v[i as int].1));
        }
        i += 1;
    }
    assert(v.take(i as int) =~= v);
    out
}

fn comma_split_all(vals: &Vec<String>) -> (r: Vec<String>)
    ensures
        r.deep_view() == comma_pieces(vals.deep_view()),
{
    let mut out: Vec<String> = Vec::new();
    let mut i: usize = 0;
    while i < vals.len()
        invariant
            i <= vals@.len(),
            out.deep_view() == comma_pieces(vals.deep_view().take(i as int)),
        decreases vals.len() - i,
    {
        proof {
            let t = vals.deep_view().take(i + 1);
            assert(t.drop_last() =~= vals.deep_view().take(i as int));
            assert(t.last() == vals[i as int]@);
        }
        let mut pieces = split_char(vals[i].as_str(), ',');
        let ghost before = out.deep_view();
        let ghost pv = pieces.deep_view();
        out.append(&mut pieces);
        assert(out.deep_view() =~= before + pv);
        i += 1;
    }
    assert(vals.deep_view().take(i as int) =~= vals.deep_view());
    out
}

fn define_all(vals: &Vec<String>) -> (r: Vec<(String, String)>)
    requires
        forall|i: int| 0 <= i < vals@.len() ==> define_spec(#[trigger] vals@[i]@) is Some,
    ensures
        r.deep_view() == define_pairs(vals.deep_view()),
{
    let mut out: Vec<(String, String)> = Vec::new();
    let mut i: usize = 0;
    while i < vals.len()
        invariant
            i <= vals@.len(),
            forall|k: int| 0 <= k < vals@.len() ==> define_spec(#[trigger] vals@[k]@) is Some,
            out.deep_view() == define_pairs(vals.deep_view().take(i as int)),
        decreases vals.len() - i,
    {
        let ghost before = out.deep_view();
        assert(define_spec(vals@[i as int]@) is Some);
        match parse_define(vals[i].as_str()) {
            Ok(p) => {
                let ghost pv = (p.0@, p.1@);
                out.push(p);
                assert(out.deep_view() =~= before.push(pv));
            },
            Err(_) => {},
        }
        assert(out.deep_view() =~= define_pairs(vals.deep_view().take(i + 1)));
        i += 1;
    }
    assert(vals.deep_view().take(i as int) =~= vals.deep_view());
    out
}

/// Build the subcommand from an error-free reading.
fn build_command(sub: Sub, st: Scan) -> (c: BpCommands)
    requires
        st.view_scan().err is None,
        valid_occ(st.view_scan().occ),
        (sub == Sub::New || sub == Sub::Show) ==> st.pos@.len() > 0,
        sub == Sub::List ==> st.pos@.len() <= 1,
    ensures
        c.deep_view() == command_of(sub, st.view_scan()),
{
    let ghost occv = st.view_scan().occ;
    let ghost posv = st.view_scan().pos;
    let path = first_val(&st.occ, Opt::Path);
    match sub {
        Sub::New => {
            let defs = all_vals(&st.occ, Opt::Define);
            proof {
                assert forall|i: int| 0 <= i < defs@.len() implies define_spec(#[trigger] defs@[i]@) is Some by {
                    lemma_all_values_of(occv, Opt::Define, i);
                }
            }
            let define = define_all(&defs);
            let mut pos = st.pos;
            let bp = pos.swap_remove(0);
            BpCommands::New {
                battery_pack: bp,
                name: first_val(&st.occ, Opt::Name),
                template: first_val(&st.occ, Opt::Template),
                path,
                define,
            }
        },
        Sub::Add => {
            let fv = all_vals(&st.occ, Opt::Features);
            let features = comma_split_all(&fv);
            let target = match first_val(&st.occ, Opt::Target) {
                Some(v) => target_for(v.as_str()),
                None => None,
            };
            let ndf = has_occ(&st.occ, Opt::NoDefaultFeatures);
            let af = has_occ(&st.occ, Opt::AllFeatures);
            let mut pos = st.pos;
            if pos.len() > 0 {
                let ghost p0 = pos.deep_view();
                let bp = pos.remove(0);
                assert(pos.deep_view() =~= p0.drop_first());
                BpCommands::Add {
                    battery_pack: Some(bp),
                    crates: pos,
                    features,
                    no_default_features: ndf,
                    all_features: af,
                    target,
                    path,
                }
            } else {
                BpCommands::Add {
                    battery_pack: None,
                    crates: pos,
                    features,
                    no_default_features: ndf,
                    all_features: af,
                    target,
                    path,
                }
            }
        },
        Sub::Sync => BpCommands::Sync { path },
        Sub::List => {
            let ni = has_occ(&st.occ, Opt::NonInteractive);
            let mut pos = st.pos;
            let filter = pos.pop();
            BpCommands::List { filter, non_interactive: ni }
        },
        Sub::Show => {
            let ni = has_occ(&st.occ, Opt::NonInteractive);
            let mut pos = st.pos;
            let bp = pos.swap_remove(0);
            BpCommands::Show { battery_pack: bp, path, non_interactive: ni }
        },
        Sub::Status => BpCommands::Status { path },
        Sub::Validate => BpCommands::Validate { path },
    }
}

proof fn lemma_all_values_of(occ: Seq<(Opt, Seq<char>)>, o: Opt, i: int)
    requires
        0 <= i < all_values(occ, o).len(),
    ensures
        exists|j: int| 0 <= j < occ.len() && (#[trigger] occ[j]).0 == o && occ[j].1 == all_values(occ, o)[i],
    decreases occ.len(),
{
    let r = all_values(occ.drop_last(), o);
    if i < r.len() {
        lemma_all_values_of(occ.drop_last(), o, i);
        let j = choose|j: int| 0 <= j < occ.drop_last().len() && (#[trigger] occ.drop_last()[j]).0 == o && occ.drop_last()[j].1 == r[i];
        assert(occ[j] == occ.drop_last()[j]);
    } else {
        assert(occ[occ.len() - 1] == occ.last());
    }
}

proof fn lemma_list_positionals(ts: Seq<Seq<char>>)
    ensures
        scan(Sub::List, ts).pos.len() <= 1,
    decreases ts.len(),
{
    if ts.len() > 0 {
        lemma_list_positionals(ts.drop_last());
    }
}

/// Read the words after a subcommand's name.
fn read_sub(sub: Sub, ts: &[&str], from: usize) -> (r: Result<BpCommands, CliError>)
    requires
        from <= ts@.len(),
    ensures
        match (r, sub_command(sub, ts@.map_values(|s: &str| s@).subrange(from as int, ts@.len() as int))) {
            (Ok(c), Ok(cv)) => c.deep_view() == cv,
            (Err(e), Err(ev)) => e.deep_view() == ev,
            _ => false,
        },
{
    let ghost all = ts@.map_values(|s: &str| s@);
    let ghost words = all.subrange(from as int, ts@.len() as int);
    proof {
        reveal(sub_command);
    }
    let mut st = Scan::start();
    let mut j: usize = from;
    assert(words.subrange(0, 0) =~= Seq::<Seq<char>>::empty());
    while j < ts.len()
        invariant
            from <= j <= ts@.len(),
            all == ts@.map_values(|s: &str| s@),
            words == all.subrange(from as int, ts@.len() as int),
            st.view_scan() == scan(sub, words.subrange(0, j - from)),
        decreases ts.len() - j,
    {
        proof {
            let w = words.subrange(0, j + 1 - from);
            assert(w.drop_last() =~= words.subrange(0, j - from));
            assert(w.last() == ts@[j as int]@);
        }
        st.step(sub, ts[j]);
        j += 1;
    }
    proof {
        assert(words.subrange(0, j - from) =~= words);
        lemma_scan_valid(sub, words);
        lemma_list_positionals(words);
    }
    if st.err.is_some() {
        match st.err {
            Some(e) => return Err(e),
            None => {},
        }
    }
    match st.pending {
        Some(o) => {
            return Err(CliError { kind: CliErrorKind::MissingValue, arg: label_of(o).to_string() });
        },
        None => {},
    }
    if (sub == Sub::New || sub == Sub::Show) && st.pos.len() == 0 {
        return Err(CliError { kind: CliErrorKind::MissingRequired, arg: "<BATTERY_PACK>".to_string() });
    }
    Ok(build_command(sub, st))
}


/// The top-level commands.
#[derive(Debug)]
pub enum Commands {
    /// Battery pack commands.
    Bp {
        /// A local workspace used as the battery pack source in place of crates.io.
        crate_source: Option<String>,
        /// The subcommand; none for bare `cargo bp`.
        command: Option<BpCommands>,
    },
}

/// A parsed `cargo bp` command line.
#[derive(Debug)]
pub struct Cli {
    pub command: Commands,
}

impl Cli {
    /// The mathematical content of the command line.
    pub open spec fn view_cli(&self) -> CliView {
        match self.command {
            Commands::Bp { crate_source, command } => CliView {
                crate_source: crate_source.deep_view(),
                command: match command {
                    Some(c) => Some(c.deep_view()),
                    None => None,
                },
            },
        }
    }

    /// Parse a command line, the program name first.
    pub fn try_parse_from(args: &[&str]) -> (r: Result<Cli, CliError>)
        ensures
            match (r, parse_spec(args@.map_values(|s: &str| s@))) {
                (Ok(c), Ok(cv)) => c.view_cli() == cv,
                (Err(e), Err(ev)) => e.deep_view() == ev,
                _ => false,
            },
    {
        let ghost all = args@.map_values(|s: &str| s@);
        if args.len() < 2 {
            return Err(CliError { kind: CliErrorKind::MissingSubcommand, arg: String::new() });
        }
        let t = args[1];
        assert(all[1] == t@);
        if !str_eq(t, "bp") {
            if str_eq(t, "--help") || str_eq(t, "-h") || str_eq(t, "help") {
                return Err(CliError { kind: CliErrorKind::DisplayHelp, arg: t.to_string() });
            } else if str_eq(t, "--version") || str_eq(t, "-V") {
                return Err(CliError { kind: CliErrorKind::DisplayVersion, arg: t.to_string() });
            } else if is_option_like(t) {
                return Err(CliError { kind: CliErrorKind::UnexpectedArgument, arg: t.to_string() });
            } else {
                return Err(CliError { kind: CliErrorKind::UnknownSubcommand, arg: t.to_string() });
            }
        }
        proof {
            reveal_strlit("--crate-source=");
        }
        let mut src: Option<String> = None;
        let mut i: usize = 2;
        while i < args.len()
            invariant
                2 <= i <= args@.len(),
                all == args@.map_values(|s: &str| s@),
                parse_spec(all) == bp_level(all, i as int, src.deep_view()),
            decreases args.len() - i,
        {
            let t = args[i];
            assert(all[i as int] == t@);
            if str_eq(t, "--help") || str_eq(t, "-h") || str_eq(t, "help") {
                return Err(CliError { kind: CliErrorKind::DisplayHelp, arg: t.to_string() });
            } else if str_eq(t, "--crate-source") {
                if i + 1 >= args.len() || is_option_like(args[i + 1]) {
                    return Err(CliError { kind: CliErrorKind::MissingValue, arg: "--crate-source".to_string() });
                }
                if src.is_some() {
                    return Err(CliError { kind: CliErrorKind::Repeated, arg: "--crate-source".to_string() });
                }
                assert(all[i + 1] == args@[i + 1]@);
                src = Some(args[i + 1].to_string());
                i += 2;
            } else if starts_with(t, "--crate-source=") {
                if src.is_some() {
                    return Err(CliError { kind: CliErrorKind::Repeated, arg: "--crate-source".to_string() });
                }
                proof {
                    reveal_strlit("--crate-source=");
                }
                src = Some(drop_chars(t, 15));
                i += 1;
            } else if is_option_like(t) {
                return Err(CliError { kind: CliErrorKind::UnexpectedArgument, arg: t.to_string() });
            } else {
                match sub_for(t) {
                    None => {
                        return Err(CliError { kind: CliErrorKind::UnknownSubcommand, arg: t.to_string() });
                    },
                    Some(sub) => {
                        assert(all.subrange(i + 1, all.len() as int) =~= args@.map_values(|s: &str| s@).subrange(i + 1, args@.len() as int));
                        match read_sub(sub, args, i + 1) {
                            Err(e) => return Err(e),
                            Ok(c) => {
                                return Ok(Cli { command: Commands::Bp { crate_source: src, command: Some(c) } });
                            },
                        }
                    },
                }
            }
        }
        Ok(Cli { command: Commands::Bp { crate_source: src, command: None } })
    }
}

} // verus!
