//! Project templates: placeholder resolution, template variables and the
//! shaping of the rendered file set.
use vstd::prelude::*;
use crate::common::{DeepClone, vec_contains_str};
use crate::strmap::StrMap;
use crate::text::{str_chars, str_eq, str_lt, seq_lt, cat, cat3, seq_starts_with, seq_ends_with,
    strip_prefix, strip_suffix, split_once_char, split_once_spec};
use crate::lines::{trim, trim_spec, lines, lines_spec};
use crate::sorting::{sort_by_key, lemma_insert_at, lemma_sort_sorted, law_sort_by_key};
use crate::manifest::opt_view;
use crate::build_script::{crate_ident, ident_of};
use crate::version::{semver_valid, semver_less, semver_parses, semver_lt};

verus! {

/// The kind of a placeholder in `bp-template.toml`.
#[derive(Debug, Clone, Copy, PartialEq, Eq, Structural)]
pub enum PlaceholderKind {
    /// Free text (the default kind).
    Text,
    /// Yes or no; rendered as `true` / `false`.
    Bool,
    /// One of a fixed list of options.
    Select,
}

/// A placeholder definition.
#[derive(Debug)]
pub struct PlaceholderDef {
    /// The prompt shown when asking; the placeholder's name when absent.
    pub prompt: Option<String>,
    /// The value used when nobody is asked.
    pub default: Option<String>,
    pub kind: PlaceholderKind,
    /// The valid values of a `select` placeholder.
    pub options: Vec<String>,
}

/// The content of a placeholder definition.
pub struct PlaceholderDefView {
    pub prompt: Option<Seq<char>>,
    pub default: Option<Seq<char>>,
    pub kind: PlaceholderKind,
    pub options: Seq<Seq<char>>,
}

impl DeepView for PlaceholderDef {
    type V = PlaceholderDefView;

    open spec fn deep_view(&self) -> PlaceholderDefView {
        PlaceholderDefView {
            prompt: opt_view(self.prompt),
            default: opt_view(self.default),
            kind: self.kind,
            options: self.options.deep_view(),
        }
    }
}

impl DeepClone for PlaceholderDef {
    fn deep_clone(&self) -> (r: PlaceholderDef) {
        PlaceholderDef {
            prompt: self.prompt.deep_clone(),
            default: self.default.deep_clone(),
            kind: self.kind,
            options: self.options.deep_clone(),
        }
    }
}

/// What settles one placeholder: a value, or a question for the user.
#[derive(Debug)]
pub enum PlaceholderStep {
    /// The value is known.
    Value(String),
    /// Ask for a line of text, offering the default.
    AskText { prompt: String, default: Option<String> },
    /// Ask yes or no.
    AskBool { prompt: String, default: bool },
    /// Ask to pick one of the options.
    AskSelect { prompt: String, options: Vec<String>, default_index: usize },
}

/// The content of a placeholder step.
pub enum StepView {
    Value(Seq<char>),
    AskText { prompt: Seq<char>, default: Option<Seq<char>> },
    AskBool { prompt: Seq<char>, default: bool },
    AskSelect { prompt: Seq<char>, options: Seq<Seq<char>>, default_index: nat },
}

impl DeepView for PlaceholderStep {
    type V = StepView;

    open spec fn deep_view(&self) -> StepView {
        match self {
            PlaceholderStep::Value(v) => StepView::Value(v@),
            PlaceholderStep::AskText { prompt, default } => StepView::AskText {
                prompt: prompt@,
                default: opt_view(*default),
            },
            PlaceholderStep::AskBool { prompt, default } => StepView::AskBool {
                prompt: prompt@,
                default: *default,
            },
            PlaceholderStep::AskSelect { prompt, options, default_index } => StepView::AskSelect {
                prompt: prompt@,
                options: options.deep_view(),
                default_index: *default_index as nat,
            },
        }
    }
}

/// The text of a list of strings in Rust's `{:?}` form (`["a", "b"]`).
pub uninterp spec fn debug_list_text(items: Seq<Seq<char>>) -> Seq<char>;

/// Formats the list with `{:?}` (std's `Debug` for `Vec<String>`).
#[verifier::external_body]
fn debug_strings(items: &Vec<String>) -> (r: String)
    ensures
        r@ == debug_list_text(items.deep_view()),
{
    format!("{:?}", items)
}

pub open spec fn dash_msg(name: Seq<char>) -> Seq<char> {
    "placeholder '"@ + name + "' contains '-'; use snake_case (MiniJinja treats '-' as minus)"@
}

pub open spec fn no_options_msg(name: Seq<char>) -> Seq<char> {
    "select placeholder '"@ + name + "' has no options"@
}

pub open spec fn no_default_msg(name: Seq<char>) -> Seq<char> {
    "placeholder '"@ + name + "' has no default and no value provided"@
}

pub open spec fn not_in_options_msg(name: Seq<char>, val: Seq<char>, options: Seq<Seq<char>>) -> Seq<char> {
    "placeholder '"@ + name + "' default '"@ + val + "' is not in options: "@ + debug_list_text(options)
}

/// `s` reads `true` ignoring ASCII case (`eq_ignore_ascii_case("true")`).
pub open spec fn is_true_word(s: Seq<char>) -> bool {
    &&& s.len() == 4
    &&& (s[0] == 't' || s[0] == 'T')
    &&& (s[1] == 'r' || s[1] == 'R')
    &&& (s[2] == 'u' || s[2] == 'U')
    &&& (s[3] == 'e' || s[3] == 'E')
}

/// The position of the first `x` in `s`.
pub open spec fn first_pos(s: Seq<Seq<char>>, x: Seq<char>) -> Option<nat>
    decreases s.len(),
{
    if s.len() == 0 {
        None
    } else if s[0] == x {
        Some(0)
    } else {
        match first_pos(s.drop_first(), x) {
            Some(i) => Some(i + 1),
            None => None,
        }
    }
}

/// The content of an optional borrowed string.
pub open spec fn given_view(g: Option<&String>) -> Option<Seq<char>> {
    match g {
        Some(s) => Some(s@),
        None => None,
    }
}

/// The prompt: the definition's own, else the placeholder's name.
pub open spec fn prompt_of(name: Seq<char>, d: PlaceholderDefView) -> Seq<char> {
    match d.prompt {
        Some(p) => p,
        None => name,
    }
}

/// How one placeholder is settled: by a given value, by a question when
/// interactive, else by its default; or the error that stops resolution.
pub open spec fn step_spec(
    name: Seq<char>,
    d: PlaceholderDefView,
    given: Option<Seq<char>>,
    interactive: bool,
) -> Result<StepView, Seq<char>> {
    if name.contains('-') {
        Err(dash_msg(name))
    } else if given is Some {
        Ok(StepView::Value(given->0))
    } else {
        match d.kind {
            PlaceholderKind::Text => if interactive {
                Ok(StepView::AskText { prompt: prompt_of(name, d), default: d.default })
            } else {
                match d.default {
                    Some(v) => Ok(StepView::Value(v)),
                    None => Err(no_default_msg(name)),
                }
            },
            PlaceholderKind::Bool => if interactive {
                Ok(StepView::AskBool {
                    prompt: prompt_of(name, d),
                    default: d.default is Some && is_true_word(d.default->0),
                })
            } else {
                match d.default {
                    Some(v) => Ok(StepView::Value(v)),
                    None => Ok(StepView::Value("false"@)),
                }
            },
            PlaceholderKind::Select => if d.options.len() == 0 {
                Err(no_options_msg(name))
            } else if interactive {
                Ok(StepView::AskSelect {
                    prompt: prompt_of(name, d),
                    options: d.options,
                    default_index: match d.default {
                        Some(v) => match first_pos(d.options, v) {
                            Some(i) => i,
                            None => 0,
                        },
                        None => 0,
                    },
                })
            } else {
                match d.default {
                    Some(v) => if d.options.contains(v) {
                        Ok(StepView::Value(v))
                    } else {
                        Err(not_in_options_msg(name, v, d.options))
                    },
                    None => Err(no_default_msg(name)),
                }
            },
        }
    }
}

/// Whether `s` contains the character `c`.
pub fn has_char(s: &str, c: char) -> (r: bool)
    ensures
        r == s@.contains(c),
{
    let cs = str_chars(s);
    let mut i: usize = 0;
    while i < cs.len()
        invariant
            cs@ == s@,
            i <= cs@.len(),
            forall|j: int| 0 <= j < i ==> cs@[j] != c,
        decreases cs.len() - i,
    {
        if cs[i] == c {
            assert(s@[i as int] == c);
            return true;
        }
        i += 1;
    }
    false
}

/// Whether `s` is `true` ignoring ASCII case.
fn true_word(s: &str) -> (r: bool)
    ensures
        r == is_true_word(s@),
{
    let cs = str_chars(s);
    if cs.len() != 4 {
        return false;
    }
    (cs[0] == 't' || cs[0] == 'T') && (cs[1] == 'r' || cs[1] == 'R') && (cs[2] == 'u'
        || cs[2] == 'U') && (cs[3] == 'e' || cs[3] == 'E')
}

/// The first position of `x` in `v`.
fn position_of(v: &Vec<String>, x: &str) -> (r: Option<usize>)
    ensures
        r matches Some(i) ==> first_pos(v.deep_view(), x@) == Some(i as nat),
        r is None ==> first_pos(v.deep_view(), x@) is None,
{
    let ghost s = v.deep_view();
    let mut i: usize = 0;
    assert(s.skip(0) =~= s);
    while i < v.len()
        invariant
            s == v.deep_view(),
            i <= v.len(),
            first_pos(s, x@) == match first_pos(s.skip(i as int), x@) {
                Some(k) => Some((k + i) as nat),
                None => None::<nat>,
            },
        decreases v.len() - i,
    {
        proof {
            let t = s.skip(i as int);
            assert(t.drop_first() =~= s.skip(i + 1));
            assert(t[0] == s[i as int]);
        }
        if str_eq(v[i].as_str(), x) {
            return Some(i);
        }
        i += 1;
    }
    proof {
        assert(s.skip(i as int).len() == 0);
    }
    None
}

/// Decide how the placeholder `name` is settled: by the value given for it,
/// by a question when `interactive`, or else by its default; `Err` naming
/// the placeholder when it cannot be settled.
pub fn placeholder_step(
    name: &str,
    def: &PlaceholderDef,
    given: Option<&String>,
    interactive: bool,
) -> (r: Result<PlaceholderStep, String>)
    ensures
        match (r, step_spec(name@, def.deep_view(), given_view(given), interactive)) {
            (Ok(s), Ok(t)) => s.deep_view() == t,
            (Err(e), Err(m)) => e@ == m,
            _ => false,
        },
{
    if has_char(name, '-') {
        return Err(cat3("placeholder '", name, "' contains '-'; use snake_case (MiniJinja treats '-' as minus)"));
    }
    if let Some(v) = given {
        return Ok(PlaceholderStep::Value(v.clone()));
    }
    let prompt = match &def.prompt {
        Some(p) => p.clone(),
        None => name.to_owned(),
    };
    match def.kind {
        PlaceholderKind::Text => {
            if interactive {
                Ok(PlaceholderStep::AskText { prompt, default: def.default.deep_clone() })
            } else {
                match &def.default {
                    Some(v) => Ok(PlaceholderStep::Value(v.clone())),
                    None => Err(cat3("placeholder '", name, "' has no default and no value provided")),
                }
            }
        },
        PlaceholderKind::Bool => {
            if interactive {
                let default = match &def.default {
                    Some(d) => true_word(d.as_str()),
                    None => false,
                };
                Ok(PlaceholderStep::AskBool { prompt, default })
            } else {
                match &def.default {
                    Some(v) => Ok(PlaceholderStep::Value(v.clone())),
                    None => Ok(PlaceholderStep::Value("false".to_owned())),
                }
            }
        },
        PlaceholderKind::Select => {
            if def.options.len() == 0 {
                return Err(cat3("select placeholder '", name, "' has no options"));
            }
            if interactive {
                let default_index = match &def.default {
                    Some(d) => match position_of(&def.options, d.as_str()) {
                        Some(i) => i,
                        None => 0,
                    },
                    None => 0,
                };
                Ok(PlaceholderStep::AskSelect {
                    prompt,
                    options: def.options.deep_clone(),
                    default_index,
                })
            } else {
                match &def.default {
                    Some(v) => {
                        if vec_contains_str(&def.options, v.as_str()) {
                            Ok(PlaceholderStep::Value(v.clone()))
                        } else {
                            let head = cat3("placeholder '", name, "' default '");
                            let mid = cat3(head.as_str(), v.as_str(), "' is not in options: ");
                            let list = debug_strings(&def.options);
                            Err(cat(mid.as_str(), list.as_str()))
                        }
                    },
                    None => Err(cat3("placeholder '", name, "' has no default and no value provided")),
                }
            }
        },
    }
}


/// The given value for `name`, if any.
pub open spec fn given_in(given: Map<Seq<char>, Seq<char>>, name: Seq<char>) -> Option<Seq<char>> {
    if given.contains_key(name) {
        Some(given[name])
    } else {
        None
    }
}

/// Settle the first `n` placeholders in order without asking anyone: the
/// variables after them, and the error of the first that cannot be settled
/// (those after it are left alone).
pub open spec fn resolve_spec(
    names: Seq<Seq<char>>,
    defs: Seq<PlaceholderDefView>,
    given: Map<Seq<char>, Seq<char>>,
    vars: Map<Seq<char>, Seq<char>>,
    n: nat,
) -> (Map<Seq<char>, Seq<char>>, Option<Seq<char>>)
    decreases n,
{
    if n == 0 {
        (vars, None)
    } else {
        let (m, e) = resolve_spec(names, defs, given, vars, (n - 1) as nat);
        if e is Some {
            (m, e)
        } else {
            let k = n - 1;
            match step_spec(names[k], defs[k], given_in(given, names[k]), false) {
                Ok(StepView::Value(v)) => (m.insert(names[k], v), None),
                Ok(_) => (m, None),
                Err(msg) => (m, Some(msg)),
            }
        }
    }
}

/// Settle every placeholder without prompting, in name order: a value given
/// in `defines` wins, else the default (`false` for a yes/no placeholder
/// without one); each settled value is stored in `variables`. Stops at the
/// first placeholder that cannot be settled and returns its error.
pub fn resolve_placeholders(
    defs: &StrMap<PlaceholderDef>,
    defines: &StrMap<String>,
    variables: &mut StrMap<String>,
) -> (r: Result<(), String>)
    requires
        defs.wf(),
        defines.wf(),
        old(variables).wf(),
    ensures
        final(variables).wf(),
        ({
            let (m, e) = resolve_spec(defs.keys(), defs.vals(), defines.map(), old(variables).map(), defs.keys().len());
            &&& final(variables).map() == m
            &&& r is Ok <==> e is None
            &&& r matches Err(x) ==> e == Some(x@)
        }),
{
    let ghost names = defs.keys();
    let ghost dvs = defs.vals();
    let ghost m0 = variables.map();
    let mut failure: Option<String> = None;
    let mut i: usize = 0;
    while i < defs.entries.len() && failure.is_none()
        invariant
            defs.wf(),
            defines.wf(),
            variables.wf(),
            names == defs.keys(),
            dvs == defs.vals(),
            i <= defs.entries@.len(),
            failure is None ==> resolve_spec(names, dvs, defines.map(), m0, i as nat) == (variables.map(), None::<Seq<char>>),
            failure matches Some(e) ==> resolve_spec(names, dvs, defines.map(), m0, names.len()) == (variables.map(), Some(e@)),
        decreases defs.entries.len() - i,
    {
        let name = &defs.entries[i].0;
        let def = &defs.entries[i].1;
        let given = defines.get(name.as_str());
        proof {
            assert(names[i as int] == name@);
            assert(dvs[i as int] == def.deep_view());
            assert(given_view(given) == given_in(defines.map(), name@));
        }
        match placeholder_step(name.as_str(), def, given, false) {
            Ok(PlaceholderStep::Value(v)) => {
                variables.insert(name.clone(), v);
            },
            Ok(_) => {},
            Err(e) => {
                proof {
                    assert(resolve_spec(names, dvs, defines.map(), m0, (i + 1) as nat) == (variables.map(), Some(e@)));
                    lemma_resolve_stops(names, dvs, defines.map(), m0, (i + 1) as nat, names.len());
                }
                failure = Some(e);
            },
        }
        i += 1;
    }
    match failure {
        Some(e) => Err(e),
        None => Ok(()),
    }
}

/// Once resolution has failed, later placeholders change nothing.
pub proof fn lemma_resolve_stops(
    names: Seq<Seq<char>>,
    defs: Seq<PlaceholderDefView>,
    given: Map<Seq<char>, Seq<char>>,
    vars: Map<Seq<char>, Seq<char>>,
    k: nat,
    n: nat,
)
    requires
        k <= n,
        resolve_spec(names, defs, given, vars, k).1 is Some,
    ensures
        resolve_spec(names, defs, given, vars, n) == resolve_spec(names, defs, given, vars, k),
    decreases n - k,
{
    if k < n {
        lemma_resolve_stops(names, defs, given, vars, k, (n - 1) as nat);
    }
}

/// A user's answer to a placeholder question.
#[derive(Debug)]
pub enum PromptAnswer {
    /// A line of text.
    Text(String),
    /// Yes or no.
    Bool(bool),
    /// The position of the chosen option.
    Index(usize),
}

/// The value an answer gives a placeholder step: the step's own value, the
/// text typed, `true`/`false`, or the chosen option; `None` when the answer
/// does not fit the question.
pub open spec fn answer_spec(step: StepView, a: PromptAnswer) -> Option<Seq<char>> {
    match (step, a) {
        (StepView::Value(v), _) => Some(v),
        (StepView::AskText { .. }, PromptAnswer::Text(t)) => Some(t@),
        (StepView::AskBool { .. }, PromptAnswer::Bool(b)) => Some(if b { "true"@ } else { "false"@ }),
        (StepView::AskSelect { options, .. }, PromptAnswer::Index(i)) => if i < options.len() {
            Some(options[i as int])
        } else {
            None
        },
        _ => None,
    }
}

/// The placeholder value that results from answering a step's question.
pub fn answer_value(step: &PlaceholderStep, answer: PromptAnswer) -> (r: Option<String>)
    ensures
        opt_view(r) == answer_spec(step.deep_view(), answer),
{
    match (step, answer) {
        (PlaceholderStep::Value(v), _) => Some(v.clone()),
        (PlaceholderStep::AskText { .. }, PromptAnswer::Text(t)) => Some(t),
        (PlaceholderStep::AskBool { .. }, PromptAnswer::Bool(b)) => Some(
            if b {
                "true".to_owned()
            } else {
                "false".to_owned()
            },
        ),
        (PlaceholderStep::AskSelect { options, .. }, PromptAnswer::Index(i)) => {
            if i < options.len() {
                Some(options[i].clone())
            } else {
                None
            }
        },
        _ => None,
    }
}


/// The stand-in a preview uses for a placeholder without a default: `<name>`.
pub open spec fn stand_in(name: Seq<char>) -> Seq<char> {
    "<"@ + name + ">"@
}

/// The values a preview renders with, after the first `n` placeholders:
/// every given value kept, and each placeholder without one set to its
/// default, or to `<name>` when it has none.
pub open spec fn preview_spec(
    names: Seq<Seq<char>>,
    defs: Seq<PlaceholderDefView>,
    given: Map<Seq<char>, Seq<char>>,
    n: nat,
) -> Map<Seq<char>, Seq<char>>
    decreases n,
{
    if n == 0 {
        given
    } else {
        let m = preview_spec(names, defs, given, (n - 1) as nat);
        let k = n - 1;
        if m.contains_key(names[k]) {
            m
        } else {
            m.insert(
                names[k],
                match defs[k].default {
                    Some(d) => d,
                    None => stand_in(names[k]),
                },
            )
        }
    }
}

/// Fill in a value for each placeholder that `defines` lacks, so a preview
/// always renders: its default, or `<name>`.
pub fn preview_defines(defs: &StrMap<PlaceholderDef>, defines: &mut StrMap<String>)
    requires
        defs.wf(),
        old(defines).wf(),
    ensures
        final(defines).wf(),
        final(defines).map() == preview_spec(defs.keys(), defs.vals(), old(defines).map(), defs.keys().len()),
{
    let ghost names = defs.keys();
    let ghost dvs = defs.vals();
    let ghost m0 = defines.map();
    let mut i: usize = 0;
    while i < defs.entries.len()
        invariant
            defs.wf(),
            defines.wf(),
            names == defs.keys(),
            dvs == defs.vals(),
            i <= defs.entries@.len(),
            preview_spec(names, dvs, m0, i as nat) == defines.map(),
        decreases defs.entries.len() - i,
    {
        let name = &defs.entries[i].0;
        let def = &defs.entries[i].1;
        proof {
            assert(names[i as int] == name@);
            assert(dvs[i as int] == def.deep_view());
        }
        if !defines.contains_key(name.as_str()) {
            let value = match &def.default {
                Some(d) => d.clone(),
                None => cat3("<", name.as_str(), ">"),
            };
            defines.insert(name.clone(), value);
        }
        i += 1;
    }
}

/// The variables every template has: `project_name`, and `crate_name`, the
/// project name with `-` turned into `_`.
pub open spec fn base_vars(project_name: Seq<char>) -> Map<Seq<char>, Seq<char>> {
    Map::empty().insert("project_name"@, project_name).insert("crate_name"@, crate_ident(project_name))
}

/// The variables every template has, for a project name.
pub fn base_variables(project_name: &str) -> (r: StrMap<String>)
    ensures
        r.wf(),
        r.map() == base_vars(project_name@),
{
    let mut m: StrMap<String> = StrMap::new();
    m.insert("project_name".to_owned(), project_name.to_owned());
    m.insert("crate_name".to_owned(), ident_of(project_name));
    m
}

/// The variables a template renders with when nobody is asked: the project
/// and crate names, then each placeholder settled as `resolve_placeholders`
/// settles it.
pub fn prepare_render(
    project_name: &str,
    defs: &StrMap<PlaceholderDef>,
    defines: &StrMap<String>,
) -> (r: Result<StrMap<String>, String>)
    requires
        defs.wf(),
        defines.wf(),
    ensures
        ({
            let (m, e) = resolve_spec(defs.keys(), defs.vals(), defines.map(), base_vars(project_name@), defs.keys().len());
            &&& r is Ok <==> e is None
            &&& r matches Ok(v) ==> v.wf() && v.map() == m
            &&& r matches Err(x) ==> e == Some(x@)
        }),
{
    let mut vars = base_variables(project_name);
    match resolve_placeholders(defs, defines, &mut vars) {
        Ok(()) => Ok(vars),
        Err(e) => Err(e),
    }
}

/// A template variable as the template sees it: `true` and `false` become
/// booleans so that `{% if flag %}` works; anything else stays text.
#[derive(Debug)]
pub enum GlobalValue {
    Bool(bool),
    Text(String),
}

/// How a variable's value is registered with the template engine.
pub fn global_value(value: &str) -> (r: GlobalValue)
    ensures
        value@ == "true"@ ==> (r matches GlobalValue::Bool(b) && b),
        value@ == "false"@ ==> (r matches GlobalValue::Bool(b) && !b),
        value@ != "true"@ && value@ != "false"@ ==> (r matches GlobalValue::Text(t) && t@ == value@),
{
    proof {
        reveal_strlit("true");
        reveal_strlit("false");
        assert("true"@.len() != "false"@.len());
    }
    if str_eq(value, "true") {
        GlobalValue::Bool(true)
    } else if str_eq(value, "false") {
        GlobalValue::Bool(false)
    } else {
        GlobalValue::Text(value.to_owned())
    }
}

/// Whether a path, given by its components, has a component named in the
/// ignore list.
pub fn should_ignore(components: &Vec<String>, ignore: &Vec<String>) -> (r: bool)
    ensures
        r == exists|i: int| 0 <= i < components.len() && ignore.deep_view().contains(#[trigger] components.deep_view()[i]),
{
    let mut i: usize = 0;
    while i < components.len()
        invariant
            i <= components.len(),
            forall|j: int| 0 <= j < i ==> !ignore.deep_view().contains(#[trigger] components.deep_view()[j]),
        decreases components.len() - i,
    {
        if vec_contains_str(ignore, components[i].as_str()) {
            assert(ignore.deep_view().contains(components.deep_view()[i as int]));
            return true;
        }
        i += 1;
    }
    false
}

/// Which whole-file includes are added, in order: one whose destination
/// already holds a rendered file, or an earlier include, is skipped.
pub open spec fn include_plan(paths: Seq<Seq<char>>, dests: Seq<Seq<char>>) -> (Seq<Seq<char>>, Seq<bool>)
    decreases dests.len(),
{
    if dests.len() == 0 {
        (paths, Seq::empty())
    } else {
        let (have, taken) = include_plan(paths, dests.drop_last());
        if have.contains(dests.last()) {
            (have, taken.push(false))
        } else {
            (have.push(dests.last()), taken.push(true))
        }
    }
}

/// For each whole-file include, whether it is added to the rendered files.
pub fn plan_includes(paths: &Vec<String>, dests: &Vec<String>) -> (r: Vec<bool>)
    ensures
        r@ == include_plan(paths.deep_view(), dests.deep_view()).1,
{
    let mut have: Vec<String> = paths.deep_clone();
    let mut taken: Vec<bool> = Vec::new();
    let mut i: usize = 0;
    while i < dests.len()
        invariant
            i <= dests.len(),
            (have.deep_view(), taken@) == include_plan(paths.deep_view(), dests.deep_view().take(i as int)),
        decreases dests.len() - i,
    {
        proof {
            let t = dests.deep_view().take(i + 1);
            assert(t.drop_last() =~= dests.deep_view().take(i as int));
            assert(t.last() == dests.deep_view()[i as int]);
        }
        if vec_contains_str(&have, dests[i].as_str()) {
            taken.push(false);
        } else {
            let ghost before = have.deep_view();
            have.push(dests[i].clone());
            proof {
                assert(have.deep_view() =~= before.push(dests.deep_view()[i as int]));
            }
            taken.push(true);
        }
        i += 1;
    }
    proof {
        assert(dests.deep_view().take(i as int) =~= dests.deep_view());
    }
    taken
}


/// A rendered file of a template: its path within the project and its text.
#[derive(Debug)]
pub struct RenderedFile {
    pub path: String,
    pub content: String,
}

impl DeepView for RenderedFile {
    type V = (Seq<char>, Seq<char>);

    open spec fn deep_view(&self) -> (Seq<char>, Seq<char>) {
        (self.path@, self.content@)
    }
}

/// A file whose text is only whitespace renders to nothing.
pub open spec fn is_blank(f: (Seq<char>, Seq<char>)) -> bool {
    trim_spec(f.1).len() == 0
}

/// The files that are not blank, in order.
pub open spec fn kept_files(s: Seq<(Seq<char>, Seq<char>)>) -> Seq<(Seq<char>, Seq<char>)>
    decreases s.len(),
{
    if s.len() == 0 {
        s
    } else if is_blank(s.last()) {
        kept_files(s.drop_last())
    } else {
        kept_files(s.drop_last()).push(s.last())
    }
}

/// The rendered files as a project gets them: blank ones dropped, the rest
/// ordered by path.
pub fn finish_rendered(files: &Vec<RenderedFile>) -> (r: Vec<RenderedFile>)
    ensures
        r.deep_view() == sort_by_key(kept_files(files.deep_view())),
{
    let ghost fs = files.deep_view();
    let mut out: Vec<RenderedFile> = Vec::new();
    let mut i: usize = 0;
    while i < files.len()
        invariant
            fs == files.deep_view(),
            i <= files.len(),
            out.deep_view() == sort_by_key(kept_files(fs.take(i as int))),
        decreases files.len() - i,
    {
        proof {
            let t = fs.take(i + 1);
            assert(t.drop_last() =~= fs.take(i as int));
            assert(t.last() == fs[i as int]);
        }
        let f = &files[i];
        let trimmed = trim(f.content.as_str());
        if str_chars(trimmed.as_str()).len() > 0 {
            let x = RenderedFile { path: f.path.clone(), content: f.content.clone() };
            let ghost xv = x.deep_view();
            let ghost sorted = out.deep_view();
            proof {
                assert(xv == fs[i as int]);
                assert(kept_files(fs.take(i + 1)) == kept_files(fs.take(i as int)).push(xv));
                assert(kept_files(fs.take(i + 1)).drop_last() =~= kept_files(fs.take(i as int)));
            }
            let mut pos: usize = out.len();
            while pos > 0 && str_lt(x.path.as_str(), out[pos - 1].path.as_str())
                invariant
                    pos <= out.len(),
                    sorted == out.deep_view(),
                    xv == x.deep_view(),
                    forall|k: int| pos <= k < sorted.len() ==> seq_lt(xv.0, #[trigger] sorted[k].0),
                decreases pos,
            {
                pos -= 1;
            }
            proof {
                lemma_insert_at(sorted, xv, pos as int);
            }
            out.insert(pos, x);
            proof {
                assert(out.deep_view() =~= sorted.insert(pos as int, xv));
            }
        } else {
            proof {
                assert(kept_files(fs.take(i + 1)) == kept_files(fs.take(i as int)));
            }
        }
        i += 1;
    }
    proof {
        assert(fs.take(i as int) =~= fs);
    }
    out
}


/// A ref's tag name: without `refs/tags/` when it has it.
pub open spec fn tag_of_ref(r: Seq<char>) -> Seq<char> {
    if seq_starts_with(r, "refs/tags/"@) {
        r.subrange("refs/tags/"@.len() as int, r.len() as int)
    } else {
        r
    }
}

/// The tag an annotated tag's dereferenced line (`<tag>^{}`) stands for.
pub open spec fn deref_base(t: Seq<char>) -> Option<Seq<char>> {
    if seq_ends_with(t, "^{}"@) {
        Some(t.subrange(0, t.len() - "^{}"@.len()))
    } else {
        None
    }
}

/// The position of the first tag named `name`.
pub open spec fn find_tag(tags: Seq<(Seq<char>, Seq<char>)>, name: Seq<char>) -> Option<int>
    decreases tags.len(),
{
    if tags.len() == 0 {
        None
    } else {
        match find_tag(tags.drop_last(), name) {
            Some(k) => Some(k),
            None => if tags.last().1 == name {
                Some(tags.len() - 1)
            } else {
                None
            },
        }
    }
}

/// The tag list after one line of `git ls-remote` output (`<sha>\t<ref>`):
/// lines without a tab are ignored; a dereferenced line gives its commit to
/// the tag it belongs to (adding the tag when it has not been seen).
pub open spec fn add_tag_line(tags: Seq<(Seq<char>, Seq<char>)>, line: Seq<char>) -> Seq<(Seq<char>, Seq<char>)> {
    match split_once_spec(line, '\t') {
        None => tags,
        Some((sha, r)) => {
            let t = tag_of_ref(r);
            match deref_base(t) {
                Some(b) => match find_tag(tags, b) {
                    Some(k) => tags.update(k, (sha, b)),
                    None => tags.push((sha, b)),
                },
                None => tags.push((sha, t)),
            }
        },
    }
}

/// The (sha, tag) pairs read from the lines of `git ls-remote --tags` output.
pub open spec fn tags_from_lines(ls: Seq<Seq<char>>) -> Seq<(Seq<char>, Seq<char>)>
    decreases ls.len(),
{
    if ls.len() == 0 {
        Seq::empty()
    } else {
        add_tag_line(tags_from_lines(ls.drop_last()), ls.last())
    }
}

/// The position of the first tag named `name`, found by scanning.
fn find_tag_exec(tags: &Vec<(String, String)>, name: &str) -> (r: Option<usize>)
    ensures
        match (r, find_tag(pairs_view(tags@), name@)) {
            (Some(k), Some(j)) => k == j,
            (None, None) => true,
            _ => false,
        },
{
    let ghost ts = pairs_view(tags@);
    let mut i: usize = 0;
    while i < tags.len()
        invariant
            ts == pairs_view(tags@),
            i <= tags.len(),
            find_tag(ts.take(i as int), name@) is None,
        decreases tags.len() - i,
    {
        proof {
            let t = ts.take(i + 1);
            assert(t.drop_last() =~= ts.take(i as int));
            assert(t.last() == ts[i as int]);
        }
        if str_eq(tags[i].1.as_str(), name) {
            proof {
                lemma_find_tag_prefix(ts, name@, i + 1);
            }
            return Some(i);
        }
        i += 1;
    }
    proof {
        assert(ts.take(i as int) =~= ts);
    }
    None
}

/// A tag found is in range and has the name looked for.
pub proof fn lemma_find_tag_range(ts: Seq<(Seq<char>, Seq<char>)>, name: Seq<char>)
    ensures
        find_tag(ts, name) matches Some(k) ==> 0 <= k < ts.len() && ts[k].1 == name,
    decreases ts.len(),
{
    if ts.len() > 0 {
        lemma_find_tag_range(ts.drop_last(), name);
    }
}

/// A tag found in a prefix is found at the same place in the whole list.
pub proof fn lemma_find_tag_prefix(ts: Seq<(Seq<char>, Seq<char>)>, name: Seq<char>, n: int)
    requires
        0 <= n <= ts.len(),
        find_tag(ts.take(n), name) is Some,
    ensures
        find_tag(ts, name) == find_tag(ts.take(n), name),
    decreases ts.len() - n,
{
    if n < ts.len() {
        assert(ts.take(n + 1).drop_last() =~= ts.take(n));
        lemma_find_tag_prefix(ts, name, n + 1);
    } else {
        assert(ts.take(n) =~= ts);
    }
}

/// The content of a list of string pairs.
pub open spec fn pairs_view(v: Seq<(String, String)>) -> Seq<(Seq<char>, Seq<char>)> {
    v.map_values(|p: (String, String)| (p.0@, p.1@))
}

/// The (sha, tag) pairs of `git ls-remote --tags` output, in the order the
/// tags first appear; for an annotated tag the sha is that of the commit it
/// points to.
pub fn parse_ls_remote_tags(stdout: &str) -> (r: Vec<(String, String)>)
    ensures
        pairs_view(r@) == tags_from_lines(lines_spec(stdout@)),
{
    let ls = lines(stdout);
    let ghost lv = ls.deep_view();
    let mut tags: Vec<(String, String)> = Vec::new();
    let mut i: usize = 0;
    while i < ls.len()
        invariant
            lv == ls.deep_view(),
            lv == lines_spec(stdout@),
            i <= ls.len(),
            pairs_view(tags@) == tags_from_lines(lv.take(i as int)),
        decreases ls.len() - i,
    {
        proof {
            let t = lv.take(i + 1);
            assert(t.drop_last() =~= lv.take(i as int));
            assert(t.last() == lv[i as int]);
        }
        let ghost before = pairs_view(tags@);
        match split_once_char(ls[i].as_str(), '\t') {
            None => {},
            Some((sha, r)) => {
                let t = match strip_prefix(r.as_str(), "refs/tags/") {
                    Some(x) => x,
                    None => r.clone(),
                };
                assert(t@ == tag_of_ref(r@));
                match strip_suffix(t.as_str(), "^{}") {
                    Some(b) => {
                        match find_tag_exec(&tags, b.as_str()) {
                            Some(k) => {
                                proof {
                                    lemma_find_tag_range(before, b@);
                                }
                                tags.set(k, (sha, b));
                                proof {
                                    assert(pairs_view(tags@) =~= before.update(k as int, (sha@, b@)));
                                }
                            },
                            None => {
                                tags.push((sha, b));
                                proof {
                                    assert(pairs_view(tags@) =~= before.push((sha@, b@)));
                                }
                            },
                        }
                    },
                    None => {
                        tags.push((sha, t));
                        proof {
                            assert(pairs_view(tags@) =~= before.push((sha@, t@)));
                        }
                    },
                }
            },
        }
        i += 1;
    }
    proof {
        assert(lv.take(i as int) =~= lv);
    }
    tags
}


/// The version a tag names: the tag without one leading `v`.
pub open spec fn version_text(name: Seq<char>) -> Seq<char> {
    if seq_starts_with(name, "v"@) {
        name.subrange(1, name.len() as int)
    } else {
        name
    }
}

/// The tag with the highest semantic version among those whose name reads as
/// one (on a tie, the later); `None` when no tag does.
pub open spec fn best_tag(tags: Seq<(Seq<char>, Seq<char>)>) -> Option<(Seq<char>, Seq<char>)>
    decreases tags.len(),
{
    if tags.len() == 0 {
        None
    } else {
        let b = best_tag(tags.drop_last());
        let c = tags.last();
        if !semver_valid(version_text(c.1)) {
            b
        } else {
            match b {
                None => Some(c),
                Some(x) => if semver_less(version_text(c.1), version_text(x.1)) {
                    b
                } else {
                    Some(c)
                },
            }
        }
    }
}

/// A tag's version text, computed.
fn version_text_exec(name: &str) -> (r: String)
    ensures
        r@ == version_text(name@),
{
    proof {
        reveal_strlit("v");
    }
    match strip_prefix(name, "v") {
        Some(x) => x,
        None => name.to_owned(),
    }
}

/// Every best tag found has a valid version.
pub proof fn lemma_best_tag_valid(tags: Seq<(Seq<char>, Seq<char>)>)
    ensures
        best_tag(tags) matches Some(x) ==> semver_valid(version_text(x.1)),
    decreases tags.len(),
{
    if tags.len() > 0 {
        lemma_best_tag_valid(tags.drop_last());
    }
}

/// The highest-versioned tag of a list, as `best_tag` defines it.
fn best_tag_exec(tags: &Vec<(String, String)>) -> (r: Option<(String, String)>)
    ensures
        match (r, best_tag(pairs_view(tags@))) {
            (Some(x), Some(y)) => (x.0@, x.1@) == y,
            (None, None) => true,
            _ => false,
        },
{
    let ghost ts = pairs_view(tags@);
    let mut best: Option<(String, String)> = None;
    let mut best_ver: String = String::new();
    let mut i: usize = 0;
    while i < tags.len()
        invariant
            ts == pairs_view(tags@),
            i <= tags.len(),
            match (best, best_tag(ts.take(i as int))) {
                (Some(x), Some(y)) => (x.0@, x.1@) == y && best_ver@ == version_text(y.1),
                (None, None) => true,
                _ => false,
            },
        decreases tags.len() - i,
    {
        proof {
            let t = ts.take(i + 1);
            assert(t.drop_last() =~= ts.take(i as int));
            assert(t.last() == ts[i as int]);
            lemma_best_tag_valid(ts.take(i as int));
        }
        let v = version_text_exec(tags[i].1.as_str());
        if semver_parses(v.as_str()) {
            let take = match &best {
                None => true,
                Some(_) => !semver_lt(v.as_str(), best_ver.as_str()),
            };
            if take {
                best = Some((tags[i].0.clone(), tags[i].1.clone()));
                best_ver = v;
            }
        }
        i += 1;
    }
    proof {
        assert(ts.take(i as int) =~= ts);
    }
    best
}

pub open spec fn no_tags_msg(tag: Seq<char>, owner_repo: Seq<char>) -> Seq<char> {
    "no tags matching '"@ + tag + "*' found in "@ + owner_repo
}

pub open spec fn tag_not_found_msg(tag: Seq<char>, owner_repo: Seq<char>) -> Seq<char> {
    "tag '"@ + tag + "' not found in "@ + owner_repo
}

pub open spec fn ref_not_found_msg(r: Seq<char>, owner_repo: Seq<char>) -> Seq<char> {
    "ref '"@ + r + "' not found in "@ + owner_repo
}

/// The tag a `tag` prefix pins to, from `git ls-remote --tags` output: the
/// highest semantic version among the listed tags, else the tag named exactly
/// `tag`.
pub open spec fn latest_tag_spec(owner_repo: Seq<char>, tag: Seq<char>, out: Seq<char>) -> Result<(Seq<char>, Seq<char>), Seq<char>> {
    let tags = tags_from_lines(lines_spec(out));
    if tags.len() == 0 {
        Err(no_tags_msg(tag, owner_repo))
    } else {
        match best_tag(tags) {
            Some(b) => Ok(b),
            None => match find_tag(tags, tag) {
                Some(k) => Ok(tags[k]),
                None => Err(tag_not_found_msg(tag, owner_repo)),
            },
        }
    }
}

/// Pick the (sha, tag) that the tag prefix `tag` of `owner_repo` resolves
/// to, from the output of `git ls-remote --tags`.
pub fn latest_tag(owner_repo: &str, tag: &str, stdout: &str) -> (r: Result<(String, String), String>)
    ensures
        match (r, latest_tag_spec(owner_repo@, tag@, stdout@)) {
            (Ok(x), Ok(y)) => (x.0@, x.1@) == y,
            (Err(e), Err(m)) => e@ == m,
            _ => false,
        },
{
    let tags = parse_ls_remote_tags(stdout);
    if tags.len() == 0 {
        let head = cat3("no tags matching '", tag, "*' found in ");
        return Err(cat(head.as_str(), owner_repo));
    }
    match best_tag_exec(&tags) {
        Some(b) => Ok(b),
        None => match find_tag_exec(&tags, tag) {
            Some(k) => {
                proof {
                    lemma_find_tag_range(pairs_view(tags@), tag@);
                }
                Ok((tags[k].0.clone(), tags[k].1.clone()))
            },
            None => {
                let head = cat3("tag '", tag, "' not found in ");
                Err(cat(head.as_str(), owner_repo))
            },
        },
    }
}

/// The sha of the first output line that has a tab.
pub open spec fn first_sha(ls: Seq<Seq<char>>) -> Option<Seq<char>>
    decreases ls.len(),
{
    if ls.len() == 0 {
        None
    } else {
        match split_once_spec(ls[0], '\t') {
            Some((sha, _)) => Some(sha),
            None => first_sha(ls.drop_first()),
        }
    }
}

/// The commit a branch or other ref points to, from `git ls-remote` output:
/// the sha of the first listed line, paired with the ref's name.
pub fn ref_sha(owner_repo: &str, ref_name: &str, stdout: &str) -> (r: Result<(String, String), String>)
    ensures
        match (r, first_sha(lines_spec(stdout@))) {
            (Ok(x), Some(sha)) => x.0@ == sha && x.1@ == ref_name@,
            (Err(e), None) => e@ == ref_not_found_msg(ref_name@, owner_repo@),
            _ => false,
        },
{
    let ls = lines(stdout);
    let ghost lv = ls.deep_view();
    let mut i: usize = 0;
    assert(lv.skip(0) =~= lv);
    while i < ls.len()
        invariant
            lv == ls.deep_view(),
            lv == lines_spec(stdout@),
            i <= ls.len(),
            first_sha(lv) == first_sha(lv.skip(i as int)),
        decreases ls.len() - i,
    {
        proof {
            assert(lv.skip(i as int).drop_first() =~= lv.skip(i + 1));
            assert(lv.skip(i as int)[0] == lv[i as int]);
        }
        match split_once_char(ls[i].as_str(), '\t') {
            Some((sha, _)) => {
                return Ok((sha, ref_name.to_owned()));
            },
            None => {},
        }
        i += 1;
    }
    proof {
        assert(lv.skip(i as int).len() == 0);
    }
    let head = cat3("ref '", ref_name, "' not found in ");
    Err(cat(head.as_str(), owner_repo))
}

/// The text a `pin_github_action` call renders to: the action pinned to the
/// commit it resolved to, with the tag as a comment; or, when it could not be
/// resolved, a marker and a hint on how to pin it by hand.
pub open spec fn pin_spec(owner_repo: Seq<char>, tag: Seq<char>, resolved: Option<(Seq<char>, Seq<char>)>) -> Seq<char> {
    match resolved {
        Some((sha, t)) => owner_repo + "@"@ + sha + " # "@ + t,
        None => owner_repo + "@could-not-resolve-git-sha-for-"@ + tag
            + " # TODO: run 'git ls-remote --tags https://github.com/"@ + owner_repo
            + ".git \"refs/tags/"@ + tag + ".*\"' and pin"@,
    }
}

/// Render a `pin_github_action(owner_repo, tag)` call from what resolving it
/// gave.
pub fn pin_github_action_text(
    owner_repo: &str,
    tag: &str,
    resolved: &Result<(String, String), String>,
) -> (r: String)
    ensures
        r@ == pin_spec(
            owner_repo@,
            tag@,
            match resolved {
                Ok(x) => Some((x.0@, x.1@)),
                Err(_) => None,
            },
        ),
{
    match resolved {
        Ok((sha, t)) => {
            let a = cat3(owner_repo, "@", sha.as_str());
            cat3(a.as_str(), " # ", t.as_str())
        },
        Err(_) => {
            let a = cat3(owner_repo, "@could-not-resolve-git-sha-for-", tag);
            let b = cat3(a.as_str(), " # TODO: run 'git ls-remote --tags https://github.com/", owner_repo);
            let c = cat3(b.as_str(), ".git \"refs/tags/", tag);
            cat(c.as_str(), ".*\"' and pin")
        },
    }
}


/// What `regex::Regex` finds of `pattern` in `text`: `None` when the pattern
/// does not compile, else each match's first two capture groups, in order.
pub uninterp spec fn regex_pairs(pattern: Seq<char>, text: Seq<char>) -> Option<Seq<(Option<Seq<char>>, Option<Seq<char>>)>>;

/// The content of a list of optional string pairs.
pub open spec fn opt_pairs_view(v: Seq<(Option<String>, Option<String>)>) -> Seq<(Option<Seq<char>>, Option<Seq<char>>)> {
    v.map_values(|p: (Option<String>, Option<String>)| (opt_view(p.0), opt_view(p.1)))
}

/// Compiles `pattern` with `regex::Regex::new` and lists, for each match of
/// `captures_iter` over `text`, its capture groups 1 and 2.
#[verifier::external_body]
fn regex_capture_pairs(pattern: &str, text: &str) -> (r: Option<Vec<(Option<String>, Option<String>)>>)
    ensures
        match r {
            Some(v) => regex_pairs(pattern@, text@) == Some(opt_pairs_view(v@)),
            None => regex_pairs(pattern@, text@) is None,
        },
{
    match regex::Regex::new(pattern) {
        Ok(re) => Some(
            re.captures_iter(text).map(|c| (c.get(1).map(|m| m.as_str().to_string()), c.get(2).map(|m| m.as_str().to_string()))).collect(),
        ),
        Err(_) => None,
    }
}

/// The pattern of a `pin_github_action("owner/repo", "tag")` call in a template.
pub open spec fn pin_call_pattern() -> Seq<char> {
    "pin_github_action\\(\\s*\"([^\"]+)\"\\s*,\\s*\"([^\"]+)\"\\s*\\)"@
}

/// The matches whose two groups are both present.
pub open spec fn complete_pairs(ps: Seq<(Option<Seq<char>>, Option<Seq<char>>)>) -> Seq<(Seq<char>, Seq<char>)>
    decreases ps.len(),
{
    if ps.len() == 0 {
        Seq::empty()
    } else {
        let r = complete_pairs(ps.drop_last());
        match ps.last() {
            (Some(a), Some(b)) => r.push((a, b)),
            _ => r,
        }
    }
}

/// The (owner/repo, tag) pairs of the `pin_github_action` calls in a
/// template's text, in order.
pub fn pin_action_calls(content: &str) -> (r: Vec<(String, String)>)
    ensures
        pairs_view(r@) == match regex_pairs(pin_call_pattern(), content@) {
            Some(ps) => complete_pairs(ps),
            None => Seq::empty(),
        },
{
    let found = regex_capture_pairs("pin_github_action\\(\\s*\"([^\"]+)\"\\s*,\\s*\"([^\"]+)\"\\s*\\)", content);
    let mut out: Vec<(String, String)> = Vec::new();
    match found {
        Some(ps) => {
            let ghost pv = opt_pairs_view(ps@);
            let mut i: usize = 0;
            while i < ps.len()
                invariant
                    pv == opt_pairs_view(ps@),
                    i <= ps.len(),
                    pairs_view(out@) == complete_pairs(pv.take(i as int)),
                decreases ps.len() - i,
            {
                proof {
                    let t = pv.take(i + 1);
                    assert(t.drop_last() =~= pv.take(i as int));
                    assert(t.last() == pv[i as int]);
                }
                match (&ps[i].0, &ps[i].1) {
                    (Some(a), Some(b)) => {
                        let ghost before = pairs_view(out@);
                        out.push((a.clone(), b.clone()));
                        proof {
                            assert(pairs_view(out@) =~= before.push((a@, b@)));
                        }
                    },
                    _ => {},
                }
                i += 1;
            }
            proof {
                assert(pv.take(i as int) =~= pv);
            }
        },
        None => {
            assert(pairs_view(out@) =~= Seq::<(Seq<char>, Seq<char>)>::empty());
        },
    }
    out
}


/// A rendered file from a template preview.
#[derive(Debug)]
#[non_exhaustive]
pub struct PreviewFile {
    pub path: String,
    pub content: String,
}

impl DeepView for PreviewFile {
    type V = (Seq<char>, Seq<char>);

    open spec fn deep_view(&self) -> (Seq<char>, Seq<char>) {
        (self.path@, self.content@)
    }
}

/// Builder for previewing a template: the pack's root directory, the
/// template's path within it, the project name (`test-project` unless set)
/// and the placeholder values given.
#[derive(Debug)]
pub struct PreviewBuilder {
    pub crate_root: String,
    pub template_path: String,
    pub project_name: String,
    pub defines: StrMap<String>,
}

impl PreviewBuilder {
    /// A builder for the pack at `crate_root`, with no template path yet,
    /// the project name `test-project` and no placeholder values.
    pub fn new(crate_root: String) -> (b: Self)
        ensures
            b.crate_root@ == crate_root@,
            b.template_path@ == Seq::<char>::empty(),
            b.project_name@ == "test-project"@,
            b.defines.wf(),
            b.defines@ == Map::<Seq<char>, Seq<char>>::empty(),
    {
        PreviewBuilder {
            crate_root,
            template_path: String::new(),
            project_name: "test-project".to_owned(),
            defines: StrMap::new(),
        }
    }

    /// Use the template at `path` (relative to the pack's root).
    pub fn template(self, path: String) -> (b: Self)
        ensures
            b.crate_root == self.crate_root,
            b.template_path@ == path@,
            b.project_name == self.project_name,
            b.defines == self.defines,
    {
        PreviewBuilder { template_path: path, ..self }
    }

    /// Render for a project of this name.
    pub fn project_name(self, name: String) -> (b: Self)
        ensures
            b.crate_root == self.crate_root,
            b.template_path == self.template_path,
            b.project_name@ == name@,
            b.defines == self.defines,
    {
        PreviewBuilder { project_name: name, ..self }
    }

    /// Give the placeholder `key` the value `value`.
    pub fn define(self, key: String, value: String) -> (b: Self)
        requires
            self.defines.wf(),
        ensures
            b.crate_root == self.crate_root,
            b.template_path == self.template_path,
            b.project_name == self.project_name,
            b.defines.wf(),
            b.defines@ == self.defines@.insert(key@, value@),
    {
        let mut b = self;
        b.defines.insert(key, value);
        b
    }

    /// The variables the preview renders with, from the template's
    /// placeholders: the values given, then for each other placeholder its
    /// default or `<name>`, settled as `prepare_render` settles them.
    pub fn preview_variables(&self, defs: &StrMap<PlaceholderDef>) -> (r: Result<StrMap<String>, String>)
        requires
            self.defines.wf(),
            defs.wf(),
        ensures
            ({
                let given = preview_spec(defs.keys(), defs.vals(), self.defines@, defs.keys().len());
                let (m, e) = resolve_spec(defs.keys(), defs.vals(), given, base_vars(self.project_name@), defs.keys().len());
                &&& r is Ok <==> e is None
                &&& r matches Ok(v) ==> v.wf() && v@ == m
                &&& r matches Err(x) ==> e == Some(x@)
            }),
    {
        let mut given = self.defines.clone_map();
        preview_defines(defs, &mut given);
        prepare_render(self.project_name.as_str(), defs, &given)
    }

    /// The preview of the rendered files: blank ones dropped, the rest
    /// ordered by path.
    pub fn preview(self, rendered: &Vec<RenderedFile>) -> (r: Vec<PreviewFile>)
        ensures
            r.deep_view() == sort_by_key(kept_files(rendered.deep_view())),
    {
        let files = finish_rendered(rendered);
        let mut out: Vec<PreviewFile> = Vec::new();
        let mut i: usize = 0;
        while i < files.len()
            invariant
                i <= files.len(),
                out.deep_view() == files.deep_view().take(i as int),
            decreases files.len() - i,
        {
            let f = PreviewFile { path: files[i].path.clone(), content: files[i].content.clone() };
            let ghost before = out.deep_view();
            out.push(f);
            proof {
                assert(f.deep_view() == files.deep_view()[i as int]);
                assert(out.deep_view() =~= before.push(f.deep_view()));
                assert(out.deep_view() =~= files.deep_view().take(i + 1));
            }
            i += 1;
        }
        proof {
            assert(files.deep_view().take(i as int) =~= files.deep_view());
        }
        out
    }
}


/// The files kept so far include the rendered ones.
pub proof fn lemma_include_plan_keeps(paths: Seq<Seq<char>>, dests: Seq<Seq<char>>)
    ensures
        forall|p: Seq<char>| paths.contains(p) ==> #[trigger] include_plan(paths, dests).0.contains(p),
        include_plan(paths, dests).1.len() == dests.len(),
        forall|j: int| 0 <= j < dests.len() ==> (#[trigger] include_plan(paths, dests).1[j] ==> include_plan(paths, dests).0.contains(dests[j])),
    decreases dests.len(),
{
    if dests.len() > 0 {
        let init = dests.drop_last();
        lemma_include_plan_keeps(paths, init);
        let (have, taken) = include_plan(paths, init);
        assert forall|p: Seq<char>| have.contains(p) implies #[trigger] have.push(dests.last()).contains(p) by {
            let i = choose|i: int| 0 <= i < have.len() && have[i] == p;
            assert(have.push(dests.last())[i] == p);
        }
        assert(have.push(dests.last())[have.len() as int] == dests.last());
        assert forall|j: int| 0 <= j < dests.len() implies (#[trigger] include_plan(paths, dests).1[j] ==> include_plan(paths, dests).0.contains(dests[j])) by {
            if j < dests.len() - 1 {
                assert(init[j] == dests[j]);
                if taken[j] {
                    assert(have.contains(dests[j]));
                }
            }
        }
    }
}

/// A whole-file include never replaces a rendered file: an include whose
/// destination is already rendered is skipped.
pub proof fn law_includes_never_replace(paths: Seq<Seq<char>>, dests: Seq<Seq<char>>, j: int)
    requires
        0 <= j < dests.len(),
        paths.contains(dests[j]),
    ensures
        !include_plan(paths, dests).1[j],
    decreases dests.len(),
{
    let init = dests.drop_last();
    lemma_include_plan_keeps(paths, init);
    if j < dests.len() - 1 {
        assert(init[j] == dests[j]);
        law_includes_never_replace(paths, init, j);
    }
}

/// Keeping the non-blank files keeps no blank one, and keeps a list
/// without blanks as it is.
proof fn lemma_kept_files(s: Seq<(Seq<char>, Seq<char>)>)
    ensures
        forall|i: int| 0 <= i < kept_files(s).len() ==> !is_blank(#[trigger] kept_files(s)[i]),
        (forall|i: int| 0 <= i < s.len() ==> !is_blank(#[trigger] s[i])) ==> kept_files(s) == s,
    decreases s.len(),
{
    if s.len() > 0 {
        lemma_kept_files(s.drop_last());
        let k = kept_files(s.drop_last());
        assert forall|i: int| 0 <= i < kept_files(s).len() implies !is_blank(#[trigger] kept_files(s)[i]) by {
            if !is_blank(s.last()) && i < k.len() {
                assert(kept_files(s)[i] == k[i]);
            }
        }
        if forall|i: int| 0 <= i < s.len() ==> !is_blank(#[trigger] s[i]) {
            assert forall|i: int| 0 <= i < s.drop_last().len() implies !is_blank(#[trigger] s.drop_last()[i]) by {
                assert(s.drop_last()[i] == s[i]);
            }
            assert(!is_blank(s[s.len() - 1]));
            assert(s.drop_last().push(s.last()) =~= s);
        }
    }
}

/// Finishing rendered files twice is finishing them once: a preview of
/// files the template engine has already finished shows exactly those files.
pub proof fn law_finish_idempotent(s: Seq<(Seq<char>, Seq<char>)>)
    ensures
        sort_by_key(kept_files(sort_by_key(kept_files(s)))) == sort_by_key(kept_files(s)),
{
    broadcast use vstd::seq_lib::to_multiset_contains;

    let k = kept_files(s);
    let f = sort_by_key(k);
    lemma_kept_files(s);
    law_sort_by_key(k);
    assert forall|i: int| 0 <= i < f.len() implies !is_blank(#[trigger] f[i]) by {
        assert(f.to_multiset().contains(f[i]));
        assert(k.to_multiset().contains(f[i]));
        assert(k.contains(f[i]));
        let j = choose|j: int| 0 <= j < k.len() && k[j] == f[i];
        assert(!is_blank(k[j]));
    }
    lemma_kept_files(f);
    lemma_sort_sorted(f);
}

} // verus!
