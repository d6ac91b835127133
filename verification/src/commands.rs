//! Decisions behind the `cargo bp` subcommands: which crates to add, which
//! template to use, and how to read `key=value` definitions.
use vstd::prelude::*;
use crate::common::{DeepClone, vec_contains_str};
use crate::manifest::{BatteryPackSpec, CrateSpec, CrateSpecView, TemplateSpec, count_non_default, hidden_by,
    GroupedCrate, GroupedView, emit_rest, emit_features};
use crate::version::{should_upgrade_spec, should_upgrade_version};
use crate::strmap::{StrMap, sorted_keys};
use crate::text::{cat, cat3, join_strs, seq_join, str_chars, string_from_chars};

verus! {

/// Why no template path could be chosen.
#[derive(Debug)]
pub enum TemplateError {
    /// The requested template does not exist; `available` lists the others.
    NotFound { name: String, available: Vec<String> },
    /// Several templates and no `default`: the user has to pick one.
    NeedsChoice,
}

impl TemplateError {
    /// The message shown to the user.
    pub fn to_string(&self) -> (s: String)
        ensures
            s@ == (match self {
                TemplateError::NotFound { name, available } => "Template '"@ + name@
                    + "' not found. Available templates: "@ + seq_join(available.deep_view(), ", "@),
                TemplateError::NeedsChoice => "Multiple templates available. Please specify one with --template <name>"@,
            }),
    {
        match self {
            TemplateError::NotFound { name, available } => {
                let list = join_strs(available, ", ");
                let a = cat3("Template '", name.as_str(), "' not found. Available templates: ");
                cat(a.as_str(), list.as_str())
            },
            TemplateError::NeedsChoice => "Multiple templates available. Please specify one with --template <name>".to_owned(),
        }
    }
}

/// Which template path `resolve_template` picks.
pub open spec fn template_choice(
    keys: Seq<Seq<char>>,
    m: Map<Seq<char>, crate::manifest::TemplateSpecView>,
    requested: Option<Seq<char>>,
) -> Option<Seq<char>> {
    match requested {
        Some(n) => if m.contains_key(n) {
            Some(m[n].path)
        } else {
            None
        },
        None => if keys.len() == 1 {
            Some(m[keys[0]].path)
        } else if m.contains_key("default"@) {
            Some(m["default"@].path)
        } else {
            None
        },
    }
}

/// Resolve which template to use. A requested name must exist; without
/// one, a single template is used, else the `default` one; with several
/// templates and no `default`, the user has to choose.
pub fn resolve_template(templates: &StrMap<TemplateSpec>, requested: Option<&str>) -> (r: Result<
    String,
    TemplateError,
>)
    requires
        templates.wf(),
    ensures
        r matches Ok(p) ==> template_choice(
            templates.keys(),
            templates@,
            match requested {
                Some(n) => Some(n@),
                None => None,
            },
        ) == Some(p@),
        r is Err ==> template_choice(
            templates.keys(),
            templates@,
            match requested {
                Some(n) => Some(n@),
                None => None,
            },
        ) is None,
        r matches Err(TemplateError::NotFound { name, available }) ==> requested is Some && name@
            == requested->0@ && available.deep_view() == templates.keys(),
        r matches Err(TemplateError::NeedsChoice) ==> requested is None,
{
    match requested {
        Some(name) => match templates.get(name) {
            Some(config) => Ok(config.path.clone()),
            None => {
                let mut available: Vec<String> = Vec::new();
                let mut i: usize = 0;
                while i < templates.entries.len()
                    invariant
                        i <= templates.entries@.len(),
                        available@.len() == i,
                        forall|j: int| 0 <= j < i ==> (#[trigger] available@[j])@ == templates.keys()[j],
                    decreases templates.entries.len() - i,
                {
                    available.push(templates.entries[i].0.clone());
                    i += 1;
                }
                assert(available.deep_view() =~= templates.keys());
                Err(TemplateError::NotFound { name: name.to_owned(), available })
            },
        },
        None => {
            if templates.entries.len() == 1 {
                proof {
                    templates.lemma_index(0);
                }
                Ok(templates.entries[0].1.path.clone())
            } else {
                match templates.get("default") {
                    Some(config) => Ok(config.path.clone()),
                    None => Err(TemplateError::NeedsChoice),
                }
            }
        },
    }
}

/// Split a `key=value` definition at the first `=`.
pub open spec fn define_spec(s: Seq<char>) -> Option<(Seq<char>, Seq<char>)> {
    if exists|i: int| 0 <= i < s.len() && s[i] == '=' {
        let i = choose|i: int|
            0 <= i < s.len() && s[i] == '=' && forall|j: int| 0 <= j < i ==> s[j] != '=';
        Some((s.subrange(0, i), s.subrange(i + 1, s.len() as int)))
    } else {
        None
    }
}

/// A definition splits at its first `=`: the key holds no `=`, and key,
/// `=` and value put back together give the definition; one without `=`
/// does not split.
pub proof fn law_define_split(s: Seq<char>)
    ensures
        define_spec(s) is None <==> !s.contains('='),
        define_spec(s) matches Some((k, v)) ==> !k.contains('=') && k + seq!['='] + v == s,
{
    if exists|i: int| 0 <= i < s.len() && s[i] == '=' {
        let i0 = choose|i: int| 0 <= i < s.len() && s[i] == '=';
        assert(s.contains('=')) by {
            assert(s[i0] == '=');
        }
        s.index_of_first_ensures('=');
        let first = s.index_of_first('=')->Some_0;
        assert(exists|i: int| 0 <= i < s.len() && s[i] == '=' && forall|j: int| 0 <= j < i ==> s[j] != '=') by {
            assert(s[first] == '=');
        }
        let i = choose|i: int|
            0 <= i < s.len() && s[i] == '=' && forall|j: int| 0 <= j < i ==> s[j] != '=';
        let k = s.subrange(0, i);
        let v = s.subrange(i + 1, s.len() as int);
        assert(k + seq!['='] + v =~= s);
        assert(!k.contains('=')) by {
            if k.contains('=') {
                let j = choose|j: int| 0 <= j < k.len() && k[j] == '=';
                assert(s[j] == '=');
            }
        }
    } else {
        assert(!s.contains('=')) by {
            if s.contains('=') {
                let j = choose|j: int| 0 <= j < s.len() && s[j] == '=';
                assert(s[j] == '=');
            }
        }
    }
}

/// Parse a `key=value` string: split at the first `=`.
pub fn parse_define(s: &str) -> (r: Result<(String, String), String>)
    ensures
        r matches Ok((k, v)) ==> define_spec(s@) == Some((k@, v@)),
        r matches Err(msg) ==> define_spec(s@) is None && msg@ == "invalid define '"@ + s@
            + "': expected key=value"@,
        r is Err <==> define_spec(s@) is None,
{
    let cs = str_chars(s);
    let mut i: usize = 0;
    while i < cs.len()
        invariant
            cs@ == s@,
            i <= cs@.len(),
            forall|j: int| 0 <= j < i ==> cs@[j] != '=',
        decreases cs.len() - i,
    {
        if cs[i] == '=' {
            let mut k: Vec<char> = Vec::new();
            let mut j: usize = 0;
            while j < i
                invariant
                    cs@ == s@,
                    i < cs@.len(),
                    j <= i,
                    k@ == cs@.subrange(0, j as int),
                decreases i - j,
            {
                k.push(cs[j]);
                j += 1;
            }
            let mut v: Vec<char> = Vec::new();
            let mut m: usize = i + 1;
            while m < cs.len()
                invariant
                    cs@ == s@,
                    i < cs@.len(),
                    i + 1 <= m <= cs@.len(),
                    v@ == cs@.subrange(i + 1, m as int),
                decreases cs.len() - m,
            {
                v.push(cs[m]);
                m += 1;
            }
            proof {
                let w = choose|w: int|
                    0 <= w < s@.len() && s@[w] == '=' && forall|j: int| 0 <= j < w ==> s@[j] != '=';
                assert(0 <= i < s@.len() && s@[i as int] == '=' && forall|j: int| 0 <= j < i ==> s@[j] != '=');
                if w < i {
                    assert(s@[w] != '=');
                } else if w > i {
                    assert(s@[i as int] != '=');
                }
                assert(w == i);
            }
            return Ok((string_from_chars(k.as_slice()), string_from_chars(v.as_slice())));
        }
        i += 1;
    }
    Err(cat3("invalid define '", s, "': expected key=value"))
}

/// Result of resolving which crates to add from a battery pack.
pub enum ResolvedAdd {
    /// A concrete set of crates, and the features to record.
    Crates { active_features: Vec<String>, crates: StrMap<CrateSpec> },
    /// The caller should show the interactive picker.
    Interactive,
}

/// Strings sorted and without repeats.
pub open spec fn sorted_unique(s: Seq<Seq<char>>) -> bool {
    sorted_keys(s)
}

/// The crates named in `names` that the pack has, with their specs.
pub open spec fn pick_named(crates: Map<Seq<char>, CrateSpecView>, names: Seq<Seq<char>>) -> Map<
    Seq<char>,
    CrateSpecView,
> {
    crates.restrict(names.to_set())
}

/// The features `add` records: `default` unless turned off, plus those given.
pub open spec fn requested_features(with_features: Seq<Seq<char>>, no_default_features: bool) -> Set<
    Seq<char>,
> {
    if no_default_features {
        with_features.to_set()
    } else {
        with_features.to_set().insert("default"@)
    }
}

/// The names in `specific` that the pack does not have, in order.
pub fn unknown_crates(bp_spec: &BatteryPackSpec, specific_crates: &Vec<String>) -> (r: Vec<String>)
    requires
        bp_spec.wf(),
    ensures
        r.deep_view() == specific_crates.deep_view().filter(|n: Seq<char>| !bp_spec.crates@.contains_key(n)),
{
    let ghost pred = |n: Seq<char>| !bp_spec.crates@.contains_key(n);
    let mut r: Vec<String> = Vec::new();
    let mut i: usize = 0;
    while i < specific_crates.len()
        invariant
            bp_spec.wf(),
            pred == (|n: Seq<char>| !bp_spec.crates@.contains_key(n)),
            i <= specific_crates@.len(),
            r.deep_view() == specific_crates.deep_view().take(i as int).filter(pred),
        decreases specific_crates.len() - i,
    {
        proof {
            let t = specific_crates.deep_view().take(i + 1);
            assert(t.drop_last() =~= specific_crates.deep_view().take(i as int));
            assert(t.last() == specific_crates@[i as int]@);
            reveal_with_fuel(Seq::<Seq<char>>::filter, 1);
        }
        if !bp_spec.crates.contains_key(specific_crates[i].as_str()) {
            let ghost before = r.deep_view();
            r.push(specific_crates[i].clone());
            proof {
                assert(r.deep_view() =~= before.push(specific_crates@[i as int]@));
            }
        }
        i += 1;
    }
    proof {
        assert(specific_crates.deep_view().take(i as int) =~= specific_crates.deep_view());
    }
    r
}

/// Resolve which crates `cargo bp add` installs, from its flags.
/// Named crates win: exactly those the pack has, recording no features.
/// `--all-features` takes every visible crate and records `all`. With no
/// narrowing flag and a pack that offers choices, the picker is asked for.
/// Otherwise the features are `default` (unless turned off) plus those given,
/// and the crates are what they resolve to (none when no feature is active).
pub fn resolve_add_crates(
    bp_spec: &BatteryPackSpec,
    bp_name: &str,
    with_features: &Vec<String>,
    no_default_features: bool,
    all_features: bool,
    specific_crates: &Vec<String>,
) -> (r: ResolvedAdd)
    requires
        bp_spec.wf(),
    ensures
        specific_crates@.len() > 0 ==> (r matches ResolvedAdd::Crates { active_features, crates } && active_features@.len() == 0
            && crates.wf() && crates@ == pick_named(bp_spec.crates@, specific_crates.deep_view())),
        specific_crates@.len() == 0 && all_features ==> (r matches ResolvedAdd::Crates { active_features, crates }
            && active_features.deep_view() == seq!["all"@] && crates.wf() && crates@ == bp_spec.crates@.restrict(
            Set::new(|k: Seq<char>| !hidden_by(bp_spec.hidden.deep_view(), k)),
        )),
        specific_crates@.len() == 0 && !all_features ==> ((r is Interactive) <==> (!no_default_features
            && with_features@.len() == 0 && (count_non_default(bp_spec.features.keys()) > 0
            || bp_spec.crates@.dom().len() > 3))),
        specific_crates@.len() == 0 && !all_features ==> (r matches ResolvedAdd::Crates { active_features, crates } ==> (
            sorted_unique(active_features.deep_view())
            && active_features.deep_view().to_set() == requested_features(with_features.deep_view(), no_default_features)
            && crates.wf()
            && crates@ == (if active_features@.len() == 0 {
                Map::empty()
            } else {
                bp_spec.resolve_spec(active_features.deep_view())
            }))),
{
    if specific_crates.len() > 0 {
        let mut selected: StrMap<CrateSpec> = StrMap::new();
        let mut i: usize = 0;
        while i < specific_crates.len()
            invariant
                bp_spec.wf(),
                selected.wf(),
                i <= specific_crates@.len(),
                selected@ == pick_named(bp_spec.crates@, specific_crates.deep_view().take(i as int)),
            decreases specific_crates.len() - i,
        {
            let name = &specific_crates[i];
            let ghost before = selected@;
            match bp_spec.crates.get(name.as_str()) {
                Some(spec) => {
                    selected.insert(name.clone(), spec.deep_clone());
                },
                None => {},
            }
            proof {
                let t = specific_crates.deep_view().take(i + 1);
                assert(t =~= specific_crates.deep_view().take(i as int).push(name@));
                assert(t.to_set() =~= specific_crates.deep_view().take(i as int).to_set().insert(name@)) by {
                    specific_crates.deep_view().take(i as int).lemma_push_to_set_commute(name@);
                }
                assert(selected@ =~= pick_named(bp_spec.crates@, t));
            }
            i += 1;
        }
        proof {
            assert(specific_crates.deep_view().take(i as int) =~= specific_crates.deep_view());
        }
        let af: Vec<String> = Vec::new();
        return ResolvedAdd::Crates { active_features: af, crates: selected };
    }
    if all_features {
        let all = vec!["all".to_owned()];
        proof {
            assert(all.deep_view() =~= seq!["all"@]);
        }
        return ResolvedAdd::Crates { active_features: all, crates: bp_spec.visible_crates() };
    }
    if !no_default_features && with_features.len() == 0 && bp_spec.has_meaningful_choices() {
        return ResolvedAdd::Interactive;
    }
    let mut set: StrMap<String> = StrMap::new();
    if !no_default_features {
        set.insert("default".to_owned(), "default".to_owned());
    }
    let mut i: usize = 0;
    while i < with_features.len()
        invariant
            set.wf(),
            i <= with_features@.len(),
            set@.dom() == requested_features(with_features.deep_view().take(i as int), no_default_features),
        decreases with_features.len() - i,
    {
        proof {
            let t = with_features.deep_view().take(i + 1);
            assert(t =~= with_features.deep_view().take(i as int).push(with_features@[i as int]@));
            with_features.deep_view().take(i as int).lemma_push_to_set_commute(with_features@[i as int]@);
        }
        set.insert(with_features[i].clone(), with_features[i].clone());
        proof {
            assert(set@.dom() =~= requested_features(with_features.deep_view().take(i + 1), no_default_features));
        }
        i += 1;
    }
    proof {
        assert(with_features.deep_view().take(i as int) =~= with_features.deep_view());
        set.lemma_dom_len();
    }
    let mut active: Vec<String> = Vec::new();
    let mut j: usize = 0;
    while j < set.entries.len()
        invariant
            set.wf(),
            j <= set.entries@.len(),
            active@.len() == j,
            forall|a: int| 0 <= a < j ==> (#[trigger] active@[a])@ == set.keys()[a],
        decreases set.entries.len() - j,
    {
        active.push(set.entries[j].0.clone());
        j += 1;
    }
    proof {
        assert(active.deep_view() =~= set.keys());
    }
    if active.len() == 0 {
        return ResolvedAdd::Crates { active_features: active, crates: StrMap::new() };
    }
    let mut strs: Vec<&str> = Vec::new();
    let mut k: usize = 0;
    while k < active.len()
        invariant
            k <= active@.len(),
            strs@.len() == k,
            forall|a: int| 0 <= a < k ==> (#[trigger] strs@[a])@ == active@[a]@,
        decreases active.len() - k,
    {
        strs.push(active[k].as_str());
        k += 1;
    }
    proof {
        assert(crate::manifest::strs_view(strs@) =~= active.deep_view());
    }
    let crates = bp_spec.resolve_crates(strs.as_slice());
    ResolvedAdd::Crates { active_features: active, crates }
}

/// Templates declared by a pack, or an error naming the pack when there are none.
pub fn template_metadata(spec: &BatteryPackSpec, crate_name: &str) -> (r: Result<
    StrMap<TemplateSpec>,
    String,
>)
    requires
        spec.wf(),
    ensures
        r matches Ok(t) ==> t.wf() && t@ == spec.templates@ && t@.dom().len() > 0,
        r matches Err(msg) ==> spec.templates@.dom().len() == 0 && msg@ == "Battery pack '"@ + crate_name@
            + "' has no templates defined in [package.metadata.battery.templates]"@,
        r is Err <==> spec.templates@.dom().len() == 0,
{
    if spec.templates.is_empty() {
        return Err(cat3("Battery pack '", crate_name, "' has no templates defined in [package.metadata.battery.templates]"));
    }
    Ok(spec.templates.clone_map())
}


/// The rows of the crate picker, as `all_crates_with_grouping` lists them.
pub open spec fn grouping_spec(bp: &BatteryPackSpec) -> Seq<GroupedView> {
    emit_rest(
        bp.crates@,
        bp.resolve_spec(Seq::empty()),
        bp.crates.keys(),
        bp.crates.keys().len() as int,
        emit_features(bp.crates@, bp.resolve_spec(Seq::empty()), bp.features.keys(), bp.features.vals(), bp.features.keys().len() as int),
    ).0
}

/// The crates the picker offers; a pack without crates cannot be picked from.
pub fn picker_rows(bp_spec: &BatteryPackSpec) -> (r: Result<Vec<GroupedCrate>, String>)
    requires
        bp_spec.wf(),
    ensures
        r is Ok <==> grouping_spec(bp_spec).len() > 0,
        r matches Ok(rows) ==> rows.deep_view() == grouping_spec(bp_spec),
        r matches Err(m) ==> m@ == "Battery pack has no crates to add"@,
{
    let rows = bp_spec.all_crates_with_grouping();
    if rows.len() == 0 {
        Err("Battery pack has no crates to add".to_owned())
    } else {
        Ok(rows)
    }
}

/// The version part of a picker line: `(version)`, or
/// `(version, features: a, b)` when the crate has features.
pub open spec fn version_info_spec(spec: CrateSpecView) -> Seq<char> {
    if spec.features.len() == 0 {
        "("@ + spec.version + ")"@
    } else {
        "("@ + spec.version + ", features: "@ + seq_join(spec.features, ", "@) + ")"@
    }
}

/// The group part of a picker line: nothing for the default group, else ` [group]`.
pub open spec fn group_label_spec(group: Seq<char>) -> Seq<char> {
    if group == "default"@ {
        Seq::empty()
    } else {
        " ["@ + group + "]"@
    }
}

/// The version and group parts of a picker line (shown after the name).
pub fn picker_label_parts(row: &GroupedCrate) -> (r: (String, String))
    ensures
        r.0@ == version_info_spec(row.spec.deep_view()),
        r.1@ == group_label_spec(row.group@),
{
    let version_info = if row.spec.features.len() == 0 {
        cat3("(", row.spec.version.as_str(), ")")
    } else {
        let fs = join_strs(&row.spec.features, ", ");
        let a = cat3("(", row.spec.version.as_str(), ", features: ");
        cat3(a.as_str(), fs.as_str(), ")")
    };
    let group_label = if crate::text::str_eq(row.group.as_str(), "default") {
        String::new()
    } else {
        cat3(" [", row.group.as_str(), "]")
    };
    (version_info, group_label)
}

/// What the picker's selection installs.
#[derive(Debug)]
pub struct PickerResult {
    /// The chosen crates with their specs.
    pub crates: StrMap<CrateSpec>,
    /// `default`, and every other feature all of whose crates were chosen,
    /// sorted.
    pub active_features: Vec<String>,
}

/// The crates of the selected rows (the first `n` selections).
pub open spec fn picked(rows: Seq<GroupedView>, sel: Seq<usize>, n: nat) -> Map<Seq<char>, CrateSpecView>
    decreases n,
{
    if n == 0 || n > sel.len() {
        Map::empty()
    } else {
        let r = rows[sel[n - 1] as int];
        picked(rows, sel, (n - 1) as nat).insert(r.name, r.spec)
    }
}

/// The features a selection fully covers: `default`, and every other
/// feature whose crates were all chosen.
pub open spec fn covered_features(features: Map<Seq<char>, Seq<Seq<char>>>, crates: Map<Seq<char>, CrateSpecView>) -> Set<Seq<char>> {
    Set::new(
        |f: Seq<char>|
            f == "default"@ || (features.contains_key(f) && forall|c: Seq<char>| #[trigger] features[f].contains(c) ==> crates.contains_key(c)),
    )
}

/// Whether every crate named is among the chosen ones.
fn all_chosen(names: &Vec<String>, crates: &StrMap<CrateSpec>) -> (b: bool)
    requires
        crates.wf(),
    ensures
        b == forall|c: Seq<char>| #[trigger] names.deep_view().contains(c) ==> crates@.contains_key(c),
{
    let mut i: usize = 0;
    while i < names.len()
        invariant
            crates.wf(),
            i <= names.len(),
            forall|j: int| 0 <= j < i ==> crates@.contains_key(#[trigger] names.deep_view()[j]),
        decreases names.len() - i,
    {
        if !crates.contains_key(names[i].as_str()) {
            assert(names.deep_view().contains(names.deep_view()[i as int]));
            return false;
        }
        i += 1;
    }
    proof {
        assert forall|c: Seq<char>| #[trigger] names.deep_view().contains(c) implies crates@.contains_key(c) by {
            let j = choose|j: int| 0 <= j < names.deep_view().len() && names.deep_view()[j] == c;
        }
    }
    true
}

/// Turn the picker's selection (positions in `rows`) into the crates to
/// install and the features they fully cover.
pub fn picker_result(bp_spec: &BatteryPackSpec, rows: &Vec<GroupedCrate>, selected: &Vec<usize>) -> (r: PickerResult)
    requires
        bp_spec.wf(),
        forall|i: int| 0 <= i < selected@.len() ==> (#[trigger] selected@[i]) < rows@.len(),
    ensures
        r.crates.wf(),
        r.crates@ == picked(rows.deep_view(), selected@, selected@.len()),
        sorted_unique(r.active_features.deep_view()),
        r.active_features.deep_view().to_set() == covered_features(bp_spec.features@, r.crates@),
{
    let mut crates: StrMap<CrateSpec> = StrMap::new();
    let mut i: usize = 0;
    while i < selected.len()
        invariant
            crates.wf(),
            i <= selected@.len(),
            forall|j: int| 0 <= j < selected@.len() ==> (#[trigger] selected@[j]) < rows@.len(),
            crates@ == picked(rows.deep_view(), selected@, i as nat),
        decreases selected.len() - i,
    {
        let row = &rows[selected[i]];
        proof {
            assert(rows.deep_view()[selected@[i as int] as int] == row.deep_view());
        }
        crates.insert(row.name.clone(), row.spec.deep_clone());
        i += 1;
    }
    let mut set: StrMap<String> = StrMap::new();
    set.insert("default".to_owned(), "default".to_owned());
    let ghost fk = bp_spec.features.keys();
    let mut k: usize = 0;
    while k < bp_spec.features.entries.len()
        invariant
            bp_spec.wf(),
            crates.wf(),
            set.wf(),
            fk == bp_spec.features.keys(),
            k <= bp_spec.features.entries@.len(),
            set@.dom() == covered_features(bp_spec.features@, crates@).intersect(fk.take(k as int).to_set().insert("default"@)),
        decreases bp_spec.features.entries.len() - k,
    {
        let fname = &bp_spec.features.entries[k].0;
        let members = &bp_spec.features.entries[k].1;
        proof {
            bp_spec.features.lemma_index(k as int);
            assert(fk[k as int] == fname@);
            fk.take(k as int).lemma_push_to_set_commute(fname@);
            assert(fk.take(k + 1) =~= fk.take(k as int).push(fname@));
        }
        if !crate::text::str_eq(fname.as_str(), "default") && all_chosen(members, &crates) {
            set.insert(fname.clone(), fname.clone());
        }
        proof {
            assert(set@.dom() =~= covered_features(bp_spec.features@, crates@).intersect(fk.take(k + 1).to_set().insert("default"@)));
        }
        k += 1;
    }
    proof {
        assert(fk.take(k as int) =~= fk);
        bp_spec.features.lemma_keys_set();
        assert(covered_features(bp_spec.features@, crates@).intersect(fk.to_set().insert("default"@))
            =~= covered_features(bp_spec.features@, crates@));
        set.lemma_keys_set();
    }
    let active = set.key_list();
    PickerResult { crates, active_features: active }
}

/// The version warnings of one installed pack, in crate-name order: each
/// expected crate with a recommended version that the user's manifest has
/// at an older (or, when not comparable, different) version, as
/// (crate, user's version, recommended version).
pub open spec fn warnings_spec(
    keys: Seq<Seq<char>>,
    vals: Seq<CrateSpecView>,
    user: Map<Seq<char>, Seq<char>>,
    n: nat,
) -> Seq<(Seq<char>, Seq<char>, Seq<char>)>
    decreases n,
{
    if n == 0 || n > keys.len() {
        Seq::empty()
    } else {
        let r = warnings_spec(keys, vals, user, (n - 1) as nat);
        let k = keys[n - 1];
        let rec = vals[n - 1].version;
        if rec.len() > 0 && user.contains_key(k) && should_upgrade_spec(user[k], rec) {
            r.push((k, user[k], rec))
        } else {
            r
        }
    }
}

/// The dependencies of one pack that the user's manifest has behind.
pub fn pack_warnings(expected: &StrMap<CrateSpec>, user_versions: &StrMap<String>) -> (r: Vec<(String, String, String)>)
    requires
        expected.wf(),
        user_versions.wf(),
    ensures
        r.deep_view() == warnings_spec(expected.keys(), expected.vals(), user_versions@, expected.keys().len()),
{
    let ghost keys = expected.keys();
    let ghost vals = expected.vals();
    let mut out: Vec<(String, String, String)> = Vec::new();
    let mut i: usize = 0;
    assert(out.deep_view() =~= Seq::<(Seq<char>, Seq<char>, Seq<char>)>::empty());
    while i < expected.entries.len()
        invariant
            expected.wf(),
            user_versions.wf(),
            keys == expected.keys(),
            vals == expected.vals(),
            i <= expected.entries@.len(),
            out.deep_view() == warnings_spec(keys, vals, user_versions@, i as nat),
        decreases expected.entries.len() - i,
    {
        let name = &expected.entries[i].0;
        let spec = &expected.entries[i].1;
        proof {
            assert(keys[i as int] == name@);
            assert(vals[i as int] == spec.deep_view());
        }
        if str_chars(spec.version.as_str()).len() > 0 {
            match user_versions.get(name.as_str()) {
                Some(uv) => {
                    if should_upgrade_version(uv.as_str(), spec.version.as_str()) {
                        let ghost before = out.deep_view();
                        out.push((name.clone(), uv.clone(), spec.version.clone()));
                        proof {
                            assert(out.deep_view() =~= before.push((name@, uv@, spec.version@)));
                        }
                    }
                },
                None => {},
            }
        }
        i += 1;
    }
    out
}

} // verus!
