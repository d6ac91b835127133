//! The battery pack data model: curated crates, features, hidden patterns and
//! templates, with feature resolution and validation.
use vstd::prelude::*;
use crate::common::{DeepClone, vec_contains_str, union_strs, extend_missing};
use crate::glob::{glob, glob_match};
use crate::report::{Diagnostic, DiagnosticView, Severity, ValidationReport, diag};
use crate::strmap::StrMap;
use crate::text::{seq_ends_with, ends_with, str_eq, cat3, cat};

verus! {

/// The dependency kind, determined by which section of the battery pack's
/// Cargo.toml the crate appears in.
#[derive(Debug, Clone, Copy, PartialEq, Eq, Structural, Hash, PartialOrd, Ord)]
pub enum DepKind {
    /// `[dependencies]`
    Normal,
    /// `[dev-dependencies]`
    Dev,
    /// `[build-dependencies]`
    Build,
}

/// The Cargo.toml section name of a dependency kind.
pub open spec fn dep_kind_name(k: DepKind) -> Seq<char> {
    match k {
        DepKind::Normal => "dependencies"@,
        DepKind::Dev => "dev-dependencies"@,
        DepKind::Build => "build-dependencies"@,
    }
}

impl DepKind {
    /// The Cargo.toml section this kind of dependency lives in.
    pub fn section(&self) -> (s: &'static str)
        ensures
            s@ == dep_kind_name(*self),
    {
        match self {
            DepKind::Normal => "dependencies",
            DepKind::Dev => "dev-dependencies",
            DepKind::Build => "build-dependencies",
        }
    }

    /// The display form: the section name.
    pub fn to_string(&self) -> (s: String)
        ensures
            s@ == dep_kind_name(*self),
    {
        self.section().to_owned()
    }
}

/// A curated crate within a battery pack.
#[derive(Debug, Clone)]
pub struct CrateSpec {
    /// Recommended version.
    pub version: String,
    /// Recommended Cargo features.
    pub features: Vec<String>,
    /// Which dependency section this crate comes from.
    pub dep_kind: DepKind,
    /// Whether this crate is marked `optional = true`.
    pub optional: bool,
}

/// The content of a crate spec.
pub struct CrateSpecView {
    pub version: Seq<char>,
    pub features: Seq<Seq<char>>,
    pub dep_kind: DepKind,
    pub optional: bool,
}

impl DeepView for CrateSpec {
    type V = CrateSpecView;

    open spec fn deep_view(&self) -> CrateSpecView {
        CrateSpecView {
            version: self.version@,
            features: self.features.deep_view(),
            dep_kind: self.dep_kind,
            optional: self.optional,
        }
    }
}

impl DeepClone for CrateSpec {
    fn deep_clone(&self) -> (r: CrateSpec) {
        CrateSpec {
            version: self.version.clone(),
            features: self.features.deep_clone(),
            dep_kind: self.dep_kind,
            optional: self.optional,
        }
    }
}

/// Template metadata for project scaffolding.
#[derive(Debug, Clone)]
pub struct TemplateSpec {
    pub path: String,
    pub description: Option<String>,
}

/// The content of a template spec.
pub struct TemplateSpecView {
    pub path: Seq<char>,
    pub description: Option<Seq<char>>,
}

/// The content of an optional string.
pub open spec fn opt_view(o: Option<String>) -> Option<Seq<char>> {
    match o {
        Some(s) => Some(s@),
        None => None,
    }
}

impl DeepView for TemplateSpec {
    type V = TemplateSpecView;

    open spec fn deep_view(&self) -> TemplateSpecView {
        TemplateSpecView { path: self.path@, description: opt_view(self.description) }
    }
}

impl DeepClone for TemplateSpec {
    fn deep_clone(&self) -> (r: TemplateSpec) {
        TemplateSpec { path: self.path.clone(), description: self.description.deep_clone() }
    }
}

/// Errors that can occur when reading or checking a battery pack.
#[derive(Debug)]
pub enum Error {
    /// The manifest is not valid TOML (the parser's message).
    Toml(String),
    /// A required field is missing.
    MissingField(&'static str),
    /// The name does not end in `-battery-pack`.
    InvalidName { name: String },
    /// A feature names a crate the pack does not have.
    UnknownCrateInFeature { feature: String, crate_name: String },
    /// A file could not be read.
    Io { path: String, message: String },
}

/// Parsed battery pack specification.
#[derive(Debug)]
pub struct BatteryPackSpec {
    /// Crate name (e.g., `cli-battery-pack`).
    pub name: String,
    /// Version string.
    pub version: String,
    /// Package description.
    pub description: String,
    /// Repository URL.
    pub repository: Option<String>,
    /// Package keywords.
    pub keywords: Vec<String>,
    /// All curated crates, keyed by crate name.
    pub crates: StrMap<CrateSpec>,
    /// Named features, mapping feature name to crate names.
    pub features: StrMap<Vec<String>>,
    /// Hidden dependency patterns (may include globs).
    pub hidden: Vec<String>,
    /// Templates registered in metadata.
    pub templates: StrMap<TemplateSpec>,
}

/// The suffix every battery pack name carries.
pub open spec fn bp_suffix() -> Seq<char> {
    "-battery-pack"@
}

/// `name` matches one of the hidden patterns.
pub open spec fn hidden_by(hidden: Seq<Seq<char>>, name: Seq<char>) -> bool {
    exists|i: int| 0 <= i < hidden.len() && glob(#[trigger] hidden[i], name)
}

// ---------------------------------------------------------------------------
// Resolution, as mathematics
// ---------------------------------------------------------------------------

/// Add crate `name` (if the pack has it) to `m`; if already present, its
/// features gain those of the pack's spec that it lacks.
pub open spec fn add_crate(
    crates: Map<Seq<char>, CrateSpecView>,
    name: Seq<char>,
    m: Map<Seq<char>, CrateSpecView>,
) -> Map<Seq<char>, CrateSpecView> {
    if crates.contains_key(name) {
        if m.contains_key(name) {
            m.insert(
                name,
                CrateSpecView {
                    features: union_strs(m[name].features, crates[name].features),
                    ..m[name]
                },
            )
        } else {
            m.insert(name, crates[name])
        }
    } else {
        m
    }
}

/// Add each named crate in turn.
pub open spec fn add_crates(
    crates: Map<Seq<char>, CrateSpecView>,
    names: Seq<Seq<char>>,
    m: Map<Seq<char>, CrateSpecView>,
) -> Map<Seq<char>, CrateSpecView>
    decreases names.len(),
{
    if names.len() == 0 {
        m
    } else {
        add_crate(crates, names.last(), add_crates(crates, names.drop_last(), m))
    }
}

/// Insert the first `n` crates that are not optional, replacing entries of `m`.
pub open spec fn add_non_optional(
    keys: Seq<Seq<char>>,
    vals: Seq<CrateSpecView>,
    n: int,
    m: Map<Seq<char>, CrateSpecView>,
) -> Map<Seq<char>, CrateSpecView>
    decreases n,
{
    if n <= 0 {
        m
    } else {
        let r = add_non_optional(keys, vals, n - 1, m);
        if !vals[n - 1].optional {
            r.insert(keys[n - 1], vals[n - 1])
        } else {
            r
        }
    }
}

impl BatteryPackSpec {
    /// All maps are well formed.
    pub open spec fn wf(&self) -> bool {
        self.crates.wf() && self.features.wf() && self.templates.wf()
    }

    /// Add the default set: the `default` feature's crates if there is one,
    /// otherwise every non-optional crate.
    pub open spec fn add_default_spec(&self, m: Map<Seq<char>, CrateSpecView>) -> Map<
        Seq<char>,
        CrateSpecView,
    > {
        if self.features@.contains_key("default"@) {
            add_crates(self.crates@, self.features@["default"@], m)
        } else {
            add_non_optional(self.crates.keys(), self.crates.vals(), self.crates.keys().len() as int, m)
        }
    }

    /// Apply one active feature.
    pub open spec fn apply_feature(&self, f: Seq<char>, m: Map<Seq<char>, CrateSpecView>) -> Map<
        Seq<char>,
        CrateSpecView,
    > {
        if f == "default"@ {
            self.add_default_spec(m)
        } else if self.features@.contains_key(f) {
            add_crates(self.crates@, self.features@[f], m)
        } else {
            m
        }
    }

    /// Apply the first `n` active features in order, starting from nothing.
    pub open spec fn apply_features(&self, active: Seq<Seq<char>>, n: int) -> Map<
        Seq<char>,
        CrateSpecView,
    >
        decreases n,
    {
        if n <= 0 {
            Map::empty()
        } else {
            self.apply_feature(active[n - 1], self.apply_features(active, n - 1))
        }
    }

    /// The crates installed for the given active features: the default set
    /// when none is given, otherwise each feature's crates added in turn.
    pub open spec fn resolve_spec(&self, active: Seq<Seq<char>>) -> Map<Seq<char>, CrateSpecView> {
        if active.len() == 0 {
            self.add_default_spec(Map::empty())
        } else {
            self.apply_features(active, active.len() as int)
        }
    }

    /// Validate that this looks like a valid battery pack: the name ends in
    /// `-battery-pack`, and every feature names crates the pack has.
    pub fn validate(&self) -> (r: Result<(), Error>)
        requires
            self.wf(),
        ensures
            r is Ok <==> seq_ends_with(self.name@, bp_suffix()) && self.features_known(),
            r matches Err(Error::InvalidName { name }) ==> name@ == self.name@ && !seq_ends_with(
                self.name@,
                bp_suffix(),
            ),
            r matches Err(e) ==> (e is InvalidName || e is UnknownCrateInFeature),
            r matches Err(Error::UnknownCrateInFeature { feature, crate_name }) ==> seq_ends_with(
                self.name@,
                bp_suffix(),
            ) && self.first_unknown(feature@, crate_name@),
            !seq_ends_with(self.name@, bp_suffix()) ==> r is Err && r->Err_0 is InvalidName,
    {
        if !ends_with(self.name.as_str(), "-battery-pack") {
            return Err(Error::InvalidName { name: self.name.clone() });
        }
        self.validate_features()
    }

    /// Every crate named by a feature is one of the pack's crates.
    pub open spec fn features_known(&self) -> bool {
        forall|i: int, j: int|
            0 <= i < self.features.vals().len() && 0 <= j < self.features.vals()[i].len()
                ==> self.crates@.contains_key(#[trigger] self.features.vals()[i][j])
    }

    /// `(feature, crate_name)` is the first unknown crate reference, in
    /// feature order and then list order.
    pub open spec fn first_unknown(&self, feature: Seq<char>, crate_name: Seq<char>) -> bool {
        exists|i: int, j: int|
            0 <= i < self.features.vals().len() && 0 <= j < self.features.vals()[i].len()
                && #[trigger] self.features.keys()[i] == feature && #[trigger] self.features.vals()[i][j]
                == crate_name && !self.crates@.contains_key(crate_name) && (forall|a: int, b: int|
                0 <= a < self.features.vals().len() && 0 <= b < self.features.vals()[a].len() && (a
                    < i || (a == i && b < j)) ==> self.crates@.contains_key(
                    #[trigger] self.features.vals()[a][b],
                ))
    }

    /// Check that all feature entries reference crates that actually exist.
    fn validate_features(&self) -> (r: Result<(), Error>)
        requires
            self.wf(),
        ensures
            r is Ok <==> self.features_known(),
            r matches Err(e) ==> e is UnknownCrateInFeature,
            r matches Err(Error::UnknownCrateInFeature { feature, crate_name }) ==> self.first_unknown(
                feature@,
                crate_name@,
            ),
    {
        let mut i: usize = 0;
        while i < self.features.entries.len()
            invariant
                self.wf(),
                i <= self.features.entries@.len(),
                forall|a: int, b: int|
                    0 <= a < i && 0 <= b < self.features.vals()[a].len() ==> self.crates@.contains_key(
                        #[trigger] self.features.vals()[a][b],
                    ),
            decreases self.features.entries.len() - i,
        {
            let list = &self.features.entries[i].1;
            let mut j: usize = 0;
            while j < list.len()
                invariant
                    self.wf(),
                    i < self.features.entries@.len(),
                    list == self.features.entries@[i as int].1,
                    j <= list@.len(),
                    forall|a: int, b: int|
                        0 <= a < i && 0 <= b < self.features.vals()[a].len()
                            ==> self.crates@.contains_key(#[trigger] self.features.vals()[a][b]),
                    forall|b: int|
                        0 <= b < j ==> self.crates@.contains_key(
                            #[trigger] self.features.vals()[i as int][b],
                        ),
                decreases list.len() - j,
            {
                if !self.crates.contains_key(list[j].as_str()) {
                    let feature = self.features.entries[i].0.clone();
                    let crate_name = list[j].clone();
                    proof {
                        assert(self.features.keys()[i as int] == feature@);
                        assert(self.features.vals()[i as int][j as int] == crate_name@);
                    }
                    return Err(Error::UnknownCrateInFeature { feature, crate_name });
                }
                j += 1;
            }
            i += 1;
        }
        Ok(())
    }

    /// Comprehensive spec validation: collects every issue rather than
    /// stopping at the first. Name must end in `-battery-pack` and keywords
    /// must include `battery-pack` (errors); every crate a feature names
    /// must exist (one error each). A pack with a proper name and keyword
    /// and known feature crates gets a clean report.
    pub fn validate_spec(&self) -> (report: ValidationReport)
        requires
            self.wf(),
        ensures
            report.view_seq() == self.spec_diagnostics(),
    {
        let mut report = ValidationReport::new();
        if !ends_with(self.name.as_str(), "-battery-pack") {
            report.error(
                "format.crate.name",
                cat3("name '", self.name.as_str(), "' must end in '-battery-pack'"),
            );
        }
        if !vec_contains_str(&self.keywords, "battery-pack") {
            report.error("format.crate.keyword", "keywords must include 'battery-pack'".to_owned());
        }
        let ghost prefix = report.view_seq();
        let mut i: usize = 0;
        while i < self.features.entries.len()
            invariant
                self.wf(),
                i <= self.features.entries@.len(),
                report.view_seq() == prefix + feature_errors(
                    self.crates@,
                    self.features.keys(),
                    self.features.vals(),
                    i as int,
                ),
            decreases self.features.entries.len() - i,
        {
            let fname = &self.features.entries[i].0;
            let list = &self.features.entries[i].1;
            let ghost base = report.view_seq();
            let mut j: usize = 0;
            while j < list.len()
                invariant
                    self.wf(),
                    i < self.features.entries@.len(),
                    fname == self.features.entries@[i as int].0,
                    list == self.features.entries@[i as int].1,
                    j <= list@.len(),
                    report.view_seq() == base + unknown_in_list(
                        self.crates@,
                        fname@,
                        list.deep_view().take(j as int),
                    ),
                decreases list.len() - j,
            {
                proof {
                    assert(list.deep_view().take(j + 1).drop_last() =~= list.deep_view().take(j as int));
                    assert(list.deep_view().take(j + 1).last() == list.deep_view()[j as int]);
                }
                if !self.crates.contains_key(list[j].as_str()) {
                    let m1 = cat3("feature '", fname.as_str(), "' references unknown crate '");
                    let msg = cat3(m1.as_str(), list[j].as_str(), "'");
                    report.error("format.features.grouping", msg);
                }
                j += 1;
            }
            proof {
                assert(list.deep_view().take(j as int) =~= list.deep_view());
                assert(self.features.keys()[i as int] == fname@);
                assert(self.features.vals()[i as int] == list.deep_view());
            }
            i += 1;
        }
        report
    }

    /// The diagnostics `validate_spec` reports, in order.
    pub open spec fn spec_diagnostics(&self) -> Seq<DiagnosticView> {
        let s1: Seq<DiagnosticView> = if !seq_ends_with(self.name@, bp_suffix()) {
            seq![diag(Severity::Error, "format.crate.name"@, "name '"@ + self.name@ + "' must end in '-battery-pack'"@)]
        } else {
            seq![]
        };
        let s2: Seq<DiagnosticView> = if !self.keywords.deep_view().contains("battery-pack"@) {
            seq![diag(Severity::Error, "format.crate.keyword"@, "keywords must include 'battery-pack'"@)]
        } else {
            seq![]
        };
        s1 + s2 + feature_errors(self.crates@, self.features.keys(), self.features.vals(), self.features.keys().len() as int)
    }
}


/// The content of a list of `&str`.
pub open spec fn strs_view(s: Seq<&str>) -> Seq<Seq<char>> {
    s.map_values(|x: &str| x@)
}

/// Crates with features already grouped: `(group, crate, spec, in default set)`.
pub struct GroupedView {
    pub group: Seq<char>,
    pub name: Seq<char>,
    pub spec: CrateSpecView,
    pub is_default: bool,
}

/// Emitted rows and the crate names already emitted.
pub type GroupState = (Seq<GroupedView>, Set<Seq<char>>);

/// Emit `name` under `group` unless it was emitted before or is not a crate of the pack.
pub open spec fn emit(
    crates: Map<Seq<char>, CrateSpecView>,
    dflt: Map<Seq<char>, CrateSpecView>,
    group: Seq<char>,
    name: Seq<char>,
    st: GroupState,
) -> GroupState {
    if crates.contains_key(name) && !st.1.contains(name) {
        (
            st.0.push(GroupedView { group, name, spec: crates[name], is_default: dflt.contains_key(name) }),
            st.1.insert(name),
        )
    } else {
        st
    }
}

/// Emit each crate of a feature's list.
pub open spec fn emit_list(
    crates: Map<Seq<char>, CrateSpecView>,
    dflt: Map<Seq<char>, CrateSpecView>,
    group: Seq<char>,
    list: Seq<Seq<char>>,
    st: GroupState,
) -> GroupState
    decreases list.len(),
{
    if list.len() == 0 {
        st
    } else {
        emit(crates, dflt, group, list.last(), emit_list(crates, dflt, group, list.drop_last(), st))
    }
}

/// Emit the crates of the first `n` features.
pub open spec fn emit_features(
    crates: Map<Seq<char>, CrateSpecView>,
    dflt: Map<Seq<char>, CrateSpecView>,
    fkeys: Seq<Seq<char>>,
    fvals: Seq<Seq<Seq<char>>>,
    n: int,
) -> GroupState
    decreases n,
{
    if n <= 0 {
        (Seq::empty(), Set::empty())
    } else {
        emit_list(crates, dflt, fkeys[n - 1], fvals[n - 1], emit_features(crates, dflt, fkeys, fvals, n - 1))
    }
}

/// Emit the first `n` crates, in key order, under `default`.
pub open spec fn emit_rest(
    crates: Map<Seq<char>, CrateSpecView>,
    dflt: Map<Seq<char>, CrateSpecView>,
    ckeys: Seq<Seq<char>>,
    n: int,
    st: GroupState,
) -> GroupState
    decreases n,
{
    if n <= 0 {
        st
    } else {
        emit(crates, dflt, "default"@, ckeys[n - 1], emit_rest(crates, dflt, ckeys, n - 1, st))
    }
}

/// One row of `all_crates_with_grouping`.
#[derive(Debug)]
pub struct GroupedCrate {
    pub group: String,
    pub name: String,
    pub spec: CrateSpec,
    pub is_default: bool,
}

impl DeepView for GroupedCrate {
    type V = GroupedView;

    open spec fn deep_view(&self) -> GroupedView {
        GroupedView {
            group: self.group@,
            name: self.name@,
            spec: self.spec.deep_view(),
            is_default: self.is_default,
        }
    }
}

/// The number of keys other than `default`.
pub open spec fn count_non_default(keys: Seq<Seq<char>>) -> nat
    decreases keys.len(),
{
    if keys.len() == 0 {
        0
    } else {
        count_non_default(keys.drop_last()) + if keys.last() != "default"@ {
            1nat
        } else {
            0nat
        }
    }
}

impl BatteryPackSpec {
    /// Add crates from a feature's crate list to `result`. A crate already
    /// present keeps its spec and gains the features it lacks.
    pub fn add_feature_crates(&self, crate_names: &Vec<String>, result: &mut StrMap<CrateSpec>)
        requires
            self.wf(),
            old(result).wf(),
        ensures
            final(result).wf(),
            final(result)@ == add_crates(self.crates@, crate_names.deep_view(), old(result)@),
    {
        let ghost m0 = result@;
        let mut i: usize = 0;
        while i < crate_names.len()
            invariant
                self.wf(),
                result.wf(),
                m0 == old(result)@,
                i <= crate_names@.len(),
                result@ == add_crates(self.crates@, crate_names.deep_view().take(i as int), m0),
            decreases crate_names.len() - i,
        {
            proof {
                assert(crate_names.deep_view().take(i + 1).drop_last() =~= crate_names.deep_view().take(i as int));
                assert(crate_names.deep_view().take(i + 1).last() == crate_names@[i as int]@);
            }
            let name = &crate_names[i];
            match self.crates.get(name.as_str()) {
                Some(spec) => {
                    match result.get(name.as_str()) {
                        Some(existing) => {
                            let mut merged = existing.deep_clone();
                            extend_missing(&mut merged.features, &spec.features);
                            result.insert(name.clone(), merged);
                        },
                        None => {
                            result.insert(name.clone(), spec.deep_clone());
                        },
                    }
                },
                None => {},
            }
            proof {
                let prev = add_crates(self.crates@, crate_names.deep_view().take(i as int), m0);
                let next = add_crate(self.crates@, crate_names@[i as int]@, prev);
                assert(result@ =~= next);
            }
            i += 1;
        }
        proof {
            assert(crate_names.deep_view().take(i as int) =~= crate_names.deep_view());
        }
    }

    /// Add the default set of crates: those of the `default` feature, or all
    /// non-optional crates when there is no `default` feature.
    pub fn add_default_crates(&self, result: &mut StrMap<CrateSpec>)
        requires
            self.wf(),
            old(result).wf(),
        ensures
            final(result).wf(),
            final(result)@ == self.add_default_spec(old(result)@),
    {
        match self.features.get("default") {
            Some(default_names) => {
                self.add_feature_crates(default_names, result);
            },
            None => {
                let ghost m0 = result@;
                let mut i: usize = 0;
                while i < self.crates.entries.len()
                    invariant
                        self.wf(),
                        result.wf(),
                        m0 == old(result)@,
                        !self.features@.contains_key("default"@),
                        i <= self.crates.entries@.len(),
                        result@ == add_non_optional(self.crates.keys(), self.crates.vals(), i as int, m0),
                    decreases self.crates.entries.len() - i,
                {
                    if !self.crates.entries[i].1.optional {
                        let k = self.crates.entries[i].0.clone();
                        let v = self.crates.entries[i].1.deep_clone();
                        result.insert(k, v);
                    }
                    i += 1;
                }
            },
        }
    }

    /// Resolve which crates should be installed for the given active features.
    /// With no features, returns the default set: the `default` feature's
    /// crates, or all non-optional crates if there is no `default` feature.
    /// Features are additive: each named feature adds its crates on top;
    /// `"default"` adds the default set; unknown names add nothing.
    pub fn resolve_crates(&self, active_features: &[&str]) -> (r: StrMap<CrateSpec>)
        requires
            self.wf(),
        ensures
            r.wf(),
            r@ == self.resolve_spec(strs_view(active_features@)),
    {
        let mut result: StrMap<CrateSpec> = StrMap::new();
        let ghost act = strs_view(active_features@);
        if active_features.len() == 0 {
            self.add_default_crates(&mut result);
        } else {
            let mut i: usize = 0;
            while i < active_features.len()
                invariant
                    self.wf(),
                    result.wf(),
                    act == strs_view(active_features@),
                    i <= active_features@.len(),
                    result@ == self.apply_features(act, i as int),
                decreases active_features.len() - i,
            {
                let f: &str = active_features[i];
                if str_eq(f, "default") {
                    self.add_default_crates(&mut result);
                } else {
                    match self.features.get(f) {
                        Some(names) => {
                            self.add_feature_crates(names, &mut result);
                        },
                        None => {},
                    }
                }
                i += 1;
            }
        }
        result
    }

    /// Resolve all crates regardless of features or optional status.
    pub fn resolve_all(&self) -> (r: StrMap<CrateSpec>)
        requires
            self.wf(),
        ensures
            r.wf(),
            r@ == self.crates@,
    {
        self.crates.clone_map()
    }

    /// Check whether a crate name matches one of the hidden patterns.
    pub fn is_hidden(&self, crate_name: &str) -> (b: bool)
        ensures
            b == hidden_by(self.hidden.deep_view(), crate_name@),
    {
        let mut i: usize = 0;
        while i < self.hidden.len()
            invariant
                i <= self.hidden@.len(),
                forall|j: int| 0 <= j < i ==> !glob(#[trigger] self.hidden.deep_view()[j], crate_name@),
            decreases self.hidden.len() - i,
        {
            if glob_match(self.hidden[i].as_str(), crate_name) {
                assert(glob(self.hidden.deep_view()[i as int], crate_name@));
                return true;
            }
            i += 1;
        }
        false
    }

    /// All non-hidden crates.
    pub fn visible_crates(&self) -> (r: StrMap<CrateSpec>)
        requires
            self.wf(),
        ensures
            r.wf(),
            r@ == self.crates@.restrict(
                Set::new(|k: Seq<char>| !hidden_by(self.hidden.deep_view(), k)),
            ),
    {
        let mut r: StrMap<CrateSpec> = StrMap::new();
        let mut i: usize = 0;
        while i < self.crates.entries.len()
            invariant
                self.wf(),
                r.wf(),
                i <= self.crates.entries@.len(),
                r@ == self.crates@.restrict(
                    Set::new(|k: Seq<char>| !hidden_by(self.hidden.deep_view(), k) && self.crates.keys().take(i as int).contains(k)),
                ),
            decreases self.crates.entries.len() - i,
        {
            let ghost before = r@;
            let ghost ki = self.crates.keys()[i as int];
            proof {
                self.crates.lemma_index(i as int);
            }
            if !self.is_hidden(self.crates.entries[i].0.as_str()) {
                let k = self.crates.entries[i].0.clone();
                let v = self.crates.entries[i].1.deep_clone();
                r.insert(k, v);
            }
            proof {
                let s_next = Set::new(|k: Seq<char>| !hidden_by(self.hidden.deep_view(), k) && self.crates.keys().take(i + 1).contains(k));
                assert forall|k: Seq<char>| #[trigger] s_next.contains(k) == (Set::new(|k: Seq<char>| !hidden_by(self.hidden.deep_view(), k) && self.crates.keys().take(i as int).contains(k)).contains(k) || (k == ki && !hidden_by(self.hidden.deep_view(), ki))) by {
                    if self.crates.keys().take(i + 1).contains(k) {
                        let j = choose|j: int| 0 <= j < i + 1 && #[trigger] self.crates.keys().take(i + 1)[j] == k;
                        if j < i {
                            assert(self.crates.keys().take(i as int)[j] == k);
                        }
                    }
                    if self.crates.keys().take(i as int).contains(k) {
                        let j = choose|j: int| 0 <= j < i && #[trigger] self.crates.keys().take(i as int)[j] == k;
                        assert(self.crates.keys().take(i + 1)[j] == k);
                    }
                    if k == ki {
                        assert(self.crates.keys().take(i + 1)[i as int] == k);
                    }
                }
                assert(r@ =~= self.crates@.restrict(s_next));
            }
            i += 1;
        }
        proof {
            assert(self.crates.keys().take(i as int) =~= self.crates.keys());
            assert(r@ =~= self.crates@.restrict(Set::new(|k: Seq<char>| !hidden_by(self.hidden.deep_view(), k))));
        }
        r
    }
}


impl BatteryPackSpec {
    /// Record `name` under `group` unless already recorded or unknown.
    fn emit_crate(
        &self,
        dflt: &StrMap<CrateSpec>,
        group: &str,
        name: &str,
        out: &mut Vec<GroupedCrate>,
        seen: &mut Vec<String>,
    )
        requires
            self.wf(),
            dflt.wf(),
        ensures
            (final(out).deep_view(), final(seen).deep_view().to_set()) == emit(
                self.crates@,
                dflt@,
                group@,
                name@,
                (old(out).deep_view(), old(seen).deep_view().to_set()),
            ),
    {
        match self.crates.get(name) {
            Some(spec) => {
                if !vec_contains_str(seen, name) {
                    let ghost o0 = out.deep_view();
                    let ghost s0 = seen.deep_view();
                    let row = GroupedCrate {
                        group: group.to_owned(),
                        name: name.to_owned(),
                        spec: spec.deep_clone(),
                        is_default: dflt.contains_key(name),
                    };
                    out.push(row);
                    seen.push(name.to_owned());
                    proof {
                        assert(out.deep_view() =~= o0.push(row.deep_view()));
                        assert(seen.deep_view() =~= s0.push(name@));
                        s0.lemma_push_to_set_commute(name@);
                        assert(seen.deep_view().to_set() =~= s0.to_set().insert(name@));
                    }
                } else {
                    assert(seen.deep_view().to_set().contains(name@)) by {
                        let j = seen.deep_view().index_of(name@);
                        assert(seen.deep_view()[j] == name@);
                    }
                }
            },
            None => {},
        }
    }

    /// All crates grouped by feature, with whether each is in the default set.
    /// Crates appear under the first feature (in feature order) that lists
    /// them; crates in no feature follow, in name order, under `"default"`.
    pub fn all_crates_with_grouping(&self) -> (r: Vec<GroupedCrate>)
        requires
            self.wf(),
        ensures
            r.deep_view() == emit_rest(
                self.crates@,
                self.resolve_spec(Seq::empty()),
                self.crates.keys(),
                self.crates.keys().len() as int,
                emit_features(
                    self.crates@,
                    self.resolve_spec(Seq::empty()),
                    self.features.keys(),
                    self.features.vals(),
                    self.features.keys().len() as int,
                ),
            ).0,
    {
        let empty: [&str; 0] = [];
        let default_crates = self.resolve_crates(&empty);
        proof {
            assert(strs_view(empty@) =~= Seq::<Seq<char>>::empty());
        }
        let ghost dflt = default_crates@;
        let mut out: Vec<GroupedCrate> = Vec::new();
        let mut seen: Vec<String> = Vec::new();
        proof {
            assert(out.deep_view() =~= Seq::<GroupedView>::empty());
            assert(seen.deep_view().to_set() =~= Set::<Seq<char>>::empty());
        }
        let mut i: usize = 0;
        while i < self.features.entries.len()
            invariant
                self.wf(),
                default_crates.wf(),
                dflt == default_crates@,
                dflt == self.resolve_spec(Seq::empty()),
                i <= self.features.entries@.len(),
                (out.deep_view(), seen.deep_view().to_set()) == emit_features(
                    self.crates@,
                    dflt,
                    self.features.keys(),
                    self.features.vals(),
                    i as int,
                ),
            decreases self.features.entries.len() - i,
        {
            let fname = &self.features.entries[i].0;
            let list = &self.features.entries[i].1;
            let ghost st0 = (out.deep_view(), seen.deep_view().to_set());
            let mut j: usize = 0;
            while j < list.len()
                invariant
                    self.wf(),
                    default_crates.wf(),
                    dflt == default_crates@,
                    i < self.features.entries@.len(),
                    fname == self.features.entries@[i as int].0,
                    list == self.features.entries@[i as int].1,
                    j <= list@.len(),
                    (out.deep_view(), seen.deep_view().to_set()) == emit_list(
                        self.crates@,
                        dflt,
                        fname@,
                        list.deep_view().take(j as int),
                        st0,
                    ),
                decreases list.len() - j,
            {
                proof {
                    assert(list.deep_view().take(j + 1).drop_last() =~= list.deep_view().take(j as int));
                    assert(list.deep_view().take(j + 1).last() == list.deep_view()[j as int]);
                }
                self.emit_crate(&default_crates, fname.as_str(), list[j].as_str(), &mut out, &mut seen);
                j += 1;
            }
            proof {
                assert(list.deep_view().take(j as int) =~= list.deep_view());
                assert(self.features.keys()[i as int] == fname@);
                assert(self.features.vals()[i as int] == list.deep_view());
            }
            i += 1;
        }
        let ghost st1 = (out.deep_view(), seen.deep_view().to_set());
        let mut k: usize = 0;
        while k < self.crates.entries.len()
            invariant
                self.wf(),
                default_crates.wf(),
                dflt == default_crates@,
                dflt == self.resolve_spec(Seq::empty()),
                k <= self.crates.entries@.len(),
                st1 == emit_features(
                    self.crates@,
                    dflt,
                    self.features.keys(),
                    self.features.vals(),
                    self.features.keys().len() as int,
                ),
                (out.deep_view(), seen.deep_view().to_set()) == emit_rest(
                    self.crates@,
                    dflt,
                    self.crates.keys(),
                    k as int,
                    st1,
                ),
            decreases self.crates.entries.len() - k,
        {
            self.emit_crate(&default_crates, "default", self.crates.entries[k].0.as_str(), &mut out, &mut seen);
            k += 1;
        }
        out
    }

    /// Whether the pack offers meaningful choices: a named feature beyond
    /// `default`, or more than 3 crates.
    pub fn has_meaningful_choices(&self) -> (b: bool)
        requires
            self.wf(),
        ensures
            b == (count_non_default(self.features.keys()) > 0 || self.crates@.dom().len() > 3),
    {
        let mut n: usize = 0;
        let mut i: usize = 0;
        while i < self.features.entries.len()
            invariant
                self.wf(),
                i <= self.features.entries@.len(),
                n == count_non_default(self.features.keys().take(i as int)),
                n <= i,
            decreases self.features.entries.len() - i,
        {
            proof {
                assert(self.features.keys().take(i + 1).drop_last() =~= self.features.keys().take(i as int));
            }
            if !str_eq(self.features.entries[i].0.as_str(), "default") {
                n += 1;
            }
            i += 1;
        }
        proof {
            assert(self.features.keys().take(i as int) =~= self.features.keys());
        }
        n > 0 || self.crates.len() > 3
    }
}

/// One error for each crate of `list` the pack does not have.
pub open spec fn unknown_in_list(
    crates: Map<Seq<char>, CrateSpecView>,
    fname: Seq<char>,
    list: Seq<Seq<char>>,
) -> Seq<DiagnosticView>
    decreases list.len(),
{
    if list.len() == 0 {
        seq![]
    } else {
        let r = unknown_in_list(crates, fname, list.drop_last());
        if !crates.contains_key(list.last()) {
            r.push(diag(Severity::Error, "format.features.grouping"@,
                "feature '"@ + fname + "' references unknown crate '"@ + list.last() + "'"@))
        } else {
            r
        }
    }
}

/// Unknown-crate errors of the first `n` features.
pub open spec fn feature_errors(
    crates: Map<Seq<char>, CrateSpecView>,
    fkeys: Seq<Seq<char>>,
    fvals: Seq<Seq<Seq<char>>>,
    n: int,
) -> Seq<DiagnosticView>
    decreases n,
{
    if n <= 0 {
        seq![]
    } else {
        feature_errors(crates, fkeys, fvals, n - 1) + unknown_in_list(crates, fkeys[n - 1], fvals[n - 1])
    }
}


/// The crates `add_crates` yields: those already there, and every named
/// crate the pack has.
pub proof fn lemma_add_crates_dom(
    crates: Map<Seq<char>, CrateSpecView>,
    names: Seq<Seq<char>>,
    m: Map<Seq<char>, CrateSpecView>,
    k: Seq<char>,
)
    ensures
        add_crates(crates, names, m).contains_key(k) <==> (m.contains_key(k) || (names.contains(k) && crates.contains_key(k))),
    decreases names.len(),
{
    if names.len() > 0 {
        let init = names.drop_last();
        lemma_add_crates_dom(crates, init, m, k);
        if init.contains(k) {
            let i = choose|i: int| 0 <= i < init.len() && init[i] == k;
            assert(names[i] == k);
        }
        if names.contains(k) && k != names.last() {
            let i = choose|i: int| 0 <= i < names.len() && names[i] == k;
            assert(init[i] == k);
        }
        if k == names.last() {
            assert(names[names.len() - 1] == k);
        }
    }
}

/// The crates `add_non_optional` yields: those already there, and every
/// non-optional crate among the first `n`.
pub proof fn lemma_add_non_optional_dom(
    keys: Seq<Seq<char>>,
    vals: Seq<CrateSpecView>,
    n: int,
    m: Map<Seq<char>, CrateSpecView>,
    k: Seq<char>,
)
    ensures
        add_non_optional(keys, vals, n, m).contains_key(k) <==> (m.contains_key(k) || exists|i: int|
            0 <= i < n && keys[i] == k && !vals[i].optional),
    decreases n,
{
    if n > 0 {
        lemma_add_non_optional_dom(keys, vals, n - 1, m, k);
        if keys[n - 1] == k && !vals[n - 1].optional {
            assert(exists|i: int| 0 <= i < n && keys[i] == k && !vals[i].optional);
        }
        if exists|i: int| 0 <= i < n && keys[i] == k && !vals[i].optional {
            let i = choose|i: int| 0 <= i < n && keys[i] == k && !vals[i].optional;
            if i < n - 1 {
                assert(exists|i2: int| 0 <= i2 < n - 1 && keys[i2] == k && !vals[i2].optional);
            }
        }
    }
}

impl BatteryPackSpec {
    /// Applying a feature never drops a crate.
    pub proof fn lemma_apply_feature_keeps(&self, f: Seq<char>, m: Map<Seq<char>, CrateSpecView>, k: Seq<char>)
        ensures
            m.contains_key(k) ==> self.apply_feature(f, m).contains_key(k),
    {
        if f == "default"@ {
            if self.features@.contains_key("default"@) {
                lemma_add_crates_dom(self.crates@, self.features@["default"@], m, k);
            } else {
                lemma_add_non_optional_dom(self.crates.keys(), self.crates.vals(), self.crates.keys().len() as int, m, k);
            }
        } else if self.features@.contains_key(f) {
            lemma_add_crates_dom(self.crates@, self.features@[f], m, k);
        }
    }

    /// The first `n` features of a list decide the first `n` steps.
    pub proof fn lemma_apply_features_prefix(&self, active: Seq<Seq<char>>, g: Seq<char>, n: int)
        requires
            n <= active.len(),
        ensures
            self.apply_features(active.push(g), n) == self.apply_features(active, n),
        decreases n,
    {
        if n > 0 {
            self.lemma_apply_features_prefix(active, g, n - 1);
            assert(active.push(g)[n - 1] == active[n - 1]);
        }
    }

    /// Later features never drop what earlier ones added.
    pub proof fn lemma_apply_features_keeps(&self, active: Seq<Seq<char>>, j: int, n: int, k: Seq<char>)
        requires
            0 <= j <= n,
        ensures
            self.apply_features(active, j).contains_key(k) ==> self.apply_features(active, n).contains_key(k),
        decreases n - j,
    {
        if j < n {
            self.lemma_apply_features_keeps(active, j, n - 1, k);
            self.lemma_apply_feature_keeps(active[n - 1], self.apply_features(active, n - 1), k);
        }
    }
}

/// Features are additive: naming one more feature never removes a crate
/// (with at least one feature named; with none, the default set is used
/// instead of nothing).
pub proof fn law_features_additive(spec: &BatteryPackSpec, active: Seq<Seq<char>>, g: Seq<char>, k: Seq<char>)
    requires
        active.len() > 0,
    ensures
        spec.resolve_spec(active).contains_key(k) ==> spec.resolve_spec(active.push(g)).contains_key(k),
{
    let n = active.len() as int;
    spec.lemma_apply_features_prefix(active, g, n);
    spec.lemma_apply_feature_keeps(g, spec.apply_features(active, n), k);
    assert(active.push(g)[n] == g);
}

/// Every crate of a named feature is installed, when the pack has it.
pub proof fn law_feature_crates_installed(spec: &BatteryPackSpec, active: Seq<Seq<char>>, i: int, c: Seq<char>)
    requires
        0 <= i < active.len(),
        active[i] != "default"@,
        spec.features@.contains_key(active[i]),
        spec.features@[active[i]].contains(c),
        spec.crates@.contains_key(c),
    ensures
        spec.resolve_spec(active).contains_key(c),
{
    lemma_add_crates_dom(spec.crates@, spec.features@[active[i]], spec.apply_features(active, i), c);
    spec.lemma_apply_features_keeps(active, i + 1, active.len() as int, c);
}

/// With no `default` feature declared, the default set is every crate that
/// is not optional.
pub proof fn law_default_is_non_optional(spec: &BatteryPackSpec, k: Seq<char>)
    requires
        spec.wf(),
        !spec.features@.contains_key("default"@),
    ensures
        spec.resolve_spec(Seq::empty()).contains_key(k) <==> (spec.crates@.contains_key(k) && !spec.crates@[k].optional),
{
    let keys = spec.crates.keys();
    let vals = spec.crates.vals();
    lemma_add_non_optional_dom(keys, vals, keys.len() as int, Map::empty(), k);
    if spec.crates@.contains_key(k) {
        let idx = keys.index_of(k);
        spec.crates.lemma_index(idx);
        if exists|i: int| 0 <= i < keys.len() && keys[i] == k && !vals[i].optional {
            let i = choose|i: int| 0 <= i < keys.len() && keys[i] == k && !vals[i].optional;
            spec.crates.lemma_index(i);
        }
    } else {
        if exists|i: int| 0 <= i < keys.len() && keys[i] == k && !vals[i].optional {
            let i = choose|i: int| 0 <= i < keys.len() && keys[i] == k && !vals[i].optional;
            spec.crates.lemma_index(i);
        }
    }
}


/// Adding strings a sequence already holds leaves it as it is.
proof fn lemma_union_held(base: Seq<Seq<char>>, add: Seq<Seq<char>>)
    requires
        forall|i: int| 0 <= i < add.len() ==> base.contains(#[trigger] add[i]),
    ensures
        union_strs(base, add) == base,
    decreases add.len(),
{
    if add.len() > 0 {
        assert forall|i: int| 0 <= i < add.drop_last().len() implies base.contains(#[trigger] add.drop_last()[i]) by {
            assert(add.drop_last()[i] == add[i]);
        }
        lemma_union_held(base, add.drop_last());
        assert(base.contains(add[add.len() - 1]));
    }
}

/// A map whose entries are the pack's own specs.
pub open spec fn pack_entries(crates: Map<Seq<char>, CrateSpecView>, m: Map<Seq<char>, CrateSpecView>) -> bool {
    forall|k: Seq<char>| #[trigger] m.contains_key(k) ==> crates.contains_key(k) && m[k] == crates[k]
}

proof fn lemma_add_crates_vals(crates: Map<Seq<char>, CrateSpecView>, names: Seq<Seq<char>>, m: Map<Seq<char>, CrateSpecView>)
    requires
        pack_entries(crates, m),
    ensures
        pack_entries(crates, add_crates(crates, names, m)),
    decreases names.len(),
{
    if names.len() > 0 {
        lemma_add_crates_vals(crates, names.drop_last(), m);
        let r = add_crates(crates, names.drop_last(), m);
        let n = names.last();
        if crates.contains_key(n) && r.contains_key(n) {
            let x = crates[n].features;
            assert forall|i: int| 0 <= i < x.len() implies x.contains(#[trigger] x[i]) by {}
            lemma_union_held(x, x);
            assert(CrateSpecView { features: union_strs(r[n].features, crates[n].features), ..r[n] } == crates[n]);
        }
    }
}

proof fn lemma_add_non_optional_vals(spec: &BatteryPackSpec, n: int, m: Map<Seq<char>, CrateSpecView>)
    requires
        spec.wf(),
        0 <= n <= spec.crates.keys().len(),
        pack_entries(spec.crates@, m),
    ensures
        pack_entries(spec.crates@, add_non_optional(spec.crates.keys(), spec.crates.vals(), n, m)),
    decreases n,
{
    if n > 0 {
        lemma_add_non_optional_vals(spec, n - 1, m);
        spec.crates.lemma_index(n - 1);
    }
}

/// The crates a single feature reaches: for `default`, the default set;
/// for a declared feature, its crates the pack has; otherwise none.
pub open spec fn feature_reaches(spec: &BatteryPackSpec, f: Seq<char>, k: Seq<char>) -> bool {
    if f == "default"@ {
        spec.resolve_spec(Seq::empty()).contains_key(k)
    } else {
        spec.features@.contains_key(f) && spec.features@[f].contains(k) && spec.crates@.contains_key(k)
    }
}

proof fn lemma_apply_feature_step(spec: &BatteryPackSpec, f: Seq<char>, m: Map<Seq<char>, CrateSpecView>, k: Seq<char>)
    requires
        spec.wf(),
        pack_entries(spec.crates@, m),
    ensures
        spec.apply_feature(f, m).contains_key(k) <==> (m.contains_key(k) || feature_reaches(spec, f, k)),
        pack_entries(spec.crates@, spec.apply_feature(f, m)),
{
    let keys = spec.crates.keys();
    let vals = spec.crates.vals();
    if f == "default"@ {
        if spec.features@.contains_key("default"@) {
            lemma_add_crates_dom(spec.crates@, spec.features@["default"@], m, k);
            lemma_add_crates_dom(spec.crates@, spec.features@["default"@], Map::empty(), k);
            lemma_add_crates_vals(spec.crates@, spec.features@["default"@], m);
        } else {
            lemma_add_non_optional_dom(keys, vals, keys.len() as int, m, k);
            lemma_add_non_optional_dom(keys, vals, keys.len() as int, Map::empty(), k);
            lemma_add_non_optional_vals(spec, keys.len() as int, m);
        }
    } else if spec.features@.contains_key(f) {
        lemma_add_crates_dom(spec.crates@, spec.features@[f], m, k);
        lemma_add_crates_vals(spec.crates@, spec.features@[f], m);
    }
}

proof fn lemma_apply_features_union(spec: &BatteryPackSpec, active: Seq<Seq<char>>, n: int, k: Seq<char>)
    requires
        spec.wf(),
        0 <= n <= active.len(),
    ensures
        spec.apply_features(active, n).contains_key(k) <==> exists|i: int| 0 <= i < n && #[trigger] feature_reaches(spec, active[i], k),
        pack_entries(spec.crates@, spec.apply_features(active, n)),
    decreases n,
{
    if n > 0 {
        lemma_apply_features_union(spec, active, n - 1, k);
        lemma_apply_feature_step(spec, active[n - 1], spec.apply_features(active, n - 1), k);
        if exists|i: int| 0 <= i < n && #[trigger] feature_reaches(spec, active[i], k) {
            let i = choose|i: int| 0 <= i < n && #[trigger] feature_reaches(spec, active[i], k);
            if i < n - 1 {
                assert(exists|i2: int| 0 <= i2 < n - 1 && #[trigger] feature_reaches(spec, active[i2], k));
            }
        }
        if feature_reaches(spec, active[n - 1], k) {
            assert(exists|i: int| 0 <= i < n && #[trigger] feature_reaches(spec, active[i], k));
        }
    }
}

/// Resolving several features installs exactly the union of what each
/// feature reaches (`default` standing for the default set), and every
/// installed crate keeps the pack's own spec: a crate reached twice is
/// there once, its features not repeated.
pub proof fn law_resolve_union(spec: &BatteryPackSpec, active: Seq<Seq<char>>, k: Seq<char>)
    requires
        spec.wf(),
        active.len() > 0,
    ensures
        spec.resolve_spec(active).contains_key(k) <==> exists|i: int| 0 <= i < active.len() && #[trigger] feature_reaches(spec, active[i], k),
        spec.resolve_spec(active).contains_key(k) ==> spec.resolve_spec(active)[k] == spec.crates@[k],
{
    lemma_apply_features_union(spec, active, active.len() as int, k);
}


proof fn lemma_unknown_in_list(crates: Map<Seq<char>, CrateSpecView>, fname: Seq<char>, list: Seq<Seq<char>>)
    ensures
        forall|d: int| 0 <= d < unknown_in_list(crates, fname, list).len() ==> (#[trigger] unknown_in_list(crates, fname, list)[d]).rule == "format.features.grouping"@,
        unknown_in_list(crates, fname, list).len() == 0 <==> forall|j: int| 0 <= j < list.len() ==> crates.contains_key(#[trigger] list[j]),
    decreases list.len(),
{
    if list.len() > 0 {
        lemma_unknown_in_list(crates, fname, list.drop_last());
        assert forall|j: int| 0 <= j < list.drop_last().len() implies list.drop_last()[j] == list[j] by {}
    }
}

proof fn lemma_feature_errors(crates: Map<Seq<char>, CrateSpecView>, fkeys: Seq<Seq<char>>, fvals: Seq<Seq<Seq<char>>>, n: int)
    requires
        0 <= n <= fvals.len(),
    ensures
        forall|d: int| 0 <= d < feature_errors(crates, fkeys, fvals, n).len() ==> (#[trigger] feature_errors(crates, fkeys, fvals, n)[d]).rule == "format.features.grouping"@,
        feature_errors(crates, fkeys, fvals, n).len() == 0 <==> forall|i: int, j: int| 0 <= i < n && 0 <= j < fvals[i].len() ==> crates.contains_key(#[trigger] fvals[i][j]),
    decreases n,
{
    if n > 0 {
        lemma_feature_errors(crates, fkeys, fvals, n - 1);
        lemma_unknown_in_list(crates, fkeys[n - 1], fvals[n - 1]);
        let a = feature_errors(crates, fkeys, fvals, n - 1);
        let b = unknown_in_list(crates, fkeys[n - 1], fvals[n - 1]);
        assert forall|d: int| 0 <= d < (a + b).len() implies (#[trigger] (a + b)[d]).rule == "format.features.grouping"@ by {
            if d < a.len() {
                assert((a + b)[d] == a[d]);
            } else {
                assert((a + b)[d] == b[d - a.len()]);
            }
        }
        if (a + b).len() == 0 {
            assert forall|i: int, j: int| 0 <= i < n && 0 <= j < fvals[i].len() implies crates.contains_key(#[trigger] fvals[i][j]) by {
                if i == n - 1 {
                    assert(crates.contains_key(fvals[n - 1][j]));
                }
            }
        }
    }
}

/// A rule `validate` refuses a pack for.
pub open spec fn refusing_rule(rule: Seq<char>) -> bool {
    rule == "format.crate.name"@ || rule == "format.features.grouping"@
}

/// `validate` accepts a pack exactly when the full report (`validate_spec`)
/// holds no crate-name or feature-grouping error: the keyword error does
/// not make it fail.
pub proof fn law_validate_agrees_with_report(spec: &BatteryPackSpec)
    requires
        spec.wf(),
    ensures
        (seq_ends_with(spec.name@, bp_suffix()) && spec.features_known())
            <==> !exists|d: int| 0 <= d < spec.spec_diagnostics().len() && refusing_rule(#[trigger] spec.spec_diagnostics()[d].rule),
{
    reveal_strlit("format.crate.name");
    reveal_strlit("format.crate.keyword");
    reveal_strlit("format.features.grouping");
    let kw = "format.crate.keyword"@;
    let name = "format.crate.name"@;
    let grouping = "format.features.grouping"@;
    assert(kw[13] != name[13] && kw[7] != grouping[7]);
    assert(name[7] != grouping[7]);
    let keys = spec.features.keys();
    let vals = spec.features.vals();
    lemma_feature_errors(spec.crates@, keys, vals, keys.len() as int);
    let ds = spec.spec_diagnostics();
    let fe = feature_errors(spec.crates@, keys, vals, keys.len() as int);
    let s1: Seq<DiagnosticView> = if !seq_ends_with(spec.name@, bp_suffix()) {
        seq![diag(Severity::Error, "format.crate.name"@, "name '"@ + spec.name@ + "' must end in '-battery-pack'"@)]
    } else {
        seq![]
    };
    let s2: Seq<DiagnosticView> = if !spec.keywords.deep_view().contains("battery-pack"@) {
        seq![diag(Severity::Error, "format.crate.keyword"@, "keywords must include 'battery-pack'"@)]
    } else {
        seq![]
    };
    let pre = s1 + s2;
    assert(ds == pre + fe);
    assert(keys.len() == vals.len());
    if seq_ends_with(spec.name@, bp_suffix()) && spec.features_known() {
        assert forall|i: int, j: int| 0 <= i < keys.len() && 0 <= j < vals[i].len() implies spec.crates@.contains_key(#[trigger] vals[i][j]) by {}
        assert(fe.len() == 0);
        assert forall|d: int| 0 <= d < ds.len() implies !refusing_rule(#[trigger] ds[d].rule) by {
            assert(ds[d] == pre[d]);
            assert(pre[d] == s2[d]);
        }
    } else if !seq_ends_with(spec.name@, bp_suffix()) {
        assert(ds[0] == s1[0]);
        assert(refusing_rule(ds[0].rule));
    } else {
        assert(fe.len() > 0);
        let d = pre.len() as int;
        assert(ds[d] == fe[0]);
        assert(refusing_rule(ds[d].rule));
    }
}

/// Naming only `default` resolves to the same crates, specs included, as
/// naming no feature at all.
pub proof fn law_default_list_is_no_list(spec: &BatteryPackSpec)
    ensures
        spec.resolve_spec(seq!["default"@]) == spec.resolve_spec(Seq::empty()),
{
    assert(seq!["default"@][0] == "default"@);
    assert(spec.apply_features(seq!["default"@], 0) == Map::<Seq<char>, CrateSpecView>::empty());
}

/// A non-empty list of features the pack does not declare (and none of them
/// `default`) resolves to nothing: it does not fall back to the default set.
pub proof fn law_unknown_features_give_nothing(spec: &BatteryPackSpec, active: Seq<Seq<char>>)
    requires
        active.len() > 0,
        forall|i: int| 0 <= i < active.len() ==> #[trigger] active[i] != "default"@ && !spec.features@.contains_key(active[i]),
    ensures
        spec.resolve_spec(active) == Map::<Seq<char>, CrateSpecView>::empty(),
{
    lemma_unknown_features_empty(spec, active, active.len() as int);
}

proof fn lemma_unknown_features_empty(spec: &BatteryPackSpec, active: Seq<Seq<char>>, n: int)
    requires
        0 <= n <= active.len(),
        forall|i: int| 0 <= i < active.len() ==> #[trigger] active[i] != "default"@ && !spec.features@.contains_key(active[i]),
    ensures
        spec.apply_features(active, n) == Map::<Seq<char>, CrateSpecView>::empty(),
    decreases n,
{
    if n > 0 {
        lemma_unknown_features_empty(spec, active, n - 1);
        assert(active[n - 1] != "default"@ && !spec.features@.contains_key(active[n - 1]));
    }
}

} // verus!
