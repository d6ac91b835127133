//! A battery pack manifest as read from its Cargo.toml, and the spec built from it.
use vstd::prelude::*;
use crate::manifest::{BatteryPackSpec, CrateSpec, CrateSpecView, DepKind, Error, TemplateSpec, TemplateSpecView, opt_view};
use crate::strmap::StrMap;
use crate::toml_model::{TomlValue, get, toml_get, as_str_of, as_bool_of, str_items, string_items};
use crate::common::DeepClone;
use crate::text::{ends_with, seq_ends_with};

verus! {

/// A template entry of `[package.metadata.battery.templates]`.
#[derive(Debug)]
pub struct RawTemplateSpec {
    pub path: String,
    pub description: Option<String>,
}

/// `[package.metadata.battery-pack]`.
#[derive(Debug)]
pub struct RawBatteryPackMetadata {
    pub hidden: Vec<String>,
}

/// `[package.metadata.battery]`.
#[derive(Debug)]
pub struct RawBatteryMetadata {
    pub templates: Vec<(String, RawTemplateSpec)>,
}

/// `[package.metadata]`.
#[derive(Debug)]
pub struct RawMetadata {
    pub battery_pack: Option<RawBatteryPackMetadata>,
    pub battery: Option<RawBatteryMetadata>,
}

/// `[package]`.
#[derive(Debug)]
pub struct RawPackage {
    pub name: Option<String>,
    pub version: Option<String>,
    pub description: Option<String>,
    pub repository: Option<String>,
    pub keywords: Vec<String>,
    pub metadata: Option<RawMetadata>,
}

/// The parts of a Cargo.toml a battery pack is read from; each table's
/// entries in key order.
#[derive(Debug)]
pub struct RawManifest {
    pub package: Option<RawPackage>,
    pub features: Vec<(String, Vec<String>)>,
    pub dependencies: Vec<(String, TomlValue)>,
    pub dev_dependencies: Vec<(String, TomlValue)>,
    pub build_dependencies: Vec<(String, TomlValue)>,
}

/// What one dependency entry says: `"1.0"`, or a table with `version`,
/// `features` and `optional`; anything else says nothing.
pub open spec fn dep_entry(v: TomlValue, kind: DepKind) -> CrateSpecView {
    match v {
        TomlValue::Str(s) => CrateSpecView {
            version: s@,
            features: Seq::empty(),
            dep_kind: kind,
            optional: false,
        },
        TomlValue::Table(_) => CrateSpecView {
            version: match as_str_of(toml_get(v, "version"@)) {
                Some(s) => s,
                None => Seq::empty(),
            },
            features: match toml_get(v, "features"@) {
                Some(TomlValue::Array(items)) => str_items(items@),
                _ => Seq::empty(),
            },
            dep_kind: kind,
            optional: as_bool_of(toml_get(v, "optional"@)) == Some(true),
        },
        _ => CrateSpecView {
            version: Seq::empty(),
            features: Seq::empty(),
            dep_kind: kind,
            optional: false,
        },
    }
}

/// Read one dependency entry.
pub fn parse_single_dep(value: &TomlValue, kind: DepKind) -> (c: CrateSpec)
    ensures
        c.deep_view() == dep_entry(*value, kind),
{
    match value {
        TomlValue::Str(s) => {
            let c = CrateSpec { version: s.clone(), features: Vec::new(), dep_kind: kind, optional: false };
            assert(c.features.deep_view() =~= Seq::<Seq<char>>::empty());
            c
        },
        TomlValue::Table(_) => {
            let version = match get(value, "version") {
                Some(TomlValue::Str(s)) => s.clone(),
                _ => String::new(),
            };
            let features = match get(value, "features") {
                Some(TomlValue::Array(items)) => string_items(items),
                _ => Vec::new(),
            };
            let optional = match get(value, "optional") {
                Some(TomlValue::Bool(b)) => *b,
                _ => false,
            };
            let c = CrateSpec { version, features, dep_kind: kind, optional };
            assert(c.deep_view().features =~= dep_entry(*value, kind).features);
            c
        },
        _ => {
            let c = CrateSpec { version: String::new(), features: Vec::new(), dep_kind: kind, optional: false };
            assert(c.features.deep_view() =~= Seq::<Seq<char>>::empty());
            c
        },
    }
}

/// `m` with the first `n` entries of a dependency section recorded, a later
/// entry replacing an earlier one of the same name.
pub open spec fn section_map(
    m: Map<Seq<char>, CrateSpecView>,
    es: Seq<(String, TomlValue)>,
    kind: DepKind,
    n: int,
) -> Map<Seq<char>, CrateSpecView>
    decreases n,
{
    if n <= 0 {
        m
    } else {
        section_map(m, es, kind, n - 1).insert(es[n - 1].0@, dep_entry(es[n - 1].1, kind))
    }
}

/// Record every crate of a dependency section with the given kind.
pub fn parse_dep_section(raw: &Vec<(String, TomlValue)>, kind: DepKind, crates: &mut StrMap<CrateSpec>)
    requires
        old(crates).wf(),
    ensures
        final(crates).wf(),
        final(crates).map() == section_map(old(crates).map(), raw@, kind, raw@.len() as int),
{
    let ghost m0 = crates.map();
    let mut i: usize = 0;
    while i < raw.len()
        invariant
            i <= raw@.len(),
            crates.wf(),
            crates.map() == section_map(m0, raw@, kind, i as int),
        decreases raw.len() - i,
    {
        let c = parse_single_dep(&raw[i].1, kind);
        crates.insert(raw[i].0.clone(), c);
        i += 1;
    }
}

/// The map the first `n` entries of a list give, a later entry replacing an earlier one.
pub open spec fn list_map<V: DeepView>(es: Seq<(String, V)>, n: int) -> Map<Seq<char>, V::V>
    decreases n,
{
    if n <= 0 {
        Map::empty()
    } else {
        list_map(es, n - 1).insert(es[n - 1].0@, es[n - 1].1.deep_view())
    }
}

/// The templates the first `n` raw entries give.
pub open spec fn template_map(es: Seq<(String, RawTemplateSpec)>, n: int) -> Map<Seq<char>, TemplateSpecView>
    decreases n,
{
    if n <= 0 {
        Map::empty()
    } else {
        template_map(es, n - 1).insert(
            es[n - 1].0@,
            TemplateSpecView { path: es[n - 1].1.path@, description: opt_view(es[n - 1].1.description) },
        )
    }
}

/// The hidden patterns a package's metadata gives.
pub open spec fn hidden_of(p: RawPackage) -> Seq<Seq<char>> {
    match p.metadata {
        Some(m) => match m.battery_pack {
            Some(bp) => bp.hidden.deep_view(),
            None => Seq::empty(),
        },
        None => Seq::empty(),
    }
}

/// The template entries a package's metadata gives.
pub open spec fn templates_of(p: RawPackage) -> Seq<(String, RawTemplateSpec)> {
    match p.metadata {
        Some(m) => match m.battery {
            Some(b) => b.templates@,
            None => Seq::empty(),
        },
        None => Seq::empty(),
    }
}

/// The crates of all three sections: normal, then dev, then build, a later
/// section replacing an earlier one for the same name.
pub open spec fn crates_of(raw: RawManifest) -> Map<Seq<char>, CrateSpecView> {
    let m1 = section_map(Map::empty(), raw.dependencies@, DepKind::Normal, raw.dependencies@.len() as int);
    let m2 = section_map(m1, raw.dev_dependencies@, DepKind::Dev, raw.dev_dependencies@.len() as int);
    section_map(m2, raw.build_dependencies@, DepKind::Build, raw.build_dependencies@.len() as int)
}

fn build_templates(es: &Vec<(String, RawTemplateSpec)>) -> (r: StrMap<TemplateSpec>)
    ensures
        r.wf(),
        r.map() == template_map(es@, es@.len() as int),
{
    let mut r: StrMap<TemplateSpec> = StrMap::new();
    let mut i: usize = 0;
    assert(r.map() =~= template_map(es@, 0));
    while i < es.len()
        invariant
            i <= es@.len(),
            r.wf(),
            r.map() == template_map(es@, i as int),
        decreases es.len() - i,
    {
        let t = TemplateSpec { path: es[i].1.path.clone(), description: es[i].1.description.deep_clone() };
        r.insert(es[i].0.clone(), t);
        i += 1;
    }
    r
}

fn build_features(es: &Vec<(String, Vec<String>)>) -> (r: StrMap<Vec<String>>)
    ensures
        r.wf(),
        r.map() == list_map(es@, es@.len() as int),
{
    let mut r: StrMap<Vec<String>> = StrMap::new();
    let mut i: usize = 0;
    assert(r.map() =~= list_map(es@, 0));
    while i < es.len()
        invariant
            i <= es@.len(),
            r.wf(),
            r.map() == list_map(es@, i as int),
        decreases es.len() - i,
    {
        r.insert(es[i].0.clone(), es[i].1.deep_clone());
        i += 1;
    }
    r
}

/// Build a battery pack spec from its manifest. Fails with `MissingField`
/// when `[package]`, `package.name` or `package.version` is absent.
pub fn from_raw(raw: &RawManifest) -> (r: Result<BatteryPackSpec, Error>)
    ensures
        raw.package is None ==> (r matches Err(Error::MissingField(f)) && f@ == "[package] section"@),
        (raw.package matches Some(p) && p.name is None) ==> (r matches Err(Error::MissingField(f))
            && f@ == "package.name"@),
        (raw.package matches Some(p) && p.name is Some && p.version is None) ==> (r matches Err(
            Error::MissingField(f),
        ) && f@ == "package.version"@),
        (raw.package matches Some(p) && p.name is Some && p.version is Some) <==> r is Ok,
        r matches Ok(spec) ==> {
            let p = raw.package->0;
            &&& spec.wf()
            &&& spec.name@ == p.name->0@
            &&& spec.version@ == p.version->0@
            &&& spec.description@ == match p.description {
                Some(d) => d@,
                None => Seq::<char>::empty(),
            }
            &&& opt_view(spec.repository) == opt_view(p.repository)
            &&& spec.keywords.deep_view() == p.keywords.deep_view()
            &&& spec.crates.map() == crates_of(*raw)
            &&& spec.features.map() == list_map(raw.features@, raw.features@.len() as int)
            &&& spec.hidden.deep_view() == hidden_of(p)
            &&& spec.templates.map() == template_map(templates_of(p), templates_of(p).len() as int)
        },
{
    let p = match &raw.package {
        None => return Err(Error::MissingField("[package] section")),
        Some(p) => p,
    };
    let name = match &p.name {
        None => return Err(Error::MissingField("package.name")),
        Some(n) => n.clone(),
    };
    let version = match &p.version {
        None => return Err(Error::MissingField("package.version")),
        Some(v) => v.clone(),
    };
    let description = match &p.description {
        Some(d) => d.clone(),
        None => String::new(),
    };
    let mut crates: StrMap<CrateSpec> = StrMap::new();
    assert(crates.map() =~= Map::<Seq<char>, CrateSpecView>::empty());
    parse_dep_section(&raw.dependencies, DepKind::Normal, &mut crates);
    parse_dep_section(&raw.dev_dependencies, DepKind::Dev, &mut crates);
    parse_dep_section(&raw.build_dependencies, DepKind::Build, &mut crates);
    let features = build_features(&raw.features);
    let hidden = match &p.metadata {
        Some(m) => match &m.battery_pack {
            Some(bp) => bp.hidden.deep_clone(),
            None => Vec::new(),
        },
        None => Vec::new(),
    };
    let empty: Vec<(String, RawTemplateSpec)> = Vec::new();
    let tlist = match &p.metadata {
        Some(m) => match &m.battery {
            Some(b) => &b.templates,
            None => &empty,
        },
        None => &empty,
    };
    let templates = build_templates(tlist);
    assert(hidden.deep_view() =~= hidden_of(*p));
    Ok(BatteryPackSpec {
        name,
        version,
        description,
        repository: p.repository.deep_clone(),
        keywords: p.keywords.deep_clone(),
        crates,
        features,
        hidden,
        templates,
    })
}

/// The battery packs among parsed workspace members, in member order: the
/// specs whose name ends in `-battery-pack`.
pub open spec fn packs_among(specs: Seq<BatteryPackSpec>) -> Seq<BatteryPackSpec>
    decreases specs.len(),
{
    if specs.len() == 0 {
        Seq::empty()
    } else {
        let r = packs_among(specs.drop_last());
        if seq_ends_with(specs.last().name@, crate::manifest::bp_suffix()) {
            r.push(specs.last())
        } else {
            r
        }
    }
}

/// Keep the battery packs among a workspace's parsed members.
pub fn keep_battery_packs(specs: Vec<BatteryPackSpec>) -> (r: Vec<BatteryPackSpec>)
    ensures
        r@ == packs_among(specs@),
{
    let ghost orig = specs@;
    let mut rest = specs;
    let mut out: Vec<BatteryPackSpec> = Vec::new();
    let ghost mut k: int = 0;
    proof {
        reveal_strlit("-battery-pack");
        assert(orig.take(0) =~= Seq::<BatteryPackSpec>::empty());
        assert(orig.skip(0) =~= orig);
    }
    while rest.len() > 0
        invariant
            0 <= k <= orig.len(),
            rest@ == orig.skip(k),
            out@ == packs_among(orig.take(k)),
            "-battery-pack"@ == crate::manifest::bp_suffix(),
        decreases rest.len(),
    {
        let s = rest.remove(0);
        proof {
            assert(s == orig[k]);
            assert(orig.take(k + 1).drop_last() =~= orig.take(k));
            assert(orig.take(k + 1).last() == orig[k]);
            assert(rest@ =~= orig.skip(k + 1));
        }
        if ends_with(s.name.as_str(), "-battery-pack") {
            out.push(s);
        }
        proof {
            k = k + 1;
        }
    }
    proof {
        assert(k == orig.len());
        assert(orig.take(k) =~= orig);
    }
    out
}

} // verus!
