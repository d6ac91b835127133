//! Dependencies marked `bp-managed = true`: a generated project leaves their
//! versions to the battery packs it registers, and they are resolved here.
use vstd::prelude::*;
use crate::deps::{DepValue, dep_value_for, dep_value_view, written_as, entries_lookup};
use crate::edits::{Doc, Edit, EditView};
use crate::manifest::{BatteryPackSpec, CrateSpec, CrateSpecView};
use crate::strmap::StrMap;
use crate::text::{cat, cat3, join_strs, seq_join, str_eq};
use crate::toml_model::{TomlValue, entries_get, toml_get, table_entries, as_bool_of, get};
use crate::common::DeepClone;

verus! {

/// An entry marked `bp-managed = true`.
pub open spec fn is_managed(v: TomlValue) -> bool {
    match v {
        TomlValue::Table(es) => as_bool_of(entries_get(es@, "bp-managed"@)) == Some(true),
        _ => false,
    }
}

/// The keys of an entry besides `bp-managed`, in order.
pub open spec fn extra_keys_of(es: Seq<(String, TomlValue)>) -> Seq<Seq<char>>
    decreases es.len(),
{
    if es.len() == 0 {
        Seq::empty()
    } else {
        let r = extra_keys_of(es.drop_last());
        if es.last().0@ == "bp-managed"@ {
            r
        } else {
            r.push(es.last().0@)
        }
    }
}

/// The keys of an entry besides `bp-managed`.
pub open spec fn extra_keys(v: TomlValue) -> Seq<Seq<char>> {
    match v {
        TomlValue::Table(es) => extra_keys_of(es@),
        _ => Seq::empty(),
    }
}

/// The dependency sections, in the order they are read.
pub open spec fn sections() -> Seq<Seq<char>> {
    seq!["dependencies"@, "dev-dependencies"@, "build-dependencies"@]
}

/// The first managed entry, among `es`, with other keys: its name and those keys.
pub open spec fn first_conflict_in(es: Seq<(String, TomlValue)>) -> Option<(Seq<char>, Seq<Seq<char>>)>
    decreases es.len(),
{
    if es.len() == 0 {
        None
    } else if is_managed(es[0].1) && extra_keys(es[0].1).len() > 0 {
        Some((es[0].0@, extra_keys(es[0].1)))
    } else {
        first_conflict_in(es.drop_first())
    }
}

/// Whether some entry among `es` is managed.
pub open spec fn any_managed_in(es: Seq<(String, TomlValue)>) -> bool {
    exists|i: int| 0 <= i < es.len() && is_managed(#[trigger] es[i].1)
}

/// The error for a managed entry with other keys.
pub open spec fn conflict_msg(section: Seq<char>, name: Seq<char>, extra: Seq<Seq<char>>) -> Seq<char> {
    "dependency '"@ + name + "' in ["@ + section + "] has `bp-managed = true` with conflicting keys: "@
        + seq_join(extra, ", "@)
}

/// The sections of a manifest from the `k`-th on: the first conflict, or
/// whether any entry is managed.
pub open spec fn check_from(raw: TomlValue, k: int) -> Result<bool, Seq<char>>
    decreases 3 - k,
{
    if k >= 3 || k < 0 {
        Ok(false)
    } else {
        let es = table_entries(toml_get(raw, sections()[k]));
        match first_conflict_in(es) {
            Some((n, x)) => Err(conflict_msg(sections()[k], n, x)),
            None => match check_from(raw, k + 1) {
                Err(m) => Err(m),
                Ok(b) => Ok(any_managed_in(es) || b),
            },
        }
    }
}

fn managed_exec(v: &TomlValue) -> (b: bool)
    ensures
        b == is_managed(*v),
{
    match v {
        TomlValue::Table(es) => match entries_lookup(es, "bp-managed") {
            Some(TomlValue::Bool(b)) => *b,
            _ => false,
        },
        _ => false,
    }
}

fn extra_keys_exec(v: &TomlValue) -> (r: Vec<String>)
    ensures
        r.deep_view() == extra_keys(*v),
{
    let mut out: Vec<String> = Vec::new();
    match v {
        TomlValue::Table(es) => {
            let mut i: usize = 0;
            while i < es.len()
                invariant
                    i <= es@.len(),
                    out.deep_view() == extra_keys_of(es@.take(i as int)),
                decreases es.len() - i,
            {
                assert(es@.take(i + 1).drop_last() =~= es@.take(i as int));
                assert(es@.take(i + 1).last() == es@[i as int]);
                if !str_eq(es[i].0.as_str(), "bp-managed") {
                    let ghost before = out.deep_view();
                    out.push(es[i].0.clone());
                    assert(out.deep_view() =~= before.push(es@[i as int].0@));
                }
                i += 1;
            }
            assert(es@.take(i as int) =~= es@);
            out
        },
        _ => {
            assert(out.deep_view() =~= Seq::<Seq<char>>::empty());
            out
        },
    }
}

/// Check a section: the first managed entry with other keys, or whether any is managed.
fn check_section(es: &Vec<(String, TomlValue)>) -> (r: Result<bool, (String, Vec<String>)>)
    ensures
        match (r, first_conflict_in(es@)) {
            (Err((n, x)), Some((nv, xv))) => n@ == nv && x.deep_view() == xv,
            (Ok(b), None) => b == any_managed_in(es@),
            _ => false,
        },
{
    let mut any = false;
    let mut i: usize = 0;
    assert(es@.skip(0) =~= es@);
    while i < es.len()
        invariant
            i <= es@.len(),
            first_conflict_in(es@) == first_conflict_in(es@.skip(i as int)),
            any == exists|j: int| 0 <= j < i && is_managed(#[trigger] es@[j].1),
        decreases es.len() - i,
    {
        assert(es@.skip(i as int)[0] == es@[i as int]);
        assert(es@.skip(i as int).drop_first() =~= es@.skip(i + 1));
        if managed_exec(&es[i].1) {
            let x = extra_keys_exec(&es[i].1);
            if x.len() > 0 {
                return Err((es[i].0.clone(), x));
            }
            any = true;
        }
        i += 1;
    }
    Ok(any)
}

/// Check the managed entries of a manifest: fail on the first one with other
/// keys (in the order dependencies, dev-dependencies, build-dependencies),
/// otherwise report whether any entry is managed.
pub fn check_managed(raw: &TomlValue) -> (r: Result<bool, String>)
    ensures
        match (r, check_from(*raw, 0)) {
            (Ok(b), Ok(bv)) => b == bv,
            (Err(m), Err(mv)) => m@ == mv,
            _ => false,
        },
{
    let names: [&str; 3] = ["dependencies", "dev-dependencies", "build-dependencies"];
    let mut k: usize = 0;
    let mut any = false;
    proof {
        assert(sections()[0] == names[0]@);
    }
    while k < 3
        invariant
            k <= 3,
            names@ == seq!["dependencies", "dev-dependencies", "build-dependencies"],
            check_from(*raw, 0) == match check_from(*raw, k as int) {
                Err(m) => Err(m),
                Ok(b) => Ok(any || b),
            },
        decreases 3 - k,
    {
        let section = names[k];
        assert(section@ == sections()[k as int]);
        let empty: Vec<(String, TomlValue)> = Vec::new();
        let es: &Vec<(String, TomlValue)> = match get(raw, section) {
            Some(TomlValue::Table(es)) => es,
            _ => &empty,
        };
        assert(es@ == table_entries(toml_get(*raw, sections()[k as int])));
        match check_section(es) {
            Err((n, x)) => {
                let list = join_strs(&x, ", ");
                let a = cat3("dependency '", n.as_str(), "' in [");
                let b = cat3(a.as_str(), section, "] has `bp-managed = true` with conflicting keys: ");
                return Err(cat(b.as_str(), list.as_str()));
            },
            Ok(b) => {
                any = any || b;
            },
        }
        k += 1;
    }
    Ok(any)
}


/// A battery pack a project registers: its name, its spec, and the features
/// the project has active for it.
#[derive(Debug)]
pub struct RegisteredPack {
    pub name: String,
    pub spec: BatteryPackSpec,
    pub active_features: Vec<String>,
}

/// The crates the first `n` packs resolve to, a later pack's spec replacing
/// an earlier one's for the same crate.
pub open spec fn resolved_by(packs: Seq<RegisteredPack>, n: int) -> Map<Seq<char>, CrateSpecView>
    decreases n,
{
    if n <= 0 {
        Map::empty()
    } else {
        let p = packs[n - 1];
        resolved_by(packs, n - 1).union_prefer_right(
            p.spec.resolve_spec(p.active_features.deep_view()),
        )
    }
}

/// The versions of the first `n` packs, by name.
pub open spec fn versions_by(packs: Seq<RegisteredPack>, n: int) -> Map<Seq<char>, Seq<char>>
    decreases n,
{
    if n <= 0 {
        Map::empty()
    } else {
        versions_by(packs, n - 1).insert(packs[n - 1].name@, packs[n - 1].spec.version@)
    }
}

/// The crates every registered pack provides for its active features, and
/// each pack's own version.
pub fn resolve_managed(packs: &Vec<RegisteredPack>) -> (r: (StrMap<CrateSpec>, StrMap<String>))
    requires
        forall|i: int| 0 <= i < packs@.len() ==> (#[trigger] packs@[i]).spec.wf(),
    ensures
        r.0.wf(),
        r.1.wf(),
        r.0.map() == resolved_by(packs@, packs@.len() as int),
        r.1.map() == versions_by(packs@, packs@.len() as int),
        forall|j: int, f: int, k: Seq<char>|
            0 <= j < packs@.len() && 0 <= f < packs@[j].active_features@.len()
                && #[trigger] crate::manifest::feature_reaches(&packs@[j].spec, packs@[j].active_features@[f]@, k)
                ==> r.0.map().contains_key(k),
{
    let mut resolved: StrMap<CrateSpec> = StrMap::new();
    let mut versions: StrMap<String> = StrMap::new();
    let mut i: usize = 0;
    assert(resolved.map() =~= resolved_by(packs@, 0));
    assert(versions.map() =~= versions_by(packs@, 0));
    while i < packs.len()
        invariant
            i <= packs@.len(),
            forall|j: int| 0 <= j < packs@.len() ==> (#[trigger] packs@[j]).spec.wf(),
            resolved.wf(),
            versions.wf(),
            resolved.map() == resolved_by(packs@, i as int),
            versions.map() == versions_by(packs@, i as int),
        decreases packs.len() - i,
    {
        let p = &packs[i];
        assert(p.spec.wf());
        versions.insert(p.name.clone(), p.spec.version.clone());
        let mut feats: Vec<&str> = Vec::new();
        let mut j: usize = 0;
        while j < p.active_features.len()
            invariant
                j <= p.active_features@.len(),
                feats@.len() == j,
                forall|t: int| 0 <= t < j ==> (#[trigger] feats@[t])@ == p.active_features@[t]@,
            decreases p.active_features.len() - j,
        {
            feats.push(p.active_features[j].as_str());
            j += 1;
        }
        assert(crate::manifest::strs_view(feats@) =~= p.active_features.deep_view());
        let crates = p.spec.resolve_crates(feats.as_slice());
        resolved.insert_all(&crates);
        i += 1;
    }
    proof {
        assert forall|j: int, f: int, k: Seq<char>|
            0 <= j < packs@.len() && 0 <= f < packs@[j].active_features@.len()
                && #[trigger] crate::manifest::feature_reaches(&packs@[j].spec, packs@[j].active_features@[f]@, k)
            implies resolved.map().contains_key(k) by {
            law_managed_provides_active(packs@, j, k);
        }
    }
    (resolved, versions)
}

/// A crate one registered pack resolves to stays provided whatever packs
/// come after it.
proof fn lemma_resolved_keeps(packs: Seq<RegisteredPack>, j: int, n: int, k: Seq<char>)
    requires
        0 <= j < n <= packs.len(),
        packs[j].spec.resolve_spec(packs[j].active_features.deep_view()).contains_key(k),
    ensures
        resolved_by(packs, n).contains_key(k),
    decreases n,
{
    if n > j + 1 {
        lemma_resolved_keeps(packs, j, n - 1, k);
    }
}

/// Every crate a registered pack reaches through one of the features the
/// project has active for it (`default` standing for the default set) is
/// provided; with no features listed, the pack's default set is.
pub proof fn law_managed_provides_active(packs: Seq<RegisteredPack>, j: int, k: Seq<char>)
    requires
        forall|i: int| 0 <= i < packs.len() ==> (#[trigger] packs[i]).spec.wf(),
        0 <= j < packs.len(),
    ensures
        (exists|f: int| 0 <= f < packs[j].active_features@.len()
            && #[trigger] crate::manifest::feature_reaches(&packs[j].spec, packs[j].active_features@[f]@, k))
            ==> resolved_by(packs, packs.len() as int).contains_key(k),
        packs[j].active_features@.len() == 0 && packs[j].spec.resolve_spec(Seq::empty()).contains_key(k)
            ==> resolved_by(packs, packs.len() as int).contains_key(k),
{
    let p = packs[j];
    let active = p.active_features.deep_view();
    assert(packs[j].spec.wf());
    if exists|f: int| 0 <= f < p.active_features@.len()
        && #[trigger] crate::manifest::feature_reaches(&p.spec, p.active_features@[f]@, k) {
        let f = choose|f: int| 0 <= f < p.active_features@.len()
            && #[trigger] crate::manifest::feature_reaches(&p.spec, p.active_features@[f]@, k);
        assert(active[f] == p.active_features@[f]@);
        crate::manifest::law_resolve_union(&p.spec, active, k);
        lemma_resolved_keeps(packs, j, packs.len() as int, k);
    }
    if p.active_features@.len() == 0 && p.spec.resolve_spec(Seq::empty()).contains_key(k) {
        assert(active =~= Seq::<Seq<char>>::empty());
        lemma_resolved_keeps(packs, j, packs.len() as int, k);
    }
}

/// The error for a managed entry nothing provides.
pub open spec fn unprovided_msg(section: Seq<char>, name: Seq<char>) -> Seq<char> {
    "dependency '"@ + name + "' in ["@ + section + "] has `bp-managed = true` but no battery pack provides it"@
}

/// The edits resolving the managed entries among `es`, in order, or the
/// error for the first one nothing provides.
pub open spec fn section_edits(
    section: Seq<char>,
    es: Seq<(String, TomlValue)>,
    resolved: Map<Seq<char>, CrateSpecView>,
    versions: Map<Seq<char>, Seq<char>>,
) -> Result<Seq<EditView>, Seq<char>>
    decreases es.len(),
{
    if es.len() == 0 {
        Ok(Seq::empty())
    } else {
        let name = es[0].0@;
        let rest = section_edits(section, es.drop_first(), resolved, versions);
        if !is_managed(es[0].1) {
            rest
        } else {
            let value = if resolved.contains_key(name) {
                Some(written_as(resolved[name]))
            } else if versions.contains_key(name) {
                Some((0, versions[name], Seq::<Seq<char>>::empty()))
            } else {
                None
            };
            match value {
                None => Err(unprovided_msg(section, name)),
                Some(v) => match rest {
                    Err(m) => Err(m),
                    Ok(r) => Ok(seq![EditView::SetDep { doc: Doc::User, table: seq![section], name, value: v }] + r),
                },
            }
        }
    }
}

/// The edits for the sections from the `k`-th on.
pub open spec fn managed_edits_from(
    raw: TomlValue,
    k: int,
    resolved: Map<Seq<char>, CrateSpecView>,
    versions: Map<Seq<char>, Seq<char>>,
) -> Result<Seq<EditView>, Seq<char>>
    decreases 3 - k,
{
    if k >= 3 || k < 0 {
        Ok(Seq::empty())
    } else {
        match section_edits(sections()[k], table_entries(toml_get(raw, sections()[k])), resolved, versions) {
            Err(m) => Err(m),
            Ok(e) => match managed_edits_from(raw, k + 1, resolved, versions) {
                Err(m) => Err(m),
                Ok(r) => Ok(e + r),
            },
        }
    }
}

fn section_edits_exec(
    section: &str,
    es: &Vec<(String, TomlValue)>,
    resolved: &StrMap<CrateSpec>,
    versions: &StrMap<String>,
) -> (r: Result<Vec<Edit>, String>)
    requires
        resolved.wf(),
        versions.wf(),
    ensures
        match (r, section_edits(section@, es@, resolved.map(), versions.map())) {
            (Ok(v), Ok(vv)) => v.deep_view() == vv,
            (Err(m), Err(mv)) => m@ == mv,
            _ => false,
        },
{
    let mut out: Vec<Edit> = Vec::new();
    let mut i: usize = 0;
    assert(es@.skip(0) =~= es@);
    while i < es.len()
        invariant
            resolved.wf(),
            versions.wf(),
            i <= es@.len(),
            section_edits(section@, es@, resolved.map(), versions.map()) == match section_edits(section@, es@.skip(i as int), resolved.map(), versions.map()) {
                Err(m) => Err(m),
                Ok(r) => Ok(out.deep_view() + r),
            },
        decreases es.len() - i,
    {
        assert(es@.skip(i as int)[0] == es@[i as int]);
        assert(es@.skip(i as int).drop_first() =~= es@.skip(i + 1));
        if managed_exec(&es[i].1) {
            let name = es[i].0.as_str();
            let value: Option<DepValue> = match resolved.get(name) {
                Some(spec) => Some(dep_value_for(spec)),
                None => match versions.get(name) {
                    Some(v) => Some(DepValue::Version(v.clone())),
                    None => None,
                },
            };
            match value {
                None => {
                    let a = cat3("dependency '", name, "' in [");
                    let b = cat3(a.as_str(), section, "] has `bp-managed = true` but no battery pack provides it");
                    return Err(b);
                },
                Some(v) => {
                    let ghost before = out.deep_view();
                    let mut t: Vec<String> = Vec::new();
                    t.push(section.to_string());
                    assert(t.deep_view() =~= seq![section@]);
                    out.push(Edit::SetDep { doc: Doc::User, table: t, name: name.to_string(), value: v });
                    proof {
                        let e = out.deep_view().last();
                        assert(out.deep_view() =~= before.push(e));
                        match section_edits(section@, es@.skip(i + 1), resolved.map(), versions.map()) {
                            Err(m) => {},
                            Ok(r) => {
                                assert(before + (seq![e] + r) =~= out.deep_view() + r);
                            },
                        }
                    }
                },
            }
        }
        i += 1;
    }
    assert(out.deep_view() + Seq::<EditView>::empty() =~= out.deep_view());
    Ok(out)
}

/// The edits resolving every managed entry of a manifest: each is written as
/// the crate a registered pack provides, or, for a pack itself, as the pack's
/// version. Fails on the first managed entry nothing provides.
pub fn managed_edits(raw: &TomlValue, resolved: &StrMap<CrateSpec>, versions: &StrMap<String>) -> (r: Result<Vec<Edit>, String>)
    requires
        resolved.wf(),
        versions.wf(),
    ensures
        match (r, managed_edits_from(*raw, 0, resolved.map(), versions.map())) {
            (Ok(v), Ok(vv)) => v.deep_view() == vv,
            (Err(m), Err(mv)) => m@ == mv,
            _ => false,
        },
{
    let names: [&str; 3] = ["dependencies", "dev-dependencies", "build-dependencies"];
    let mut out: Vec<Edit> = Vec::new();
    let mut k: usize = 0;
    while k < 3
        invariant
            k <= 3,
            resolved.wf(),
            versions.wf(),
            names@ == seq!["dependencies", "dev-dependencies", "build-dependencies"],
            managed_edits_from(*raw, 0, resolved.map(), versions.map()) == match managed_edits_from(*raw, k as int, resolved.map(), versions.map()) {
                Err(m) => Err(m),
                Ok(r) => Ok(out.deep_view() + r),
            },
        decreases 3 - k,
    {
        let section = names[k];
        assert(section@ == sections()[k as int]);
        let empty: Vec<(String, TomlValue)> = Vec::new();
        let es: &Vec<(String, TomlValue)> = match get(raw, section) {
            Some(TomlValue::Table(es)) => es,
            _ => &empty,
        };
        assert(es@ == table_entries(toml_get(*raw, sections()[k as int])));
        match section_edits_exec(section, es, resolved, versions) {
            Err(m) => return Err(m),
            Ok(mut e) => {
                let ghost before = out.deep_view();
                let ghost ev = e.deep_view();
                out.append(&mut e);
                proof {
                    assert(out.deep_view() =~= before + ev);
                    match managed_edits_from(*raw, k + 1, resolved.map(), versions.map()) {
                        Err(m) => {},
                        Ok(r) => {
                            assert(before + (ev + r) =~= out.deep_view() + r);
                        },
                    }
                }
            },
        }
        k += 1;
    }
    assert(out.deep_view() + Seq::<EditView>::empty() =~= out.deep_view());
    Ok(out)
}

} // verus!
