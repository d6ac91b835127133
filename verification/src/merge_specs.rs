//! Merging the same crate across several battery packs.
use vstd::prelude::*;
use core::cmp::Ordering;
use crate::common::{DeepClone, union_strs, extend_missing};
use crate::manifest::{CrateSpec, CrateSpecView, DepKind};
use crate::strmap::StrMap;
use crate::version::{compare_versions, version_cmp};

verus! {

/// A crate spec produced by merging the same crate across battery packs.
#[derive(Debug, Clone)]
pub struct MergedCrateSpec {
    /// Recommended version (highest wins across all packs).
    pub version: String,
    /// Union of all recommended Cargo features.
    pub features: Vec<String>,
    /// Which dependency sections this crate should be added to.
    pub dep_kinds: Vec<DepKind>,
    /// Whether this crate is optional.
    pub optional: bool,
}

/// The content of a merged crate spec.
pub struct MergedView {
    pub version: Seq<char>,
    pub features: Seq<Seq<char>>,
    pub dep_kinds: Seq<DepKind>,
    pub optional: bool,
}

impl DeepView for MergedCrateSpec {
    type V = MergedView;

    open spec fn deep_view(&self) -> MergedView {
        MergedView {
            version: self.version@,
            features: self.features.deep_view(),
            dep_kinds: self.dep_kinds@,
            optional: self.optional,
        }
    }
}

/// How many times `k` occurs in `s`.
pub open spec fn count_kind(s: Seq<DepKind>, k: DepKind) -> nat
    decreases s.len(),
{
    if s.len() == 0 {
        0
    } else {
        count_kind(s.drop_last(), k) + if s.last() == k {
            1nat
        } else {
            0nat
        }
    }
}

/// Dependency kinds merged: `[Normal]` when either side has `Normal`
/// (widest scope); otherwise the kinds with `incoming` added if absent,
/// sorted (`Dev` before `Build`).
pub open spec fn merge_kinds_spec(existing: Seq<DepKind>, incoming: DepKind) -> Seq<DepKind> {
    if existing.contains(DepKind::Normal) || incoming == DepKind::Normal {
        seq![DepKind::Normal]
    } else {
        let all = if existing.contains(incoming) {
            existing
        } else {
            existing.push(incoming)
        };
        Seq::new(count_kind(all, DepKind::Dev), |i: int| DepKind::Dev) + Seq::new(
            count_kind(all, DepKind::Build),
            |i: int| DepKind::Build,
        )
    }
}

/// `candidate` if it is a newer version than `current`, else `current`.
pub open spec fn newer_of(candidate: Seq<char>, current: Seq<char>) -> Seq<char> {
    if version_cmp(candidate, current) == Ordering::Greater {
        candidate
    } else {
        current
    }
}

/// Merge one pack's spec of `name` into the merged map.
pub open spec fn merge_one(
    merged: Map<Seq<char>, MergedView>,
    name: Seq<char>,
    spec: CrateSpecView,
) -> Map<Seq<char>, MergedView> {
    if merged.contains_key(name) {
        let e = merged[name];
        merged.insert(
            name,
            MergedView {
                version: newer_of(spec.version, e.version),
                features: union_strs(e.features, spec.features),
                dep_kinds: merge_kinds_spec(e.dep_kinds, spec.dep_kind),
                optional: e.optional && spec.optional,
            },
        )
    } else {
        merged.insert(
            name,
            MergedView {
                version: spec.version,
                features: spec.features,
                dep_kinds: seq![spec.dep_kind],
                optional: spec.optional,
            },
        )
    }
}

/// Merge the first `n` entries of one pack.
pub open spec fn merge_pack(
    merged: Map<Seq<char>, MergedView>,
    keys: Seq<Seq<char>>,
    vals: Seq<CrateSpecView>,
    n: int,
) -> Map<Seq<char>, MergedView>
    decreases n,
{
    if n <= 0 {
        merged
    } else {
        let m = merge_pack(merged, keys, vals, n - 1);
        merge_one(m, keys[n - 1], vals[n - 1])
    }
}

/// Merge the first `n` packs, in order.
pub open spec fn merge_packs(packs: Seq<StrMap<CrateSpec>>, n: int) -> Map<Seq<char>, MergedView>
    decreases n,
{
    if n <= 0 {
        Map::empty()
    } else {
        let p = packs[n - 1];
        merge_pack(merge_packs(packs, n - 1), p.keys(), p.vals(), p.keys().len() as int)
    }
}

/// Merge dependency kinds: `Normal` wins; `Dev` and `Build` together give both.
pub fn merge_dep_kinds(existing: &[DepKind], incoming: DepKind) -> (r: Vec<DepKind>)
    ensures
        r@ == merge_kinds_spec(existing@, incoming),
{
    let mut has_normal = false;
    let mut has_incoming = false;
    let mut devs: usize = 0;
    let mut builds: usize = 0;
    let mut i: usize = 0;
    while i < existing.len()
        invariant
            i <= existing@.len(),
            has_normal == existing@.take(i as int).contains(DepKind::Normal),
            has_incoming == existing@.take(i as int).contains(incoming),
            devs == count_kind(existing@.take(i as int), DepKind::Dev),
            builds == count_kind(existing@.take(i as int), DepKind::Build),
            devs + builds <= i,
        decreases existing.len() - i,
    {
        proof {
            let t = existing@.take(i + 1);
            assert(t.drop_last() =~= existing@.take(i as int));
            assert(t.last() == existing@[i as int]);
            assert(t.contains(existing@[i as int]));
            assert(forall|k: DepKind| t.contains(k) == (existing@.take(i as int).contains(k) || k == existing@[i as int])) by {
                assert forall|k: DepKind| t.contains(k) implies (existing@.take(i as int).contains(k) || k == existing@[i as int]) by {
                    let j = choose|j: int| 0 <= j < t.len() && #[trigger] t[j] == k;
                    if j < i {
                        assert(existing@.take(i as int)[j] == k);
                    }
                }
                assert forall|k: DepKind| existing@.take(i as int).contains(k) implies t.contains(k) by {
                    let j = choose|j: int| 0 <= j < i && #[trigger] existing@.take(i as int)[j] == k;
                    assert(t[j] == k);
                }
            }
        }
        let k = existing[i];
        if k == DepKind::Normal {
            has_normal = true;
        } else if k == DepKind::Dev {
            devs += 1;
        } else {
            builds += 1;
        }
        if k == incoming {
            has_incoming = true;
        }
        i += 1;
    }
    proof {
        assert(existing@.take(i as int) =~= existing@);
    }
    if has_normal || incoming == DepKind::Normal {
        let r = vec![DepKind::Normal];
        assert(r@ =~= seq![DepKind::Normal]);
        return r;
    }
    let ghost all = if has_incoming {
        existing@
    } else {
        existing@.push(incoming)
    };
    proof {
        assert(existing@.push(incoming).drop_last() =~= existing@);
    }
    if !has_incoming {
        if incoming == DepKind::Dev {
            devs += 1;
        } else {
            builds += 1;
        }
    }
    let mut r: Vec<DepKind> = Vec::new();
    let mut a: usize = 0;
    while a < devs
        invariant
            a <= devs,
            r@ == Seq::new(a as nat, |j: int| DepKind::Dev),
        decreases devs - a,
    {
        r.push(DepKind::Dev);
        a += 1;
        assert(r@ =~= Seq::new(a as nat, |j: int| DepKind::Dev));
    }
    let ghost d = r@;
    let mut b: usize = 0;
    while b < builds
        invariant
            b <= builds,
            r@ == d + Seq::new(b as nat, |j: int| DepKind::Build),
        decreases builds - b,
    {
        r.push(DepKind::Build);
        b += 1;
        assert(r@ =~= d + Seq::new(b as nat, |j: int| DepKind::Build));
    }
    proof {
        assert(count_kind(all, DepKind::Dev) == devs);
        assert(count_kind(all, DepKind::Build) == builds);
    }
    r
}

/// `candidate` if it is newer than `current`, else `current`.
fn higher_version(candidate: &String, current: &String) -> (r: String)
    ensures
        r@ == newer_of(candidate@, current@),
{
    match compare_versions(candidate.as_str(), current.as_str()) {
        Ordering::Greater => candidate.clone(),
        _ => current.clone(),
    }
}

/// Merge crate specs from several battery packs. For a crate in several packs:
/// the highest version wins (even across majors), features are unioned,
/// `Normal` wins over other kinds while `Dev` with `Build` keeps both, and
/// the crate is optional only if it is optional everywhere.
pub fn merge_crate_specs(specs: &[StrMap<CrateSpec>]) -> (r: StrMap<MergedCrateSpec>)
    requires
        forall|i: int| 0 <= i < specs@.len() ==> (#[trigger] specs@[i]).wf(),
    ensures
        r.wf(),
        r@ == merge_packs(specs@, specs@.len() as int),
{
    let mut merged: StrMap<MergedCrateSpec> = StrMap::new();
    let mut p: usize = 0;
    while p < specs.len()
        invariant
            forall|i: int| 0 <= i < specs@.len() ==> (#[trigger] specs@[i]).wf(),
            merged.wf(),
            p <= specs@.len(),
            merged@ == merge_packs(specs@, p as int),
        decreases specs.len() - p,
    {
        let pack = &specs[p];
        let ghost m0 = merged@;
        let mut i: usize = 0;
        while i < pack.entries.len()
            invariant
                merged.wf(),
                pack.wf(),
                i <= pack.entries@.len(),
                merged@ == merge_pack(m0, pack.keys(), pack.vals(), i as int),
            decreases pack.entries.len() - i,
        {
            let name = &pack.entries[i].0;
            let spec = &pack.entries[i].1;
            match merged.get(name.as_str()) {
                Some(existing) => {
                    let version = higher_version(&spec.version, &existing.version);
                    let mut features = existing.features.deep_clone();
                    extend_missing(&mut features, &spec.features);
                    let dep_kinds = merge_dep_kinds(existing.dep_kinds.as_slice(), spec.dep_kind);
                    let optional = existing.optional && spec.optional;
                    let m = MergedCrateSpec { version, features, dep_kinds, optional };
                    merged.insert(name.clone(), m);
                },
                None => {
                    let m = MergedCrateSpec {
                        version: spec.version.clone(),
                        features: spec.features.deep_clone(),
                        dep_kinds: vec![spec.dep_kind],
                        optional: spec.optional,
                    };
                    proof {
                        assert(m.dep_kinds@ =~= seq![spec.dep_kind]);
                    }
                    merged.insert(name.clone(), m);
                },
            }
            proof {
                assert(merged@ =~= merge_one(merge_pack(m0, pack.keys(), pack.vals(), i as int), pack.keys()[i as int], pack.vals()[i as int]));
            }
            i += 1;
        }
        p += 1;
    }
    merged
}


/// A string is in `union_strs(base, add)` exactly when it is in either.
pub proof fn lemma_union_strs_contains(base: Seq<Seq<char>>, add: Seq<Seq<char>>, f: Seq<char>)
    ensures
        union_strs(base, add).contains(f) <==> (base.contains(f) || add.contains(f)),
    decreases add.len(),
{
    if add.len() > 0 {
        let init = add.drop_last();
        lemma_union_strs_contains(base, init, f);
        let u = union_strs(base, init);
        if !u.contains(add.last()) {
            if u.push(add.last()).contains(f) && f != add.last() {
                let i = choose|i: int| 0 <= i < u.push(add.last()).len() && u.push(add.last())[i] == f;
                assert(u[i] == f);
            }
            if u.contains(f) {
                let i = choose|i: int| 0 <= i < u.len() && u[i] == f;
                assert(u.push(add.last())[i] == f);
            }
            assert(u.push(add.last())[u.len() as int] == add.last());
        }
        if init.contains(f) {
            let i = choose|i: int| 0 <= i < init.len() && init[i] == f;
            assert(add[i] == f);
        }
        if add.contains(f) && f != add.last() {
            let i = choose|i: int| 0 <= i < add.len() && add[i] == f;
            assert(init[i] == f);
        }
        if f == add.last() {
            assert(add[add.len() - 1] == f);
        }
    }
}

/// Merged dependency kinds contain `Normal` exactly when either side does.
pub proof fn lemma_merge_kinds_normal(existing: Seq<DepKind>, incoming: DepKind)
    ensures
        merge_kinds_spec(existing, incoming).contains(DepKind::Normal) <==> (existing.contains(DepKind::Normal)
            || incoming == DepKind::Normal),
{
    if existing.contains(DepKind::Normal) || incoming == DepKind::Normal {
        assert(seq![DepKind::Normal][0] == DepKind::Normal);
    } else {
        let all = if existing.contains(incoming) {
            existing
        } else {
            existing.push(incoming)
        };
        let r = Seq::new(count_kind(all, DepKind::Dev), |i: int| DepKind::Dev) + Seq::new(
            count_kind(all, DepKind::Build),
            |i: int| DepKind::Build,
        );
        assert forall|i: int| 0 <= i < r.len() implies r[i] != DepKind::Normal by {}
    }
}

/// Merging the first `j` entries of one pack (each key once) touches key `k`
/// only at its own entry.
pub proof fn lemma_merge_pack_at(
    m: Map<Seq<char>, MergedView>,
    keys: Seq<Seq<char>>,
    vals: Seq<CrateSpecView>,
    j: int,
    k: Seq<char>,
)
    requires
        0 <= j <= keys.len(),
        keys.len() == vals.len(),
        forall|a: int, b: int| 0 <= a < b < keys.len() ==> keys[a] != keys[b],
    ensures
        (exists|idx: int| 0 <= idx < j && keys[idx] == k) ==> ({
            let idx = choose|idx: int| 0 <= idx < j && keys[idx] == k;
            &&& merge_pack(m, keys, vals, j).contains_key(k)
            &&& merge_pack(m, keys, vals, j)[k] == merge_one(m, k, vals[idx])[k]
        }),
        !(exists|idx: int| 0 <= idx < j && keys[idx] == k) ==> {
            &&& merge_pack(m, keys, vals, j).contains_key(k) == m.contains_key(k)
            &&& m.contains_key(k) ==> merge_pack(m, keys, vals, j)[k] == m[k]
        },
    decreases j,
{
    if j > 0 {
        lemma_merge_pack_at(m, keys, vals, j - 1, k);
        if exists|idx: int| 0 <= idx < j && keys[idx] == k {
            let idx = choose|idx: int| 0 <= idx < j && keys[idx] == k;
            if idx < j - 1 {
                assert(exists|i: int| 0 <= i < j - 1 && keys[i] == k);
                let i2 = choose|i: int| 0 <= i < j - 1 && keys[i] == k;
                assert(i2 == idx) by {
                    if i2 != idx {
                        if i2 < idx {
                            assert(keys[i2] != keys[idx]);
                        } else {
                            assert(keys[idx] != keys[i2]);
                        }
                    }
                }
                assert(keys[j - 1] != k) by {
                    assert(keys[idx] != keys[j - 1]);
                }
            } else {
                assert(!(exists|i: int| 0 <= i < j - 1 && keys[i] == k)) by {
                    if exists|i: int| 0 <= i < j - 1 && keys[i] == k {
                        let i = choose|i: int| 0 <= i < j - 1 && keys[i] == k;
                        assert(keys[i] != keys[j - 1]);
                    }
                }
            }
        } else {
            assert(keys[j - 1] != k);
        }
    }
}

/// Merging a pack changes key `k` as `merge_one` does with the pack's spec of
/// `k`, or not at all when the pack lacks `k`.
pub proof fn lemma_merge_pack_map(m: Map<Seq<char>, MergedView>, p: StrMap<CrateSpec>, k: Seq<char>)
    requires
        p.wf(),
    ensures
        p@.contains_key(k) ==> ({
            let r = merge_pack(m, p.keys(), p.vals(), p.keys().len() as int);
            r.contains_key(k) && r[k] == merge_one(m, k, p@[k])[k]
        }),
        !p@.contains_key(k) ==> ({
            let r = merge_pack(m, p.keys(), p.vals(), p.keys().len() as int);
            r.contains_key(k) == m.contains_key(k) && (m.contains_key(k) ==> r[k] == m[k])
        }),
{
    let keys = p.keys();
    let vals = p.vals();
    assert forall|a: int, b: int| 0 <= a < b < keys.len() implies keys[a] != keys[b] by {
        crate::text::lemma_seq_lt_order(keys[a], keys[b], keys[b]);
    }
    lemma_merge_pack_at(m, keys, vals, keys.len() as int, k);
    if p@.contains_key(k) {
        let idx = keys.index_of(k);
        assert(keys[idx] == k);
        p.lemma_index(idx);
        let c = choose|i: int| 0 <= i < keys.len() && keys[i] == k;
        assert(c == idx) by {
            if c != idx {
                if c < idx {
                    crate::text::lemma_seq_lt_order(keys[c], keys[idx], keys[idx]);
                } else {
                    crate::text::lemma_seq_lt_order(keys[idx], keys[c], keys[c]);
                }
            }
        }
    } else {
        if exists|idx: int| 0 <= idx < keys.len() && keys[idx] == k {
            let idx = choose|idx: int| 0 <= idx < keys.len() && keys[idx] == k;
            p.lemma_index(idx);
        }
    }
}

/// Merging crate specs across packs: a crate is in the result exactly when
/// some pack lists it; it goes to `[dependencies]` (its kinds contain
/// `Normal`) exactly when some pack lists it there; it is optional exactly
/// when every pack that lists it marks it optional; and it keeps every
/// feature any pack recommends for it.
pub proof fn law_merge_crate_specs(packs: Seq<StrMap<CrateSpec>>, n: int, k: Seq<char>, f: Seq<char>)
    requires
        0 <= n <= packs.len(),
        forall|i: int| 0 <= i < packs.len() ==> (#[trigger] packs[i]).wf(),
    ensures
        merge_packs(packs, n).contains_key(k) <==> exists|i: int| 0 <= i < n && (#[trigger] packs[i]@).contains_key(k),
        merge_packs(packs, n).contains_key(k) ==> (merge_packs(packs, n)[k].dep_kinds.contains(DepKind::Normal) <==> exists|i: int|
            0 <= i < n && (#[trigger] packs[i]@).contains_key(k) && packs[i]@[k].dep_kind == DepKind::Normal),
        merge_packs(packs, n).contains_key(k) ==> (merge_packs(packs, n)[k].optional <==> forall|i: int|
            0 <= i < n && (#[trigger] packs[i]@).contains_key(k) ==> packs[i]@[k].optional),
        (exists|i: int| 0 <= i < n && (#[trigger] packs[i]@).contains_key(k) && packs[i]@[k].features.contains(f))
            ==> merge_packs(packs, n)[k].features.contains(f),
    decreases n,
{
    if n > 0 {
        law_merge_crate_specs(packs, n - 1, k, f);
        let prev = merge_packs(packs, n - 1);
        let p = packs[n - 1];
        lemma_merge_pack_map(prev, p, k);
        if p@.contains_key(k) {
            let s = p@[k];
            if prev.contains_key(k) {
                lemma_merge_kinds_normal(prev[k].dep_kinds, s.dep_kind);
                lemma_union_strs_contains(prev[k].features, s.features, f);
            } else {
                assert(seq![s.dep_kind].contains(DepKind::Normal) <==> s.dep_kind == DepKind::Normal) by {
                    assert(seq![s.dep_kind][0] == s.dep_kind);
                }
                assert(!(exists|i: int| 0 <= i < n - 1 && (#[trigger] packs[i]@).contains_key(k)));
            }
        }
    }
}


/// A merged crate's version is the version one of the packs gives it.
proof fn lemma_merge_version_listed(packs: Seq<StrMap<CrateSpec>>, n: int, k: Seq<char>)
    requires
        0 <= n <= packs.len(),
        forall|i: int| 0 <= i < packs.len() ==> (#[trigger] packs[i]).wf(),
    ensures
        merge_packs(packs, n).contains_key(k) ==> exists|i: int| 0 <= i < n && (#[trigger] packs[i]@).contains_key(k)
            && merge_packs(packs, n)[k].version == packs[i]@[k].version,
    decreases n,
{
    if n > 0 {
        lemma_merge_version_listed(packs, n - 1, k);
        let prev = merge_packs(packs, n - 1);
        let p = packs[n - 1];
        lemma_merge_pack_map(prev, p, k);
        if merge_packs(packs, n).contains_key(k) {
            if p@.contains_key(k) && merge_packs(packs, n)[k].version == p@[k].version {
                assert(packs[n - 1]@.contains_key(k));
            } else {
                let i = choose|i: int| 0 <= i < n - 1 && (#[trigger] packs[i]@).contains_key(k)
                    && prev[k].version == packs[i]@[k].version;
                assert(packs[i]@.contains_key(k));
            }
        }
    }
}

/// The highest version wins: a merged crate's version is one a pack gives
/// it; a pack listing the crate replaces the version merged before it
/// exactly when its own compares above it (so `4.10.0` after `4.9.0` wins,
/// and `4.9.0` after `4.10.0` does not); and no pack's version is above
/// the version merged once that pack is in.
pub proof fn law_merge_version_newest(packs: Seq<StrMap<CrateSpec>>, n: int, k: Seq<char>)
    requires
        0 < n <= packs.len(),
        forall|i: int| 0 <= i < packs.len() ==> (#[trigger] packs[i]).wf(),
    ensures
        merge_packs(packs, n).contains_key(k) ==> exists|i: int| 0 <= i < n && (#[trigger] packs[i]@).contains_key(k)
            && merge_packs(packs, n)[k].version == packs[i]@[k].version,
        packs[n - 1]@.contains_key(k) && merge_packs(packs, n - 1).contains_key(k) ==> merge_packs(packs, n)[k].version
            == (if version_cmp(packs[n - 1]@[k].version, merge_packs(packs, n - 1)[k].version) == Ordering::Greater {
                packs[n - 1]@[k].version
            } else {
                merge_packs(packs, n - 1)[k].version
            }),
        packs[n - 1]@.contains_key(k) ==> merge_packs(packs, n).contains_key(k)
            && version_cmp(packs[n - 1]@[k].version, merge_packs(packs, n)[k].version) != Ordering::Greater,
{
    lemma_merge_version_listed(packs, n, k);
    let prev = merge_packs(packs, n - 1);
    let p = packs[n - 1];
    lemma_merge_pack_map(prev, p, k);
    if p@.contains_key(k) {
        let v = p@[k].version;
        crate::version::law_version_cmp_order(v, v);
    }
}

} // verus!
