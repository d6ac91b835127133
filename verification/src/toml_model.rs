//! A plain model of TOML values, as read from a parsed document, and what the
//! tool reads from user manifests: dependency versions, installed battery
//! packs and active features.
use vstd::prelude::*;
use crate::text::{seq_ends_with, ends_with, str_eq};
use crate::strmap::{StrMap, sorted_keys};

verus! {

/// A TOML value: strings, booleans, arrays and tables are kept; other
/// scalars (numbers, dates) are only known to be present. A table's entries
/// are in the order the reader lists them.
#[derive(Debug)]
pub enum TomlValue {
    Str(String),
    Bool(bool),
    Array(Vec<TomlValue>),
    Table(Vec<(String, TomlValue)>),
    Other,
}

/// The first entry of `es` under key `k`.
pub open spec fn entries_get(es: Seq<(String, TomlValue)>, k: Seq<char>) -> Option<TomlValue>
    decreases es.len(),
{
    if es.len() == 0 {
        None
    } else if es[0].0@ == k {
        Some(es[0].1)
    } else {
        entries_get(es.drop_first(), k)
    }
}

/// The value under key `k` when `v` is a table.
pub open spec fn toml_get(v: TomlValue, k: Seq<char>) -> Option<TomlValue> {
    match v {
        TomlValue::Table(es) => entries_get(es@, k),
        _ => None,
    }
}

/// `toml_get` through an optional value.
pub open spec fn opt_get(v: Option<TomlValue>, k: Seq<char>) -> Option<TomlValue> {
    match v {
        Some(v) => toml_get(v, k),
        None => None,
    }
}

/// Follow a path of keys.
pub open spec fn get_path(v: Option<TomlValue>, ks: Seq<Seq<char>>) -> Option<TomlValue>
    decreases ks.len(),
{
    if ks.len() == 0 {
        v
    } else {
        get_path(opt_get(v, ks[0]), ks.drop_first())
    }
}

/// The string an optional value holds.
pub open spec fn as_str_of(v: Option<TomlValue>) -> Option<Seq<char>> {
    match v {
        Some(TomlValue::Str(s)) => Some(s@),
        _ => None,
    }
}

/// The boolean an optional value holds.
pub open spec fn as_bool_of(v: Option<TomlValue>) -> Option<bool> {
    match v {
        Some(TomlValue::Bool(b)) => Some(b),
        _ => None,
    }
}

/// The entries of a table value; none for anything else.
pub open spec fn table_entries(v: Option<TomlValue>) -> Seq<(String, TomlValue)> {
    match v {
        Some(TomlValue::Table(es)) => es@,
        _ => Seq::empty(),
    }
}

/// The strings among the items of an array, in order.
pub open spec fn str_items(items: Seq<TomlValue>) -> Seq<Seq<char>>
    decreases items.len(),
{
    if items.len() == 0 {
        Seq::empty()
    } else {
        let r = str_items(items.drop_last());
        match items.last() {
            TomlValue::Str(s) => r.push(s@),
            _ => r,
        }
    }
}

/// The value under a key of a table.
pub fn get<'a>(v: &'a TomlValue, k: &str) -> (r: Option<&'a TomlValue>)
    ensures
        match r {
            Some(x) => toml_get(*v, k@) == Some(*x),
            None => toml_get(*v, k@) is None,
        },
{
    match v {
        TomlValue::Table(es) => {
            let mut i: usize = 0;
            assert(es@.skip(0) =~= es@);
            assert(toml_get(*v, k@) == entries_get(es@, k@));
            while i < es.len()
                invariant
                    i <= es@.len(),
                    toml_get(*v, k@) == entries_get(es@, k@),
                    entries_get(es@, k@) == entries_get(es@.skip(i as int), k@),
                decreases es.len() - i,
            {
                assert(es@.skip(i as int)[0] == es@[i as int]);
                assert(es@.skip(i as int).drop_first() =~= es@.skip(i + 1));
                if str_eq(es[i].0.as_str(), k) {
                    return Some(&es[i].1);
                }
                i += 1;
            }
            None
        },
        _ => None,
    }
}

/// `get` through an optional value.
pub fn get_opt<'a>(v: Option<&'a TomlValue>, k: &str) -> (r: Option<&'a TomlValue>)
    ensures
        match r {
            Some(x) => opt_get(opt_deref(v), k@) == Some(*x),
            None => opt_get(opt_deref(v), k@) is None,
        },
{
    match v {
        Some(v) => get(v, k),
        None => None,
    }
}

/// An optional reference, read as an optional value.
pub open spec fn opt_deref(v: Option<&TomlValue>) -> Option<TomlValue> {
    match v {
        Some(x) => Some(*x),
        None => None,
    }
}

/// The strings among the items of an array.
pub fn string_items(items: &Vec<TomlValue>) -> (r: Vec<String>)
    ensures
        r.deep_view() == str_items(items@),
{
    let mut out: Vec<String> = Vec::new();
    let mut i: usize = 0;
    while i < items.len()
        invariant
            i <= items@.len(),
            out.deep_view() == str_items(items@.take(i as int)),
        decreases items.len() - i,
    {
        assert(items@.take(i + 1).drop_last() =~= items@.take(i as int));
        assert(items@.take(i + 1).last() == items@[i as int]);
        match &items[i] {
            TomlValue::Str(s) => {
                let ghost before = out.deep_view();
                out.push(s.clone());
                assert(out.deep_view() =~= before.push(s@));
            },
            _ => {},
        }
        i += 1;
    }
    assert(items@.take(i as int) =~= items@);
    out
}

/// The version a dependency entry states: `name = "1.0"` or `name = { version = "1.0", ... }`.
pub open spec fn dep_version(v: TomlValue) -> Option<Seq<char>> {
    match v {
        TomlValue::Str(s) => Some(s@),
        TomlValue::Table(_) => as_str_of(toml_get(v, "version"@)),
        _ => None,
    }
}

/// Extract the version string from a single dependency value.
pub fn extract_version_from_dep(value: &TomlValue) -> (r: Option<String>)
    ensures
        r.deep_view() == dep_version(*value),
{
    match value {
        TomlValue::Str(s) => Some(s.clone()),
        TomlValue::Table(_) => match get(value, "version") {
            Some(TomlValue::Str(s)) => Some(s.clone()),
            _ => None,
        },
        _ => None,
    }
}

/// Whether a dependency entry is a workspace reference (`{ workspace = true }`).
pub open spec fn workspace_ref(v: TomlValue) -> bool {
    match v {
        TomlValue::Table(_) => as_bool_of(toml_get(v, "workspace"@)) == Some(true),
        _ => false,
    }
}

/// Check if a dependency entry is a workspace reference.
pub fn is_workspace_ref(value: &TomlValue) -> (b: bool)
    ensures
        b == workspace_ref(*value),
{
    match value {
        TomlValue::Table(_) => match get(value, "workspace") {
            Some(TomlValue::Bool(b)) => *b,
            _ => false,
        },
        _ => false,
    }
}

/// The versions stated by the first `n` entries of a dependency table.
pub open spec fn versions_in(es: Seq<(String, TomlValue)>, n: int) -> Map<Seq<char>, Seq<char>>
    decreases n,
{
    if n <= 0 {
        Map::empty()
    } else {
        let m = versions_in(es, n - 1);
        match dep_version(es[n - 1].1) {
            Some(v) => m.insert(es[n - 1].0@, v),
            None => m,
        }
    }
}

/// Extract version strings from a dependency table (`None` or a non-table gives none).
pub fn extract_versions_from_table(table: Option<&TomlValue>) -> (r: StrMap<String>)
    ensures
        r.wf(),
        r.map() == versions_in(
            table_entries(opt_deref(table)),
            table_entries(opt_deref(table)).len() as int,
        ),
{
    let mut r: StrMap<String> = StrMap::new();
    let es = match table {
        Some(TomlValue::Table(es)) => es,
        _ => {
            assert(r.map() =~= Map::<Seq<char>, Seq<char>>::empty());
            return r;
        },
    };
    let mut i: usize = 0;
    assert(r.map() =~= versions_in(es@, 0));
    while i < es.len()
        invariant
            i <= es@.len(),
            r.wf(),
            r.map() == versions_in(es@, i as int),
        decreases es.len() - i,
    {
        match extract_version_from_dep(&es[i].1) {
            Some(v) => {
                r.insert(es[i].0.clone(), v);
            },
            None => {},
        }
        i += 1;
    }
    r
}

/// Add the entries of one dependency section to `m`: a name already present
/// is kept (the first section wins); otherwise its stated version, or for a
/// workspace reference the workspace's version, is recorded.
pub open spec fn collect_entries(
    m: Map<Seq<char>, Seq<char>>,
    es: Seq<(String, TomlValue)>,
    ws: Map<Seq<char>, Seq<char>>,
    n: int,
) -> Map<Seq<char>, Seq<char>>
    decreases n,
{
    if n <= 0 {
        m
    } else {
        let m1 = collect_entries(m, es, ws, n - 1);
        let name = es[n - 1].0@;
        let value = es[n - 1].1;
        if m1.contains_key(name) {
            m1
        } else {
            match dep_version(value) {
                Some(v) => m1.insert(name, v),
                None => if workspace_ref(value) && ws.contains_key(name) {
                    m1.insert(name, ws[name])
                } else {
                    m1
                },
            }
        }
    }
}

fn collect_section(versions: &mut StrMap<String>, section: Option<&TomlValue>, ws: &StrMap<String>)
    requires
        old(versions).wf(),
        ws.wf(),
    ensures
        final(versions).wf(),
        final(versions).map() == collect_entries(
            old(versions).map(),
            table_entries(opt_deref(section)),
            ws.map(),
            table_entries(opt_deref(section)).len() as int,
        ),
{
    let es = match section {
        Some(TomlValue::Table(es)) => es,
        _ => {
            return;
        },
    };
    let ghost m0 = versions.map();
    let mut i: usize = 0;
    while i < es.len()
        invariant
            i <= es@.len(),
            ws.wf(),
            versions.wf(),
            versions.map() == collect_entries(m0, es@, ws.map(), i as int),
        decreases es.len() - i,
    {
        let name = es[i].0.as_str();
        if !versions.contains_key(name) {
            match extract_version_from_dep(&es[i].1) {
                Some(v) => {
                    versions.insert(es[i].0.clone(), v);
                },
                None => {
                    if is_workspace_ref(&es[i].1) {
                        match ws.get(name) {
                            Some(wv) => {
                                versions.insert(es[i].0.clone(), wv.clone());
                            },
                            None => {},
                        }
                    }
                },
            }
        }
        i += 1;
    }
}

/// The three dependency sections, in the order they are read.
pub open spec fn dep_sections() -> Seq<Seq<char>> {
    seq!["dependencies"@, "dev-dependencies"@, "build-dependencies"@]
}

/// The dependency versions a user manifest states, each name taken from the
/// first section that gives it a version; workspace references take the
/// version from the workspace's `[workspace.dependencies]`.
pub open spec fn user_versions(raw: TomlValue, ws_raw: Option<TomlValue>) -> Map<Seq<char>, Seq<char>> {
    let wes = table_entries(get_path(ws_raw, seq!["workspace"@, "dependencies"@]));
    let ws = versions_in(wes, wes.len() as int);
    let d = table_entries(toml_get(raw, "dependencies"@));
    let dd = table_entries(toml_get(raw, "dev-dependencies"@));
    let bd = table_entries(toml_get(raw, "build-dependencies"@));
    let m1 = collect_entries(Map::empty(), d, ws, d.len() as int);
    let m2 = collect_entries(m1, dd, ws, dd.len() as int);
    collect_entries(m2, bd, ws, bd.len() as int)
}

/// Collect the user's dependency versions from a parsed Cargo.toml, and from
/// the parsed workspace manifest when the crate is in a workspace.
pub fn collect_user_dep_versions(raw: &TomlValue, ws_raw: Option<&TomlValue>) -> (r: StrMap<String>)
    ensures
        r.wf(),
        r.map() == user_versions(*raw, opt_deref(ws_raw)),
{
    let wdeps = get_opt(get_opt(ws_raw, "workspace"), "dependencies");
    proof {
        reveal_with_fuel(get_path, 3);
    }
    let ws = extract_versions_from_table(wdeps);
    let mut versions: StrMap<String> = StrMap::new();
    assert(versions.map() =~= Map::<Seq<char>, Seq<char>>::empty());
    collect_section(&mut versions, get(raw, "dependencies"), &ws);
    collect_section(&mut versions, get(raw, "dev-dependencies"), &ws);
    collect_section(&mut versions, get(raw, "build-dependencies"), &ws);
    versions
}

/// A name that marks a battery pack dependency.
pub open spec fn bp_dep_name(k: Seq<char>) -> bool {
    seq_ends_with(k, "-battery-pack"@) || k == "battery-pack"@
}

/// The battery pack names among the keys of entries, in order.
pub open spec fn bp_names_in(es: Seq<(String, TomlValue)>) -> Seq<Seq<char>>
    decreases es.len(),
{
    if es.len() == 0 {
        Seq::empty()
    } else {
        let r = bp_names_in(es.drop_last());
        if bp_dep_name(es.last().0@) {
            r.push(es.last().0@)
        } else {
            r
        }
    }
}

/// The battery packs installed in a parsed Cargo.toml: the `[build-dependencies]`
/// ending in `-battery-pack`, or named `battery-pack`, in the table's order.
pub fn find_installed_bp_names(raw: &TomlValue) -> (r: Vec<String>)
    ensures
        r.deep_view() == bp_names_in(table_entries(toml_get(*raw, "build-dependencies"@))),
{
    let mut out: Vec<String> = Vec::new();
    let es = match get(raw, "build-dependencies") {
        Some(TomlValue::Table(es)) => es,
        _ => {
            assert(out.deep_view() =~= Seq::<Seq<char>>::empty());
            return out;
        },
    };
    let mut i: usize = 0;
    while i < es.len()
        invariant
            i <= es@.len(),
            out.deep_view() == bp_names_in(es@.take(i as int)),
        decreases es.len() - i,
    {
        assert(es@.take(i + 1).drop_last() =~= es@.take(i as int));
        assert(es@.take(i + 1).last() == es@[i as int]);
        let k = es[i].0.as_str();
        if ends_with(k, "-battery-pack") || str_eq(k, "battery-pack") {
            let ghost before = out.deep_view();
            out.push(es[i].0.clone());
            assert(out.deep_view() =~= before.push(k@));
        }
        i += 1;
    }
    assert(es@.take(i as int) =~= es@);
    out
}

/// The active features recorded for a battery pack under `prefix` (such as
/// `package.metadata`): the strings of `battery-pack.<name>.features`, or
/// `default` alone when none are recorded.
pub open spec fn features_at(raw: Option<TomlValue>, prefix: Seq<Seq<char>>, bp: Seq<char>) -> Set<Seq<char>> {
    let node = get_path(raw, prefix + seq!["battery-pack"@, bp, "features"@]);
    match node {
        Some(TomlValue::Array(items)) => str_items(items@).to_set(),
        _ => set!["default"@],
    }
}

/// Read the active features of a battery pack under a metadata prefix, as a
/// list in ascending order without repeats. `raw` is `None` when the manifest
/// could not be parsed.
pub fn read_features_at(raw: Option<&TomlValue>, prefix: &[&str], bp_name: &str) -> (r: Vec<String>)
    ensures
        sorted_keys(r.deep_view()),
        r.deep_view().to_set() == features_at(
            opt_deref(raw),
            prefix@.map_values(|s: &str| s@),
            bp_name@,
        ),
{
    let ghost ks = prefix@.map_values(|s: &str| s@);
    let ghost full = ks + seq!["battery-pack"@, bp_name@, "features"@];
    let mut node = raw;
    let mut i: usize = 0;
    assert(full.skip(0) =~= full);
    while i < prefix.len()
        invariant
            i <= prefix@.len(),
            ks == prefix@.map_values(|s: &str| s@),
            full == ks + seq!["battery-pack"@, bp_name@, "features"@],
            get_path(opt_deref(raw), full) == get_path(opt_deref(node), full.skip(i as int)),
        decreases prefix.len() - i,
    {
        assert(full.skip(i as int)[0] == prefix@[i as int]@);
        assert(full.skip(i as int).drop_first() =~= full.skip(i + 1));
        node = get_opt(node, prefix[i]);
        i += 1;
    }
    let n1 = get_opt(node, "battery-pack");
    let n2 = get_opt(n1, bp_name);
    let n3 = get_opt(n2, "features");
    proof {
        let rest = full.skip(i as int);
        assert(rest =~= seq!["battery-pack"@, bp_name@, "features"@]);
        reveal_with_fuel(get_path, 4);
        assert(rest.drop_first() =~= seq![bp_name@, "features"@]);
        assert(rest.drop_first().drop_first() =~= seq!["features"@]);
        assert(rest.drop_first().drop_first().drop_first() =~= Seq::<Seq<char>>::empty());
    }
    let mut set: StrMap<()> = StrMap::new();
    match n3 {
        Some(TomlValue::Array(items)) => {
            let strs = string_items(items);
            let mut j: usize = 0;
            while j < strs.len()
                invariant
                    j <= strs@.len(),
                    set.wf(),
                    set.map().dom() == strs.deep_view().take(j as int).to_set(),
                decreases strs.len() - j,
            {
                proof {
                    assert(strs.deep_view().take(j + 1) =~= strs.deep_view().take(j as int).push(strs[j as int]@));
                    strs.deep_view().take(j as int).lemma_push_to_set_commute(strs[j as int]@);
                }
                set.insert(strs[j].clone(), ());
                j += 1;
            }
            assert(strs.deep_view().take(j as int) =~= strs.deep_view());
        },
        _ => {
            set.insert("default".to_string(), ());
            assert(set.map().dom() =~= set!["default"@]);
        },
    }
    let r = set.key_list();
    proof {
        set.lemma_keys_set();
    }
    r
}

} // verus!
