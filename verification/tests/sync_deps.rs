use battery_pack::manifest::{CrateSpec, DepKind};
use battery_pack::strmap::StrMap;
use battery_pack::sync::{add_workspace_refs, sync_user_deps, sync_workspace_deps};
use battery_pack::manifest_write::{add_refs_to_manifest, record_features, sync_workspace_manifest};
use battery_pack::toml_model::TomlValue;

fn spec(version: &str, features: &[&str], kind: DepKind) -> CrateSpec {
    CrateSpec { version: version.to_string(), features: features.iter().map(|s| s.to_string()).collect(), dep_kind: kind, optional: false }
}

fn entry<'a>(t: &'a [(String, TomlValue)], k: &str) -> Option<&'a TomlValue> {
    t.iter().find(|(n, _)| n == k).map(|(_, v)| v)
}

fn table(es: &[(&str, TomlValue)]) -> TomlValue {
    TomlValue::Table(es.iter().map(|(k, v)| (k.to_string(), clone(v))).collect())
}

fn clone(v: &TomlValue) -> TomlValue {
    match v {
        TomlValue::Str(s) => TomlValue::Str(s.clone()),
        TomlValue::Bool(b) => TomlValue::Bool(*b),
        TomlValue::Array(a) => TomlValue::Array(a.iter().map(clone).collect()),
        TomlValue::Table(t) => TomlValue::Table(t.iter().map(|(k, v)| (k.clone(), clone(v))).collect()),
        TomlValue::Other => TomlValue::Other,
    }
}

fn strs(v: &TomlValue) -> Vec<String> {
    match v {
        TomlValue::Array(a) => a.iter().filter_map(|x| if let TomlValue::Str(s) = x { Some(s.clone()) } else { None }).collect(),
        _ => vec![],
    }
}

#[test]
fn sync_adds_missing_and_bumps_outdated() {
    let mut expected = StrMap::new();
    expected.insert("anyhow".to_string(), spec("1.0.80", &[], DepKind::Normal));
    expected.insert("clap".to_string(), spec("4", &["derive"], DepKind::Normal));
    expected.insert("insta".to_string(), spec("1.34", &[], DepKind::Dev));
    let mut deps = vec![("anyhow".to_string(), TomlValue::Str("1.0.50".into()))];
    let mut dev = vec![("insta".to_string(), TomlValue::Str("1.40".into()))];
    let mut build = vec![];
    let log = sync_user_deps(&mut deps, &mut dev, &mut build, &expected);
    assert_eq!(log, vec![("anyhow".to_string(), false), ("clap".to_string(), true)]);
    assert!(matches!(entry(&deps, "anyhow"), Some(TomlValue::Str(s)) if s == "1.0.80"));
    match entry(&deps, "clap") {
        Some(TomlValue::Table(t)) => {
            assert!(matches!(entry(t, "version"), Some(TomlValue::Str(s)) if s == "4"));
            assert_eq!(strs(entry(t, "features").unwrap()), vec!["derive"]);
        }
        other => panic!("unexpected {other:?}"),
    }
    // never downgraded
    assert!(matches!(entry(&dev, "insta"), Some(TomlValue::Str(s)) if s == "1.40"));
    assert!(build.is_empty());
}

#[test]
fn sync_keeps_user_features_and_adds_missing_ones() {
    let mut expected = StrMap::new();
    expected.insert("tokio".to_string(), spec("1", &["rt", "macros"], DepKind::Normal));
    let mut deps = vec![(
        "tokio".to_string(),
        table(&[("version", TomlValue::Str("1".into())), ("features", TomlValue::Array(vec![TomlValue::Str("fs".into()), TomlValue::Str("rt".into())]))]),
    )];
    let (mut dev, mut build) = (vec![], vec![]);
    let log = sync_user_deps(&mut deps, &mut dev, &mut build, &expected);
    assert_eq!(log, vec![("tokio".to_string(), false)]);
    match entry(&deps, "tokio") {
        Some(TomlValue::Table(t)) => assert_eq!(strs(entry(t, "features").unwrap()), vec!["fs", "rt", "macros"]),
        other => panic!("unexpected {other:?}"),
    }
    let again = sync_user_deps(&mut deps, &mut dev, &mut build, &expected);
    assert!(again.is_empty());
}

#[test]
fn workspace_sync_and_references() {
    let mut expected = StrMap::new();
    expected.insert("anyhow".to_string(), spec("1", &[], DepKind::Normal));
    expected.insert("cc".to_string(), spec("1.0", &[], DepKind::Build));
    let mut ws = vec![("anyhow".to_string(), TomlValue::Str("1".into()))];
    let changed = sync_workspace_deps(&mut ws, &expected);
    assert_eq!(changed, vec!["cc".to_string()]);
    assert!(matches!(entry(&ws, "cc"), Some(TomlValue::Str(s)) if s == "1.0"));
    let mut deps = vec![("anyhow".to_string(), table(&[("workspace", TomlValue::Bool(true))]))];
    let (mut dev, mut build) = (vec![], vec![]);
    let added = add_workspace_refs(&mut deps, &mut dev, &mut build, &expected);
    assert_eq!(added, vec!["cc".to_string()]);
    match entry(&build, "cc") {
        Some(TomlValue::Table(t)) => assert!(matches!(entry(t, "workspace"), Some(TomlValue::Bool(true)))),
        other => panic!("unexpected {other:?}"),
    }
    assert_eq!(deps.len(), 1);
}

#[test]
fn workspace_manifest_sync_writes_workspace_dependencies() {
    let mut expected = StrMap::new();
    expected.insert("anyhow".to_string(), spec("1.0.80", &[], DepKind::Normal));
    expected.insert("insta".to_string(), spec("1.34", &[], DepKind::Dev));
    let ws = "[workspace]\nmembers = [\"app\"]\n\n[workspace.dependencies]\nanyhow = \"1.0.0\" # keep me\n";
    let (ws_text, changed) = sync_workspace_manifest(ws, &expected).unwrap();
    assert_eq!(changed, vec!["anyhow".to_string(), "insta".to_string()]);
    assert!(ws_text.contains("anyhow = \"1.0.80\""), "{ws_text}");
    assert!(ws_text.contains("insta = \"1.34\""), "{ws_text}");
    assert!(ws_text.starts_with("[workspace]\nmembers = [\"app\"]\n"), "{ws_text}");

    let user = "[package]\nname = \"app\"\n\n[dev-dependencies]\ninsta = \"1\"\n";
    let (user_text, added) = add_refs_to_manifest(user, &expected).unwrap();
    assert_eq!(added, vec!["anyhow".to_string()]);
    assert!(user_text.contains("anyhow = { workspace = true }"), "{user_text}");
    assert!(user_text.contains("insta = \"1\""), "{user_text}");

    let features = vec!["default".to_string(), "extra".to_string()];
    let recorded = record_features(&ws_text, true, "cli-battery-pack", &features).unwrap();
    assert!(recorded.contains("[workspace.metadata.battery-pack.cli-battery-pack]"), "{recorded}");
    assert!(recorded.contains("features = [\"default\", \"extra\"]"), "{recorded}");
    assert_eq!(record_features("[workspace\n", true, "x", &features).unwrap_err(), "Failed to parse workspace Cargo.toml");
}
