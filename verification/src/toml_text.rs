//! Cargo.toml text: read into the model with `toml`, and edited with
//! `toml_edit`, which keeps the text's formatting and entry order.
use vstd::prelude::*;
use crate::deps::{DepValue, dep_value_view};
use crate::manifest::opt_view;
use crate::toml_model::TomlValue;

verus! {

#[verifier::external_type_specification]
#[verifier::external_body]
pub struct ExTomlValue(toml::Value);

/// What `toml::from_str::<toml::Value>` reads from a text, in the model
/// (strings, booleans, arrays and tables; every other value `Other`); none
/// when the text is not TOML.
pub uninterp spec fn toml_model(text: Seq<char>) -> Option<TomlValue>;

/// Converts a `toml::Value` into the model, value for value, keeping the
/// order of arrays and tables.
#[verifier::external_body]
fn model_of(v: &toml::Value) -> TomlValue {
    match v {
        toml::Value::String(s) => TomlValue::Str(s.clone()),
        toml::Value::Boolean(b) => TomlValue::Bool(*b),
        toml::Value::Array(a) => TomlValue::Array(a.iter().map(model_of).collect()),
        toml::Value::Table(t) => TomlValue::Table(t.iter().map(|(k, x)| (k.clone(), model_of(x))).collect()),
        _ => TomlValue::Other,
    }
}

/// `toml::from_str::<toml::Value>`, converted into the model; the contract
/// claims only that the result is `toml_model` of the text.
#[verifier::external_body]
pub(crate) fn parse_toml_model(text: &str) -> (r: Option<TomlValue>)
    ensures
        r == toml_model(text@),
{
    toml::from_str::<toml::Value>(text).ok().map(|v| model_of(&v))
}

/// The text `toml_edit` prints after parsing `text`, walking the table path
/// `table` (a table created under each key that is absent) and inserting
/// `name` with the dependency value; none when the text does not parse or
/// the path meets a value that is not a table.
pub uninterp spec fn toml_dep_set(text: Seq<char>, table: Seq<Seq<char>>, name: Seq<char>, value: (int, Seq<char>, Seq<Seq<char>>)) -> Option<Seq<char>>;

/// Parses with `toml_edit`, inserts the dependency (a version string, or an
/// inline table of `path`, `workspace = true`, or `version` and `features`)
/// and prints; the contract claims only that the result is `toml_dep_set`.
#[verifier::external_body]
pub(crate) fn set_dep_text(text: &str, table: &Vec<String>, name: &str, value: &DepValue) -> (r: Option<String>)
    ensures
        opt_view(r) == toml_dep_set(text@, table.deep_view(), name@, dep_value_view(*value)),
{
    let mut doc: toml_edit::DocumentMut = text.parse().ok()?;
    let mut t: &mut dyn toml_edit::TableLike = doc.as_table_mut();
    for k in table.iter() {
        t = t.entry(k).or_insert(toml_edit::table()).as_table_like_mut()?;
    }
    t.insert(name, match value {
        DepValue::Version(s) => toml_edit::value(s),
        DepValue::Path(p) => toml_edit::value(toml_edit::InlineTable::from_iter([("path", p)])),
        DepValue::Workspace => toml_edit::value(toml_edit::InlineTable::from_iter([("workspace", true)])),
        DepValue::Detailed { version, features } => toml_edit::value(toml_edit::InlineTable::from_iter([
            ("version", toml_edit::Value::from(version)), ("features", features.iter().collect())])),
    });
    Some(doc.to_string())
}

/// The text `toml_edit` prints after parsing `text`, walking the path
/// `prefix` then `battery-pack` (a table created under each key that is
/// absent) and inserting under `bp_name` a table holding only
/// `features = [...]`; none when the text does not parse or the path meets
/// a value that is not a table.
pub uninterp spec fn toml_features_set(text: Seq<char>, prefix: Seq<Seq<char>>, bp_name: Seq<char>, features: Seq<Seq<char>>) -> Option<Seq<char>>;

/// Parses with `toml_edit`, records the features and prints; the contract
/// claims only that the result is `toml_features_set`.
#[verifier::external_body]
pub(crate) fn set_features_text(text: &str, prefix: &Vec<String>, bp_name: &str, features: &Vec<String>) -> (r: Option<String>)
    ensures
        opt_view(r) == toml_features_set(text@, prefix.deep_view(), bp_name@, features.deep_view()),
{
    let mut doc: toml_edit::DocumentMut = text.parse().ok()?;
    let mut t: &mut toml_edit::Table = doc.as_table_mut();
    for k in prefix.iter().map(|k| k.as_str()).chain(["battery-pack"]) {
        t = t.entry(k).or_insert(toml_edit::table()).as_table_mut()?;
    }
    let mut entry = toml_edit::Table::new();
    entry.insert("features", toml_edit::value(features.iter().collect::<toml_edit::Array>()));
    t.insert(bp_name, toml_edit::Item::Table(entry));
    Some(doc.to_string())
}

/// The text `toml_edit` prints after parsing `text`, walking the existing
/// tables on `path` and replacing the item under the existing `key` with a
/// string value (the key itself untouched); none when the text does not
/// parse, a table on the path is missing or not a table, or `key` is absent.
pub uninterp spec fn toml_str_set(text: Seq<char>, path: Seq<Seq<char>>, key: Seq<char>, value: Seq<char>) -> Option<Seq<char>>;

/// Parses with `toml_edit`, replaces the value and prints; the contract
/// claims only that the result is `toml_str_set`.
#[verifier::external_body]
pub(crate) fn set_str_text(text: &str, path: &Vec<String>, key: &str, value: &str) -> (r: Option<String>)
    ensures
        opt_view(r) == toml_str_set(text@, path.deep_view(), key@, value@),
{
    let mut doc: toml_edit::DocumentMut = text.parse().ok()?;
    let mut t: &mut dyn toml_edit::TableLike = doc.as_table_mut();
    for k in path.iter() {
        t = t.get_mut(k)?.as_table_like_mut()?;
    }
    *t.get_mut(key)? = toml_edit::value(value);
    Some(doc.to_string())
}

/// The text `toml_edit` prints after parsing `text`, walking the existing
/// tables on `path` and inserting `key` with an array of strings; none when
/// the text does not parse or a table on the path is missing or not a table.
pub uninterp spec fn toml_list_set(text: Seq<char>, path: Seq<Seq<char>>, key: Seq<char>, values: Seq<Seq<char>>) -> Option<Seq<char>>;

/// Parses with `toml_edit`, inserts the array and prints; the contract
/// claims only that the result is `toml_list_set`.
#[verifier::external_body]
pub(crate) fn set_list_text(text: &str, path: &Vec<String>, key: &str, values: &Vec<String>) -> (r: Option<String>)
    ensures
        opt_view(r) == toml_list_set(text@, path.deep_view(), key@, values.deep_view()),
{
    let mut doc: toml_edit::DocumentMut = text.parse().ok()?;
    let mut t: &mut dyn toml_edit::TableLike = doc.as_table_mut();
    for k in path.iter() {
        t = t.get_mut(k)?.as_table_like_mut()?;
    }
    t.insert(key, toml_edit::value(values.iter().collect::<toml_edit::Array>()));
    Some(doc.to_string())
}

/// The text `toml_edit` prints after parsing `text` and walking the path
/// `path`, a table created under each key that is absent; none when the
/// text does not parse or the path meets a value that is not a table.
pub uninterp spec fn toml_table_ensured(text: Seq<char>, path: Seq<Seq<char>>) -> Option<Seq<char>>;

/// Parses with `toml_edit`, creates the missing tables and prints; the
/// contract claims only that the result is `toml_table_ensured`.
#[verifier::external_body]
pub(crate) fn ensure_table_text(text: &str, path: &Vec<String>) -> (r: Option<String>)
    ensures
        opt_view(r) == toml_table_ensured(text@, path.deep_view()),
{
    let mut doc: toml_edit::DocumentMut = text.parse().ok()?;
    let mut t: &mut dyn toml_edit::TableLike = doc.as_table_mut();
    for k in path.iter() {
        t = t.entry(k).or_insert(toml_edit::table()).as_table_like_mut()?;
    }
    Some(doc.to_string())
}

/// The text `toml_edit` prints after parsing `text` and `source`, and
/// inserting under the last key of `path`, in the existing table that the
/// other keys lead to in `text`, a copy of the item `path` leads to in
/// `source`; none when either text does not parse, `path` is empty, or a
/// key is missing or meets a value that is not a table.
pub uninterp spec fn toml_inserted_from(text: Seq<char>, path: Seq<Seq<char>>, source: Seq<char>) -> Option<Seq<char>>;

/// Parses both texts with `toml_edit`, copies the item and prints; the
/// contract claims only that the result is `toml_inserted_from`.
#[verifier::external_body]
pub(crate) fn insert_from_text(text: &str, path: &Vec<String>, source: &str) -> (r: Option<String>)
    ensures
        opt_view(r) == toml_inserted_from(text@, path.deep_view(), source@),
{
    let mut doc: toml_edit::DocumentMut = text.parse().ok()?;
    let src: toml_edit::DocumentMut = source.parse().ok()?;
    let (last, parents) = path.split_last()?;
    let mut item = src.as_item();
    for k in path.iter() {
        item = item.get(k.as_str())?;
    }
    let mut t: &mut dyn toml_edit::TableLike = doc.as_table_mut();
    for k in parents.iter() {
        t = t.get_mut(k)?.as_table_like_mut()?;
    }
    t.insert(last, item.clone());
    Some(doc.to_string())
}

} // verus!
