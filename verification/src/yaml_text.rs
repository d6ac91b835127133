//! YAML text: read into the merge's model with `yaml_rust2`, and written
//! back with its emitter; the merge itself is `merge_yaml_values`.
use vstd::prelude::*;
use crate::manifest::opt_view;
use crate::text::{seq_starts_with, strip_prefix};
use crate::yaml_merge::{YamlKey, YamlValue, YamlView, merge_spec, merge_yaml_values, yaml_view};

verus! {

#[verifier::external_type_specification]
#[verifier::external_body]
pub struct ExYaml(yaml_rust2::Yaml);

/// What `yaml_rust2::YamlLoader::load_from_str` reads from a text, in the
/// model: the first document (null when there is none), mappings entry by
/// entry, string keys as strings, and every other key and value known by the
/// text the emitter gives it; none when the text is not YAML.
pub uninterp spec fn yaml_model(text: Seq<char>) -> Option<YamlView>;

/// The text `yaml_rust2::YamlEmitter::dump` gives a single value.
#[verifier::external_body]
fn yaml_text(y: &yaml_rust2::Yaml) -> String {
    let mut out = String::new();
    let _ = yaml_rust2::YamlEmitter::new(&mut out).dump(y);
    out
}

/// Converts a `yaml_rust2::Yaml` into the model, entry for entry.
#[verifier::external_body]
fn yaml_of(y: &yaml_rust2::Yaml) -> YamlValue {
    match y {
        yaml_rust2::Yaml::Null => YamlValue::Null,
        yaml_rust2::Yaml::BadValue => YamlValue::BadValue,
        yaml_rust2::Yaml::Hash(h) => YamlValue::Hash(h.iter().map(|(k, x)| (match k {
            yaml_rust2::Yaml::String(s) => YamlKey::Str(s.clone()),
            other => YamlKey::Other(yaml_text(other)),
        }, yaml_of(x))).collect()),
        other => YamlValue::Leaf(yaml_text(other)),
    }
}

/// `yaml_rust2::YamlLoader::load_from_str`, its first document converted
/// into the model; the contract claims only that the result is `yaml_model`
/// of the text.
#[verifier::external_body]
fn parse_yaml_model(text: &str) -> (r: Option<YamlValue>)
    ensures
        match r {
            Some(v) => yaml_model(text@) == Some(yaml_view(v)),
            None => yaml_model(text@) is None,
        },
{
    let docs = yaml_rust2::YamlLoader::load_from_str(text).ok()?;
    Some(docs.first().map(yaml_of).unwrap_or(YamlValue::Null))
}

/// What `yaml_rust2::YamlEmitter::dump` prints for a model value (each key
/// and value known by its text read back with `YamlLoader`); none when the
/// emitter fails.
pub uninterp spec fn yaml_emitted(v: YamlView) -> Option<Seq<char>>;

/// Reads back a key's or value's text.
#[verifier::external_body]
fn yaml_read_back(text: &str) -> yaml_rust2::Yaml {
    yaml_rust2::YamlLoader::load_from_str(text).ok().and_then(|d| d.into_iter().next()).unwrap_or(yaml_rust2::Yaml::BadValue)
}

/// Converts a model value back into a `yaml_rust2::Yaml`, entry for entry.
#[verifier::external_body]
fn yaml_back(v: &YamlValue) -> yaml_rust2::Yaml {
    match v {
        YamlValue::Null => yaml_rust2::Yaml::Null,
        YamlValue::BadValue => yaml_rust2::Yaml::BadValue,
        YamlValue::Hash(es) => yaml_rust2::Yaml::Hash(es.iter().map(|(k, x)| (match k {
            YamlKey::Str(s) => yaml_rust2::Yaml::String(s.clone()),
            YamlKey::Other(t) => yaml_read_back(t),
        }, yaml_back(x))).collect()),
        YamlValue::Leaf(t) => yaml_read_back(t),
    }
}

/// `yaml_rust2::YamlEmitter::dump` of the value converted back; the contract
/// claims only that the result is `yaml_emitted` of it.
#[verifier::external_body]
fn emit_yaml(v: &YamlValue) -> (r: Option<String>)
    ensures
        opt_view(r) == yaml_emitted(yaml_view(*v)),
{
    let mut out = String::new();
    yaml_rust2::YamlEmitter::new(&mut out).dump(&yaml_back(v)).ok()?;
    Some(out)
}

/// An emitted document without its leading `---` line.
pub open spec fn without_doc_start(s: Seq<char>) -> Seq<char> {
    if seq_starts_with(s, "---\n"@) { s.subrange(4, s.len() as int) } else { s }
}

/// Merge a template YAML file into an existing one (first documents only;
/// see `merge_yaml_values`), and print the result.
pub fn merge_yaml_text(existing: &str, template: &str) -> (r: Result<String, String>)
    ensures
        match (yaml_model(existing@), yaml_model(template@)) {
            (None, _) => r matches Err(m) && m@ == "failed to parse existing YAML"@,
            (Some(_), None) => r matches Err(m) && m@ == "failed to parse template YAML"@,
            (Some(e), Some(t)) => match yaml_emitted(merge_spec(e, t)) {
                None => r matches Err(m) && m@ == "failed to emit merged YAML"@,
                Some(s) => r matches Ok(x) && x@ == without_doc_start(s),
            },
        },
{
    let e = match parse_yaml_model(existing) {
        Some(e) => e,
        None => return Err("failed to parse existing YAML".to_string()),
    };
    let t = match parse_yaml_model(template) {
        Some(t) => t,
        None => return Err("failed to parse template YAML".to_string()),
    };
    let merged = merge_yaml_values(&e, &t);
    let out = match emit_yaml(&merged) {
        Some(o) => o,
        None => return Err("failed to emit merged YAML".to_string()),
    };
    proof {
        reveal_strlit("---\n");
    }
    match strip_prefix(out.as_str(), "---\n") {
        Some(rest) => Ok(rest),
        None => Ok(out),
    }
}

} // verus!
