//! A mathematical model of parsed YAML documents, and contracts over the
//! serde_yaml calls that read them.
//!
//! The pipeline only ever reads scalars, sequences, and string-keyed
//! mapping entries out of a document, so the model [`YamlData`] captures
//! exactly those shapes: a mapping is modelled by its string-keyed entries,
//! and every other value (a float, an integer outside `i64`) is `Opaque`.
//! Tag wrappers (`!Tag value`) are looked through, as serde_yaml's accessors
//! do.

use vstd::prelude::*;

verus! {

/// The model of a YAML value.
pub enum YamlData {
    Null,
    Bool(bool),
    Int(i64),
    Str(Seq<char>),
    List(Seq<YamlData>),
    Dict(Map<Seq<char>, YamlData>),
    Opaque,
}

#[verifier::external_type_specification]
#[verifier::external_body]
pub struct ExYamlValue(serde_yaml::Value);

/// The model of a `serde_yaml::Value`. The wrappers below say how each
/// accessor of the crate behaves in terms of it.
pub uninterp spec fn yaml_rep(v: serde_yaml::Value) -> YamlData;

/// The model of the document that `serde_yaml::from_str::<Value>` parses out
/// of `s`, or `None` when the text is not valid YAML (which includes
/// mappings with duplicate keys): a function of the text alone.
pub uninterp spec fn yaml_doc(s: Seq<char>) -> Option<YamlData>;

/// Relies on `serde_yaml::from_str::<serde_yaml::Value>`: success and the
/// parsed document depend on the text alone.
#[verifier::external_body]
pub(crate) fn yaml_parse(s: &str) -> (r: Option<serde_yaml::Value>)
    ensures
        r is Some <==> yaml_doc(s@) is Some,
        r matches Some(v) ==> yaml_doc(s@) == Some(yaml_rep(v)),
{
    match serde_yaml::from_str::<serde_yaml::Value>(s) {
        Ok(v) => Some(v),
        Err(_) => None,
    }
}

/// Relies on `serde_yaml::Value::get` with a string index: a lookup among
/// the string-keyed entries of a mapping, and `None` on every other shape.
#[verifier::external_body]
pub(crate) fn yaml_get<'a>(v: &'a serde_yaml::Value, key: &str) -> (r: Option<
    &'a serde_yaml::Value,
>)
    ensures
        match yaml_rep(*v) {
            YamlData::Dict(m) => {
                &&& r is Some <==> m.contains_key(key@)
                &&& (r matches Some(u) ==> m.contains_key(key@) && yaml_rep(*u) == m[key@])
            },
            _ => r is None,
        },
{
    v.get(key)
}

/// Relies on `serde_yaml::Value::is_mapping`: true exactly on a mapping.
#[verifier::external_body]
pub(crate) fn yaml_is_map(v: &serde_yaml::Value) -> (r: bool)
    ensures
        r == (yaml_rep(*v) is Dict),
{
    v.is_mapping()
}

/// Relies on `serde_yaml::Value::is_null`: true exactly on a null.
#[verifier::external_body]
pub(crate) fn yaml_is_null(v: &serde_yaml::Value) -> (r: bool)
    ensures
        r == (yaml_rep(*v) is Null),
{
    v.is_null()
}

/// Relies on `serde_yaml::Value::as_str`: `Some` exactly on a string.
#[verifier::external_body]
pub(crate) fn yaml_str<'a>(v: &'a serde_yaml::Value) -> (r: Option<&'a str>)
    ensures
        match yaml_rep(*v) {
            YamlData::Str(s) => r matches Some(t) && t@ == s,
            _ => r is None,
        },
{
    v.as_str()
}

/// Relies on `serde_yaml::Value::as_i64`: `Some` exactly on an integer that
/// fits `i64`.
#[verifier::external_body]
pub(crate) fn yaml_i64(v: &serde_yaml::Value) -> (r: Option<i64>)
    ensures
        match yaml_rep(*v) {
            YamlData::Int(i) => r == Some(i),
            _ => r is None,
        },
{
    v.as_i64()
}

/// Relies on `serde_yaml::Value::as_sequence`: `Some` exactly on a sequence,
/// handing back its elements in order.
#[verifier::external_body]
pub(crate) fn yaml_list<'a>(v: &'a serde_yaml::Value) -> (r: Option<&'a Vec<serde_yaml::Value>>)
    ensures
        match yaml_rep(*v) {
            YamlData::List(l) => r matches Some(xs) && xs@.len() == l.len() && (forall|i: int|
                0 <= i < l.len() ==> yaml_rep(xs@[i]) == l[i]),
            _ => r is None,
        },
{
    v.as_sequence()
}

} // verus!
