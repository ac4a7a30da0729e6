//! The trusted boundary to the TOML parser.
//!
//! The `toml` crate turns configuration text into a [`toml::Value`] tree;
//! that tree is opaque to the verifier, so its contents are named by the
//! uninterpreted functions [`toml_node`] and [`toml_document`], and each
//! method the loader calls is wrapped with a contract over those names.

use vstd::prelude::*;

verus! {

/// The shape and contents of a parsed TOML value, as a plain spec value.
/// `Other` covers the kinds the configuration loader never reads (floats,
/// datetimes, arrays).
pub enum TomlNode {
    Str(Seq<char>),
    Int(i64),
    Bool(bool),
    Table(Map<Seq<char>, TomlNode>),
    Other,
}

#[verifier::external_type_specification]
#[verifier::external_body]
pub struct ExTomlValue(toml::Value);

/// What a [`toml::Value`] holds, as a [`TomlNode`].
pub uninterp spec fn toml_node(v: toml::Value) -> TomlNode;

/// What parsing a TOML document yields: the top-level value for well-formed
/// text, nothing for malformed text.
pub uninterp spec fn toml_document(s: Seq<char>) -> Option<TomlNode>;

/// What the parser says of malformed text: the rendering of the
/// `toml::de::Error` that `toml::from_str` returns, a function of the text
/// alone.
pub uninterp spec fn toml_error_text(s: Seq<char>) -> Seq<char>;

/// Relies on `toml::from_str` for `toml::Value`: parses a TOML document
/// and fails exactly on malformed text, with the parser's own message.
/// Nothing is claimed of the parsed value's variant: almost every document
/// yields a table, but the crate's private datetime encoding can yield
/// another variant, so callers must test for themselves.
#[verifier::external_body]
pub(crate) fn toml_parse_value(s: &str) -> (r: Result<toml::Value, String>)
    ensures
        r is Ok <==> toml_document(s@) is Some,
        r matches Ok(v) ==> toml_document(s@) == Some(toml_node(v)),
        r matches Err(m) ==> m@ == toml_error_text(s@),
{
    match toml::from_str::<toml::Value>(s) {
        Ok(v) => Ok(v),
        Err(e) => Err(e.to_string()),
    }
}

/// Relies on `toml::Value::get` with a string index: looks the key up when
/// the value is a table, and yields nothing otherwise.
#[verifier::external_body]
pub(crate) fn toml_get<'a>(v: &'a toml::Value, key: &str) -> (r: Option<&'a toml::Value>)
    ensures
        match toml_node(*v) {
            TomlNode::Table(m) => {
                &&& (r is Some <==> m.contains_key(key@))
                &&& (r matches Some(x) ==> m.contains_key(key@) && toml_node(*x) == m[key@])
            },
            _ => r is None,
        },
{
    v.get(key)
}

/// Relies on `toml::Value::is_table`.
#[verifier::external_body]
pub(crate) fn toml_is_table(v: &toml::Value) -> (r: bool)
    ensures
        r == (toml_node(*v) is Table),
{
    v.is_table()
}

/// Relies on `toml::Value::as_str`: yields the string exactly when the
/// value is a string.
#[verifier::external_body]
pub(crate) fn toml_as_str<'a>(v: &'a toml::Value) -> (r: Option<&'a str>)
    ensures
        r is Some <==> toml_node(*v) is Str,
        r matches Some(s) ==> toml_node(*v) == TomlNode::Str(s@),
{
    v.as_str()
}

/// Relies on `toml::Value::as_integer`: yields the integer exactly when the
/// value is an integer.
#[verifier::external_body]
pub(crate) fn toml_as_integer(v: &toml::Value) -> (r: Option<i64>)
    ensures
        r is Some <==> toml_node(*v) is Int,
        r matches Some(i) ==> toml_node(*v) == TomlNode::Int(i),
{
    v.as_integer()
}

/// Relies on `toml::Value::as_bool`: yields the boolean exactly when the
/// value is a boolean.
#[verifier::external_body]
pub(crate) fn toml_as_bool(v: &toml::Value) -> (r: Option<bool>)
    ensures
        r is Some <==> toml_node(*v) is Bool,
        r matches Some(b) ==> toml_node(*v) == TomlNode::Bool(b),
{
    v.as_bool()
}

} // verus!
