//! Access to parsed TOML documents through the `toml` crate.
//!
//! A document is a `toml::Table`, a `BTreeMap<String, toml::Value>` whose
//! view is a `Map<String, toml::Value>`. Values stay opaque: what the
//! accessors of `toml::Value` return is named by the spec functions below.

use vstd::prelude::*;

verus! {

/// A TOML value of the `toml` crate, carried through opaquely.
#[verifier::external_type_specification]
#[verifier::external_body]
pub struct ExTomlValue(toml::Value);

/// What `toml::Parser::parse` returns for a document text.
pub uninterp spec fn toml_parse(text: Seq<char>) -> Option<Map<String, toml::Value>>;

/// What `toml::Value::as_integer` returns for a value.
pub uninterp spec fn toml_as_integer(v: toml::Value) -> Option<i64>;

/// What `toml::Value::as_str` returns for a value, as text.
pub uninterp spec fn toml_as_str(v: toml::Value) -> Option<Seq<char>>;

/// What `toml::Value::as_bool` returns for a value.
pub uninterp spec fn toml_as_bool(v: toml::Value) -> Option<bool>;

/// What `toml::Value::as_table` returns for a value, as a map.
pub uninterp spec fn toml_as_table(v: toml::Value) -> Option<Map<String, toml::Value>>;

/// What `toml::Value::as_slice` returns for a value, as a sequence.
pub uninterp spec fn toml_as_slice(v: toml::Value) -> Option<Seq<toml::Value>>;

/// The value stored in a table under the key whose text is `key`, if any.
///
/// A `BTreeMap<String, _>` orders its keys by their text, so at most one
/// key has a given text.
pub open spec fn table_lookup(t: Map<String, toml::Value>, key: Seq<char>) -> Option<toml::Value> {
    if exists|k: String| #[trigger] t.contains_key(k) && k@ == key {
        Some(t[choose|k: String| #[trigger] t.contains_key(k) && k@ == key])
    } else {
        None
    }
}

/// Parses a TOML document with `toml::Parser::new(text).parse()`.
///
/// Trusted: the result is the parsed top-level table, or `None` when the
/// parser reports errors; both are named by `toml_parse`, since the parser
/// is a pure function of the text. Nothing is said of which texts parse.
#[verifier::external_body]
pub fn parse_document(text: &str) -> (r: Option<toml::Table>)
    ensures
        r is None <==> toml_parse(text@) is None,
        r matches Some(t) ==> toml_parse(text@) == Some(t@),
{
    toml::Parser::new(text).parse()
}

/// `BTreeMap::get` on a TOML table with a `&str` key.
///
/// Trusted: returns the value stored under the key with the same text, and
/// `None` when there is none, as std documents. (vstd's own specification of
/// `get` only speaks for key types known to obey the ordering laws, which
/// `String` is not shown to.)
#[verifier::external_body]
pub fn table_get<'a>(t: &'a toml::Table, key: &str) -> (r: Option<&'a toml::Value>)
    ensures
        r is None <==> table_lookup(t@, key@) is None,
        r matches Some(v) ==> table_lookup(t@, key@) == Some(*v),
{
    t.get(key)
}

/// `toml::Value::as_integer`.
///
/// Trusted: the result is named by `toml_as_integer`.
#[verifier::external_body]
pub fn value_as_integer(v: &toml::Value) -> (r: Option<i64>)
    ensures
        r == toml_as_integer(*v),
{
    v.as_integer()
}

/// `toml::Value::as_str`.
///
/// Trusted: the result is named by `toml_as_str`.
#[verifier::external_body]
pub fn value_as_str(v: &toml::Value) -> (r: Option<&str>)
    ensures
        r is None <==> toml_as_str(*v) is None,
        r matches Some(s) ==> toml_as_str(*v) == Some(s@),
{
    v.as_str()
}

/// `toml::Value::as_bool`.
///
/// Trusted: the result is named by `toml_as_bool`.
#[verifier::external_body]
pub fn value_as_bool(v: &toml::Value) -> (r: Option<bool>)
    ensures
        r == toml_as_bool(*v),
{
    v.as_bool()
}

/// `toml::Value::as_table`.
///
/// Trusted: the result is named by `toml_as_table`.
#[verifier::external_body]
pub fn value_as_table(v: &toml::Value) -> (r: Option<&toml::Table>)
    ensures
        r is None <==> toml_as_table(*v) is None,
        r matches Some(t) ==> toml_as_table(*v) == Some(t@),
{
    v.as_table()
}

/// `toml::Value::as_slice`.
///
/// Trusted: the result is named by `toml_as_slice`.
#[verifier::external_body]
pub fn value_as_slice(v: &toml::Value) -> (r: Option<&[toml::Value]>)
    ensures
        r is None <==> toml_as_slice(*v) is None,
        r matches Some(s) ==> toml_as_slice(*v) == Some(s@),
{
    v.as_slice()
}

} // verus!
