//! Loading the configuration text: the `toml` crate parses it, and the
//! parsed value is handed over as the library's own plain document model,
//! which everything else reads under exact contracts.

use vstd::prelude::*;

use crate::document::{DocEntry, DocValue};

verus! {

/// The outside type `toml::Value`: the parsed form of a TOML document.
#[verifier::external_type_specification]
#[verifier::external_body]
pub struct ExTomlValue(toml::Value);

/// The document a TOML text parses to, or nothing when the text is not
/// valid TOML. A name for what [`parse_document`] returns: the `toml`
/// crate's parse is a function of the text alone (its default table keeps
/// keys in sorted order, so even entry order depends on nothing else).
pub uninterp spec fn toml_document(text: Seq<char>) -> Option<DocValue>;

/// Reads one parsed TOML value into the library's document model, variant
/// by variant: strings, integers and booleans keep their payloads; arrays
/// and tables keep their elements and entries in the order the parsed value
/// holds them; a float or a datetime — values the library never reads —
/// becomes [`DocValue::Other`]. Relies only on the shape of the `toml`
/// crate's `Value` enum.
#[verifier::external_body]
fn doc_of_value(v: toml::Value) -> DocValue {
    match v {
        toml::Value::String(s) => DocValue::Str(s),
        toml::Value::Integer(i) => DocValue::Int(i),
        toml::Value::Float(_) => DocValue::Other,
        toml::Value::Boolean(b) => DocValue::Bool(b),
        toml::Value::Datetime(_) => DocValue::Other,
        toml::Value::Array(a) => DocValue::Arr(a.into_iter().map(doc_of_value).collect()),
        toml::Value::Table(t) => DocValue::Table(
            t.into_iter().map(|(k, v)| DocEntry { key: k, value: doc_of_value(v) }).collect(),
        ),
    }
}

/// Parses a configuration text into the document model. Relies on
/// `toml::from_str::<toml::Value>`, a pure, deterministic function of the
/// text, followed by the variant-for-variant reading above.
#[verifier::external_body]
pub fn parse_document(text: &str) -> (r: Option<DocValue>)
    ensures
        r == toml_document(text@),
{
    match toml::from_str::<toml::Value>(text) {
        Ok(v) => Some(doc_of_value(v)),
        Err(_) => None,
    }
}

} // verus!
