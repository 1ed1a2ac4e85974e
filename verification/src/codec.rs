use vstd::prelude::*;

use crate::encode::encode_doc_chars;
use crate::error::Error;
use crate::json::json_text;
use crate::model::doc_json;
use crate::model::DocSpec;
use crate::model::Notes;
use crate::parse::parse_document;
use crate::parse::sp_document;
use crate::strings::chars_of;
use crate::strings::string_from_chars;
use crate::validate::sv_doc;
use crate::validate::validate_doc;

verus! {

use vstd::string::StringExecFns;

#[verifier::external_type_specification]
#[verifier::external_body]
pub struct ExValue(serde_json::Value);

/// What parsing a text as YAML yields, re-expressed as compact JSON
/// text: `None` where the text is not acceptable YAML, the rendering
/// of the parsed value otherwise.  This names the combined outcome of
/// the YAML parser and the JSON renderer; nothing in this crate states
/// what it is on given characters.
pub uninterp spec fn yaml_json_of(s: Seq<char>) -> Option<Seq<char>>;

/// What a parsed value holds, as the compact JSON text that renders
/// it.
pub uninterp spec fn value_json(v: serde_json::Value) -> Seq<char>;

/// Relies on `serde_yaml::from_str` deserializing into a
/// `serde_json::Value`: it succeeds exactly on acceptable YAML text
/// (one whose mapping keys are strings and whose values a JSON value
/// can hold), and the value depends on the text alone.
#[verifier::external_body]
fn parse_yaml_value(s: &str) -> (r: Result<serde_json::Value, String>)
    ensures
        r is Ok <==> yaml_json_of(s@) is Some,
        r is Ok ==> value_json(r->Ok_0) == yaml_json_of(s@)->0,
{
    serde_yaml::from_str::<serde_json::Value>(s).map_err(|e| e.to_string())
}

/// Relies on `serde_json::to_string` on a `Value`: the compact
/// rendering is a function of the value alone, and rendering a
/// `Value` cannot fail, since its maps have string keys and its
/// numbers are finite.
#[verifier::external_body]
fn render_value(v: &serde_json::Value) -> (r: String)
    ensures
        r@ == value_json(*v),
{
    serde_json::to_string(v).unwrap_or_else(|_| String::new())
}

/// What decoding a compact JSON text against the document schema
/// yields: the text must be one JSON value with nothing around it,
/// and that value must match the schema.
pub open spec fn spec_decode(t: Seq<char>) -> Option<DocSpec> {
    match sp_document(t) {
        Option::None => Option::None,
        Option::Some(v) => sv_doc(v),
    }
}

/// Decode a compact JSON text into a document.  The text must hold
/// exactly one JSON value, in the compact form `json_text` renders
/// (no surrounding whitespace), and the value must match the document
/// schema as `sv_doc` describes.
pub fn decode_json(text: &str) -> (r: Result<Notes, Error>)
    ensures
        match spec_decode(text@) {
            Option::Some(d) => r is Ok && r->Ok_0@ == d,
            Option::None => r is Err && r->Err_0 is DecodeError,
        },
{
    let cs = chars_of(text);
    match parse_document(&cs) {
        Option::None => Result::Err(
            Error::DecodeError(String::from_str("the text is not one compact JSON value")),
        ),
        Option::Some(v) => match validate_doc(&v) {
            Option::None => Result::Err(
                Error::DecodeError(String::from_str("the value does not match the notes schema")),
            ),
            Option::Some(n) => Result::Ok(n),
        },
    }
}

impl Notes {
    /// Decode YAML text into a document: the text is parsed as YAML,
    /// re-expressed as compact JSON text, and decoded against the
    /// schema as `spec_decode` describes.  Bindings the schema does
    /// not know are ignored; a mapping that repeats a key keeps the
    /// key's last value, as the YAML parser resolves it.
    pub fn from_yaml(yaml: &str) -> (r: Result<Notes, Error>)
        ensures
            match yaml_json_of(yaml@) {
                Option::None => r is Err && r->Err_0 is DecodeError,
                Option::Some(t) => match spec_decode(t) {
                    Option::Some(d) => r is Ok && r->Ok_0@ == d,
                    Option::None => r is Err && r->Err_0 is DecodeError,
                },
            },
    {
        match parse_yaml_value(yaml) {
            Result::Err(msg) => Result::Err(Error::DecodeError(msg)),
            Result::Ok(v) => {
                let text = render_value(&v);
                decode_json(text.as_str())
            },
        }
    }

    /// Encode a document as compact JSON text, the title binding
    /// first and the children (or `null`) second.  The result type
    /// admits failure, but encoding this schema never fails.
    pub fn to_json(&self) -> (r: Result<String, Error>)
        ensures
            r is Ok,
            r->Ok_0@ == json_text(doc_json(self@)),
    {
        let chars = encode_doc_chars(self);
        Result::Ok(string_from_chars(&chars))
    }
}

/// Decode YAML text and re-encode the document as compact JSON text:
/// the whole computing part of a file conversion.
pub fn convert_text(input: &str) -> (r: Result<String, Error>)
    ensures
        match yaml_json_of(input@) {
            Option::None => r is Err && r->Err_0 is DecodeError,
            Option::Some(t) => match spec_decode(t) {
                Option::Some(d) => r is Ok && r->Ok_0@ == json_text(doc_json(d)),
                Option::None => r is Err && r->Err_0 is DecodeError,
            },
        },
{
    match Notes::from_yaml(input) {
        Result::Err(e) => Result::Err(e),
        Result::Ok(n) => match n.to_json() {
            Result::Err(e) => Result::Err(e),
            Result::Ok(s) => Result::Ok(s),
        },
    }
}

} // verus!
