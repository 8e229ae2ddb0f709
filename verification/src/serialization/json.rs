use vstd::prelude::*;
use serde_json::Value as JsonTree;
use crate::serialization::serializer::{fits_codec_depth, Serializer};
use crate::datum::{Datum, DatumView};

verus! {

#[verifier::external_type_specification]
#[verifier::external_body]
pub struct ExJsonValue(serde_json::Value);

/// The pretty-printed JSON text of a value's model, a function of the model
/// alone: named here, computed by serde_json.
pub uninterp spec fn json_text(v: DatumView) -> Seq<char>;

/// The model JSON text decodes to, when it parses as a supported value: a
/// function of the text alone, named here and computed by serde_json.
pub uninterp spec fn json_parsed(s: Seq<char>) -> Option<DatumView>;

/// Glue for the trusted codec calls below: a value as serde_json's tree.
/// One arm per variant, moving fields; nothing is claimed of the result.
#[verifier::external_body]
fn to_json_tree(v: &Datum) -> JsonTree {
    match v {
        Datum::Null => JsonTree::Null,
        Datum::Bool(b) => JsonTree::Bool(*b),
        Datum::Int(i) => JsonTree::from(*i),
        Datum::Text(s) => JsonTree::String(s.clone()),
        Datum::List(items) => JsonTree::Array(items.iter().map(to_json_tree).collect()),
        Datum::Record(fields) => JsonTree::Object(
            fields.iter().map(|f| (f.0.clone(), to_json_tree(&f.1))).collect(),
        ),
    }
}

/// Glue for the trusted codec calls below: serde_json's tree as a value.
/// One arm per variant; numbers outside `i64` and non-string keys are
/// unsupported.  Nothing is claimed of the result.
#[verifier::external_body]
fn from_json_tree(j: &JsonTree) -> Option<Datum> {
    match j {
        JsonTree::Null => Some(Datum::Null),
        JsonTree::Bool(b) => Some(Datum::Bool(*b)),
        JsonTree::Number(n) => n.as_i64().map(Datum::Int),
        JsonTree::String(s) => Some(Datum::Text(s.clone())),
        JsonTree::Array(items) => items.iter().map(from_json_tree).collect::<Option<Vec<_>>>().map(
            Datum::List,
        ),
        JsonTree::Object(map) => map.iter().map(
            |f| Some((f.0.clone(), from_json_tree(f.1)?)),
        ).collect::<Option<Vec<_>>>().map(Datum::Record),
    }
}

/// Relies on serde_json::to_string_pretty over the tree `to_json_tree`
/// builds: the pretty JSON text is a deterministic, never-empty function of
/// the value, and parsing it back (see `json_decode`) returns the value when
/// its record keys are distinct and its nesting stays within the parser's
/// recursion limit — the parser refuses the 128th nested container, while
/// serialization itself has no depth limit.  Object key order is preserved
/// by the codec.
#[verifier::external_body]
fn json_encode(v: &Datum) -> (r: String)
    ensures
        r@ == json_text(v@),
        r@.len() > 0,
        crate::datum::wf_view(v@) && fits_codec_depth(v@) ==> json_parsed(r@) == Some(v@),
{
    serde_json::to_string_pretty(&to_json_tree(v)).unwrap_or_default()
}

/// Relies on serde_json::from_str: what JSON text parses to is a function of
/// the text alone; text that does not parse, or parses to something outside
/// the supported models (see `from_json_tree`), is refused.
#[verifier::external_body]
fn json_decode(s: &str) -> (r: Result<Datum, String>)
    ensures
        r is Ok <==> json_parsed(s@) is Some,
        r matches Ok(v) ==> Some(v@) == json_parsed(s@),
{
    match serde_json::from_str::<JsonTree>(s) {
        Ok(tree) => match from_json_tree(&tree) {
            Some(v) => Ok(v),
            None => Err("unsupported value in JSON text".to_owned()),
        },
        Err(e) => Err(e.to_string()),
    }
}

/// The JSON codec: pretty-printed, order-preserving.
pub struct JsonSerializer;

impl Serializer for JsonSerializer {
    open spec fn extension_spec(&self) -> Seq<char> {
        "json"@
    }

    open spec fn encode_spec(&self, v: DatumView) -> Seq<char> {
        json_text(v)
    }

    open spec fn decode_spec(&self, s: Seq<char>) -> Option<DatumView> {
        json_parsed(s)
    }

    fn extension(&self) -> (r: String) {
        "json".to_owned()
    }

    fn serialize(&self, value: &Datum) -> (r: String) {
        json_encode(value)
    }

    fn deserialize(&self, text: &str) -> (r: Result<Datum, String>) {
        json_decode(text)
    }
}

} // verus!
