use vstd::prelude::*;
use serde_yaml::Value as YamlTree;
use crate::serialization::serializer::{fits_codec_depth, Serializer};
use crate::datum::{Datum, DatumView};

verus! {

#[verifier::external_type_specification]
#[verifier::external_body]
pub struct ExYamlValue(serde_yaml::Value);

/// The YAML text of a value's model, a function of the model alone: named
/// here, computed by serde_yaml.
pub uninterp spec fn yaml_text(v: DatumView) -> Seq<char>;

/// The model YAML text decodes to, when it parses as a supported value: a
/// function of the text alone, named here and computed by serde_yaml.
pub uninterp spec fn yaml_parsed(s: Seq<char>) -> Option<DatumView>;

/// Glue for the trusted codec calls below: a value as serde_yaml's tree.
/// One arm per variant, moving fields; nothing is claimed of the result.
#[verifier::external_body]
fn to_yaml_tree(v: &Datum) -> YamlTree {
    match v {
        Datum::Null => YamlTree::Null,
        Datum::Bool(b) => YamlTree::Bool(*b),
        Datum::Int(i) => YamlTree::Number(serde_yaml::Number::from(*i)),
        Datum::Text(s) => YamlTree::String(s.clone()),
        Datum::List(items) => YamlTree::Sequence(items.iter().map(to_yaml_tree).collect()),
        Datum::Record(fields) => YamlTree::Mapping(
            fields.iter().map(|f| (YamlTree::String(f.0.clone()), to_yaml_tree(&f.1))).collect(),
        ),
    }
}

/// Glue for the trusted codec calls below: serde_yaml's tree as a value.
/// One arm per variant; numbers outside `i64`, non-string keys and tagged
/// values are unsupported.  Nothing is claimed of the result.
#[verifier::external_body]
fn from_yaml_tree(y: &YamlTree) -> Option<Datum> {
    match y {
        YamlTree::Null => Some(Datum::Null),
        YamlTree::Bool(b) => Some(Datum::Bool(*b)),
        YamlTree::Number(n) => n.as_i64().map(Datum::Int),
        YamlTree::String(s) => Some(Datum::Text(s.clone())),
        YamlTree::Sequence(items) => items.iter().map(from_yaml_tree).collect::<Option<_>>().map(
            Datum::List,
        ),
        YamlTree::Mapping(map) => map.iter().map(from_yaml_field).collect::<Option<_>>().map(
            Datum::Record,
        ),
        _ => None,
    }
}

/// Glue for `from_yaml_tree`: one mapping field as a record field; a
/// non-string key is unsupported.  Nothing is claimed of the result.
#[verifier::external_body]
fn from_yaml_field(f: (&YamlTree, &YamlTree)) -> Option<(String, Datum)> {
    Some((f.0.as_str()?.to_owned(), from_yaml_tree(f.1)?))
}

/// Relies on serde_yaml::to_string over the tree `to_yaml_tree` builds: the
/// YAML text is a deterministic, never-empty function of the value, and
/// parsing it back (see `yaml_decode`) returns the value when its record
/// keys are distinct and its nesting stays within the parser's recursion
/// limit — the parser refuses the 129th nested container, while
/// serialization itself has no depth limit.  Mapping key order is preserved
/// by the codec.
#[verifier::external_body]
fn yaml_encode(v: &Datum) -> (r: String)
    ensures
        r@ == yaml_text(v@),
        r@.len() > 0,
        crate::datum::wf_view(v@) && fits_codec_depth(v@) ==> yaml_parsed(r@) == Some(v@),
{
    serde_yaml::to_string(&to_yaml_tree(v)).unwrap_or_default()
}

/// Relies on serde_yaml::from_str: what YAML text parses to is a function of
/// the text alone; text that does not parse, or parses to something outside
/// the supported models (see `from_yaml_tree`), is refused.
#[verifier::external_body]
fn yaml_decode(s: &str) -> (r: Result<Datum, String>)
    ensures
        r is Ok <==> yaml_parsed(s@) is Some,
        r matches Ok(v) ==> Some(v@) == yaml_parsed(s@),
{
    match serde_yaml::from_str::<YamlTree>(s) {
        Ok(tree) => match from_yaml_tree(&tree) {
            Some(v) => Ok(v),
            None => Err("unsupported value in YAML text".to_owned()),
        },
        Err(e) => Err(e.to_string()),
    }
}

/// The YAML codec: block-styled, order-preserving.
pub struct YamlSerializer;

impl Serializer for YamlSerializer {
    open spec fn extension_spec(&self) -> Seq<char> {
        "yaml"@
    }

    open spec fn encode_spec(&self, v: DatumView) -> Seq<char> {
        yaml_text(v)
    }

    open spec fn decode_spec(&self, s: Seq<char>) -> Option<DatumView> {
        yaml_parsed(s)
    }

    fn extension(&self) -> (r: String) {
        "yaml".to_owned()
    }

    fn serialize(&self, value: &Datum) -> (r: String) {
        yaml_encode(value)
    }

    fn deserialize(&self, text: &str) -> (r: Result<Datum, String>) {
        yaml_decode(text)
    }
}

} // verus!
