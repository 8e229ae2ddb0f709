use vstd::prelude::*;
use crate::serialization::json::{json_parsed, json_text, JsonSerializer};
use crate::datum::DatumView;

verus! {

/// Picks the codec that structured comparisons use when no codec is chosen
/// explicitly.  The configured default is the JSON codec.
pub struct DefaultSerializer;

/// The default codec's extension.
pub open spec fn default_extension() -> Seq<char> {
    "json"@
}

/// The text the default codec produces for a value's model.
pub open spec fn default_encode(v: DatumView) -> Seq<char> {
    json_text(v)
}

/// The model the default codec reads back from text.
pub open spec fn default_decode(s: Seq<char>) -> Option<DatumView> {
    json_parsed(s)
}

impl DefaultSerializer {
    /// The configured default codec.
    pub fn get() -> (r: JsonSerializer) {
        JsonSerializer
    }
}

} // verus!
