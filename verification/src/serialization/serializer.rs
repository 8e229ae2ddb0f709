use vstd::prelude::*;
use crate::datum::{view_depth, wf_view, Datum, DatumView};

verus! {

/// The container-nesting depth up to which every supported codec's parser
/// accepts its own output.  Both codecs' parsers enforce a recursion limit of
/// 128 levels; serde_json refuses the 128th nested container and serde_yaml
/// the 129th, so this stays at the smaller bound.
pub open spec fn codec_depth_limit() -> nat {
    127
}

/// Whether a value nests shallowly enough for the codecs' parsers to read its
/// own encoding back.  Serialization itself has no depth limit; only parsing
/// does, so the round-trip guarantee is conditioned on this bound.
pub open spec fn fits_codec_depth(v: DatumView) -> bool {
    view_depth(v) <= codec_depth_limit()
}

/// Whether the value nests within the codecs' parse depth, as
/// [`fits_codec_depth`] describes: such a well-formed value's encoding
/// decodes back to it.
pub fn check_codec_depth(v: &Datum) -> (r: bool)
    ensures
        r == fits_codec_depth(v@),
{
    v.depth_within(127)
}

/// A pluggable codec translating a structured value to and from text, with a
/// fixed file-name extension.  A codec is a stateless strategy value; call
/// sites are codec-agnostic.
pub trait Serializer: Sized {
    /// The codec's fixed file-name extension.
    spec fn extension_spec(&self) -> Seq<char>;

    /// The text the codec produces for a value's model.
    spec fn encode_spec(&self, v: DatumView) -> Seq<char>;

    /// The model the codec reads back from text, when the text decodes.
    spec fn decode_spec(&self, s: Seq<char>) -> Option<DatumView>;

    /// The codec's extension, as a string.
    fn extension(&self) -> (r: String)
        ensures
            r@ == self.extension_spec(),
    ;

    /// Encodes a value as deterministic, human-diffable, never-empty text.
    ///
    /// Round-trip law: decoding what was encoded of a well-formed value that
    /// nests within the parsers' recursion limit gives the value back.
    fn serialize(&self, value: &Datum) -> (r: String)
        ensures
            r@ == self.encode_spec(value@),
            r@.len() > 0,
            wf_view(value@) && fits_codec_depth(value@) ==> self.decode_spec(r@) == Some(value@),
    ;

    /// Decodes text back into a value; malformed or unsupported input is an
    /// error, never repaired.
    fn deserialize(&self, text: &str) -> (r: Result<Datum, String>)
        ensures
            r is Ok <==> self.decode_spec(text@) is Some,
            r matches Ok(v) ==> Some(v@) == self.decode_spec(text@),
    ;
}

/// Conveniences every codec gets for free.
pub trait SerializerExtensions: Serializer {
    /// The codec's extension.
    fn get_extension(&self) -> (r: String)
        ensures
            r@ == self.extension_spec(),
    ;

    /// Encodes a value to display text, as [`Serializer::serialize`] does.
    fn serialize_to_string(&self, value: &Datum) -> (r: String)
        ensures
            r@ == self.encode_spec(value@),
            r@.len() > 0,
    ;
}

impl<S: Serializer> SerializerExtensions for S {
    fn get_extension(&self) -> (r: String) {
        self.extension()
    }

    fn serialize_to_string(&self, value: &Datum) -> (r: String) {
        self.serialize(value)
    }
}

} // verus!
