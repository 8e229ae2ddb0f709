use vstd::prelude::*;
use crate::datum::Datum;
use crate::error::ExpectError;
use crate::expect::Expect;
use crate::serialization::{
    default_decode, default_encode, default_extension, fits_codec_depth, DefaultSerializer,
    Serializer, SerializerExtensions,
};
use crate::store::ArtifactStore;

verus! {

impl Expect {
    /// Writes the freshly produced text to the actual-results file,
    /// overwriting whatever the previous run left there.
    pub fn write_actual_text<S: ArtifactStore>(
        &self,
        store: &mut S,
        actual: &str,
        extension: &str,
    ) -> (r: Result<(), ExpectError>)
        ensures
            final(store).dirs() == old(store).dirs(),
            r is Ok ==> final(store).files() == old(store).files().insert(
                self.actual_path_spec(extension@),
                actual@,
            ),
            r is Err ==> final(store).files().remove(self.actual_path_spec(extension@)) == old(store).files().remove(self.actual_path_spec(extension@)),
            r matches Err(e) ==> e is WriteActual,
    {
        let path = self.get_actual_path(extension);
        match store.write_file(path.as_str(), actual) {
            Ok(_) => Ok(()),
            Err(cause) => Err(ExpectError::WriteActual(cause)),
        }
    }

    /// Encodes the freshly produced value through the configured serializer
    /// and writes it to the actual-results file.
    pub fn write_actual_serialized<S: ArtifactStore>(
        &self,
        store: &mut S,
        actual: &Datum,
    ) -> (r: Result<(), ExpectError>)
        ensures
            final(store).dirs() == old(store).dirs(),
            r is Ok ==> final(store).files() == old(store).files().insert(
                self.actual_path_spec(default_extension()),
                default_encode(actual@),
            ),
            r is Err ==> final(store).files().remove(self.actual_path_spec(default_extension()))
                == old(store).files().remove(self.actual_path_spec(default_extension())),
            r matches Err(e) ==> e is WriteActual,
            default_encode(actual@).len() > 0,
            crate::datum::wf_view(actual@) && fits_codec_depth(actual@) ==> default_decode(
                default_encode(actual@),
            ) == Some(actual@),
    {
        let serializer = DefaultSerializer::get();
        let text = serializer.serialize(actual);
        let extension = serializer.get_extension();
        self.write_actual_text(store, text.as_str(), extension.as_str())
    }
}

} // verus!
