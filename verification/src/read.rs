use vstd::prelude::*;
use std::io::Write;
use crate::datum::Datum;
use crate::error::ExpectError;
use crate::expect::Expect;
use crate::serialization::{
    default_decode, default_extension, DefaultSerializer, Serializer, SerializerExtensions,
};
use crate::store::ArtifactStore;

verus! {

/// Prints the notice that a missing baseline is being recorded.  Relies on
/// the standard output stream; rendering is outside the verified behaviour.
#[verifier::external_body]
fn print_bootstrap_notice(path: &str) {
    let _ = writeln!(std::io::stdout(), "Creating expected file: {}", path);
}

impl Expect {
    /// Reads the expected-results file as text.  When no baseline has been
    /// recorded yet, the current actual-results file is first copied to the
    /// expected path, establishing it as the new baseline, and a notice is
    /// printed.
    pub fn read_expected_text<S: ArtifactStore>(
        &self,
        store: &mut S,
        extension: &str,
    ) -> (r: Result<String, ExpectError>)
        ensures
            final(store).dirs() == old(store).dirs(),
            final(store).files().remove(self.expected_path_spec(extension@)) == old(store).files().remove(self.expected_path_spec(extension@)),
            r matches Ok(c) ==> final(store).files().contains_key(
                self.expected_path_spec(extension@),
            ) && c@ == final(store).files()[self.expected_path_spec(extension@)],
            old(store).files().contains_key(self.expected_path_spec(extension@)) ==> r is Ok
                && final(store).files() == old(store).files(),
            (!old(store).files().contains_key(self.expected_path_spec(extension@)) && r is Ok)
                ==> old(store).files().contains_key(self.actual_path_spec(extension@)) && final(store).files()[self.expected_path_spec(extension@)] == old(store).files()[
                self.actual_path_spec(extension@)
            ],
            r matches Err(e) ==> (e is CopyActual && !old(store).files().contains_key(
                self.expected_path_spec(extension@),
            )) || e is ReadExpected,
    {
        let path = self.get_expected_path(extension);
        if !store.file_exists(path.as_str()) {
            print_bootstrap_notice(path.as_str());
            let actual = self.get_actual_path(extension);
            match store.copy_file(actual.as_str(), path.as_str()) {
                Ok(_) => {},
                Err(cause) => {
                    return Err(ExpectError::CopyActual(cause, actual, path));
                },
            }
        }
        match store.read_file(path.as_str()) {
            Ok(content) => Ok(content),
            Err(cause) => Err(ExpectError::ReadExpected(cause, path)),
        }
    }

    /// Reads the expected-results file and decodes it through the configured
    /// serializer, bootstrapping a missing baseline from the actual file as
    /// [`Expect::read_expected_text`] does.
    pub fn read_expected_serialized<S: ArtifactStore>(&self, store: &mut S) -> (r: Result<
        Datum,
        ExpectError,
    >)
        ensures
            final(store).dirs() == old(store).dirs(),
            final(store).files().remove(self.expected_path_spec(default_extension())) == old(store).files().remove(self.expected_path_spec(default_extension())),
            r matches Ok(v) ==> final(store).files().contains_key(
                self.expected_path_spec(default_extension()),
            ) && Some(v@) == default_decode(
                final(store).files()[self.expected_path_spec(default_extension())],
            ),
            old(store).files().contains_key(self.expected_path_spec(default_extension())) ==> (
            final(store).files() == old(store).files() && (r is Ok <==> default_decode(
                old(store).files()[self.expected_path_spec(default_extension())],
            ) is Some)),
            (!old(store).files().contains_key(self.expected_path_spec(default_extension())) && r
                is Ok) ==> old(store).files().contains_key(
                self.actual_path_spec(default_extension()),
            ) && final(store).files()[self.expected_path_spec(default_extension())] == old(store).files()[self.actual_path_spec(default_extension())],
            r matches Err(e) ==> (e is CopyActual && !old(store).files().contains_key(
                self.expected_path_spec(default_extension()),
            )) || e is ReadExpected || (e is DeserializeExpected && final(store).files().contains_key(self.expected_path_spec(default_extension()))
                && default_decode(
                final(store).files()[self.expected_path_spec(default_extension())],
            ) is None),
    {
        let serializer = DefaultSerializer::get();
        let extension = serializer.get_extension();
        let text = match self.read_expected_text(store, extension.as_str()) {
            Ok(text) => text,
            Err(e) => {
                return Err(e);
            },
        };
        match serializer.deserialize(text.as_str()) {
            Ok(value) => Ok(value),
            Err(cause) => Err(ExpectError::DeserializeExpected(cause)),
        }
    }
}

} // verus!
