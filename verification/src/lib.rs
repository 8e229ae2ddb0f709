//! A golden-file ("expect") testing engine.
//!
//! A test records an artifact (raw text or a structured value) on its first
//! run and, on later runs, compares freshly produced output against that
//! recorded baseline, reporting pass/fail and rendering a diff on mismatch.
//!
//! The engine is verified against an abstract artifact store; the host
//! integration supplies the test identity and a store over the real file
//! system, and [`MemStore`] is a verified in-memory store.

mod context;
mod datum;
mod diff;
mod error;
mod expect;
mod paths;
mod read;
mod serialization;
mod store;
mod write;

pub use context::{has_separator, is_name_split, joined_segments, lemma_name_split_unique, TestContext};
pub use datum::{elements_depth, fields_depth, list_view, record_view, view_depth, wf_view, Datum, DatumView};
pub use diff::{
    compare_sequences, diff_report, display_value, lemma_reported_missing, lemma_reported_unequal,
    reported, Diff, SeqMismatch,
};
pub use error::ExpectError;
pub use expect::Expect;
pub use paths::{base_name, join_path, parent_dir, stem_of};
pub use serialization::{
    check_codec_depth, codec_depth_limit, default_decode, default_encode, default_extension,
    fits_codec_depth,
    DefaultSerializer, JsonSerializer, Serializer, SerializerExtensions, YamlSerializer,
};
pub use store::{str_eq, ArtifactStore, MemStore};
