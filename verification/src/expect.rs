use vstd::prelude::*;
use crate::context::{is_name_split, TestContext};
use crate::datum::{list_view, wf_view, Datum, DatumView};
use crate::diff::Diff;
use crate::error::ExpectError;
use crate::serialization::{default_decode, default_encode, default_extension, fits_codec_depth};
use crate::store::ArtifactStore;

verus! {

/// Compares test results against expected values recorded on a first run.
/// One instance is bound to one test invocation's identity; artifact paths
/// are a pure function of that identity.
pub struct Expect {
    /// The identity of the test this instance serves.
    pub test: TestContext,
}

impl Expect {
    /// Creates a new [`Expect`] bound to the given test identity: the
    /// segmented name of the currently executing test as the host runner
    /// reports it, and the source location of the test.
    pub fn new(test_name: &str, file: &str, line: u32) -> (r: Expect)
        ensures
            is_name_split(test_name@, r.test.segments()),
            r.test.file@ == file@,
            r.test.line == line,
    {
        Expect { test: TestContext::new(test_name, file, line) }
    }

    /// Compares freshly produced text against the recorded baseline: writes
    /// the actual artifact, reads the expected one — recording the actual as
    /// the new baseline when none exists, so a first run passes and commits
    /// its output for review — and diffs the two.  The boolean is the
    /// comparison outcome; only infrastructural failures are errors.
    pub fn string<S: ArtifactStore>(&self, store: &mut S, actual: &str, extension: &str) -> (r:
        Result<bool, ExpectError>)
        ensures
            old(store).dirs().subset_of(final(store).dirs()),
            final(store).files().remove(self.actual_path_spec(extension@)).remove(
                self.expected_path_spec(extension@),
            ) == old(store).files().remove(self.actual_path_spec(extension@)).remove(
                self.expected_path_spec(extension@),
            ),
            (r matches Err(e) && e is ExpectDirNotFound) <==> !old(store).dirs().contains(
                self.module_dir_spec(),
            ),
            r matches Err(e) ==> e is ExpectDirNotFound || e is CreateSubDir || e is WriteActual
                || e is CopyActual || e is ReadExpected,
            r matches Ok(b) ==> final(store).files().contains_key(
                self.actual_path_spec(extension@),
            ) && final(store).files()[self.actual_path_spec(extension@)] == actual@ && final(store).files().contains_key(self.expected_path_spec(extension@)) && b == (final(store).files()[self.expected_path_spec(extension@)] == actual@),
            r matches Ok(b) ==> (!old(store).files().contains_key(
                self.expected_path_spec(extension@),
            ) ==> final(store).files()[self.expected_path_spec(extension@)] == actual@ && b),
            r matches Ok(b) ==> (old(store).files().contains_key(
                self.expected_path_spec(extension@),
            ) ==> final(store).files()[self.expected_path_spec(extension@)] == old(store).files()[self.expected_path_spec(extension@)] && b == (old(store).files()[
                self.expected_path_spec(extension@)
            ] == actual@)),
    {
        proof {
            self.lemma_role_paths_differ(extension@);
        }
        let ghost f0 = store.files();
        let ghost apath = self.actual_path_spec(extension@);
        let ghost epath = self.expected_path_spec(extension@);
        match self.verify_dirs(store) {
            Ok(_) => {},
            Err(e) => {
                return Err(e);
            },
        }
        match self.write_actual_text(store, actual, extension) {
            Ok(_) => {},
            Err(e) => {
                proof {
                    assert(store.files().remove(apath).remove(epath) =~= f0.remove(apath).remove(
                        epath,
                    ));
                }
                return Err(e);
            },
        }
        let ghost f1 = store.files();
        let expected = match self.read_expected_text(store, extension) {
            Ok(text) => text,
            Err(e) => {
                proof {
                    assert(store.files().remove(apath).remove(epath) =~= f1.remove(epath).remove(
                        apath,
                    ));
                    assert(f1.remove(epath).remove(apath) =~= f0.remove(apath).remove(epath));
                }
                return Err(e);
            },
        };
        proof {
            assert(store.files().remove(epath) == f1.remove(epath));
            assert(store.files().remove(epath).contains_key(apath) == f1.remove(
                epath,
            ).contains_key(apath));
            assert(store.files().remove(epath)[apath] == f1.remove(epath)[apath]);
            assert(f1.remove(epath).contains_key(apath) && f1.remove(epath)[apath] == actual@);
            assert(store.files().contains_key(apath) && store.files()[apath] == actual@);
            assert(store.files().remove(apath).remove(epath) =~= f0.remove(apath).remove(epath));
        }
        Ok(Diff::string(actual, expected.as_str()))
    }

    /// Compares a freshly produced value against the recorded baseline,
    /// encoded through the configured serializer, bootstrapping a missing
    /// baseline as [`Expect::string`] does.
    pub fn value<S: ArtifactStore>(&self, store: &mut S, actual: &Datum) -> (r: Result<
        bool,
        ExpectError,
    >)
        ensures
            old(store).dirs().subset_of(final(store).dirs()),
            final(store).files().remove(self.actual_path_spec(default_extension())).remove(
                self.expected_path_spec(default_extension()),
            ) == old(store).files().remove(self.actual_path_spec(default_extension())).remove(
                self.expected_path_spec(default_extension()),
            ),
            (r matches Err(e) && e is ExpectDirNotFound) <==> !old(store).dirs().contains(
                self.module_dir_spec(),
            ),
            r matches Err(e) ==> e is ExpectDirNotFound || e is CreateSubDir || e is WriteActual
                || e is CopyActual || e is ReadExpected || e is DeserializeExpected,
            r matches Ok(b) ==> final(store).files().contains_key(
                self.actual_path_spec(default_extension()),
            ) && final(store).files()[self.actual_path_spec(default_extension())]
                == default_encode(actual@) && final(store).files().contains_key(
                self.expected_path_spec(default_extension()),
            ) && default_decode(
                final(store).files()[self.expected_path_spec(default_extension())],
            ) is Some && b == (default_decode(
                final(store).files()[self.expected_path_spec(default_extension())],
            ) == Some(actual@)),
            r matches Ok(b) ==> (!old(store).files().contains_key(
                self.expected_path_spec(default_extension()),
            ) ==> final(store).files()[self.expected_path_spec(default_extension())]
                == default_encode(actual@) && (wf_view(actual@) && fits_codec_depth(actual@)
                ==> b)),
            r matches Ok(b) ==> (old(store).files().contains_key(
                self.expected_path_spec(default_extension()),
            ) ==> final(store).files()[self.expected_path_spec(default_extension())] == old(store).files()[self.expected_path_spec(default_extension())] && b == (default_decode(
                old(store).files()[self.expected_path_spec(default_extension())],
            ) == Some(actual@))),
            r matches Err(e) ==> (e is DeserializeExpected ==> final(store).files().contains_key(
                self.expected_path_spec(default_extension()),
            ) && default_decode(
                final(store).files()[self.expected_path_spec(default_extension())],
            ) is None),
            r matches Ok(b) ==> ((old(store).files().contains_key(
                self.expected_path_spec(default_extension()),
            ) && old(store).files()[self.expected_path_spec(default_extension())]
                == default_encode(actual@) && wf_view(actual@) && fits_codec_depth(actual@))
                ==> b),
    {
        proof {
            self.lemma_role_paths_differ(default_extension());
        }
        let ghost f0 = store.files();
        let ghost apath = self.actual_path_spec(default_extension());
        let ghost epath = self.expected_path_spec(default_extension());
        match self.verify_dirs(store) {
            Ok(_) => {},
            Err(e) => {
                return Err(e);
            },
        }
        match self.write_actual_serialized(store, actual) {
            Ok(_) => {},
            Err(e) => {
                proof {
                    assert(store.files().remove(apath).remove(epath) =~= f0.remove(apath).remove(
                        epath,
                    ));
                }
                return Err(e);
            },
        }
        let ghost f1 = store.files();
        let expected = match self.read_expected_serialized(store) {
            Ok(value) => value,
            Err(e) => {
                proof {
                    assert(store.files().remove(apath).remove(epath) =~= f1.remove(epath).remove(
                        apath,
                    ));
                    assert(f1.remove(epath).remove(apath) =~= f0.remove(apath).remove(epath));
                }
                return Err(e);
            },
        };
        proof {
            assert(store.files().remove(epath) == f1.remove(epath));
            assert(store.files().remove(epath).contains_key(apath) == f1.remove(
                epath,
            ).contains_key(apath));
            assert(store.files().remove(epath)[apath] == f1.remove(epath)[apath]);
            assert(f1.remove(epath).contains_key(apath) && f1.remove(epath)[apath]
                == default_encode(actual@));
            assert(store.files().contains_key(apath) && store.files()[apath] == default_encode(
                actual@,
            ));
            assert(store.files().remove(apath).remove(epath) =~= store.files().remove(
                epath,
            ).remove(apath));
            assert(store.files().remove(epath).remove(apath) == f1.remove(epath).remove(apath));
            assert(f1.remove(epath).remove(apath) =~= f0.remove(apath).remove(epath));
        }
        Ok(Diff::value(actual, &expected))
    }

    /// Compares a freshly produced sequence of values against the recorded
    /// baseline, element-wise: every mismatching index is reported before the
    /// single boolean comes back.  A missing baseline is bootstrapped as
    /// [`Expect::string`] does.
    pub fn values<S: ArtifactStore>(&self, store: &mut S, actual: &[Datum]) -> (r: Result<
        bool,
        ExpectError,
    >)
        ensures
            old(store).dirs().subset_of(final(store).dirs()),
            final(store).files().remove(self.actual_path_spec(default_extension())).remove(
                self.expected_path_spec(default_extension()),
            ) == old(store).files().remove(self.actual_path_spec(default_extension())).remove(
                self.expected_path_spec(default_extension()),
            ),
            (r matches Err(e) && e is ExpectDirNotFound) <==> !old(store).dirs().contains(
                self.module_dir_spec(),
            ),
            r matches Err(e) ==> e is ExpectDirNotFound || e is CreateSubDir || e is WriteActual
                || e is CopyActual || e is ReadExpected || e is DeserializeExpected,
            r matches Ok(b) ==> final(store).files().contains_key(
                self.actual_path_spec(default_extension()),
            ) && final(store).files()[self.actual_path_spec(default_extension())]
                == default_encode(DatumView::List(list_view(actual@))) && final(store).files().contains_key(self.expected_path_spec(default_extension())) && b == (
            default_decode(final(store).files()[self.expected_path_spec(default_extension())])
                == Some(DatumView::List(list_view(actual@)))),
            r matches Ok(b) ==> (!old(store).files().contains_key(
                self.expected_path_spec(default_extension()),
            ) ==> final(store).files()[self.expected_path_spec(default_extension())]
                == default_encode(DatumView::List(list_view(actual@))) && (wf_view(
                DatumView::List(list_view(actual@)),
            ) && fits_codec_depth(DatumView::List(list_view(actual@))) ==> b)),
            r matches Ok(b) ==> (old(store).files().contains_key(
                self.expected_path_spec(default_extension()),
            ) ==> final(store).files()[self.expected_path_spec(default_extension())] == old(store).files()[self.expected_path_spec(default_extension())] && b == (default_decode(
                old(store).files()[self.expected_path_spec(default_extension())],
            ) == Some(DatumView::List(list_view(actual@))))),
            r matches Err(e) ==> (e is DeserializeExpected ==> final(store).files().contains_key(
                self.expected_path_spec(default_extension()),
            ) && match default_decode(
                final(store).files()[self.expected_path_spec(default_extension())],
            ) {
                Some(v) => !(v is List),
                None => true,
            }),
            r matches Ok(b) ==> ((old(store).files().contains_key(
                self.expected_path_spec(default_extension()),
            ) && old(store).files()[self.expected_path_spec(default_extension())]
                == default_encode(DatumView::List(list_view(actual@))) && wf_view(
                DatumView::List(list_view(actual@)),
            ) && fits_codec_depth(DatumView::List(list_view(actual@)))) ==> b),
    {
        proof {
            self.lemma_role_paths_differ(default_extension());
        }
        let ghost f0 = store.files();
        let ghost apath = self.actual_path_spec(default_extension());
        let ghost epath = self.expected_path_spec(default_extension());
        let mut items: Vec<Datum> = Vec::new();
        let mut i: usize = 0;
        while i < actual.len()
            invariant
                i <= actual@.len(),
                items@.len() == i,
                forall|k: int| 0 <= k < i ==> (#[trigger] items@[k])@ == actual@[k]@,
            decreases actual@.len() - i,
        {
            let copy = actual[i].duplicate();
            items.push(copy);
            i = i + 1;
        }
        let wrapper = Datum::List(items);
        proof {
            broadcast use crate::datum::lemma_list_view_index;

            crate::datum::lemma_list_view_len(wrapper->List_0@);
            crate::datum::lemma_list_view_len(actual@);
            assert(list_view(wrapper->List_0@) =~= list_view(actual@));
        }
        match self.verify_dirs(store) {
            Ok(_) => {},
            Err(e) => {
                return Err(e);
            },
        }
        match self.write_actual_serialized(store, &wrapper) {
            Ok(_) => {},
            Err(e) => {
                proof {
                    assert(store.files().remove(apath).remove(epath) =~= f0.remove(apath).remove(
                        epath,
                    ));
                }
                return Err(e);
            },
        }
        let ghost f1 = store.files();
        let expected = match self.read_expected_serialized(store) {
            Ok(value) => value,
            Err(e) => {
                proof {
                    assert(store.files().remove(apath).remove(epath) =~= f1.remove(epath).remove(
                        apath,
                    ));
                    assert(f1.remove(epath).remove(apath) =~= f0.remove(apath).remove(epath));
                }
                return Err(e);
            },
        };
        proof {
            assert(store.files().remove(epath) == f1.remove(epath));
            assert(store.files().remove(epath).contains_key(apath) == f1.remove(
                epath,
            ).contains_key(apath));
            assert(store.files().remove(epath)[apath] == f1.remove(epath)[apath]);
            assert(f1.remove(epath).contains_key(apath) && f1.remove(epath)[apath]
                == default_encode(wrapper@));
            assert(store.files().contains_key(apath) && store.files()[apath] == default_encode(
                wrapper@,
            ));
            assert(store.files().remove(apath).remove(epath) =~= store.files().remove(
                epath,
            ).remove(apath));
            assert(store.files().remove(epath).remove(apath) == f1.remove(epath).remove(apath));
            assert(f1.remove(epath).remove(apath) =~= f0.remove(apath).remove(epath));
        }
        match expected {
            Datum::List(expected_items) => Ok(Diff::values(actual, expected_items.as_slice())),
            _ => Err(ExpectError::DeserializeExpected("expected a sequence of values".to_owned())),
        }
    }
}

} // verus!
