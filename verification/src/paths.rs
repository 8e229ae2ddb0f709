use vstd::prelude::*;
use vstd::string::{StringExecFns, StrSliceExecFns};
use crate::error::ExpectError;
use crate::expect::Expect;
use crate::store::ArtifactStore;

verus! {

/// The fixed name of the top-level expect directory beside a source file.
pub open spec fn expect_dir_name() -> Seq<char> {
    ".expect"@
}

/// The role label of a freshly produced artifact.
pub open spec fn actual_role() -> Seq<char> {
    "actual"@
}

/// The role label of a recorded baseline artifact.
pub open spec fn expect_role() -> Seq<char> {
    "expect"@
}

/// The index of the last occurrence of `c` in `s`, or `-1` if there is none.
pub open spec fn last_occurrence(s: Seq<char>, c: char) -> int
    decreases s.len(),
{
    if s.len() == 0 {
        -1
    } else if s.last() == c {
        s.len() - 1
    } else {
        last_occurrence(s.drop_last(), c)
    }
}

/// The directory part of a path: everything before the last `/`, empty when
/// the path has no `/`.
pub open spec fn parent_dir(p: Seq<char>) -> Seq<char> {
    if last_occurrence(p, '/') < 0 {
        Seq::empty()
    } else {
        p.subrange(0, last_occurrence(p, '/'))
    }
}

/// The file-name part of a path: everything after the last `/`.
pub open spec fn base_name(p: Seq<char>) -> Seq<char> {
    p.subrange(last_occurrence(p, '/') + 1, p.len() as int)
}

/// A file name without its extension: everything before the last `.`, or the
/// whole name when the only `.` is the leading character or there is none.
pub open spec fn stem_of(name: Seq<char>) -> Seq<char> {
    if last_occurrence(name, '.') <= 0 {
        name
    } else {
        name.subrange(0, last_occurrence(name, '.'))
    }
}

/// `dir` and `name` joined with a `/`; joining to an empty directory gives
/// the bare name.
pub open spec fn join_path(dir: Seq<char>, name: Seq<char>) -> Seq<char> {
    if dir.len() == 0 {
        name
    } else {
        dir + "/"@ + name
    }
}

/// The index of the last occurrence of `c`, if any.
fn rfind_char(s: &str, c: char) -> (r: Option<usize>)
    ensures
        match r {
            Some(i) => i < s@.len() && last_occurrence(s@, c) == i as int,
            None => last_occurrence(s@, c) == -1,
        },
{
    let n = s.unicode_len();
    proof {
        assert(s@.subrange(0, n as int) =~= s@);
    }
    let mut i: usize = n;
    while i > 0
        invariant
            i <= n == s@.len(),
            last_occurrence(s@, c) == last_occurrence(s@.subrange(0, i as int), c),
        decreases i,
    {
        i = i - 1;
        proof {
            assert(s@.subrange(0, i as int + 1).drop_last() =~= s@.subrange(0, i as int));
            assert(s@.subrange(0, i as int + 1).last() == s@[i as int]);
        }
        if s.get_char(i) == c {
            return Some(i);
        }
    }
    proof {
        assert(s@.subrange(0, 0) =~= Seq::<char>::empty());
    }
    None
}

/// The directory part of a path, as [`parent_dir`] gives it.
fn parent_dir_of(path: &str) -> (r: String)
    ensures
        r@ == parent_dir(path@),
{
    match rfind_char(path, '/') {
        Some(i) => path.substring_char(0, i).to_owned(),
        None => String::new(),
    }
}

/// The file-name part of a path, as [`base_name`] gives it.
fn base_name_of(path: &str) -> (r: String)
    ensures
        r@ == base_name(path@),
{
    let n = path.unicode_len();
    match rfind_char(path, '/') {
        Some(i) => path.substring_char(i + 1, n).to_owned(),
        None => path.to_owned(),
    }
}

/// A file name without its extension, as [`stem_of`] gives it.
fn stem_of_name(name: &str) -> (r: String)
    ensures
        r@ == stem_of(name@),
{
    match rfind_char(name, '.') {
        Some(i) => {
            if i == 0 {
                name.to_owned()
            } else {
                name.substring_char(0, i).to_owned()
            }
        },
        None => name.to_owned(),
    }
}

impl Expect {
    /// The expect directory for the module owning the test's source file:
    /// the file's directory joined with `.expect`.
    pub open spec fn module_dir_spec(&self) -> Seq<char> {
        join_path(parent_dir(self.test.file@), expect_dir_name())
    }

    /// The results directory for the test's source file: the module's expect
    /// directory joined with the source file's stem.
    pub open spec fn test_dir_spec(&self) -> Seq<char> {
        self.module_dir_spec() + "/"@ + stem_of(base_name(self.test.file@))
    }

    /// A results file for this test: `<test name>.<extension>` inside the
    /// test's results directory.
    pub open spec fn test_file_spec(&self, extension: Seq<char>) -> Seq<char> {
        self.test_dir_spec() + "/"@ + self.test.name@ + "."@ + extension
    }

    /// The path of the freshly produced results of this test.
    pub open spec fn actual_path_spec(&self, extension: Seq<char>) -> Seq<char> {
        self.test_file_spec(actual_role() + "."@ + extension)
    }

    /// The path of the recorded baseline of this test.
    pub open spec fn expected_path_spec(&self, extension: Seq<char>) -> Seq<char> {
        self.test_file_spec(expect_role() + "."@ + extension)
    }

    /// The expect directory path for the module.
    ///
    /// Example: `src/path/to/module/.expect`
    pub fn get_module_dir(&self) -> (r: String)
        ensures
            r@ == self.module_dir_spec(),
    {
        let parent = parent_dir_of(self.test.file.as_str());
        if parent.as_str().is_empty() {
            ".expect".to_owned()
        } else {
            parent.concat("/").concat(".expect")
        }
    }

    /// The expect directory path for the current test.
    ///
    /// Example: `src/path/to/module/.expect/module`
    pub fn get_test_dir(&self) -> (r: String)
        ensures
            r@ == self.test_dir_spec(),
    {
        let name = base_name_of(self.test.file.as_str());
        let stem = stem_of_name(name.as_str());
        self.get_module_dir().concat("/").concat(stem.as_str())
    }

    /// The path of a results file for the current test.
    pub fn get_test_file(&self, extension: &str) -> (r: String)
        ensures
            r@ == self.test_file_spec(extension@),
    {
        self.get_test_dir().concat("/").concat(self.test.name.as_str()).concat(".").concat(
            extension,
        )
    }

    /// The path of the actual test results.
    pub fn get_actual_path(&self, extension: &str) -> (r: String)
        ensures
            r@ == self.actual_path_spec(extension@),
    {
        let role: String = "actual".to_owned();
        self.get_test_file(role.concat(".").concat(extension).as_str())
    }

    /// The path of the expected test results.
    pub fn get_expected_path(&self, extension: &str) -> (r: String)
        ensures
            r@ == self.expected_path_spec(extension@),
    {
        let role: String = "expect".to_owned();
        self.get_test_file(role.concat(".").concat(extension).as_str())
    }

    /// The actual and expected paths of one test never coincide: the role
    /// labels differ in their first character.
    pub proof fn lemma_role_paths_differ(&self, extension: Seq<char>)
        ensures
            self.actual_path_spec(extension) != self.expected_path_spec(extension),
    {
        reveal_strlit("actual");
        reveal_strlit("expect");
        let prefix = self.test_dir_spec() + "/"@ + self.test.name@ + "."@;
        let a = self.actual_path_spec(extension);
        let x = self.expected_path_spec(extension);
        assert(a[prefix.len() as int] == (actual_role() + "."@ + extension)[0]);
        assert(x[prefix.len() as int] == (expect_role() + "."@ + extension)[0]);
        assert((actual_role() + "."@ + extension)[0] == 'a');
        assert((expect_role() + "."@ + extension)[0] == 'e');
    }

    /// Path determinism: artifact paths are a pure function of the test's
    /// module, name and source file — two instances bound to the same
    /// identity resolve the same pair of paths, whatever else differs.
    pub proof fn lemma_path_determinism(&self, other: &Expect, extension: Seq<char>)
        requires
            self.test.file@ == other.test.file@,
            self.test.name@ == other.test.name@,
        ensures
            self.actual_path_spec(extension) == other.actual_path_spec(extension),
            self.expected_path_spec(extension) == other.expected_path_spec(extension),
    {
    }

    /// Checks that the module's expect directory exists — its absence is a
    /// hard configuration error, never silently repaired — and lazily creates
    /// the per-test results directory under it.
    pub fn verify_dirs<S: ArtifactStore>(&self, store: &mut S) -> (r: Result<(), ExpectError>)
        ensures
            final(store).files() == old(store).files(),
            old(store).dirs().subset_of(final(store).dirs()),
            r is Ok ==> final(store).dirs().contains(self.test_dir_spec()) && old(store).dirs().contains(self.module_dir_spec()),
            (r matches Err(e) && e is ExpectDirNotFound) <==> !old(store).dirs().contains(
                self.module_dir_spec(),
            ),
            r matches Err(e) ==> (e is ExpectDirNotFound ==> e->ExpectDirNotFound_0@
                == self.module_dir_spec() && final(store).dirs() == old(store).dirs()),
            r matches Err(e) ==> (e is CreateSubDir ==> e->CreateSubDir_1@
                == self.test_dir_spec()),
            r matches Err(e) ==> e is ExpectDirNotFound || e is CreateSubDir,
            old(store).dirs().contains(self.module_dir_spec()) && old(store).dirs().contains(
                self.test_dir_spec(),
            ) ==> r is Ok,
    {
        let module_dir = self.get_module_dir();
        if !store.dir_exists(module_dir.as_str()) {
            return Err(ExpectError::ExpectDirNotFound(module_dir));
        }
        let test_dir = self.get_test_dir();
        if !store.dir_exists(test_dir.as_str()) {
            match store.create_dir_all(test_dir.as_str()) {
                Ok(_) => Ok(()),
                Err(cause) => Err(ExpectError::CreateSubDir(cause, test_dir)),
            }
        } else {
            Ok(())
        }
    }
}

} // verus!
