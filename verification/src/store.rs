use vstd::prelude::*;
use vstd::string::StringExecFns;

verus! {

/// The byte sink/source the engine reads artifacts from and writes them to,
/// modelled as a set of directory paths and a map from file path to readable
/// text content.  The engine is verified against this model; an
/// implementation over a real file system is the host integration's
/// obligation, and [`MemStore`] is a verified in-memory implementation.
///
/// The model assumes no outside interference: within one call, two reads of
/// the same path agree.  Artifact paths of distinct tests are disjoint, so
/// this holds under the intended one-store-per-run usage.
pub trait ArtifactStore: Sized {
    /// The directories that exist.  An implementation outside the verified
    /// library leaves the default, an empty model: nothing is proved through
    /// such a store.
    open spec fn dirs(&self) -> Set<Seq<char>> {
        Set::empty()
    }

    /// The readable files and their text content.  An implementation outside
    /// the verified library leaves the default, an empty model.
    open spec fn files(&self) -> Map<Seq<char>, Seq<char>> {
        Map::empty()
    }

    /// Whether a directory exists at `path`.
    fn dir_exists(&self, path: &str) -> (r: bool)
        ensures
            r == self.dirs().contains(path@),
    ;

    /// Whether a readable file exists at `path`.
    fn file_exists(&self, path: &str) -> (r: bool)
        ensures
            r == self.files().contains_key(path@),
    ;

    /// Creates the directory at `path`, with any missing parents.  On
    /// failure some parents may have been created already; files are never
    /// touched.
    fn create_dir_all(&mut self, path: &str) -> (r: Result<(), String>)
        ensures
            final(self).files() == old(self).files(),
            old(self).dirs().subset_of(final(self).dirs()),
            r is Ok ==> final(self).dirs().contains(path@),
    ;

    /// Creates or truncates the file at `path` and writes `content` to it,
    /// flushed.  On failure only the file at `path` may have been disturbed.
    fn write_file(&mut self, path: &str, content: &str) -> (r: Result<(), String>)
        ensures
            final(self).dirs() == old(self).dirs(),
            r is Ok ==> final(self).files() == old(self).files().insert(path@, content@),
            r is Err ==> final(self).files().remove(path@) == old(self).files().remove(path@),
    ;

    /// Copies the file at `from` to `to`.  On failure only the file at `to`
    /// may have been disturbed.
    fn copy_file(&mut self, from: &str, to: &str) -> (r: Result<(), String>)
        ensures
            final(self).dirs() == old(self).dirs(),
            r is Ok ==> old(self).files().contains_key(from@) && final(self).files()
                == old(self).files().insert(to@, old(self).files()[from@]),
            r is Err ==> final(self).files().remove(to@) == old(self).files().remove(to@),
    ;

    /// Reads the whole file at `path` as text.
    fn read_file(&self, path: &str) -> (r: Result<String, String>)
        ensures
            r matches Ok(c) ==> self.files().contains_key(path@) && c@ == self.files()[path@],
            r is Err ==> !self.files().contains_key(path@),
    ;
}

/// Whether the two strings hold the same characters.
pub fn str_eq(a: &str, b: &str) -> (r: bool)
    ensures
        r == (a@ == b@),
{
    let owned_a = a.to_owned();
    let owned_b = b.to_owned();
    owned_a.eq(&owned_b)
}

/// The set of paths named in `s`.
pub open spec fn dirs_set(s: Seq<String>) -> Set<Seq<char>> {
    Set::new(|p: Seq<char>| exists|j: int| 0 <= j < s.len() && (#[trigger] s[j])@ == p)
}

/// The path-to-content map described by `s`, later entries winning.
pub open spec fn files_map(s: Seq<(String, String)>) -> Map<Seq<char>, Seq<char>>
    decreases s.len(),
{
    if s.len() == 0 {
        Map::empty()
    } else {
        files_map(s.drop_last()).insert(s.last().0@, s.last().1@)
    }
}

/// A path is in the map exactly when some entry names it.
proof fn lemma_files_map_contains(s: Seq<(String, String)>, p: Seq<char>)
    ensures
        files_map(s).contains_key(p) <==> exists|j: int|
            0 <= j < s.len() && (#[trigger] s[j]).0@ == p,
    decreases s.len(),
{
    if s.len() > 0 {
        lemma_files_map_contains(s.drop_last(), p);
        if s.last().0@ == p {
            assert(s[s.len() - 1].0@ == p);
        } else if files_map(s).contains_key(p) {
            let j = choose|j: int| 0 <= j < s.drop_last().len() && (#[trigger] s.drop_last()[j]).0@
                == p;
            assert(s[j].0@ == p);
        } else {
            assert forall|j: int| 0 <= j < s.len() implies (#[trigger] s[j]).0@ != p by {
                if j < s.len() - 1 {
                    assert(s.drop_last()[j] == s[j]);
                }
            }
        }
    }
}

/// The map's content at a path is the content of the last entry naming it.
proof fn lemma_files_map_last_match(s: Seq<(String, String)>, p: Seq<char>, i: int)
    requires
        0 <= i < s.len(),
        s[i].0@ == p,
        forall|j: int| i < j < s.len() ==> (#[trigger] s[j]).0@ != p,
    ensures
        files_map(s).contains_key(p),
        files_map(s)[p] == s[i].1@,
    decreases s.len(),
{
    if i == s.len() - 1 {
        assert(s.last() == s[i]);
    } else {
        assert(s.last().0@ != p);
        assert(s.drop_last()[i] == s[i]);
        assert forall|j: int| i < j < s.drop_last().len() implies (#[trigger] s.drop_last()[j]).0@
            != p by {
            assert(s.drop_last()[j] == s[j]);
        }
        lemma_files_map_last_match(s.drop_last(), p, i);
    }
}

/// A verified in-memory artifact store, useful for exercising the engine
/// hermetically.
pub struct MemStore {
    dir_names: Vec<String>,
    file_entries: Vec<(String, String)>,
}

impl MemStore {
    /// An empty store: no directories, no files.
    pub fn new() -> (r: MemStore)
        ensures
            r.dirs() == Set::<Seq<char>>::empty(),
            r.files() == Map::<Seq<char>, Seq<char>>::empty(),
    {
        let r = MemStore { dir_names: Vec::new(), file_entries: Vec::new() };
        proof {
            assert(r.dirs() =~= Set::<Seq<char>>::empty());
            assert(r.files() =~= Map::<Seq<char>, Seq<char>>::empty());
        }
        r
    }

    /// The index of the last entry for `path`, if any.
    fn find_last(&self, path: &str) -> (r: Option<usize>)
        ensures
            match r {
                Some(i) => i < self.file_entries@.len() && self.file_entries@[i as int].0@ == path@
                    && self.files().contains_key(path@) && self.files()[path@]
                    == self.file_entries@[i as int].1@,
                None => !self.files().contains_key(path@),
            },
    {
        let n = self.file_entries.len();
        let mut i: usize = n;
        while i > 0
            invariant
                i <= n == self.file_entries@.len(),
                forall|j: int|
                    i <= j < n ==> (#[trigger] self.file_entries@[j]).0@ != path@,
            decreases i,
        {
            i = i - 1;
            if str_eq(self.file_entries[i].0.as_str(), path) {
                proof {
                    lemma_files_map_last_match(self.file_entries@, path@, i as int);
                }
                return Some(i);
            }
        }
        proof {
            lemma_files_map_contains(self.file_entries@, path@);
        }
        None
    }
}

impl ArtifactStore for MemStore {
    closed spec fn dirs(&self) -> Set<Seq<char>> {
        dirs_set(self.dir_names@)
    }

    closed spec fn files(&self) -> Map<Seq<char>, Seq<char>> {
        files_map(self.file_entries@)
    }

    fn dir_exists(&self, path: &str) -> (r: bool)
        ensures
            r == self.dirs().contains(path@),
    {
        let n = self.dir_names.len();
        let mut i: usize = 0;
        while i < n
            invariant
                i <= n == self.dir_names@.len(),
                forall|j: int| 0 <= j < i ==> (#[trigger] self.dir_names@[j])@ != path@,
            decreases n - i,
        {
            if str_eq(self.dir_names[i].as_str(), path) {
                return true;
            }
            i = i + 1;
        }
        false
    }

    fn file_exists(&self, path: &str) -> (r: bool)
        ensures
            r == self.files().contains_key(path@),
    {
        self.find_last(path).is_some()
    }

    fn create_dir_all(&mut self, path: &str) -> (r: Result<(), String>)
        ensures
            final(self).files() == old(self).files(),
            old(self).dirs().subset_of(final(self).dirs()),
            r is Ok ==> final(self).dirs().contains(path@),
            // The in-memory store never fails to create a directory.
            r is Ok,
    {
        let ghost old_names = self.dir_names@;
        self.dir_names.push(path.to_owned());
        proof {
            assert forall|p: Seq<char>| old(self).dirs().contains(p) implies final(self).dirs().contains(p) by {
                let j = choose|j: int| 0 <= j < old_names.len() && (#[trigger] old_names[j])@ == p;
                assert(self.dir_names@[j]@ == p);
            }
            assert(self.dir_names@[old_names.len() as int]@ == path@);
        }
        Ok(())
    }

    fn write_file(&mut self, path: &str, content: &str) -> (r: Result<(), String>)
        ensures
            final(self).dirs() == old(self).dirs(),
            r is Ok ==> final(self).files() == old(self).files().insert(path@, content@),
            r is Err ==> final(self).files().remove(path@) == old(self).files().remove(path@),
            // The in-memory store never fails to write.
            r is Ok,
    {
        let ghost old_entries = self.file_entries@;
        self.file_entries.push((path.to_owned(), content.to_owned()));
        proof {
            assert(self.file_entries@.drop_last() =~= old_entries);
            assert(self.file_entries@.last().0@ == path@);
            assert(self.file_entries@.last().1@ == content@);
        }
        Ok(())
    }

    fn copy_file(&mut self, from: &str, to: &str) -> (r: Result<(), String>)
        ensures
            final(self).dirs() == old(self).dirs(),
            r is Ok ==> old(self).files().contains_key(from@) && final(self).files()
                == old(self).files().insert(to@, old(self).files()[from@]),
            r is Err ==> final(self).files().remove(to@) == old(self).files().remove(to@),
            // The in-memory copy succeeds exactly when the source exists.
            r is Ok <==> old(self).files().contains_key(from@),
    {
        match self.read_file(from) {
            Ok(content) => self.write_file(to, content.as_str()),
            Err(e) => Err(e),
        }
    }

    fn read_file(&self, path: &str) -> (r: Result<String, String>)
        ensures
            r matches Ok(c) ==> self.files().contains_key(path@) && c@ == self.files()[path@],
            r is Err ==> !self.files().contains_key(path@),
            // The in-memory read succeeds exactly when the file exists.
            r is Ok <==> self.files().contains_key(path@),
    {
        match self.find_last(path) {
            Some(i) => Ok(self.file_entries[i].1.clone()),
            None => Err("no readable file at this path".to_owned()),
        }
    }
}

} // verus!
