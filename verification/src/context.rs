use vstd::prelude::*;
use vstd::string::StrSliceExecFns;

verus! {

/// The identity of the currently executing test: its module path, its bare
/// name, and the source location of the call site that requested the
/// identity.  Immutable once constructed; artifact paths are a pure function
/// of it.
#[derive(Debug)]
pub struct TestContext {
    /// Module hierarchy of the current test, excluding the test name.
    pub module: Vec<String>,
    /// Name of the test excluding the module path.
    pub name: String,
    /// Path of the file containing the test, relative to the project root.
    pub file: String,
    /// Line number of the call site; recorded for diagnostics only.
    pub line: u32,
}

/// The name segments joined back together with the `::` separator.
pub open spec fn joined_segments(parts: Seq<Seq<char>>) -> Seq<char>
    decreases parts.len(),
{
    if parts.len() == 0 {
        Seq::empty()
    } else if parts.len() == 1 {
        parts[0]
    } else {
        parts[0] + seq![':', ':'] + joined_segments(parts.drop_first())
    }
}

/// Whether the two-character `::` separator occurs anywhere in `s`.
pub open spec fn has_separator(s: Seq<char>) -> bool {
    exists|k: int| 0 <= k && k + 1 < s.len() && #[trigger] s[k] == ':' && s[k + 1] == ':'
}

/// Whether `parts` is the split of `s` on the `::` separator, taking
/// separators leftmost-first: the parts joined with `::` give back `s`, no
/// part holds `::` itself, and no part before the last ends in `:` (such a
/// colon would have formed an earlier separator).
pub open spec fn is_name_split(s: Seq<char>, parts: Seq<Seq<char>>) -> bool {
    &&& parts.len() >= 1
    &&& joined_segments(parts) == s
    &&& forall|j: int| 0 <= j < parts.len() ==> !has_separator(#[trigger] parts[j])
    &&& forall|j: int|
        0 <= j < parts.len() - 1 ==> ((#[trigger] parts[j]).len() == 0 || parts[j].last() != ':')
}

/// Appending one more part to a join extends it with one separator.
proof fn lemma_joined_push(parts: Seq<Seq<char>>, part: Seq<char>)
    requires
        parts.len() >= 1,
    ensures
        joined_segments(parts.push(part)) == joined_segments(parts) + seq![':', ':'] + part,
    decreases parts.len(),
{
    if parts.len() == 1 {
        assert(parts.push(part).drop_first() =~= seq![part]);
        assert(parts.push(part).len() == 2);
        assert(parts.push(part)[0] == parts[0]);
        assert(seq![part].len() == 1);
        assert(joined_segments(seq![part]) == part);
        assert(joined_segments(parts.push(part)) == parts[0] + seq![':', ':'] + part);
        assert(joined_segments(parts) == parts[0]);
    } else {
        lemma_joined_push(parts.drop_first(), part);
        assert(parts.push(part).drop_first() =~= parts.drop_first().push(part));
        assert(joined_segments(parts) + seq![':', ':'] + part =~= parts[0] + seq![':', ':']
            + (joined_segments(parts.drop_first()) + seq![':', ':'] + part));
    }
}

/// Extending the trailing partial segment by one character extends the join
/// by that character.
proof fn lemma_joined_last_grows(parts: Seq<Seq<char>>, part: Seq<char>, c: char)
    ensures
        joined_segments(parts.push(part.push(c))) == joined_segments(parts.push(part)).push(c),
    decreases parts.len(),
{
    if parts.len() == 0 {
        assert(seq![part.push(c)] =~= Seq::<Seq<char>>::empty().push(part.push(c)));
        assert(seq![part] =~= Seq::<Seq<char>>::empty().push(part));
        assert(joined_segments(seq![part.push(c)]) == part.push(c));
        assert(joined_segments(seq![part]) == part);
    } else {
        lemma_joined_push(parts, part.push(c));
        lemma_joined_push(parts, part);
        assert(joined_segments(parts) + seq![':', ':'] + part.push(c) =~= (joined_segments(parts)
            + seq![':', ':'] + part).push(c));
    }
}

/// A split with several parts exposes its first separator: the head is a
/// prefix of the name, a separator follows it, and the remaining parts split
/// the remaining name.
proof fn lemma_split_head(s: Seq<char>, parts: Seq<Seq<char>>)
    requires
        is_name_split(s, parts),
        parts.len() >= 2,
    ensures
        parts[0].len() + 2 <= s.len(),
        parts[0] == s.subrange(0, parts[0].len() as int),
        s[parts[0].len() as int] == ':',
        s[parts[0].len() as int + 1] == ':',
        is_name_split(s.subrange(parts[0].len() as int + 2, s.len() as int), parts.drop_first()),
{
    let head = parts[0];
    let rest = joined_segments(parts.drop_first());
    assert(s == head + seq![':', ':'] + rest);
    assert(head =~= s.subrange(0, head.len() as int));
    assert(s[head.len() as int] == ':');
    assert(s[head.len() as int + 1] == ':');
    assert(rest =~= s.subrange(head.len() as int + 2, s.len() as int));
    assert forall|j: int| 0 <= j < parts.drop_first().len() implies !has_separator(
        #[trigger] parts.drop_first()[j],
    ) by {
        assert(parts.drop_first()[j] == parts[j + 1]);
    }
    assert forall|j: int| 0 <= j < parts.drop_first().len() - 1 implies ((#[trigger] parts.drop_first()[j]).len()
        == 0 || parts.drop_first()[j].last() != ':') by {
        assert(parts.drop_first()[j] == parts[j + 1]);
    }
}

/// The three split conditions admit one decomposition only: the leftmost-first
/// split is pinned down.
pub proof fn lemma_name_split_unique(s: Seq<char>, first: Seq<Seq<char>>, second: Seq<Seq<char>>)
    requires
        is_name_split(s, first),
        is_name_split(s, second),
    ensures
        first == second,
    decreases first.len(),
{
    if first.len() == 1 && second.len() == 1 {
        assert(first[0] == s && second[0] == s);
        assert(first =~= second);
    } else if first.len() == 1 {
        lemma_split_head(s, second);
        let k = second[0].len() as int;
        assert(first[0] == s);
        assert(0 <= k && k + 1 < s.len() && s[k] == ':' && s[k + 1] == ':');
        assert(has_separator(first[0]));
        assert(false);
    } else if second.len() == 1 {
        lemma_split_head(s, first);
        let k = first[0].len() as int;
        assert(second[0] == s);
        assert(0 <= k && k + 1 < s.len() && s[k] == ':' && s[k + 1] == ':');
        assert(has_separator(second[0]));
        assert(false);
    } else {
        lemma_split_head(s, first);
        lemma_split_head(s, second);
        lemma_equal_heads(s, first, second);
        lemma_equal_heads(s, second, first);
        assert(first[0].len() == second[0].len());
        assert(first[0] == second[0]);
        let suffix = s.subrange(first[0].len() as int + 2, s.len() as int);
        lemma_name_split_unique(suffix, first.drop_first(), second.drop_first());
        assert(first =~= second) by {
            assert forall|j: int| 0 <= j < first.len() implies first[j] == second[j] by {
                if j > 0 {
                    assert(first.drop_first()[j - 1] == first[j]);
                    assert(second.drop_first()[j - 1] == second[j]);
                }
            }
        }
    }
}

/// The head of one multi-part split cannot be shorter than another's: the
/// separator after the shorter head would stand inside, or at the tail of,
/// the longer head.
proof fn lemma_equal_heads(s: Seq<char>, first: Seq<Seq<char>>, second: Seq<Seq<char>>)
    requires
        is_name_split(s, first),
        is_name_split(s, second),
        first.len() >= 2,
        second.len() >= 2,
    ensures
        first[0].len() >= second[0].len(),
{
    lemma_split_head(s, first);
    lemma_split_head(s, second);
    let l1 = first[0].len() as int;
    let l2 = second[0].len() as int;
    if l1 < l2 {
        if l2 >= l1 + 2 {
            // The separator after the first head sits inside the second head.
            assert(second[0][l1] == s[l1]);
            assert(second[0][l1 + 1] == s[l1 + 1]);
            assert(has_separator(second[0]));
            assert(false);
        } else {
            // The second head ends exactly on the first colon of the first
            // head's separator, which a non-last part may not.
            assert(l2 == l1 + 1);
            assert(second[0].last() == s[l1]);
            assert(second[0].len() != 0 && second[0].last() == ':');
            assert(false);
        }
    }
}

impl TestContext {
    /// The module segments and the test name, in order, as one sequence.
    pub open spec fn segments(&self) -> Seq<Seq<char>> {
        self.module@.map_values(|m: String| m@).push(self.name@)
    }

    /// Derives a [`TestContext`] from the segmented name of the currently
    /// executing test, as supplied by the host test runner, and the source
    /// location of the call site.  The name is split on `::`; all segments
    /// but the last become the module path and the last becomes the test
    /// name.
    pub fn new(test_name: &str, file: &str, line: u32) -> (ctx: TestContext)
        ensures
            is_name_split(test_name@, ctx.segments()),
            ctx.file@ == file@,
            ctx.line == line,
    {
        let ghost s = test_name@;
        let n = test_name.unicode_len();
        let mut parts: Vec<String> = Vec::new();
        let mut start: usize = 0;
        let mut i: usize = 0;
        while i < n
            invariant
                n == s.len(),
                test_name@ == s,
                start <= i <= n,
                joined_segments(
                    parts@.map_values(|p: String| p@).push(s.subrange(start as int, i as int)),
                ) == s.subrange(0, i as int),
                forall|j: int| 0 <= j < parts@.len() ==> !has_separator((#[trigger] parts@[j])@),
                forall|j: int|
                    0 <= j < parts@.len() ==> ((#[trigger] parts@[j])@.len() == 0 || parts@[j]@.last()
                        != ':'),
                forall|k: int| start <= k < i && k + 1 < n ==> !(s[k] == ':' && #[trigger] s[k + 1]
                    == ':'),
            decreases n - i,
        {
            if i + 1 < n && test_name.get_char(i) == ':' && test_name.get_char(i + 1) == ':' {
                let ghost old_parts = parts@.map_values(|p: String| p@);
                let ghost part = s.subrange(start as int, i as int);
                let piece = test_name.substring_char(start, i).to_owned();
                parts.push(piece);
                proof {
                    assert(parts@.map_values(|p: String| p@) =~= old_parts.push(part));
                    // The freshly pushed part holds no separator and does not
                    // end in a colon, by the scan invariant.
                    assert(!has_separator(part)) by {
                        assert forall|k: int|
                            0 <= k && k + 1 < part.len() implies !(#[trigger] part[k] == ':'
                            && part[k + 1] == ':') by {
                            assert(part[k] == s[start as int + k]);
                            assert(part[k + 1] == s[start as int + k + 1]);
                        }
                    }
                    if part.len() > 0 {
                        assert(part.last() == s[i as int - 1]);
                        let k: int = i as int - 1;
                        assert(start <= k < i && k + 1 < n);
                        assert(!(s[k] == ':' && s[k + 1] == ':'));
                        assert(part.last() != ':');
                    }
                    // Joining with the new, empty partial segment extends the
                    // covered prefix over the separator just consumed.
                    lemma_joined_push(old_parts.push(part), s.subrange(i as int + 2, i as int + 2));
                    assert(old_parts.push(part).push(s.subrange(i as int + 2, i as int + 2))
                        =~= parts@.map_values(|p: String| p@).push(
                        s.subrange(i as int + 2, i as int + 2),
                    ));
                    assert(joined_segments(old_parts.push(part)) + seq![':', ':'] + s.subrange(
                        i as int + 2,
                        i as int + 2,
                    ) =~= s.subrange(0, i as int + 2));
                }
                i = i + 2;
                start = i;
            } else {
                proof {
                    assert(s.subrange(start as int, i as int + 1) =~= s.subrange(
                        start as int,
                        i as int,
                    ).push(s[i as int]));
                    assert(s.subrange(0, i as int + 1) =~= s.subrange(0, i as int).push(
                        s[i as int],
                    ));
                    lemma_joined_last_grows(
                        parts@.map_values(|p: String| p@),
                        s.subrange(start as int, i as int),
                        s[i as int],
                    );
                }
                i = i + 1;
            }
        }
        let last = test_name.substring_char(start, n).to_owned();
        let ghost pre_parts = parts@;
        let ghost last_part = s.subrange(start as int, n as int);
        parts.push(last);
        proof {
            assert(!has_separator(last_part)) by {
                assert forall|k: int|
                    0 <= k && k + 1 < last_part.len() implies !(#[trigger] last_part[k] == ':'
                    && last_part[k + 1] == ':') by {
                    assert(last_part[k] == s[start as int + k]);
                    assert(last_part[k + 1] == s[start as int + k + 1]);
                }
            }
            assert(parts@.map_values(|p: String| p@) =~= pre_parts.map_values(
                |p: String| p@,
            ).push(last_part));
            assert(s.subrange(0, n as int) =~= s);
        }
        let ghost all_parts = parts@;
        let name = parts.pop().unwrap();
        let ctx = TestContext { module: parts, name, file: file.to_owned(), line };
        proof {
            assert(ctx.segments() =~= all_parts.map_values(|p: String| p@));
            let segs = ctx.segments();
            assert(joined_segments(segs) == s);
            assert forall|j: int| 0 <= j < segs.len() implies !has_separator(
                #[trigger] segs[j],
            ) by {
                if j < segs.len() - 1 {
                    assert(segs[j] == pre_parts[j]@);
                } else {
                    assert(segs[j] == last_part);
                }
            }
            assert forall|j: int| 0 <= j < segs.len() - 1 implies ((#[trigger] segs[j]).len() == 0
                || segs[j].last() != ':') by {
                assert(segs[j] == pre_parts[j]@);
            }
        }
        ctx
    }
}

} // verus!

