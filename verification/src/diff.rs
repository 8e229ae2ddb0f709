use vstd::prelude::*;
use std::io::Write;
use colored::Colorize;
use crate::datum::{list_view, Datum, DatumView};
use crate::serialization::{default_encode, DefaultSerializer, Serializer, SerializerExtensions};
use crate::store::str_eq;

verus! {

/// Prints freshly produced (rejected) output, highlighted as the negative
/// side.  Relies on colored::Colorize::red and the standard output stream;
/// rendering is outside the verified behaviour.
#[verifier::external_body]
fn print_actual(text: &str) {
    let _ = writeln!(std::io::stdout(), "{}", text.red());
}

/// Prints recorded baseline output, highlighted as the accepted side.
/// Relies on colored::Colorize::green and the standard output stream;
/// rendering is outside the verified behaviour.
#[verifier::external_body]
fn print_expected(text: &str) {
    let _ = writeln!(std::io::stdout(), "{}", text.green());
}

/// Prints the index a sequence mismatch was found at.  Relies on the
/// standard output stream; rendering is outside the verified behaviour.
#[verifier::external_body]
fn print_index(index: usize) {
    let _ = writeln!(std::io::stdout(), "Index {}", index);
}

/// Renders a value for a report through the configured serializer.
pub fn display_value(value: &Datum) -> (r: String)
    ensures
        r@ == default_encode(value@),
{
    let serializer = DefaultSerializer::get();
    serializer.serialize_to_string(value)
}

/// What went wrong at one index of a sequence comparison.
#[derive(Debug, Clone, Copy, PartialEq, Eq, Structural)]
pub enum SeqMismatch {
    /// The index is past the end of the actual sequence.
    MissingOnActual,
    /// The index is past the end of the expected sequence.
    MissingOnExpected,
    /// Both sides have an element there and the elements differ.
    Unequal,
}

/// Whether index `i` is sound on both sides and the elements there agree.
pub open spec fn slot_matches(a: Seq<DatumView>, e: Seq<DatumView>, i: int) -> bool {
    i < a.len() && i < e.len() && a[i] == e[i]
}

/// The mismatch report over indices `0 .. n`, in index order: one row per
/// mismatching index, none for an agreeing one.  All mismatches are
/// accumulated, not just the first.
pub open spec fn diff_report(a: Seq<DatumView>, e: Seq<DatumView>, n: int) -> Seq<(
    int,
    SeqMismatch,
)>
    decreases n,
{
    if n <= 0 {
        Seq::empty()
    } else {
        let prefix = diff_report(a, e, n - 1);
        let i = n - 1;
        if i >= a.len() && i < e.len() {
            prefix.push((i, SeqMismatch::MissingOnActual))
        } else if i >= e.len() && i < a.len() {
            prefix.push((i, SeqMismatch::MissingOnExpected))
        } else if i < a.len() && i < e.len() && a[i] != e[i] {
            prefix.push((i, SeqMismatch::Unequal))
        } else {
            prefix
        }
    }
}

/// Whether the report holds a row for index `i` with the given kind.
pub open spec fn reported(rep: Seq<(int, SeqMismatch)>, i: int, kind: SeqMismatch) -> bool {
    exists|j: int| 0 <= j < rep.len() && #[trigger] rep[j] == (i, kind)
}

/// A pushed row is reported beside what was reported before.
proof fn lemma_reported_push(rep: Seq<(int, SeqMismatch)>, x: (int, SeqMismatch), i: int, kind: SeqMismatch)
    ensures
        reported(rep.push(x), i, kind) <==> (reported(rep, i, kind) || x == (i, kind)),
{
    if reported(rep, i, kind) {
        let j = choose|j: int| 0 <= j < rep.len() && #[trigger] rep[j] == (i, kind);
        assert(rep.push(x)[j] == (i, kind));
    }
    if x == (i, kind) {
        assert(rep.push(x)[rep.len() as int] == (i, kind));
    }
    if reported(rep.push(x), i, kind) {
        let j = choose|j: int| 0 <= j < rep.push(x).len() && #[trigger] rep.push(x)[j] == (i, kind);
        if j < rep.len() {
            assert(rep[j] == (i, kind));
        }
    }
}

/// An index is reported missing on the actual side exactly when the actual
/// sequence ends before it and the expected sequence reaches it.  With
/// `actual` shorter by `k`, exactly the last `k` indices are so reported;
/// symmetrically for an actual sequence that is longer.
pub proof fn lemma_reported_missing(a: Seq<DatumView>, e: Seq<DatumView>, n: int, i: int)
    ensures
        reported(diff_report(a, e, n), i, SeqMismatch::MissingOnActual) <==> (a.len() <= i
            < e.len() && i < n),
        reported(diff_report(a, e, n), i, SeqMismatch::MissingOnExpected) <==> (e.len() <= i
            < a.len() && i < n),
    decreases n,
{
    if n <= 0 {
    } else {
        lemma_reported_missing(a, e, n - 1, i);
        let prefix = diff_report(a, e, n - 1);
        let last = n - 1;
        if last >= a.len() && last < e.len() {
            lemma_reported_push(prefix, (last, SeqMismatch::MissingOnActual), i, SeqMismatch::MissingOnActual);
            lemma_reported_push(prefix, (last, SeqMismatch::MissingOnActual), i, SeqMismatch::MissingOnExpected);
        } else if last >= e.len() && last < a.len() {
            lemma_reported_push(prefix, (last, SeqMismatch::MissingOnExpected), i, SeqMismatch::MissingOnActual);
            lemma_reported_push(prefix, (last, SeqMismatch::MissingOnExpected), i, SeqMismatch::MissingOnExpected);
        } else if last < a.len() && last < e.len() && a[last] != e[last] {
            lemma_reported_push(prefix, (last, SeqMismatch::Unequal), i, SeqMismatch::MissingOnActual);
            lemma_reported_push(prefix, (last, SeqMismatch::Unequal), i, SeqMismatch::MissingOnExpected);
        }
    }
}

/// An index is reported unequal exactly when both sides reach it and differ
/// there; index order and one-row-per-index follow from the report's shape.
pub proof fn lemma_reported_unequal(a: Seq<DatumView>, e: Seq<DatumView>, n: int, i: int)
    ensures
        reported(diff_report(a, e, n), i, SeqMismatch::Unequal) <==> (0 <= i < a.len() && i
            < e.len() && a[i] != e[i] && i < n),
    decreases n,
{
    if n <= 0 {
    } else {
        lemma_reported_unequal(a, e, n - 1, i);
        let prefix = diff_report(a, e, n - 1);
        let last = n - 1;
        if last >= a.len() && last < e.len() {
            lemma_reported_push(prefix, (last, SeqMismatch::MissingOnActual), i, SeqMismatch::Unequal);
        } else if last >= e.len() && last < a.len() {
            lemma_reported_push(prefix, (last, SeqMismatch::MissingOnExpected), i, SeqMismatch::Unequal);
        } else if last < a.len() && last < e.len() && a[last] != e[last] {
            lemma_reported_push(prefix, (last, SeqMismatch::Unequal), i, SeqMismatch::Unequal);
        }
    }
}

/// Each report row is sound, and rows are in index order below `n`.
proof fn lemma_report_rows(a: Seq<DatumView>, e: Seq<DatumView>, n: int)
    ensures
        forall|j: int|
            0 <= j < diff_report(a, e, n).len() ==> {
                let row = #[trigger] diff_report(a, e, n)[j];
                &&& 0 <= row.0 < n
                &&& (row.1 == SeqMismatch::MissingOnActual ==> a.len() <= row.0 < e.len())
                &&& (row.1 == SeqMismatch::MissingOnExpected ==> e.len() <= row.0 < a.len())
                &&& (row.1 == SeqMismatch::Unequal ==> row.0 < a.len() && row.0 < e.len() && a[row.0]
                    != e[row.0])
            },
    decreases n,
{
    if n > 0 {
        lemma_report_rows(a, e, n - 1);
    }
}

/// Whether the report holds a row at index `i`.
pub open spec fn row_at(a: Seq<DatumView>, e: Seq<DatumView>, i: int) -> bool {
    ||| (i >= a.len() && i < e.len())
    ||| (i >= e.len() && i < a.len())
    ||| (i < a.len() && i < e.len() && a[i] != e[i])
}

/// The report over `0 .. n` is empty exactly when no index below `n` has a
/// row.
proof fn lemma_report_empty_iff(a: Seq<DatumView>, e: Seq<DatumView>, n: int)
    ensures
        diff_report(a, e, n).len() == 0 <==> (forall|i: int| 0 <= i < n ==> !row_at(a, e, i)),
    decreases n,
{
    if n > 0 {
        lemma_report_empty_iff(a, e, n - 1);
        if row_at(a, e, n - 1) {
            assert(diff_report(a, e, n).len() == diff_report(a, e, n - 1).len() + 1);
        } else {
            assert(diff_report(a, e, n) == diff_report(a, e, n - 1));
        }
    }
}

/// An empty report over all indices of both sequences means the sequences
/// agree, and a report row refutes agreement.
proof fn lemma_report_empty(a: Seq<DatumView>, e: Seq<DatumView>, n: int)
    requires
        a.len() <= n,
        e.len() <= n,
    ensures
        diff_report(a, e, n).len() == 0 <==> a =~= e,
{
    lemma_report_empty_iff(a, e, n);
    if diff_report(a, e, n).len() == 0 {
        assert(a.len() == e.len()) by {
            if a.len() < e.len() {
                assert(row_at(a, e, a.len() as int));
            } else if e.len() < a.len() {
                assert(row_at(a, e, e.len() as int));
            }
        }
        assert forall|i: int| 0 <= i < a.len() implies a[i] == e[i] by {
            assert(!row_at(a, e, i));
        }
        assert(a =~= e);
    } else {
        let i = choose|i: int| 0 <= i < n && row_at(a, e, i);
        assert(a.len() == e.len() ==> (i < a.len() && a[i] != e[i]));
    }
}

/// Compares two sequences element-wise and returns the mismatch report:
/// one row per mismatching index over `0 .. max(len, len)`, in index order,
/// as [`diff_report`] describes.  An empty report means the sequences agree.
pub fn compare_sequences(actual: &[Datum], expected: &[Datum]) -> (r: Vec<(usize, SeqMismatch)>)
    ensures
        ({
            let rep = diff_report(
                list_view(actual@),
                list_view(expected@),
                if actual@.len() > expected@.len() {
                    actual@.len() as int
                } else {
                    expected@.len() as int
                },
            );
            &&& r@.len() == rep.len()
            &&& forall|j: int|
                0 <= j < rep.len() ==> ((#[trigger] r@[j]).0 as int, r@[j].1) == rep[j]
            &&& (r@.len() == 0 <==> list_view(actual@) == list_view(expected@))
        }),
{
    let ghost a = list_view(actual@);
    let ghost e = list_view(expected@);
    proof {
        crate::datum::lemma_list_view_len(actual@);
        crate::datum::lemma_list_view_len(expected@);
    }
    let max = if actual.len() > expected.len() {
        actual.len()
    } else {
        expected.len()
    };
    let mut report: Vec<(usize, SeqMismatch)> = Vec::new();
    let mut i: usize = 0;
    while i < max
        invariant
            i <= max,
            a == list_view(actual@),
            e == list_view(expected@),
            a.len() == actual@.len(),
            e.len() == expected@.len(),
            max == if actual@.len() > expected@.len() {
                actual@.len()
            } else {
                expected@.len()
            },
            report@.len() == diff_report(a, e, i as int).len(),
            forall|j: int|
                0 <= j < report@.len() ==> ((#[trigger] report@[j]).0 as int, report@[j].1)
                    == diff_report(a, e, i as int)[j],
        decreases max - i,
    {
        broadcast use crate::datum::lemma_list_view_index;

        if i >= actual.len() {
            report.push((i, SeqMismatch::MissingOnActual));
        } else if i >= expected.len() {
            report.push((i, SeqMismatch::MissingOnExpected));
        } else if !actual[i].deep_eq(&expected[i]) {
            report.push((i, SeqMismatch::Unequal));
        } else {
            assert(diff_report(a, e, i as int + 1) == diff_report(a, e, i as int));
        }
        i = i + 1;
    }
    proof {
        lemma_report_empty(a, e, max as int);
    }
    report
}

/// The diff engine: three tiered comparisons, each returning the comparison
/// outcome as a boolean and rendering both sides on the console only on
/// mismatch.
pub struct Diff;

impl Diff {
    /// Compares raw text and prints the differences.
    pub fn string(actual: &str, expected: &str) -> (r: bool)
        ensures
            r == (actual@ == expected@),
    {
        let is_success = str_eq(actual, expected);
        if !is_success {
            print_actual(actual);
            print_expected(expected);
        }
        is_success
    }

    /// Compares two structured values and prints the differences, rendered
    /// through the configured serializer.
    pub fn value(actual: &Datum, expected: &Datum) -> (r: bool)
        ensures
            r == (actual@ == expected@),
    {
        let is_success = actual.deep_eq(expected);
        if !is_success {
            print_actual(display_value(actual).as_str());
            print_expected(display_value(expected).as_str());
        }
        is_success
    }

    /// Compares two sequences element-wise and prints every index-level
    /// difference — all mismatches are reported before the single boolean
    /// comes back.  An index past the end of one side is rendered as an
    /// explicit missing-item marker.
    pub fn values(actual: &[Datum], expected: &[Datum]) -> (r: bool)
        ensures
            r == (list_view(actual@) == list_view(expected@)),
    {
        proof {
            crate::datum::lemma_list_view_len(actual@);
            crate::datum::lemma_list_view_len(expected@);
        }
        let report = compare_sequences(actual, expected);
        let ghost a = list_view(actual@);
        let ghost e = list_view(expected@);
        let ghost max: int = if actual@.len() > expected@.len() {
            actual@.len() as int
        } else {
            expected@.len() as int
        };
        proof {
            lemma_report_rows(a, e, max);
        }
        let mut j: usize = 0;
        while j < report.len()
            invariant
                a == list_view(actual@),
                e == list_view(expected@),
                a.len() == actual@.len(),
                e.len() == expected@.len(),
                report@.len() == diff_report(a, e, max).len(),
                forall|k: int|
                    0 <= k < report@.len() ==> ((#[trigger] report@[k]).0 as int, report@[k].1)
                        == diff_report(a, e, max)[k],
                forall|k: int|
                    0 <= k < diff_report(a, e, max).len() ==> {
                        let row = #[trigger] diff_report(a, e, max)[k];
                        &&& 0 <= row.0 < max
                        &&& (row.1 == SeqMismatch::MissingOnActual ==> a.len() <= row.0 < e.len())
                        &&& (row.1 == SeqMismatch::MissingOnExpected ==> e.len() <= row.0 < a.len())
                        &&& (row.1 == SeqMismatch::Unequal ==> row.0 < a.len() && row.0 < e.len())
                    },
            decreases report@.len() - j,
        {
            let (index, kind) = (report[j].0, report[j].1);
            print_index(index);
            match kind {
                SeqMismatch::MissingOnActual => {
                    print_actual("[No item at index]");
                    print_expected(display_value(&expected[index]).as_str());
                },
                SeqMismatch::MissingOnExpected => {
                    print_actual(display_value(&actual[index]).as_str());
                    print_expected("[No item at index]");
                },
                SeqMismatch::Unequal => {
                    print_actual(display_value(&actual[index]).as_str());
                    print_expected(display_value(&expected[index]).as_str());
                },
            }
            j = j + 1;
        }
        report.len() == 0
    }
}

} // verus!
