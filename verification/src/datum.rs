use vstd::prelude::*;

verus! {

/// The mathematical model of a structured artifact value: the view of
/// [`Datum`].
#[verifier::ext_equal]
pub enum DatumView {
    Null,
    Bool(bool),
    Int(int),
    Text(Seq<char>),
    List(Seq<DatumView>),
    Record(Seq<(Seq<char>, DatumView)>),
}

/// A structured artifact value: what a test records and compares against its
/// baseline.  A record is an ordered sequence of key/value fields, so a
/// value's rendered form is deterministic.
#[derive(Debug, PartialEq)]
pub enum Datum {
    Null,
    Bool(bool),
    Int(i64),
    Text(String),
    List(Vec<Datum>),
    Record(Vec<(String, Datum)>),
}

/// The model of a value.
pub open spec fn datum_view(v: Datum) -> DatumView
    decreases v,
    via value_view_decreases
{
    match v {
        Datum::Null => DatumView::Null,
        Datum::Bool(b) => DatumView::Bool(b),
        Datum::Int(i) => DatumView::Int(i as int),
        Datum::Text(s) => DatumView::Text(s@),
        Datum::List(items) => DatumView::List(list_view(items@)),
        Datum::Record(fields) => DatumView::Record(record_view(fields@)),
    }
}

/// The models of the elements of a list, in order.
pub open spec fn list_view(s: Seq<Datum>) -> Seq<DatumView>
    decreases s,
{
    if s.len() == 0 {
        Seq::empty()
    } else {
        list_view(s.drop_last()).push(datum_view(s.last()))
    }
}

/// The models of the fields of a record, in order.
pub open spec fn record_view(s: Seq<(String, Datum)>) -> Seq<(Seq<char>, DatumView)>
    decreases s,
    via record_view_decreases
{
    if s.len() == 0 {
        Seq::empty()
    } else {
        record_view(s.drop_last()).push((s.last().0@, datum_view(s.last().1)))
    }
}

#[via_fn]
proof fn value_view_decreases(v: Datum) {
    match v {
        Datum::List(items) => {
            assert(decreases_to!(v => v->List_0));
            assert(decreases_to!(v->List_0 => v->List_0@));
        },
        Datum::Record(fields) => {
            assert(decreases_to!(v => v->Record_0));
            assert(decreases_to!(v->Record_0 => v->Record_0@));
        },
        _ => {},
    }
}

#[via_fn]
proof fn record_view_decreases(s: Seq<(String, Datum)>) {
    if s.len() > 0 {
        assert(decreases_to!(s => s[s.len() - 1]));
        assert(decreases_to!(s[s.len() - 1] => s[s.len() - 1].1));
    }
}

impl View for Datum {
    type V = DatumView;

    open spec fn view(&self) -> DatumView {
        datum_view(*self)
    }
}

/// The element models, pointwise: `list_view` agrees with the model of each
/// element.
pub broadcast proof fn lemma_list_view_index(s: Seq<Datum>, k: int)
    requires
        0 <= k < s.len(),
    ensures
        list_view(s).len() == s.len(),
        #[trigger] list_view(s)[k] == datum_view(s[k]),
    decreases s,
{
    lemma_list_view_len(s);
    if s.len() > 0 {
        if k < s.len() - 1 {
            lemma_list_view_index(s.drop_last(), k);
            assert(s.drop_last()[k] == s[k]);
        }
    }
}

/// A list's model has the list's length.
pub proof fn lemma_list_view_len(s: Seq<Datum>)
    ensures
        list_view(s).len() == s.len(),
    decreases s,
{
    if s.len() > 0 {
        lemma_list_view_len(s.drop_last());
    }
}

/// The field models, pointwise: `record_view` agrees with the model of each
/// field.
pub broadcast proof fn lemma_record_view_index(s: Seq<(String, Datum)>, k: int)
    requires
        0 <= k < s.len(),
    ensures
        record_view(s).len() == s.len(),
        #[trigger] record_view(s)[k] == (s[k].0@, datum_view(s[k].1)),
    decreases s,
{
    lemma_record_view_len(s);
    if s.len() > 0 {
        if k < s.len() - 1 {
            lemma_record_view_index(s.drop_last(), k);
            assert(s.drop_last()[k] == s[k]);
        }
    }
}

/// A record's model has the record's length.
pub proof fn lemma_record_view_len(s: Seq<(String, Datum)>)
    ensures
        record_view(s).len() == s.len(),
    decreases s,
{
    if s.len() > 0 {
        lemma_record_view_len(s.drop_last());
    }
}

/// Whether a value is well formed for serialization: every record has
/// pairwise distinct keys, recursively.  A record with a repeated key cannot
/// survive a round trip through a key/value codec.
pub open spec fn wf_view(v: DatumView) -> bool
    decreases v,
{
    match v {
        DatumView::List(items) => forall|k: int|
            0 <= k < items.len() ==> wf_view(#[trigger] items[k]),
        DatumView::Record(fields) => {
            &&& forall|k1: int, k2: int|
                0 <= k1 < k2 < fields.len() ==> (#[trigger] fields[k1]).0 != (
                #[trigger] fields[k2]).0
            &&& forall|k: int| 0 <= k < fields.len() ==> wf_view((#[trigger] fields[k]).1)
        },
        _ => true,
    }
}

/// The container-nesting depth of a value: a leaf is `0`, and each list or
/// record adds one level above its deepest entry.
pub open spec fn view_depth(v: DatumView) -> nat
    decreases v,
{
    match v {
        DatumView::List(items) => 1 + elements_depth(items),
        DatumView::Record(fields) => 1 + fields_depth(fields),
        _ => 0,
    }
}

/// The deepest nesting among the elements of a list.
pub open spec fn elements_depth(s: Seq<DatumView>) -> nat
    decreases s,
{
    if s.len() == 0 {
        0
    } else {
        let rest = elements_depth(s.drop_last());
        let last = view_depth(s.last());
        if last > rest {
            last
        } else {
            rest
        }
    }
}

/// The deepest nesting among the field values of a record.
pub open spec fn fields_depth(s: Seq<(Seq<char>, DatumView)>) -> nat
    decreases s,
{
    if s.len() == 0 {
        0
    } else {
        let rest = fields_depth(s.drop_last());
        let last = view_depth(s.last().1);
        if last > rest {
            last
        } else {
            rest
        }
    }
}

/// A list's entries all nest within `b` exactly when its deepest entry does.
proof fn lemma_elements_depth_bound(s: Seq<DatumView>, b: nat)
    ensures
        (elements_depth(s) <= b) <==> (forall|k: int|
            0 <= k < s.len() ==> view_depth(#[trigger] s[k]) <= b),
    decreases s,
{
    if s.len() > 0 {
        lemma_elements_depth_bound(s.drop_last(), b);
        if elements_depth(s) <= b {
            assert forall|k: int| 0 <= k < s.len() implies view_depth(#[trigger] s[k]) <= b by {
                if k < s.len() - 1 {
                    assert(s.drop_last()[k] == s[k]);
                } else {
                    assert(s[k] == s.last());
                }
            }
        } else {
            if view_depth(s.last()) > b {
                assert(!(view_depth(s[s.len() - 1]) <= b));
            } else {
                let k = choose|k: int|
                    0 <= k < s.drop_last().len() && !(view_depth(#[trigger] s.drop_last()[k])
                        <= b);
                assert(s[k] == s.drop_last()[k]);
                assert(!(view_depth(s[k]) <= b));
            }
        }
    }
}

/// A record's field values all nest within `b` exactly when its deepest one
/// does.
proof fn lemma_fields_depth_bound(s: Seq<(Seq<char>, DatumView)>, b: nat)
    ensures
        (fields_depth(s) <= b) <==> (forall|k: int|
            0 <= k < s.len() ==> view_depth((#[trigger] s[k]).1) <= b),
    decreases s,
{
    if s.len() > 0 {
        lemma_fields_depth_bound(s.drop_last(), b);
        if fields_depth(s) <= b {
            assert forall|k: int| 0 <= k < s.len() implies view_depth((#[trigger] s[k]).1) <= b by {
                if k < s.len() - 1 {
                    assert(s.drop_last()[k] == s[k]);
                } else {
                    assert(s[k] == s.last());
                }
            }
        } else {
            if view_depth(s.last().1) > b {
                assert(!(view_depth(s[s.len() - 1].1) <= b));
            } else {
                let k = choose|k: int|
                    0 <= k < s.drop_last().len() && !(view_depth((#[trigger] s.drop_last()[k]).1)
                        <= b);
                assert(s[k] == s.drop_last()[k]);
                assert(!(view_depth(s[k].1) <= b));
            }
        }
    }
}

impl Datum {
    /// Structural equality: whether the two values have the same model.
    pub fn deep_eq(&self, other: &Datum) -> (r: bool)
        ensures
            r == (self@ == other@),
        decreases self,
    {
        broadcast use lemma_list_view_index, lemma_record_view_index;

        match (self, other) {
            (Datum::Null, Datum::Null) => true,
            (Datum::Bool(x), Datum::Bool(y)) => x == y,
            (Datum::Int(x), Datum::Int(y)) => x == y,
            (Datum::Text(x), Datum::Text(y)) => x.eq(y),
            (Datum::List(xs), Datum::List(ys)) => {
                proof {
                    lemma_list_view_len(xs@);
                    lemma_list_view_len(ys@);
                }
                if xs.len() != ys.len() {
                    return false;
                }
                let mut idx: usize = 0;
                while idx < xs.len()
                    invariant
                        idx <= xs.len() == ys.len(),
                        self == Datum::List(*xs),
                        other == Datum::List(*ys),
                        forall|k: int|
                            0 <= k < idx ==> #[trigger] list_view(xs@)[k] == list_view(ys@)[k],
                    decreases xs.len() - idx,
                {
                    proof {
                        broadcast use lemma_list_view_index;

                        let v = *self;
                        assert(decreases_to!(v => v->List_0));
                        assert(decreases_to!(v->List_0 => v->List_0@));
                        assert(decreases_to!(xs@ => xs@[idx as int]));
                    }
                    if !xs[idx].deep_eq(&ys[idx]) {
                        assert(list_view(xs@)[idx as int] != list_view(ys@)[idx as int]);
                        return false;
                    }
                    idx = idx + 1;
                }
                proof {
                    assert(list_view(xs@) =~= list_view(ys@));
                }
                true
            },
            (Datum::Record(xs), Datum::Record(ys)) => {
                proof {
                    lemma_record_view_len(xs@);
                    lemma_record_view_len(ys@);
                }
                if xs.len() != ys.len() {
                    return false;
                }
                let mut idx: usize = 0;
                while idx < xs.len()
                    invariant
                        idx <= xs.len() == ys.len(),
                        self == Datum::Record(*xs),
                        other == Datum::Record(*ys),
                        forall|k: int|
                            0 <= k < idx ==> #[trigger] record_view(xs@)[k] == record_view(ys@)[k],
                    decreases xs.len() - idx,
                {
                    broadcast use lemma_record_view_index;

                    if !xs[idx].0.eq(&ys[idx].0) {
                        assert(record_view(xs@)[idx as int] != record_view(ys@)[idx as int]);
                        return false;
                    }
                    proof {
                        let v = *self;
                        assert(decreases_to!(v => v->Record_0));
                        assert(decreases_to!(v->Record_0 => v->Record_0@));
                        assert(decreases_to!(xs@ => xs@[idx as int]));
                        assert(decreases_to!(xs@[idx as int] => xs@[idx as int].1));
                    }
                    if !xs[idx].1.deep_eq(&ys[idx].1) {
                        assert(record_view(xs@)[idx as int] != record_view(ys@)[idx as int]);
                        return false;
                    }
                    assert(record_view(xs@)[idx as int] == record_view(ys@)[idx as int]);
                    idx = idx + 1;
                }
                proof {
                    assert(record_view(xs@) =~= record_view(ys@));
                }
                true
            },
            _ => false,
        }
    }

    /// Whether the value is well formed for serialization, as [`wf_view`]
    /// describes: every record's keys are pairwise distinct, recursively.
    pub fn is_wf(&self) -> (r: bool)
        ensures
            r == wf_view(self@),
        decreases self,
    {
        broadcast use lemma_list_view_index, lemma_record_view_index;

        match self {
            Datum::List(items) => {
                proof {
                    lemma_list_view_len(items@);
                }
                let mut idx: usize = 0;
                while idx < items.len()
                    invariant
                        idx <= items.len(),
                        self == Datum::List(*items),
                        forall|k: int| 0 <= k < idx ==> wf_view(#[trigger] list_view(items@)[k]),
                    decreases items.len() - idx,
                {
                    broadcast use lemma_list_view_index;

                    proof {
                        let v = *self;
                        assert(decreases_to!(v => v->List_0));
                        assert(decreases_to!(v->List_0 => v->List_0@));
                        assert(decreases_to!(items@ => items@[idx as int]));
                    }
                    if !items[idx].is_wf() {
                        proof {
                            let lv = list_view(items@);
                            assert(!wf_view(lv[idx as int]));
                            assert(self@ == DatumView::List(lv));
                            assert(DatumView::List(lv)->List_0 == lv);
                            if wf_view(DatumView::List(lv)) {
                                assert(0 <= idx < lv.len());
                                assert(wf_view(lv[idx as int]));
                                assert(false);
                            }
                        }
                        return false;
                    }
                    idx = idx + 1;
                }
                true
            },
            Datum::Record(fields) => {
                proof {
                    lemma_record_view_len(fields@);
                }
                let n = fields.len();
                let mut idx: usize = 0;
                while idx < n
                    invariant
                        idx <= n == fields.len(),
                        self == Datum::Record(*fields),
                        forall|k: int|
                            0 <= k < idx ==> wf_view((#[trigger] record_view(fields@)[k]).1),
                        forall|k1: int, k2: int|
                            0 <= k1 < k2 < idx ==> (#[trigger] record_view(fields@)[k1]).0 != (
                            #[trigger] record_view(fields@)[k2]).0,
                    decreases n - idx,
                {
                    broadcast use lemma_record_view_index;

                    let mut earlier: usize = 0;
                    while earlier < idx
                        invariant
                            earlier <= idx < n == fields.len(),
                            self == Datum::Record(*fields),
                            forall|k: int|
                                0 <= k < earlier ==> (#[trigger] record_view(fields@)[k]).0
                                    != record_view(fields@)[idx as int].0,
                        decreases idx - earlier,
                    {
                        broadcast use lemma_record_view_index;

                        if crate::store::str_eq(
                            fields[earlier].0.as_str(),
                            fields[idx].0.as_str(),
                        ) {
                            proof {
                                let rv = record_view(fields@);
                                assert(rv[earlier as int].0 == rv[idx as int].0);
                                assert(DatumView::Record(rv)->Record_0 == rv);
                                assert(self@ == DatumView::Record(rv));
                                if wf_view(DatumView::Record(rv)) {
                                    assert(0 <= earlier < idx < rv.len());
                                    assert(rv[earlier as int].0 != rv[idx as int].0);
                                    assert(false);
                                }
                            }
                            return false;
                        }
                        earlier = earlier + 1;
                    }
                    proof {
                        let v = *self;
                        assert(decreases_to!(v => v->Record_0));
                        assert(decreases_to!(v->Record_0 => v->Record_0@));
                        assert(decreases_to!(fields@ => fields@[idx as int]));
                        assert(decreases_to!(fields@[idx as int] => fields@[idx as int].1));
                    }
                    if !fields[idx].1.is_wf() {
                        proof {
                            let rv = record_view(fields@);
                            assert(!wf_view(rv[idx as int].1));
                            assert(DatumView::Record(rv)->Record_0 == rv);
                            assert(self@ == DatumView::Record(rv));
                            if wf_view(DatumView::Record(rv)) {
                                assert(0 <= idx < rv.len());
                                assert(wf_view(rv[idx as int].1));
                                assert(false);
                            }
                        }
                        return false;
                    }
                    idx = idx + 1;
                }
                true
            },
            _ => true,
        }
    }

    /// Whether the value's container nesting stays within `limit` levels, as
    /// [`view_depth`] counts them.
    pub fn depth_within(&self, limit: usize) -> (r: bool)
        ensures
            r == (view_depth(self@) <= limit),
        decreases self,
    {
        match self {
            Datum::List(items) => {
                if limit == 0 {
                    proof {
                        let lv = list_view(items@);
                        assert(self@ == DatumView::List(lv));
                        assert(view_depth(DatumView::List(lv)) == 1 + elements_depth(lv));
                    }
                    return false;
                }
                let mut idx: usize = 0;
                while idx < items.len()
                    invariant
                        1 <= limit,
                        idx <= items.len(),
                        self == Datum::List(*items),
                        forall|k: int|
                            0 <= k < idx ==> view_depth(#[trigger] list_view(items@)[k]) <= limit
                                - 1,
                    decreases items.len() - idx,
                {
                    broadcast use lemma_list_view_index;

                    proof {
                        let v = *self;
                        assert(decreases_to!(v => v->List_0));
                        assert(decreases_to!(v->List_0 => v->List_0@));
                        assert(decreases_to!(items@ => items@[idx as int]));
                    }
                    if !items[idx].depth_within(limit - 1) {
                        proof {
                            let lv = list_view(items@);
                            assert(!(view_depth(lv[idx as int]) <= (limit - 1) as nat));
                            lemma_elements_depth_bound(lv, (limit - 1) as nat);
                            assert(self@ == DatumView::List(lv));
                            assert(view_depth(DatumView::List(lv)) == 1 + elements_depth(lv));
                        }
                        return false;
                    }
                    idx = idx + 1;
                }
                proof {
                    let lv = list_view(items@);
                    crate::datum::lemma_list_view_len(items@);
                    lemma_elements_depth_bound(lv, (limit - 1) as nat);
                    assert(self@ == DatumView::List(lv));
                    assert(view_depth(DatumView::List(lv)) == 1 + elements_depth(lv));
                }
                true
            },
            Datum::Record(fields) => {
                if limit == 0 {
                    proof {
                        let rv = record_view(fields@);
                        assert(self@ == DatumView::Record(rv));
                        assert(view_depth(DatumView::Record(rv)) == 1 + fields_depth(rv));
                    }
                    return false;
                }
                let mut idx: usize = 0;
                while idx < fields.len()
                    invariant
                        1 <= limit,
                        idx <= fields.len(),
                        self == Datum::Record(*fields),
                        forall|k: int|
                            0 <= k < idx ==> view_depth((#[trigger] record_view(fields@)[k]).1)
                                <= limit - 1,
                    decreases fields.len() - idx,
                {
                    broadcast use lemma_record_view_index;

                    proof {
                        let v = *self;
                        assert(decreases_to!(v => v->Record_0));
                        assert(decreases_to!(v->Record_0 => v->Record_0@));
                        assert(decreases_to!(fields@ => fields@[idx as int]));
                        assert(decreases_to!(fields@[idx as int] => fields@[idx as int].1));
                    }
                    if !fields[idx].1.depth_within(limit - 1) {
                        proof {
                            let rv = record_view(fields@);
                            assert(!(view_depth(rv[idx as int].1) <= (limit - 1) as nat));
                            lemma_fields_depth_bound(rv, (limit - 1) as nat);
                            assert(self@ == DatumView::Record(rv));
                            assert(view_depth(DatumView::Record(rv)) == 1 + fields_depth(rv));
                        }
                        return false;
                    }
                    idx = idx + 1;
                }
                proof {
                    let rv = record_view(fields@);
                    crate::datum::lemma_record_view_len(fields@);
                    lemma_fields_depth_bound(rv, (limit - 1) as nat);
                    assert(self@ == DatumView::Record(rv));
                    assert(view_depth(DatumView::Record(rv)) == 1 + fields_depth(rv));
                }
                true
            },
            _ => true,
        }
    }

    /// A copy of the value with the same model.
    pub fn duplicate(&self) -> (r: Datum)
        ensures
            r@ == self@,
        decreases self,
    {
        broadcast use lemma_list_view_index, lemma_record_view_index;

        match self {
            Datum::Null => Datum::Null,
            Datum::Bool(b) => Datum::Bool(*b),
            Datum::Int(i) => Datum::Int(*i),
            Datum::Text(s) => Datum::Text(s.clone()),
            Datum::List(items) => {
                let mut out: Vec<Datum> = Vec::new();
                let mut idx: usize = 0;
                while idx < items.len()
                    invariant
                        idx <= items.len(),
                        out@.len() == idx,
                        self == Datum::List(*items),
                        forall|k: int| 0 <= k < idx ==> (#[trigger] out@[k])@ == items@[k]@,
                    decreases items.len() - idx,
                {
                    proof {
                        let v = *self;
                        assert(decreases_to!(v => v->List_0));
                        assert(decreases_to!(v->List_0 => v->List_0@));
                        assert(decreases_to!(items@ => items@[idx as int]));
                    }
                    let copy = items[idx].duplicate();
                    out.push(copy);
                    idx = idx + 1;
                }
                let r = Datum::List(out);
                proof {
                    lemma_list_view_len(out@);
                    lemma_list_view_len(items@);
                    assert(list_view(out@) =~= list_view(items@));
                }
                r
            },
            Datum::Record(fields) => {
                let mut out: Vec<(String, Datum)> = Vec::new();
                let mut idx: usize = 0;
                while idx < fields.len()
                    invariant
                        idx <= fields.len(),
                        out@.len() == idx,
                        self == Datum::Record(*fields),
                        forall|k: int|
                            0 <= k < idx ==> (#[trigger] out@[k]).0@ == fields@[k].0@ && out@[k].1@
                                == fields@[k].1@,
                    decreases fields.len() - idx,
                {
                    let key = fields[idx].0.clone();
                    proof {
                        let v = *self;
                        assert(decreases_to!(v => v->Record_0));
                        assert(decreases_to!(v->Record_0 => v->Record_0@));
                        assert(decreases_to!(fields@ => fields@[idx as int]));
                        assert(decreases_to!(fields@[idx as int] => fields@[idx as int].1));
                    }
                    let val = fields[idx].1.duplicate();
                    out.push((key, val));
                    idx = idx + 1;
                }
                let r = Datum::Record(out);
                proof {
                    lemma_record_view_len(out@);
                    lemma_record_view_len(fields@);
                    assert(record_view(out@) =~= record_view(fields@));
                }
                r
            },
        }
    }
}

} // verus!
