//! Cell values as query results show them, and how DynamoDB attribute
//! values read into them: maps become documents with their fields in key
//! order, one field per key, the last entry for a key winning.
use vstd::prelude::*;
use crate::dynamo::attr::{AttrValue, AttrView, view_attrs, view_attr_entries, lemma_view_attr_entries};
use crate::text::{views, lemma_seq_lt_total, lemma_seq_lt_transitive, parse_i64, spec_parse_i64, seq_lt, str_eq, str_lt};

verus! {

/// A value in a query result cell.
#[derive(Debug)]
pub enum CellValue {
    Null,
    Bool(bool),
    Int(i64),
    /// A number kept as its decimal text.
    Decimal(String),
    Text(String),
    Bytes(Vec<u8>),
    Array(Vec<CellValue>),
    /// Named fields, in key order, each key once.
    Document(Vec<(String, CellValue)>),
    /// A value with no cell form, described by its debug text.
    Unsupported(String),
}

pub ghost enum CellView {
    Null,
    Bool(bool),
    Int(int),
    Decimal(Seq<char>),
    Text(Seq<char>),
    Bytes(Seq<u8>),
    Array(Seq<CellView>),
    Document(Seq<(Seq<char>, CellView)>),
    Unsupported(Seq<char>),
}

impl CellValue {
    pub open spec fn view(&self) -> CellView
        decreases self,
    {
        match self {
            CellValue::Null => CellView::Null,
            CellValue::Bool(b) => CellView::Bool(*b),
            CellValue::Int(i) => CellView::Int(*i as int),
            CellValue::Decimal(t) => CellView::Decimal(t@),
            CellValue::Text(t) => CellView::Text(t@),
            CellValue::Bytes(b) => CellView::Bytes(b@),
            CellValue::Array(items) => CellView::Array(view_values(items@)),
            CellValue::Document(fields) => CellView::Document(view_fields(fields@)),
            CellValue::Unsupported(t) => CellView::Unsupported(t@),
        }
    }
}

pub open spec fn view_values(s: Seq<CellValue>) -> Seq<CellView>
    decreases s,
{
    if s.len() == 0 {
        Seq::empty()
    } else {
        view_values(s.drop_last()).push(s.last().view())
    }
}

pub open spec fn view_fields(s: Seq<(String, CellValue)>) -> Seq<(Seq<char>, CellView)>
    decreases s,
{
    if s.len() == 0 {
        Seq::empty()
    } else {
        view_fields(s.drop_last()).push((s.last().0@, s.last().1.view()))
    }
}

pub proof fn lemma_view_values(s: Seq<CellValue>)
    ensures
        view_values(s).len() == s.len(),
        forall|i: int| 0 <= i < s.len() ==> #[trigger] view_values(s)[i] == s[i]@,
    decreases s.len(),
{
    if s.len() > 0 {
        lemma_view_values(s.drop_last());
    }
}

pub proof fn lemma_view_fields(s: Seq<(String, CellValue)>)
    ensures
        view_fields(s).len() == s.len(),
        forall|i: int| 0 <= i < s.len() ==> #[trigger] view_fields(s)[i] == (s[i].0@, s[i].1@),
    decreases s.len(),
{
    if s.len() > 0 {
        lemma_view_fields(s.drop_last());
    }
}

/// A number read from its decimal text: an integer when the text parses as
/// an `i64`, else the text kept as a decimal.
pub open spec fn number_value(t: Seq<char>) -> CellView {
    match spec_parse_i64(t) {
        Some(i) => CellView::Int(i),
        None => CellView::Decimal(t),
    }
}

/// `fields` with the field `(k, v)` put in its place in key order: past
/// every field whose key sorts before `k`, replacing a field named `k`.
pub open spec fn insert_field(fields: Seq<(Seq<char>, CellView)>, k: Seq<char>, v: CellView) -> Seq<(Seq<char>, CellView)>
    decreases fields.len(),
{
    if fields.len() == 0 {
        seq![(k, v)]
    } else if fields[0].0 == k {
        fields.update(0, (k, v))
    } else if seq_lt(k, fields[0].0) {
        seq![(k, v)] + fields
    } else {
        seq![fields[0]] + insert_field(fields.drop_first(), k, v)
    }
}

/// The cell value of a DynamoDB attribute value: strings as text, numbers
/// as integers or decimals, booleans, true nulls as null, maps as
/// documents, lists and sets as arrays, binary data as bytes; a null marker
/// that is false has no cell form.
pub open spec fn value_of_attr(a: AttrView) -> CellView
    decreases a,
{
    match a {
        AttrView::S(s) => CellView::Text(s),
        AttrView::N(t) => number_value(t),
        AttrView::Bool(b) => CellView::Bool(b),
        AttrView::Null(b) => if b {
            CellView::Null
        } else {
            CellView::Unsupported("Null(false)"@)
        },
        AttrView::M(entries) => CellView::Document(document_of(entries)),
        AttrView::L(items) => CellView::Array(values_of_attrs(items)),
        AttrView::B(bytes) => CellView::Bytes(bytes),
        AttrView::Ss(ts) => CellView::Array(ts.map_values(|t: Seq<char>| CellView::Text(t))),
        AttrView::Ns(ts) => CellView::Array(ts.map_values(|t: Seq<char>| number_value(t))),
        AttrView::Bs(bs) => CellView::Array(bs.map_values(|b: Seq<u8>| CellView::Bytes(b))),
    }
}

pub open spec fn values_of_attrs(items: Seq<AttrView>) -> Seq<CellView>
    decreases items,
{
    if items.len() == 0 {
        Seq::empty()
    } else {
        values_of_attrs(items.drop_last()).push(value_of_attr(items.last()))
    }
}

/// The document a map's entries read into: each entry put into key order in
/// turn, so a later entry for a key replaces an earlier one.
pub open spec fn document_of(entries: Seq<(Seq<char>, AttrView)>) -> Seq<(Seq<char>, CellView)>
    decreases entries,
{
    if entries.len() == 0 {
        Seq::empty()
    } else {
        insert_field(document_of(entries.drop_last()), entries.last().0, value_of_attr(entries.last().1))
    }
}

/// The first position at which `insert_field` stops: the first field named
/// `k` or sorting after `k`.
proof fn lemma_insert_field_at(fields: Seq<(Seq<char>, CellView)>, k: Seq<char>, v: CellView, i: int)
    requires
        0 <= i <= fields.len(),
        forall|j: int| 0 <= j < i ==> (#[trigger] fields[j]).0 != k && !seq_lt(k, fields[j].0),
        i < fields.len() ==> fields[i].0 == k || seq_lt(k, fields[i].0),
    ensures
        insert_field(fields, k, v) == (if i < fields.len() && fields[i].0 == k {
            fields.update(i, (k, v))
        } else {
            fields.insert(i, (k, v))
        }),
    decreases i,
{
    if i == 0 {
        if fields.len() == 0 {
            assert(fields.insert(0, (k, v)) =~= seq![(k, v)]);
        } else if fields[0].0 != k {
            assert(fields.insert(0, (k, v)) =~= seq![(k, v)] + fields);
        }
    } else {
        let t = fields.drop_first();
        assert(fields[0].0 != k && !seq_lt(k, fields[0].0));
        assert forall|j: int| 0 <= j < i - 1 implies (#[trigger] t[j]).0 != k && !seq_lt(k, t[j].0) by {
            assert(t[j] == fields[j + 1]);
        }
        lemma_insert_field_at(t, k, v, i - 1);
        if i < fields.len() && fields[i].0 == k {
            assert(seq![fields[0]] + t.update(i - 1, (k, v)) =~= fields.update(i, (k, v)));
        } else {
            assert(seq![fields[0]] + t.insert(i - 1, (k, v)) =~= fields.insert(i, (k, v)));
        }
    }
}

/// Puts a field in its place in key order, replacing a field of that name.
fn insert_field_into(fields: &mut Vec<(String, CellValue)>, k: String, v: CellValue)
    ensures
        view_fields(final(fields)@) == insert_field(view_fields(old(fields)@), k@, v@),
{
    proof {
        lemma_view_fields(fields@);
    }
    let ghost vf = view_fields(fields@);
    let mut i: usize = 0;
    loop
        invariant
            i <= fields.len(),
            vf == view_fields(fields@),
            vf.len() == fields.len(),
            forall|j: int| 0 <= j < fields.len() ==> #[trigger] vf[j] == (fields@[j].0@, fields@[j].1@),
            forall|j: int| 0 <= j < i ==> (#[trigger] vf[j]).0 != k@ && !seq_lt(k@, vf[j].0),
        ensures
            i <= fields.len(),
            forall|j: int| 0 <= j < i ==> (#[trigger] vf[j]).0 != k@ && !seq_lt(k@, vf[j].0),
            i < fields.len() ==> vf[i as int].0 == k@ || seq_lt(k@, vf[i as int].0),
        decreases fields.len() - i,
    {
        if i >= fields.len() {
            break;
        }
        assert(vf[i as int].0 == fields@[i as int].0@);
        if str_eq(fields[i].0.as_str(), k.as_str()) || str_lt(k.as_str(), fields[i].0.as_str()) {
            break;
        }
        i = i + 1;
    }
    proof {
        lemma_insert_field_at(vf, k@, v@, i as int);
    }
    let ghost before = fields@;
    if i < fields.len() && str_eq(fields[i].0.as_str(), k.as_str()) {
        let ghost e = (k@, v@);
        fields.set(i, (k, v));
        proof {
            lemma_view_fields(fields@);
            assert(view_fields(fields@) =~= vf.update(i as int, e));
        }
    } else {
        let ghost e = (k@, v@);
        fields.insert(i, (k, v));
        proof {
            lemma_view_fields(fields@);
            assert forall|j: int| 0 <= j < fields.len() implies #[trigger] view_fields(fields@)[j] == vf.insert(i as int, e)[j] by {
                if j < i {
                    assert(fields@[j] == before[j]);
                } else if j > i {
                    assert(fields@[j] == before[j - 1]);
                }
            }
            assert(view_fields(fields@) =~= vf.insert(i as int, e));
        }
    }
}

/// The cell value of a number's decimal text.
pub fn number_to_value(t: &String) -> (r: CellValue)
    ensures
        r@ == number_value(t@),
{
    match parse_i64(t.as_str()) {
        Some(i) => CellValue::Int(i),
        None => CellValue::Decimal(t.clone()),
    }
}

fn copy_bytes(b: &Vec<u8>) -> (r: Vec<u8>)
    ensures
        r@ == b@,
{
    let mut out: Vec<u8> = Vec::new();
    let mut i: usize = 0;
    while i < b.len()
        invariant
            i <= b.len(),
            out@ == b@.subrange(0, i as int),
        decreases b.len() - i,
    {
        out.push(b[i]);
        i = i + 1;
        assert(out@ =~= b@.subrange(0, i as int));
    }
    assert(b@.subrange(0, b.len() as int) =~= b@);
    out
}

fn texts_to_values(ts: &Vec<String>, numbers: bool) -> (r: Vec<CellValue>)
    ensures
        view_values(r@) == if numbers {
            ts@.map_values(|t: String| t@).map_values(|t: Seq<char>| number_value(t))
        } else {
            ts@.map_values(|t: String| t@).map_values(|t: Seq<char>| CellView::Text(t))
        },
{
    let mut out: Vec<CellValue> = Vec::new();
    let mut i: usize = 0;
    while i < ts.len()
        invariant
            i <= ts.len(),
            out.len() == i,
            forall|j: int| 0 <= j < i ==> (#[trigger] out@[j])@ == if numbers {
                number_value(ts@[j]@)
            } else {
                CellView::Text(ts@[j]@)
            },
        decreases ts.len() - i,
    {
        if numbers {
            out.push(number_to_value(&ts[i]));
        } else {
            out.push(CellValue::Text(ts[i].clone()));
        }
        i = i + 1;
    }
    proof {
        lemma_view_values(out@);
    }
    if numbers {
        assert(view_values(out@) =~= ts@.map_values(|t: String| t@).map_values(|t: Seq<char>| number_value(t)));
    } else {
        assert(view_values(out@) =~= ts@.map_values(|t: String| t@).map_values(|t: Seq<char>| CellView::Text(t)));
    }
    out
}

fn blobs_to_values(bs: &Vec<Vec<u8>>) -> (r: Vec<CellValue>)
    ensures
        view_values(r@) == bs@.map_values(|b: Vec<u8>| b@).map_values(|b: Seq<u8>| CellView::Bytes(b)),
{
    let mut out: Vec<CellValue> = Vec::new();
    let mut i: usize = 0;
    while i < bs.len()
        invariant
            i <= bs.len(),
            out.len() == i,
            forall|j: int| 0 <= j < i ==> (#[trigger] out@[j])@ == CellView::Bytes(bs@[j]@),
        decreases bs.len() - i,
    {
        out.push(CellValue::Bytes(copy_bytes(&bs[i])));
        i = i + 1;
    }
    proof {
        lemma_view_values(out@);
    }
    assert(view_values(out@) =~= bs@.map_values(|b: Vec<u8>| b@).map_values(|b: Seq<u8>| CellView::Bytes(b)));
    out
}

/// The cell value of a DynamoDB attribute value (see `value_of_attr`).
#[verifier::loop_isolation(false)]
pub fn attribute_value_to_value(a: &AttrValue) -> (r: CellValue)
    ensures
        r@ == value_of_attr(a@),
    decreases a,
{
    match a {
        AttrValue::S(s) => CellValue::Text(s.clone()),
        AttrValue::N(t) => number_to_value(t),
        AttrValue::Bool(b) => CellValue::Bool(*b),
        AttrValue::Null(b) => if *b {
            CellValue::Null
        } else {
            CellValue::Unsupported(String::from_str("Null(false)"))
        },
        AttrValue::M(entries) => CellValue::Document(entries_to_document(entries)),
        AttrValue::L(items) => {
            let mut out: Vec<CellValue> = Vec::new();
            let mut i: usize = 0;
            while i < items.len()
                invariant
                    i <= items.len(),
                    view_values(out@) == values_of_attrs(view_attrs(items@.subrange(0, i as int))),
                decreases items.len() - i,
            {
                proof {
                    assert(decreases_to!(*a => a->L_0));
                    assert(decreases_to!(*items => items@));
                    assert(decreases_to!(items@ => items@[i as int]));
                }
                let c = attribute_value_to_value(&items[i]);
                let ghost before = out@;
                out.push(c);
                proof {
                    assert(out@.drop_last() =~= before);
                    let pre = items@.subrange(0, i as int);
                    let cur = items@.subrange(0, i + 1);
                    assert(cur.drop_last() =~= pre);
                    let vx = view_attrs(pre);
                    assert(view_attrs(cur) == vx.push(items@[i as int]@));
                    assert(vx.push(items@[i as int]@).drop_last() =~= vx);
                }
                i = i + 1;
            }
            assert(items@.subrange(0, items@.len() as int) =~= items@);
            CellValue::Array(out)
        },
        AttrValue::B(bytes) => CellValue::Bytes(copy_bytes(bytes)),
        AttrValue::Ss(ts) => CellValue::Array(texts_to_values(ts, false)),
        AttrValue::Ns(ts) => CellValue::Array(texts_to_values(ts, true)),
        AttrValue::Bs(bs) => CellValue::Array(blobs_to_values(bs)),
    }
}

/// The document a map's entries read into (see `document_of`).
#[verifier::loop_isolation(false)]
pub fn entries_to_document(entries: &Vec<(String, AttrValue)>) -> (r: Vec<(String, CellValue)>)
    ensures
        view_fields(r@) == document_of(view_attr_entries(entries@)),
    decreases entries,
{
    let mut out: Vec<(String, CellValue)> = Vec::new();
    let mut i: usize = 0;
    while i < entries.len()
        invariant
            i <= entries.len(),
            view_fields(out@) == document_of(view_attr_entries(entries@.subrange(0, i as int))),
        decreases entries.len() - i,
    {
        proof {
            assert(decreases_to!(*entries => entries@));
            assert(decreases_to!(entries@ => entries@[i as int]));
            assert(decreases_to!(entries@[i as int] => entries@[i as int].1));
        }
        let c = attribute_value_to_value(&entries[i].1);
        let k = entries[i].0.clone();
        insert_field_into(&mut out, k, c);
        proof {
            let pre = entries@.subrange(0, i as int);
            let cur = entries@.subrange(0, i + 1);
            assert(cur.drop_last() =~= pre);
            let vx = view_attr_entries(pre);
            let e = (entries@[i as int].0@, entries@[i as int].1@);
            assert(view_attr_entries(cur) == vx.push(e));
            assert(vx.push(e).drop_last() =~= vx);
        }
        i = i + 1;
    }
    assert(entries@.subrange(0, entries@.len() as int) =~= entries@);
    out
}

/// Every field's key sorts strictly before every later field's key.
pub open spec fn fields_sorted(fields: Seq<(Seq<char>, CellView)>) -> bool {
    forall|i: int, j: int| 0 <= i < j < fields.len() ==> seq_lt(#[trigger] fields[i].0, #[trigger] fields[j].0)
}

/// The value of the first field named `k`.
pub open spec fn field_lookup(fields: Seq<(Seq<char>, CellView)>, k: Seq<char>) -> Option<CellView>
    decreases fields.len(),
{
    if fields.len() == 0 {
        None
    } else if fields[0].0 == k {
        Some(fields[0].1)
    } else {
        field_lookup(fields.drop_first(), k)
    }
}

/// The cell value of the last entry named `k`.
pub open spec fn last_entry_value(entries: Seq<(Seq<char>, AttrView)>, k: Seq<char>) -> Option<CellView>
    decreases entries.len(),
{
    if entries.len() == 0 {
        None
    } else if entries.last().0 == k {
        Some(value_of_attr(entries.last().1))
    } else {
        last_entry_value(entries.drop_last(), k)
    }
}

proof fn lemma_insert_field_keys(fields: Seq<(Seq<char>, CellView)>, k: Seq<char>, v: CellView)
    ensures
        forall|j: int| 0 <= j < insert_field(fields, k, v).len() ==> (#[trigger] insert_field(fields, k, v)[j]).0 == k
            || exists|i: int| 0 <= i < fields.len() && fields[i].0 == insert_field(fields, k, v)[j].0,
    decreases fields.len(),
{
    let r = insert_field(fields, k, v);
    if fields.len() > 0 && fields[0].0 != k && !seq_lt(k, fields[0].0) {
        let t = fields.drop_first();
        lemma_insert_field_keys(t, k, v);
        assert forall|j: int| 0 <= j < r.len() implies (#[trigger] r[j]).0 == k
            || exists|i: int| 0 <= i < fields.len() && fields[i].0 == r[j].0 by {
            if j == 0 {
                assert(fields[0].0 == r[0].0);
            } else {
                let rt = insert_field(t, k, v);
                assert(r[j] == rt[j - 1]);
                if rt[j - 1].0 != k {
                    let i = choose|i: int| 0 <= i < t.len() && t[i].0 == rt[j - 1].0;
                    assert(fields[i + 1] == t[i]);
                }
            }
        }
    } else if fields.len() > 0 && fields[0].0 != k {
        assert forall|j: int| 0 <= j < r.len() implies (#[trigger] r[j]).0 == k
            || exists|i: int| 0 <= i < fields.len() && fields[i].0 == r[j].0 by {
            if j > 0 {
                assert(r[j] == fields[j - 1]);
            }
        }
    } else if fields.len() > 0 {
        assert forall|j: int| 0 <= j < r.len() implies (#[trigger] r[j]).0 == k
            || exists|i: int| 0 <= i < fields.len() && fields[i].0 == r[j].0 by {
            if j > 0 {
                assert(r[j] == fields[j]);
            }
        }
    }
}

proof fn lemma_insert_field_sorted(fields: Seq<(Seq<char>, CellView)>, k: Seq<char>, v: CellView)
    requires
        fields_sorted(fields),
    ensures
        fields_sorted(insert_field(fields, k, v)),
    decreases fields.len(),
{
    let r = insert_field(fields, k, v);
    if fields.len() == 0 {
    } else if fields[0].0 == k {
        assert forall|i: int, j: int| 0 <= i < j < r.len() implies seq_lt(#[trigger] r[i].0, #[trigger] r[j].0) by {
            assert(r[i].0 == fields[i].0 && r[j].0 == fields[j].0);
        }
    } else if seq_lt(k, fields[0].0) {
        assert forall|i: int, j: int| 0 <= i < j < r.len() implies seq_lt(#[trigger] r[i].0, #[trigger] r[j].0) by {
            if i == 0 {
                if j > 1 {
                    lemma_seq_lt_transitive(k, fields[0].0, fields[j - 1].0);
                }
            } else {
                assert(r[i] == fields[i - 1] && r[j] == fields[j - 1]);
            }
        }
    } else {
        lemma_seq_lt_total(k, fields[0].0);
        let t = fields.drop_first();
        assert forall|i: int, j: int| 0 <= i < j < t.len() implies seq_lt(#[trigger] t[i].0, #[trigger] t[j].0) by {
            assert(t[i] == fields[i + 1] && t[j] == fields[j + 1]);
        }
        lemma_insert_field_sorted(t, k, v);
        lemma_insert_field_keys(t, k, v);
        let rt = insert_field(t, k, v);
        assert forall|i: int, j: int| 0 <= i < j < r.len() implies seq_lt(#[trigger] r[i].0, #[trigger] r[j].0) by {
            if i == 0 {
                assert(r[j] == rt[j - 1]);
                if rt[j - 1].0 != k {
                    let m = choose|m: int| 0 <= m < t.len() && t[m].0 == rt[j - 1].0;
                    assert(fields[m + 1] == t[m]);
                }
            } else {
                assert(r[i] == rt[i - 1] && r[j] == rt[j - 1]);
            }
        }
    }
}

proof fn lemma_insert_field_lookup(fields: Seq<(Seq<char>, CellView)>, k: Seq<char>, v: CellView, x: Seq<char>)
    ensures
        field_lookup(insert_field(fields, k, v), x) == if x == k {
            Some(v)
        } else {
            field_lookup(fields, x)
        },
    decreases fields.len(),
{
    let r = insert_field(fields, k, v);
    if fields.len() == 0 {
        assert(r == seq![(k, v)]);
        assert(r[0] == (k, v));
        assert(r.drop_first().len() == 0);
        assert(field_lookup(r.drop_first(), x) is None);
    } else if fields[0].0 == k {
        assert(r[0] == (k, v));
        assert(r.drop_first() =~= fields.drop_first());
    } else if seq_lt(k, fields[0].0) {
        assert(r[0] == (k, v));
        assert(r.drop_first() =~= fields);
    } else {
        lemma_insert_field_lookup(fields.drop_first(), k, v, x);
        assert(r[0] == fields[0]);
        assert(r.drop_first() =~= insert_field(fields.drop_first(), k, v));
    }
}

/// The fields of a document read from a map's entries are in strictly
/// increasing key order, so each key appears once.
pub proof fn lemma_document_sorted(entries: Seq<(Seq<char>, AttrView)>)
    ensures
        fields_sorted(document_of(entries)),
    decreases entries.len(),
{
    if entries.len() > 0 {
        lemma_document_sorted(entries.drop_last());
        lemma_insert_field_sorted(document_of(entries.drop_last()), entries.last().0, value_of_attr(entries.last().1));
    }
}

/// A document read from a map's entries has a field for every key the
/// entries name and no other, holding the value of the last entry for it.
pub proof fn lemma_document_lookup(entries: Seq<(Seq<char>, AttrView)>, k: Seq<char>)
    ensures
        field_lookup(document_of(entries), k) == last_entry_value(entries, k),
    decreases entries.len(),
{
    if entries.len() > 0 {
        lemma_document_lookup(entries.drop_last(), k);
        lemma_insert_field_lookup(document_of(entries.drop_last()), entries.last().0, value_of_attr(entries.last().1), k);
    }
}

/// A result column.
#[derive(Debug)]
pub struct ColumnMeta {
    pub name: String,
    pub data_type: String,
    pub nullable: bool,
}

/// What a query gives back: columns and rows of cells, or a count of
/// affected rows for a write.
#[derive(Debug)]
pub struct QueryResult {
    pub columns: Vec<ColumnMeta>,
    pub rows: Vec<Vec<CellValue>>,
    pub affected_rows: Option<u64>,
}

/// What a document write reports.
#[derive(Debug, Clone, Copy)]
pub struct CrudResult {
    pub affected_rows: u64,
}

/// The result of a document write: no columns or rows, only the count.
pub fn crud_result_to_query_result(result: CrudResult) -> (r: QueryResult)
    ensures
        r.columns.len() == 0,
        r.rows.len() == 0,
        r.affected_rows == Some(result.affected_rows),
{
    QueryResult { columns: Vec::new(), rows: Vec::new(), affected_rows: Some(result.affected_rows) }
}

/// `sorted` with `k` put before the first key that does not sort before it.
pub open spec fn insert_key(sorted: Seq<Seq<char>>, k: Seq<char>) -> Seq<Seq<char>>
    decreases sorted.len(),
{
    if sorted.len() == 0 {
        seq![k]
    } else if !seq_lt(sorted[0], k) {
        seq![k] + sorted
    } else {
        seq![sorted[0]] + insert_key(sorted.drop_first(), k)
    }
}

/// The keys in ascending order.
pub open spec fn sorted_keys(keys: Seq<Seq<char>>) -> Seq<Seq<char>>
    decreases keys.len(),
{
    if keys.len() == 0 {
        Seq::empty()
    } else {
        insert_key(sorted_keys(keys.drop_last()), keys.last())
    }
}

/// `names` followed by the keys it does not hold yet, in order, each once.
pub open spec fn append_unseen(names: Seq<Seq<char>>, keys: Seq<Seq<char>>) -> Seq<Seq<char>>
    decreases keys.len(),
{
    if keys.len() == 0 {
        names
    } else {
        let before = append_unseen(names, keys.drop_last());
        if before.contains(keys.last()) {
            before
        } else {
            before.push(keys.last())
        }
    }
}

/// The attribute names of an item.
pub open spec fn item_keys(item: Seq<(Seq<char>, AttrView)>) -> Seq<Seq<char>> {
    item.map_values(|e: (Seq<char>, AttrView)| e.0)
}

/// The field names of a page of items: item by item, each item's names in
/// ascending order, every name once, where it first appears.
pub open spec fn field_names_of(items: Seq<Seq<(Seq<char>, AttrView)>>) -> Seq<Seq<char>>
    decreases items.len(),
{
    if items.len() == 0 {
        Seq::empty()
    } else {
        append_unseen(field_names_of(items.drop_last()), sorted_keys(item_keys(items.last())))
    }
}

/// `names` without the first occurrence of `k`.
pub open spec fn without_first(names: Seq<Seq<char>>, k: Seq<char>) -> Seq<Seq<char>>
    decreases names.len(),
{
    if names.len() == 0 {
        names
    } else if names[0] == k {
        names.drop_first()
    } else {
        seq![names[0]] + without_first(names.drop_first(), k)
    }
}

/// The column names: `_id` moved to the front when present.
pub open spec fn column_order(names: Seq<Seq<char>>) -> Seq<Seq<char>> {
    if names.contains("_id"@) {
        seq!["_id"@] + without_first(names, "_id"@)
    } else {
        names
    }
}

/// The attribute of the first entry named `k`.
pub open spec fn first_attr(item: Seq<(Seq<char>, AttrView)>, k: Seq<char>) -> Option<AttrView>
    decreases item.len(),
{
    if item.len() == 0 {
        None
    } else if item[0].0 == k {
        Some(item[0].1)
    } else {
        first_attr(item.drop_first(), k)
    }
}

/// An item's row: for each column its attribute's cell value, null where
/// the item lacks the attribute.
pub open spec fn row_of(item: Seq<(Seq<char>, AttrView)>, names: Seq<Seq<char>>) -> Seq<CellView> {
    names.map_values(|n: Seq<char>| match first_attr(item, n) {
        Some(a) => value_of_attr(a),
        None => CellView::Null,
    })
}

pub open spec fn items_view(items: Seq<Vec<(String, AttrValue)>>) -> Seq<Seq<(Seq<char>, AttrView)>> {
    items.map_values(|it: Vec<(String, AttrValue)>| view_attr_entries(it@))
}

proof fn lemma_insert_key_at(sorted: Seq<Seq<char>>, k: Seq<char>, i: int)
    requires
        0 <= i <= sorted.len(),
        forall|j: int| 0 <= j < i ==> seq_lt(#[trigger] sorted[j], k),
        i < sorted.len() ==> !seq_lt(sorted[i], k),
    ensures
        insert_key(sorted, k) == sorted.insert(i, k),
    decreases i,
{
    if i == 0 {
        if sorted.len() == 0 {
            assert(sorted.insert(0, k) =~= seq![k]);
        } else {
            assert(sorted.insert(0, k) =~= seq![k] + sorted);
        }
    } else {
        let t = sorted.drop_first();
        assert(seq_lt(sorted[0], k));
        assert forall|j: int| 0 <= j < i - 1 implies seq_lt(#[trigger] t[j], k) by {
            assert(t[j] == sorted[j + 1]);
        }
        lemma_insert_key_at(t, k, i - 1);
        assert(seq![sorted[0]] + t.insert(i - 1, k) =~= sorted.insert(i, k));
    }
}

fn insert_key_into(sorted: &mut Vec<String>, k: String)
    ensures
        views(final(sorted)@) == insert_key(views(old(sorted)@), k@),
{
    let ghost vs = views(sorted@);
    let mut i: usize = 0;
    loop
        invariant
            i <= sorted.len(),
            vs == views(sorted@),
            forall|j: int| 0 <= j < i ==> seq_lt(#[trigger] vs[j], k@),
        ensures
            i <= sorted.len(),
            forall|j: int| 0 <= j < i ==> seq_lt(#[trigger] vs[j], k@),
            i < sorted.len() ==> !seq_lt(vs[i as int], k@),
        decreases sorted.len() - i,
    {
        if i >= sorted.len() {
            break;
        }
        assert(vs[i as int] == sorted@[i as int]@);
        if !str_lt(sorted[i].as_str(), k.as_str()) {
            break;
        }
        i = i + 1;
    }
    proof {
        lemma_insert_key_at(vs, k@, i as int);
    }
    let ghost kv = k@;
    sorted.insert(i, k);
    assert(views(sorted@) =~= vs.insert(i as int, kv));
}

fn sorted_item_keys(item: &Vec<(String, AttrValue)>) -> (r: Vec<String>)
    ensures
        views(r@) == sorted_keys(item_keys(view_attr_entries(item@))),
{
    proof {
        lemma_view_attr_entries(item@);
    }
    let ghost keys = item_keys(view_attr_entries(item@));
    let mut out: Vec<String> = Vec::new();
    let mut i: usize = 0;
    while i < item.len()
        invariant
            i <= item.len(),
            keys == item_keys(view_attr_entries(item@)),
            keys.len() == item.len(),
            forall|j: int| 0 <= j < item.len() ==> #[trigger] keys[j] == item@[j].0@,
            views(out@) == sorted_keys(keys.take(i as int)),
        decreases item.len() - i,
    {
        insert_key_into(&mut out, item[i].0.clone());
        assert(keys.take(i + 1).drop_last() =~= keys.take(i as int));
        i = i + 1;
    }
    assert(keys.take(item.len() as int) =~= keys);
    out
}

fn contains_name(names: &Vec<String>, k: &str) -> (r: bool)
    ensures
        r == views(names@).contains(k@),
{
    let mut i: usize = 0;
    while i < names.len()
        invariant
            i <= names.len(),
            forall|j: int| 0 <= j < i ==> names@[j]@ != k@,
        decreases names.len() - i,
    {
        if str_eq(names[i].as_str(), k) {
            assert(views(names@)[i as int] == k@);
            return true;
        }
        i = i + 1;
    }
    proof {
        if views(names@).contains(k@) {
            let j = choose|j: int| 0 <= j < views(names@).len() && views(names@)[j] == k@;
            assert(views(names@)[j] == names@[j]@);
        }
    }
    false
}

fn field_names(items: &Vec<Vec<(String, AttrValue)>>) -> (r: Vec<String>)
    ensures
        views(r@) == field_names_of(items_view(items@)),
{
    let ghost all = items_view(items@);
    let mut names: Vec<String> = Vec::new();
    let mut i: usize = 0;
    while i < items.len()
        invariant
            i <= items.len(),
            all == items_view(items@),
            views(names@) == field_names_of(all.take(i as int)),
        decreases items.len() - i,
    {
        let keys = sorted_item_keys(&items[i]);
        let ghost base = views(names@);
        let ghost vk = views(keys@);
        let mut j: usize = 0;
        while j < keys.len()
            invariant
                j <= keys.len(),
                vk == views(keys@),
                views(names@) == append_unseen(base, vk.take(j as int)),
            decreases keys.len() - j,
        {
            let ghost before = views(names@);
            assert(vk.take(j + 1).drop_last() =~= vk.take(j as int));
            assert(vk.take(j + 1).last() == keys@[j as int]@);
            if !contains_name(&names, keys[j].as_str()) {
                names.push(keys[j].clone());
                assert(views(names@) =~= before.push(keys@[j as int]@));
            }
            j = j + 1;
        }
        assert(vk.take(keys.len() as int) =~= vk);
        assert(all.take(i + 1).drop_last() =~= all.take(i as int));
        assert(all.take(i + 1).last() == view_attr_entries(items@[i as int]@));
        i = i + 1;
    }
    assert(all.take(items.len() as int) =~= all);
    names
}

proof fn lemma_without_first_at(names: Seq<Seq<char>>, k: Seq<char>, p: int)
    requires
        0 <= p < names.len(),
        names[p] == k,
        forall|j: int| 0 <= j < p ==> names[j] != k,
    ensures
        without_first(names, k) == names.remove(p),
    decreases p,
{
    if p > 0 {
        let t = names.drop_first();
        assert forall|j: int| 0 <= j < p - 1 implies t[j] != k by {
            assert(t[j] == names[j + 1]);
        }
        lemma_without_first_at(t, k, p - 1);
        assert(seq![names[0]] + t.remove(p - 1) =~= names.remove(p));
    } else {
        assert(names.drop_first() =~= names.remove(0));
    }
}

fn id_first(names: &mut Vec<String>)
    ensures
        views(final(names)@) == column_order(views(old(names)@)),
{
    let ghost vn = views(names@);
    let mut p: usize = 0;
    while p < names.len()
        invariant
            p <= names.len(),
            vn == views(names@),
            vn == views(old(names)@),
            forall|j: int| 0 <= j < p ==> vn[j] != "_id"@,
        decreases names.len() - p,
    {
        assert(vn[p as int] == names@[p as int]@);
        if str_eq(names[p].as_str(), "_id") {
            proof {
                lemma_without_first_at(vn, "_id"@, p as int);
                assert(vn[p as int] == "_id"@);
                assert(vn.contains("_id"@));
            }
            let key = names.remove(p);
            assert(views(names@) =~= vn.remove(p as int));
            names.insert(0, key);
            assert(views(names@) =~= seq!["_id"@] + vn.remove(p as int));
            return;
        }
        p = p + 1;
    }
}

fn attribute_for<'a>(item: &'a Vec<(String, AttrValue)>, k: &str) -> (r: Option<&'a AttrValue>)
    ensures
        match r {
            Some(a) => first_attr(view_attr_entries(item@), k@) == Some(a@),
            None => first_attr(view_attr_entries(item@), k@) is None,
        },
{
    proof {
        lemma_view_attr_entries(item@);
    }
    let ghost ve = view_attr_entries(item@);
    assert(ve.skip(0) =~= ve);
    let mut i: usize = 0;
    while i < item.len()
        invariant
            i <= item.len(),
            ve == view_attr_entries(item@),
            ve.len() == item.len(),
            forall|j: int| 0 <= j < item.len() ==> #[trigger] ve[j] == (item@[j].0@, item@[j].1@),
            first_attr(ve, k@) == first_attr(ve.skip(i as int), k@),
        decreases item.len() - i,
    {
        let ghost rest = ve.skip(i as int);
        assert(rest[0] == ve[i as int]);
        if str_eq(item[i].0.as_str(), k) {
            return Some(&item[i].1);
        }
        assert(rest.drop_first() =~= ve.skip(i + 1));
        i = i + 1;
    }
    assert(ve.skip(item.len() as int).len() == 0);
    None
}

fn row_for(item: &Vec<(String, AttrValue)>, names: &Vec<String>) -> (r: Vec<CellValue>)
    ensures
        view_values(r@) == row_of(view_attr_entries(item@), views(names@)),
{
    let mut out: Vec<CellValue> = Vec::new();
    let mut j: usize = 0;
    while j < names.len()
        invariant
            j <= names.len(),
            out.len() == j,
            forall|m: int| 0 <= m < j ==> (#[trigger] out@[m])@ == match first_attr(view_attr_entries(item@), names@[m]@) {
                Some(a) => value_of_attr(a),
                None => CellView::Null,
            },
        decreases names.len() - j,
    {
        let cell = match attribute_for(item, names[j].as_str()) {
            Some(a) => attribute_value_to_value(a),
            None => CellValue::Null,
        };
        out.push(cell);
        j = j + 1;
    }
    proof {
        lemma_view_values(out@);
    }
    assert(view_values(out@) =~= row_of(view_attr_entries(item@), views(names@)));
    out
}

/// A page of DynamoDB items as a query result: the columns are the items'
/// attribute names (see `field_names_of`), `_id` first, each typed
/// `DynamoDB` and nullable; each item becomes a row of its cells.
pub fn items_to_query_result(items: &Vec<Vec<(String, AttrValue)>>) -> (r: QueryResult)
    ensures
        r.columns@.map_values(|c: ColumnMeta| c.name@) == column_order(field_names_of(items_view(items@))),
        forall|i: int| 0 <= i < r.columns.len() ==> (#[trigger] r.columns@[i]).data_type@ == "DynamoDB"@ && r.columns@[i].nullable,
        r.rows.len() == items.len(),
        forall|i: int| 0 <= i < items.len() ==> view_values((#[trigger] r.rows@[i])@) == row_of(
            view_attr_entries(items@[i]@),
            column_order(field_names_of(items_view(items@))),
        ),
        r.affected_rows is None,
{
    let mut names = field_names(items);
    id_first(&mut names);
    let mut columns: Vec<ColumnMeta> = Vec::new();
    let mut c: usize = 0;
    while c < names.len()
        invariant
            c <= names.len(),
            columns.len() == c,
            forall|m: int| 0 <= m < c ==> (#[trigger] columns@[m]).name@ == names@[m]@
                && columns@[m].data_type@ == "DynamoDB"@ && columns@[m].nullable,
        decreases names.len() - c,
    {
        columns.push(ColumnMeta { name: names[c].clone(), data_type: String::from_str("DynamoDB"), nullable: true });
        c = c + 1;
    }
    assert(columns@.map_values(|c: ColumnMeta| c.name@) =~= views(names@));
    let mut rows: Vec<Vec<CellValue>> = Vec::new();
    let mut i: usize = 0;
    while i < items.len()
        invariant
            i <= items.len(),
            rows.len() == i,
            forall|m: int| 0 <= m < i ==> view_values((#[trigger] rows@[m])@) == row_of(view_attr_entries(items@[m]@), views(names@)),
        decreases items.len() - i,
    {
        rows.push(row_for(&items[i], &names));
        i = i + 1;
    }
    QueryResult { columns, rows, affected_rows: None }
}

proof fn lemma_insert_key_contains(sorted: Seq<Seq<char>>, k: Seq<char>)
    ensures
        forall|x: Seq<char>| #[trigger] insert_key(sorted, k).contains(x) <==> (sorted.contains(x) || x == k),
    decreases sorted.len(),
{
    let r = insert_key(sorted, k);
    if sorted.len() == 0 {
        assert forall|x: Seq<char>| #[trigger] r.contains(x) <==> (sorted.contains(x) || x == k) by {
            if x == k {
                assert(r[0] == k);
            }
            if r.contains(x) {
                let j = choose|j: int| 0 <= j < r.len() && r[j] == x;
                assert(r[j] == k);
            }
        }
    } else if !seq_lt(sorted[0], k) {
        assert forall|x: Seq<char>| #[trigger] r.contains(x) <==> (sorted.contains(x) || x == k) by {
            if r.contains(x) {
                let j = choose|j: int| 0 <= j < r.len() && r[j] == x;
                if j > 0 {
                    assert(sorted[j - 1] == x);
                }
            }
            if sorted.contains(x) {
                let j = choose|j: int| 0 <= j < sorted.len() && sorted[j] == x;
                assert(r[j + 1] == x);
            }
            if x == k {
                assert(r[0] == k);
            }
        }
    } else {
        let t = sorted.drop_first();
        lemma_insert_key_contains(t, k);
        let rt = insert_key(t, k);
        assert forall|x: Seq<char>| #[trigger] r.contains(x) <==> (sorted.contains(x) || x == k) by {
            if r.contains(x) {
                let j = choose|j: int| 0 <= j < r.len() && r[j] == x;
                if j > 0 {
                    assert(rt[j - 1] == x);
                    assert(rt.contains(x));
                    if t.contains(x) {
                        let m = choose|m: int| 0 <= m < t.len() && t[m] == x;
                        assert(sorted[m + 1] == x);
                    }
                } else {
                    assert(sorted[0] == x);
                }
            }
            if sorted.contains(x) {
                let j = choose|j: int| 0 <= j < sorted.len() && sorted[j] == x;
                if j == 0 {
                    assert(r[0] == x);
                } else {
                    assert(t[j - 1] == x);
                    assert(rt.contains(x));
                    let m = choose|m: int| 0 <= m < rt.len() && rt[m] == x;
                    assert(r[m + 1] == x);
                }
            }
            if x == k {
                assert(rt.contains(k));
                let m = choose|m: int| 0 <= m < rt.len() && rt[m] == k;
                assert(r[m + 1] == k);
            }
        }
    }
}

proof fn lemma_sorted_keys_contains(keys: Seq<Seq<char>>)
    ensures
        forall|x: Seq<char>| #[trigger] sorted_keys(keys).contains(x) <==> keys.contains(x),
    decreases keys.len(),
{
    if keys.len() > 0 {
        let prefix = keys.drop_last();
        lemma_sorted_keys_contains(prefix);
        lemma_insert_key_contains(sorted_keys(prefix), keys.last());
        assert forall|x: Seq<char>| #[trigger] sorted_keys(keys).contains(x) <==> keys.contains(x) by {
            if prefix.contains(x) {
                let j = choose|j: int| 0 <= j < prefix.len() && prefix[j] == x;
                assert(keys[j] == x);
            }
            if keys.contains(x) {
                let j = choose|j: int| 0 <= j < keys.len() && keys[j] == x;
                if j < keys.len() - 1 {
                    assert(prefix[j] == x);
                }
            }
        }
    }
}

proof fn lemma_append_unseen(names: Seq<Seq<char>>, keys: Seq<Seq<char>>)
    requires
        names.no_duplicates(),
    ensures
        append_unseen(names, keys).no_duplicates(),
        forall|x: Seq<char>| #[trigger] append_unseen(names, keys).contains(x) <==> (names.contains(x) || keys.contains(x)),
        names.len() <= append_unseen(names, keys).len(),
        append_unseen(names, keys).subrange(0, names.len() as int) == names,
    decreases keys.len(),
{
    if keys.len() > 0 {
        let prefix = keys.drop_last();
        let k = keys.last();
        lemma_append_unseen(names, prefix);
        let before = append_unseen(names, prefix);
        if !before.contains(k) {
            let after = before.push(k);
            assert forall|i: int, j: int| 0 <= i < after.len() && 0 <= j < after.len() && i != j implies after[i] != after[j] by {
                if i < before.len() && j < before.len() {
                } else if i < before.len() {
                    assert(after[j] == k);
                } else {
                    assert(after[i] == k);
                }
            }
            assert(after.subrange(0, names.len() as int) =~= before.subrange(0, names.len() as int));
        }
        assert forall|x: Seq<char>| #[trigger] append_unseen(names, keys).contains(x) <==> (names.contains(x) || keys.contains(x)) by {
            let r = append_unseen(names, keys);
            if prefix.contains(x) {
                let j = choose|j: int| 0 <= j < prefix.len() && prefix[j] == x;
                assert(keys[j] == x);
            }
            if keys.contains(x) {
                let j = choose|j: int| 0 <= j < keys.len() && keys[j] == x;
                if j < keys.len() - 1 {
                    assert(prefix[j] == x);
                }
            }
            if !before.contains(k) {
                if r.contains(x) {
                    let j = choose|j: int| 0 <= j < r.len() && r[j] == x;
                    if j < before.len() {
                        assert(before[j] == x);
                    }
                }
                if before.contains(x) {
                    let j = choose|j: int| 0 <= j < before.len() && before[j] == x;
                    assert(r[j] == x);
                }
                if x == k {
                    assert(r[before.len() as int] == k);
                }
            }
        }
    }
}

proof fn lemma_field_names(items: Seq<Seq<(Seq<char>, AttrView)>>)
    ensures
        field_names_of(items).no_duplicates(),
        forall|x: Seq<char>| #[trigger] field_names_of(items).contains(x) <==> exists|i: int|
            0 <= i < items.len() && item_keys(items[i]).contains(x),
    decreases items.len(),
{
    if items.len() > 0 {
        let prefix = items.drop_last();
        lemma_field_names(prefix);
        let keys = sorted_keys(item_keys(items.last()));
        lemma_sorted_keys_contains(item_keys(items.last()));
        lemma_append_unseen(field_names_of(prefix), keys);
        assert forall|x: Seq<char>| #[trigger] field_names_of(items).contains(x) <==> exists|i: int|
            0 <= i < items.len() && item_keys(items[i]).contains(x) by {
            if exists|i: int| 0 <= i < prefix.len() && item_keys(prefix[i]).contains(x) {
                let i = choose|i: int| 0 <= i < prefix.len() && item_keys(prefix[i]).contains(x);
                assert(items[i] == prefix[i]);
            }
            if exists|i: int| 0 <= i < items.len() && item_keys(items[i]).contains(x) {
                let i = choose|i: int| 0 <= i < items.len() && item_keys(items[i]).contains(x);
                if i < items.len() - 1 {
                    assert(prefix[i] == items[i]);
                }
            }
        }
    }
}

proof fn lemma_without_first(names: Seq<Seq<char>>, k: Seq<char>)
    requires
        names.no_duplicates(),
    ensures
        without_first(names, k).no_duplicates(),
        forall|x: Seq<char>| #[trigger] without_first(names, k).contains(x) <==> (names.contains(x) && x != k),
    decreases names.len(),
{
    if names.len() > 0 {
        let t = names.drop_first();
        assert forall|i: int, j: int| 0 <= i < t.len() && 0 <= j < t.len() && i != j implies t[i] != t[j] by {
            assert(t[i] == names[i + 1] && t[j] == names[j + 1]);
        }
        let r = without_first(names, k);
        if names[0] == k {
            assert forall|x: Seq<char>| #[trigger] r.contains(x) <==> (names.contains(x) && x != k) by {
                if r.contains(x) {
                    let j = choose|j: int| 0 <= j < r.len() && r[j] == x;
                    assert(names[j + 1] == x);
                    assert(x != k);
                }
                if names.contains(x) && x != k {
                    let j = choose|j: int| 0 <= j < names.len() && names[j] == x;
                    assert(t[j - 1] == x);
                }
            }
        } else {
            lemma_without_first(t, k);
            let rt = without_first(t, k);
            assert forall|i: int, j: int| 0 <= i < r.len() && 0 <= j < r.len() && i != j implies r[i] != r[j] by {
                if i > 0 && j > 0 {
                    assert(r[i] == rt[i - 1] && r[j] == rt[j - 1]);
                } else if i == 0 {
                    assert(r[j] == rt[j - 1]);
                    if r[i] == r[j] {
                        assert(rt.contains(names[0]));
                        let m = choose|m: int| 0 <= m < t.len() && t[m] == names[0];
                        assert(names[m + 1] == names[0]);
                    }
                } else {
                    assert(r[i] == rt[i - 1]);
                    if r[i] == r[j] {
                        assert(rt.contains(names[0]));
                        let m = choose|m: int| 0 <= m < t.len() && t[m] == names[0];
                        assert(names[m + 1] == names[0]);
                    }
                }
            }
            assert forall|x: Seq<char>| #[trigger] r.contains(x) <==> (names.contains(x) && x != k) by {
                if r.contains(x) {
                    let j = choose|j: int| 0 <= j < r.len() && r[j] == x;
                    if j > 0 {
                        assert(rt[j - 1] == x);
                        assert(rt.contains(x));
                        assert(t.contains(x));
                        let m = choose|m: int| 0 <= m < t.len() && t[m] == x;
                        assert(names[m + 1] == x);
                    } else {
                        assert(names[0] == x);
                    }
                }
                if names.contains(x) && x != k {
                    let j = choose|j: int| 0 <= j < names.len() && names[j] == x;
                    if j == 0 {
                        assert(r[0] == x);
                    } else {
                        assert(t[j - 1] == x);
                        assert(t.contains(x));
                        assert(rt.contains(x));
                        let m = choose|m: int| 0 <= m < rt.len() && rt[m] == x;
                        assert(r[m + 1] == x);
                    }
                }
            }
        }
    }
}

/// The columns of a page of items name every attribute of every item, each
/// exactly once, and no other; `_id`, when some item has it, comes first.
pub proof fn lemma_columns_cover_attributes(items: Seq<Seq<(Seq<char>, AttrView)>>)
    ensures
        column_order(field_names_of(items)).no_duplicates(),
        forall|x: Seq<char>| #[trigger] column_order(field_names_of(items)).contains(x) <==> exists|i: int|
            0 <= i < items.len() && item_keys(items[i]).contains(x),
        (exists|i: int| 0 <= i < items.len() && item_keys(items[i]).contains("_id"@)) ==> column_order(
            field_names_of(items),
        )[0] == "_id"@,
{
    lemma_field_names(items);
    let names = field_names_of(items);
    if names.contains("_id"@) {
        lemma_without_first(names, "_id"@);
        let w = without_first(names, "_id"@);
        let r = seq!["_id"@] + w;
        assert forall|i: int, j: int| 0 <= i < r.len() && 0 <= j < r.len() && i != j implies r[i] != r[j] by {
            if i > 0 && j > 0 {
                assert(r[i] == w[i - 1] && r[j] == w[j - 1]);
            } else if i == 0 {
                assert(r[j] == w[j - 1]);
                assert(w.contains(r[j]));
            } else {
                assert(r[i] == w[i - 1]);
                assert(w.contains(r[i]));
            }
        }
        assert forall|x: Seq<char>| #[trigger] r.contains(x) <==> names.contains(x) by {
            if r.contains(x) {
                let j = choose|j: int| 0 <= j < r.len() && r[j] == x;
                if j > 0 {
                    assert(w[j - 1] == x);
                    assert(w.contains(x));
                }
            }
            if names.contains(x) {
                if x == "_id"@ {
                    assert(r[0] == x);
                } else {
                    assert(w.contains(x));
                    let m = choose|m: int| 0 <= m < w.len() && w[m] == x;
                    assert(r[m + 1] == x);
                }
            }
        }
    }
}

} // verus!
