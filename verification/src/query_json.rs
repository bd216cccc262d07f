//! Query results as the MCP server answers them: JSON documents of columns,
//! rows and a row count, each cell turned into the JSON value it shows.
use vstd::prelude::*;
use crate::dynamo::values::{CellValue, CellView, QueryResult, view_values, view_fields, lemma_view_values};
use crate::dynamo::attr::{attr_of_json, attr_list_of_json};
use crate::dynamo::values::{value_of_attr, values_of_attrs};
use crate::json::{JNum, JValue, JsonNumber, JsonValue, view_items, view_members, lemma_view_items, lemma_view_members};

verus! {

/// The JSON value a cell shows: null, booleans and integers as themselves;
/// decimal, text and unsupported values as strings; bytes as an object
/// naming their type and length; arrays item for item; documents field for
/// field, in the document's order.
pub open spec fn cell_json(v: CellView) -> JValue
    decreases v,
{
    match v {
        CellView::Null => JValue::Null,
        CellView::Bool(b) => JValue::Bool(b),
        CellView::Int(i) => if i >= 0 {
            JValue::Number(JNum::PosInt(i as nat))
        } else {
            JValue::Number(JNum::NegInt(i))
        },
        CellView::Decimal(s) => JValue::Str(s),
        CellView::Text(s) => JValue::Str(s),
        CellView::Unsupported(s) => JValue::Str(s),
        CellView::Bytes(b) => JValue::Object(seq![
            ("_type"@, JValue::Str("bytes"@)),
            ("length"@, JValue::Number(JNum::PosInt(b.len()))),
        ]),
        CellView::Array(items) => JValue::Array(cells_json(items)),
        CellView::Document(fields) => JValue::Object(fields_json(fields)),
    }
}

pub open spec fn cells_json(items: Seq<CellView>) -> Seq<JValue>
    decreases items,
{
    if items.len() == 0 {
        Seq::empty()
    } else {
        cells_json(items.drop_last()).push(cell_json(items.last()))
    }
}

pub open spec fn fields_json(fields: Seq<(Seq<char>, CellView)>) -> Seq<(Seq<char>, JValue)>
    decreases fields,
{
    if fields.len() == 0 {
        Seq::empty()
    } else {
        fields_json(fields.drop_last()).push((fields.last().0, cell_json(fields.last().1)))
    }
}

/// One row as a JSON object: each column's name with the cell under it, as
/// far as both the columns and the row reach.
pub open spec fn row_json(columns: Seq<Seq<char>>, row: Seq<CellView>) -> JValue {
    let n = if columns.len() <= row.len() { columns.len() } else { row.len() };
    JValue::Object(Seq::new(n, |i: int| (columns[i], cell_json(row[i]))))
}

/// A query result as JSON: its column names, its rows and how many rows it has.
pub open spec fn query_result_json(columns: Seq<Seq<char>>, rows: Seq<Seq<CellView>>) -> JValue {
    JValue::Object(seq![
        ("columns"@, JValue::Array(columns.map_values(|c: Seq<char>| JValue::Str(c)))),
        ("rows"@, JValue::Array(Seq::new(rows.len(), |i: int| row_json(columns, rows[i])))),
        ("row_count"@, JValue::Number(JNum::PosInt(rows.len()))),
    ])
}

/// The column names of a result, in order.
pub open spec fn column_names(result: &QueryResult) -> Seq<Seq<char>> {
    result.columns@.map_values(|c: crate::dynamo::values::ColumnMeta| c.name@)
}

/// The rows of a result, each as the views of its cells.
pub open spec fn row_views(result: &QueryResult) -> Seq<Seq<CellView>> {
    result.rows@.map_values(|r: Vec<CellValue>| view_values(r@))
}

/// The JSON value a cell shows (see `cell_json`).
#[verifier::loop_isolation(false)]
pub fn value_to_json(value: &CellValue) -> (r: JsonValue)
    ensures
        r@ == cell_json(value@),
    decreases value,
{
    match value {
        CellValue::Null => JsonValue::Null,
        CellValue::Bool(b) => JsonValue::Bool(*b),
        CellValue::Int(i) => if *i >= 0 {
            JsonValue::Number(JsonNumber::PosInt(*i as u64))
        } else {
            JsonValue::Number(JsonNumber::NegInt(*i))
        },
        CellValue::Decimal(s) => JsonValue::Str(s.clone()),
        CellValue::Text(s) => JsonValue::Str(s.clone()),
        CellValue::Unsupported(s) => JsonValue::Str(s.clone()),
        CellValue::Bytes(b) => {
            let mut members: Vec<(String, JsonValue)> = Vec::new();
            members.push((String::from_str("_type"), JsonValue::Str(String::from_str("bytes"))));
            members.push((String::from_str("length"), JsonValue::Number(JsonNumber::PosInt(b.len() as u64))));
            proof {
                lemma_view_members(members@);
                assert(view_members(members@) =~= seq![
                    ("_type"@, JValue::Str("bytes"@)),
                    ("length"@, JValue::Number(JNum::PosInt(b@.len()))),
                ]);
            }
            JsonValue::Object(members)
        },
        CellValue::Array(items) => {
            let mut out: Vec<JsonValue> = Vec::new();
            let mut i: usize = 0;
            while i < items.len()
                invariant
                    i <= items.len(),
                    view_items(out@) == cells_json(view_values(items@.subrange(0, i as int))),
                decreases items.len() - i,
            {
                proof {
                    assert(decreases_to!(*value => value->Array_0));
                    assert(decreases_to!(*items => items@));
                    assert(decreases_to!(items@ => items@[i as int]));
                }
                let c = value_to_json(&items[i]);
                let ghost before = out@;
                out.push(c);
                proof {
                    assert(out@.drop_last() =~= before);
                    let pre = items@.subrange(0, i as int);
                    let cur = items@.subrange(0, i + 1);
                    assert(cur.drop_last() =~= pre);
                    let vx = view_values(pre);
                    assert(view_values(cur) == vx.push(items@[i as int]@));
                    assert(vx.push(items@[i as int]@).drop_last() =~= vx);
                    assert(cells_json(vx.push(items@[i as int]@)) == cells_json(vx).push(cell_json(items@[i as int]@)));
                }
                i = i + 1;
            }
            assert(items@.subrange(0, items@.len() as int) =~= items@);
            JsonValue::Array(out)
        },
        CellValue::Document(fields) => {
            let mut out: Vec<(String, JsonValue)> = Vec::new();
            let mut i: usize = 0;
            while i < fields.len()
                invariant
                    i <= fields.len(),
                    view_members(out@) == fields_json(view_fields(fields@.subrange(0, i as int))),
                decreases fields.len() - i,
            {
                proof {
                    assert(decreases_to!(*value => value->Document_0));
                    assert(decreases_to!(*fields => fields@));
                    assert(decreases_to!(fields@ => fields@[i as int]));
                    assert(decreases_to!(fields@[i as int] => fields@[i as int].1));
                }
                let c = value_to_json(&fields[i].1);
                let k = fields[i].0.clone();
                let ghost before = out@;
                out.push((k, c));
                proof {
                    assert(out@.drop_last() =~= before);
                    let pre = fields@.subrange(0, i as int);
                    let cur = fields@.subrange(0, i + 1);
                    assert(cur.drop_last() =~= pre);
                    let vx = view_fields(pre);
                    let e = (fields@[i as int].0@, fields@[i as int].1@);
                    assert(view_fields(cur) == vx.push(e));
                    assert(vx.push(e).drop_last() =~= vx);
                    assert(fields_json(vx.push(e)) == fields_json(vx).push((e.0, cell_json(e.1))));
                }
                i = i + 1;
            }
            assert(fields@.subrange(0, fields@.len() as int) =~= fields@);
            JsonValue::Object(out)
        },
    }
}

fn row_to_json(names: &Vec<String>, row: &Vec<CellValue>) -> (r: JsonValue)
    ensures
        r@ == row_json(names@.map_values(|s: String| s@), view_values(row@)),
{
    let ghost cols = names@.map_values(|s: String| s@);
    let ghost cells = view_values(row@);
    proof {
        lemma_view_values(row@);
    }
    let n = if names.len() <= row.len() { names.len() } else { row.len() };
    let mut out: Vec<(String, JsonValue)> = Vec::new();
    let mut i: usize = 0;
    while i < n
        invariant
            i <= n,
            n <= names.len(),
            n <= row.len(),
            cols == names@.map_values(|s: String| s@),
            cells == view_values(row@),
            cells.len() == row.len(),
            forall|k: int| 0 <= k < row.len() ==> #[trigger] cells[k] == row@[k]@,
            out.len() == i,
            forall|k: int| 0 <= k < i ==> (#[trigger] out@[k]).0@ == cols[k] && out@[k].1@ == cell_json(cells[k]),
        decreases n - i,
    {
        let c = value_to_json(&row[i]);
        out.push((names[i].clone(), c));
        i = i + 1;
    }
    proof {
        lemma_view_members(out@);
        assert(view_members(out@) =~= Seq::new(n as nat, |k: int| (cols[k], cell_json(cells[k]))));
    }
    JsonValue::Object(out)
}

/// A query result as the MCP server answers it (see `query_result_json`).
pub fn serialize_query_result(result: &QueryResult) -> (r: JsonValue)
    ensures
        r@ == query_result_json(column_names(result), row_views(result)),
{
    let ghost cols = column_names(result);
    let ghost rows = row_views(result);
    let mut names: Vec<String> = Vec::new();
    let mut column_items: Vec<JsonValue> = Vec::new();
    let mut i: usize = 0;
    while i < result.columns.len()
        invariant
            i <= result.columns.len(),
            cols == column_names(result),
            names.len() == i,
            column_items.len() == i,
            forall|k: int| 0 <= k < i ==> (#[trigger] names@[k])@ == result.columns@[k].name@,
            forall|k: int| 0 <= k < i ==> (#[trigger] column_items@[k])@ == JValue::Str(result.columns@[k].name@),
        decreases result.columns.len() - i,
    {
        names.push(result.columns[i].name.clone());
        column_items.push(JsonValue::Str(result.columns[i].name.clone()));
        i = i + 1;
    }
    assert(names@.map_values(|s: String| s@) =~= cols);
    let mut row_items: Vec<JsonValue> = Vec::new();
    let mut j: usize = 0;
    while j < result.rows.len()
        invariant
            j <= result.rows.len(),
            cols == column_names(result),
            rows == row_views(result),
            names@.map_values(|s: String| s@) == cols,
            row_items.len() == j,
            forall|k: int| 0 <= k < j ==> (#[trigger] row_items@[k])@ == row_json(cols, rows[k]),
        decreases result.rows.len() - j,
    {
        let item = row_to_json(&names, &result.rows[j]);
        row_items.push(item);
        j = j + 1;
    }
    let count = result.rows.len() as u64;
    proof {
        lemma_view_items(column_items@);
        lemma_view_items(row_items@);
        assert(view_items(column_items@) =~= cols.map_values(|c: Seq<char>| JValue::Str(c)));
        assert(view_items(row_items@) =~= Seq::new(rows.len(), |k: int| row_json(cols, rows[k])));
    }
    let mut members: Vec<(String, JsonValue)> = Vec::new();
    members.push((String::from_str("columns"), JsonValue::Array(column_items)));
    members.push((String::from_str("rows"), JsonValue::Array(row_items)));
    members.push((String::from_str("row_count"), JsonValue::Number(JsonNumber::PosInt(count))));
    proof {
        lemma_view_members(members@);
        assert(view_members(members@) =~= seq![
            ("columns"@, JValue::Array(cols.map_values(|c: Seq<char>| JValue::Str(c)))),
            ("rows"@, JValue::Array(Seq::new(rows.len(), |k: int| row_json(cols, rows[k])))),
            ("row_count"@, JValue::Number(JNum::PosInt(rows.len()))),
        ]);
    }
    JsonValue::Object(members)
}

/// The answer to a mutation preview: the execution plan, and a note that
/// the mutation did not run.
pub fn mutation_preview_json(plan: &QueryResult) -> (r: JsonValue)
    ensures
        r@ == JValue::Object(seq![
            ("preview"@, query_result_json(column_names(plan), row_views(plan))),
            ("note"@, JValue::Str("This is an execution plan preview — the mutation was NOT executed."@)),
        ]),
{
    let preview = serialize_query_result(plan);
    let mut members: Vec<(String, JsonValue)> = Vec::new();
    members.push((String::from_str("preview"), preview));
    members.push((
        String::from_str("note"),
        JsonValue::Str(String::from_str("This is an execution plan preview — the mutation was NOT executed.")),
    ));
    proof {
        lemma_view_members(members@);
    }
    assert(view_members(members@) =~= seq![
        ("preview"@, query_result_json(column_names(plan), row_views(plan))),
        ("note"@, JValue::Str("This is an execution plan preview — the mutation was NOT executed."@)),
    ]);
    JsonValue::Object(members)
}

/// A JSON document built from nulls, booleans, strings and arrays of such.
pub open spec fn plain_json(v: JValue) -> bool
    decreases v,
{
    match v {
        JValue::Null => true,
        JValue::Bool(_) => true,
        JValue::Str(_) => true,
        JValue::Array(items) => plain_items(items),
        _ => false,
    }
}

pub open spec fn plain_items(items: Seq<JValue>) -> bool
    decreases items,
{
    if items.len() == 0 {
        true
    } else {
        plain_items(items.drop_last()) && plain_json(items.last())
    }
}

/// Storing a plain JSON document as a DynamoDB attribute, reading that back
/// as a result cell and answering it as JSON gives the document back:
/// nulls, booleans (each with its own value), strings and arrays of them
/// survive the round trip unchanged.
pub proof fn lemma_plain_json_round_trip(v: JValue)
    requires
        plain_json(v),
    ensures
        cell_json(value_of_attr(attr_of_json(v))) == v,
    decreases v,
{
    match v {
        JValue::Array(items) => {
            lemma_plain_items_round_trip(items);
        },
        _ => {},
    }
}

proof fn lemma_plain_items_round_trip(items: Seq<JValue>)
    requires
        plain_items(items),
    ensures
        cells_json(values_of_attrs(attr_list_of_json(items))) == items,
    decreases items,
{
    if items.len() > 0 {
        let init = items.drop_last();
        let last = items.last();
        lemma_plain_items_round_trip(init);
        lemma_plain_json_round_trip(last);
        let attrs = attr_list_of_json(items);
        assert(attrs == attr_list_of_json(init).push(attr_of_json(last)));
        assert(attrs.drop_last() =~= attr_list_of_json(init));
        let cells = values_of_attrs(attrs);
        assert(cells == values_of_attrs(attr_list_of_json(init)).push(value_of_attr(attr_of_json(last))));
        assert(cells.drop_last() =~= values_of_attrs(attr_list_of_json(init)));
        assert(cells_json(cells) =~= init.push(last));
        assert(init.push(last) =~= items);
    } else {
        assert(attr_list_of_json(items) =~= Seq::<crate::dynamo::attr::AttrView>::empty());
        assert(items =~= Seq::<JValue>::empty());
    }
}

/// A JSON boolean in an answer comes only from a boolean cell of the same
/// value, and every boolean cell answers as its own value.
pub proof fn lemma_booleans_keep_their_value(c: CellView, b: bool)
    ensures
        cell_json(c) == JValue::Bool(b) <==> c == CellView::Bool(b),
{
}

} // verus!
