use dbflux::dynamo::values::{CellValue, ColumnMeta, QueryResult};
use dbflux::json::{JsonNumber, JsonValue};
use dbflux::query_json::{mutation_preview_json, serialize_query_result, value_to_json};

fn text(s: &str) -> JsonValue {
    JsonValue::Str(s.to_string())
}

fn object(members: Vec<(&str, JsonValue)>) -> JsonValue {
    JsonValue::Object(members.into_iter().map(|(k, v)| (k.to_string(), v)).collect())
}

fn same(a: &JsonValue, b: &JsonValue) {
    assert_eq!(format!("{:?}", a), format!("{:?}", b));
}

fn column(name: &str) -> ColumnMeta {
    ColumnMeta { name: name.to_string(), data_type: "text".to_string(), nullable: true }
}

#[test]
fn cells_become_the_json_values_they_show() {
    same(&value_to_json(&CellValue::Null), &JsonValue::Null);
    same(&value_to_json(&CellValue::Bool(true)), &JsonValue::Bool(true));
    same(&value_to_json(&CellValue::Int(42)), &JsonValue::Number(JsonNumber::PosInt(42)));
    same(&value_to_json(&CellValue::Int(-7)), &JsonValue::Number(JsonNumber::NegInt(-7)));
    same(&value_to_json(&CellValue::Decimal("9.50".to_string())), &text("9.50"));
    same(&value_to_json(&CellValue::Unsupported("Geometry".to_string())), &text("Geometry"));
    same(
        &value_to_json(&CellValue::Bytes(vec![1, 2, 3])),
        &object(vec![("_type", text("bytes")), ("length", JsonValue::Number(JsonNumber::PosInt(3)))]),
    );
    let nested = CellValue::Document(vec![
        ("a".to_string(), CellValue::Array(vec![CellValue::Int(1), CellValue::Text("x".to_string())])),
        ("b".to_string(), CellValue::Null),
    ]);
    same(
        &value_to_json(&nested),
        &object(vec![
            ("a", JsonValue::Array(vec![JsonValue::Number(JsonNumber::PosInt(1)), text("x")])),
            ("b", JsonValue::Null),
        ]),
    );
}

#[test]
fn results_carry_columns_rows_and_their_count() {
    let result = QueryResult {
        columns: vec![column("id"), column("name")],
        rows: vec![
            vec![CellValue::Int(1), CellValue::Text("ada".to_string())],
            vec![CellValue::Int(2)],
        ],
        affected_rows: None,
    };
    same(
        &serialize_query_result(&result),
        &object(vec![
            ("columns", JsonValue::Array(vec![text("id"), text("name")])),
            (
                "rows",
                JsonValue::Array(vec![
                    object(vec![("id", JsonValue::Number(JsonNumber::PosInt(1))), ("name", text("ada"))]),
                    object(vec![("id", JsonValue::Number(JsonNumber::PosInt(2)))]),
                ]),
            ),
            ("row_count", JsonValue::Number(JsonNumber::PosInt(2))),
        ]),
    );
}

#[test]
fn previews_say_the_mutation_did_not_run() {
    let plan = QueryResult { columns: vec![column("plan")], rows: vec![vec![CellValue::Text("Seq Scan".to_string())]], affected_rows: None };
    match mutation_preview_json(&plan) {
        JsonValue::Object(members) => {
            assert_eq!(members.len(), 2);
            assert_eq!(members[0].0, "preview");
            same(&members[0].1, &serialize_query_result(&plan));
            assert_eq!(members[1].0, "note");
            same(&members[1].1, &text("This is an execution plan preview — the mutation was NOT executed."));
        }
        other => panic!("unexpected {:?}", other),
    }
}
