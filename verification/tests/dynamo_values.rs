use dbflux::dynamo::attr::{json_to_attr, AttrValue};
use dbflux::dynamo::values::{
    attribute_value_to_value, crud_result_to_query_result, items_to_query_result, CellValue, CrudResult,
};
use dbflux::json::{JsonNumber, JsonValue};
use dbflux::text::parse_i64;

fn text(s: &str) -> JsonValue {
    JsonValue::Str(s.to_string())
}

fn object(members: Vec<(&str, JsonValue)>) -> JsonValue {
    JsonValue::Object(members.into_iter().map(|(k, v)| (k.to_string(), v)).collect())
}

fn field<'a>(fields: &'a [(String, CellValue)], name: &str) -> Option<&'a CellValue> {
    fields.iter().find(|(k, _)| k == name).map(|(_, v)| v)
}

#[test]
fn attribute_value_conversion_round_trips_nested_json_shapes() {
    let document = object(vec![
        ("pk", text("USER#1")),
        ("count", JsonValue::Number(JsonNumber::PosInt(42))),
        ("active", JsonValue::Bool(true)),
        ("tags", JsonValue::Array(vec![text("a"), text("b")])),
        (
            "meta",
            object(vec![
                ("score", JsonValue::Number(JsonNumber::Float("9.5".to_string()))),
                ("flags", JsonValue::Array(vec![JsonValue::Bool(true), JsonValue::Bool(false), JsonValue::Null])),
            ]),
        ),
    ]);

    let attribute_value = json_to_attr(&document);
    let converted = attribute_value_to_value(&attribute_value);

    match converted {
        CellValue::Document(map) => {
            assert!(field(&map, "pk").is_some());
            assert!(field(&map, "count").is_some());
            assert!(field(&map, "meta").is_some());
        }
        other => panic!("expected document value, got {other:?}"),
    }

    let av_map = AttrValue::M(vec![
        ("pk".to_string(), AttrValue::S("USER#1".to_string())),
        ("count".to_string(), AttrValue::N("42".to_string())),
        ("meta".to_string(), AttrValue::M(vec![("flag".to_string(), AttrValue::Bool(true))])),
    ]);

    let converted_map = attribute_value_to_value(&av_map);
    match converted_map {
        CellValue::Document(map) => {
            assert!(matches!(field(&map, "pk"), Some(CellValue::Text(t)) if t == "USER#1"));
            assert!(matches!(field(&map, "count"), Some(CellValue::Int(42))));
        }
        other => panic!("expected document value, got {other:?}"),
    }
}

#[test]
fn documents_keep_fields_in_key_order_with_the_last_entry_winning() {
    let map = AttrValue::M(vec![
        ("zeta".to_string(), AttrValue::S("z".to_string())),
        ("alpha".to_string(), AttrValue::S("first".to_string())),
        ("Beta".to_string(), AttrValue::Bool(false)),
        ("alpha".to_string(), AttrValue::S("second".to_string())),
    ]);
    match attribute_value_to_value(&map) {
        CellValue::Document(fields) => {
            let names: Vec<&str> = fields.iter().map(|(k, _)| k.as_str()).collect();
            assert_eq!(names, vec!["Beta", "alpha", "zeta"]);
            assert!(matches!(field(&fields, "alpha"), Some(CellValue::Text(t)) if t == "second"));
        }
        other => panic!("expected document value, got {other:?}"),
    }
}

#[test]
fn numbers_sets_and_binary_become_cells() {
    assert!(matches!(attribute_value_to_value(&AttrValue::N("-17".to_string())), CellValue::Int(-17)));
    assert!(matches!(attribute_value_to_value(&AttrValue::N("9.5".to_string())), CellValue::Decimal(t) if t == "9.5"));
    assert!(matches!(
        attribute_value_to_value(&AttrValue::N("9223372036854775808".to_string())),
        CellValue::Decimal(t) if t == "9223372036854775808"
    ));
    assert!(matches!(attribute_value_to_value(&AttrValue::Null(true)), CellValue::Null));
    assert!(matches!(attribute_value_to_value(&AttrValue::Null(false)), CellValue::Unsupported(t) if t == "Null(false)"));
    assert!(matches!(attribute_value_to_value(&AttrValue::B(vec![1, 2])), CellValue::Bytes(b) if b == vec![1, 2]));
    match attribute_value_to_value(&AttrValue::Ns(vec!["1".to_string(), "2.5".to_string()])) {
        CellValue::Array(items) => {
            assert!(matches!(items[0], CellValue::Int(1)));
            assert!(matches!(&items[1], CellValue::Decimal(t) if t == "2.5"));
        }
        other => panic!("expected array, got {other:?}"),
    }
    match attribute_value_to_value(&AttrValue::Ss(vec!["x".to_string()])) {
        CellValue::Array(items) => assert!(matches!(&items[0], CellValue::Text(t) if t == "x")),
        other => panic!("expected array, got {other:?}"),
    }
    match attribute_value_to_value(&AttrValue::Bs(vec![vec![7]])) {
        CellValue::Array(items) => assert!(matches!(&items[0], CellValue::Bytes(b) if b == &vec![7])),
        other => panic!("expected array, got {other:?}"),
    }
}

#[test]
fn i64_parsing_follows_the_standard_grammar() {
    assert_eq!(parse_i64("42"), Some(42));
    assert_eq!(parse_i64("+42"), Some(42));
    assert_eq!(parse_i64("-9223372036854775808"), Some(i64::MIN));
    assert_eq!(parse_i64("9223372036854775807"), Some(i64::MAX));
    assert_eq!(parse_i64("9223372036854775808"), None);
    assert_eq!(parse_i64("-"), None);
    assert_eq!(parse_i64("-+1"), None);
    assert_eq!(parse_i64(""), None);
    assert_eq!(parse_i64("1e3"), None);
}

#[test]
fn item_pages_become_rows_with_id_first() {
    let items = vec![
        vec![
            ("name".to_string(), AttrValue::S("a".to_string())),
            ("_id".to_string(), AttrValue::S("1".to_string())),
            ("age".to_string(), AttrValue::N("30".to_string())),
        ],
        vec![("zip".to_string(), AttrValue::S("z".to_string())), ("name".to_string(), AttrValue::S("b".to_string()))],
    ];
    let result = items_to_query_result(&items);
    let columns: Vec<&str> = result.columns.iter().map(|c| c.name.as_str()).collect();
    assert_eq!(columns, vec!["_id", "age", "name", "zip"]);
    assert!(result.columns.iter().all(|c| c.data_type == "DynamoDB" && c.nullable));
    assert_eq!(result.rows.len(), 2);
    assert!(matches!(&result.rows[0][0], CellValue::Text(t) if t == "1"));
    assert!(matches!(result.rows[0][1], CellValue::Int(30)));
    assert!(matches!(result.rows[0][3], CellValue::Null));
    assert!(matches!(result.rows[1][0], CellValue::Null));
    assert!(matches!(&result.rows[1][3], CellValue::Text(t) if t == "z"));
    assert_eq!(result.affected_rows, None);

    let empty = items_to_query_result(&Vec::new());
    assert!(empty.columns.is_empty() && empty.rows.is_empty());
}

#[test]
fn writes_report_only_their_count() {
    let result = crud_result_to_query_result(CrudResult { affected_rows: 3 });
    assert!(result.columns.is_empty());
    assert!(result.rows.is_empty());
    assert_eq!(result.affected_rows, Some(3));
}
