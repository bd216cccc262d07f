use dbflux::dynamo::envelope::{parse_command_envelope, unsupported_command_message, DynamoCommandEnvelope};
use dbflux::dynamo::generator::{
    DocumentDelete, DocumentFilter, DocumentInsert, DocumentUpdate, DynamoQueryGenerator, MutationRequest,
};
use dbflux::error::DbError;
use dbflux::json::JsonValue;

fn object(members: Vec<(&str, &str)>) -> JsonValue {
    JsonValue::Object(members.into_iter().map(|(k, v)| (k.to_string(), JsonValue::Str(v.to_string()))).collect())
}

#[test]
fn parse_scan_envelope_with_optional_fields() {
    let envelope = parse_command_envelope(
        r#"{"op":"scan","database":"dynamodb","table":"users","filter":{"pk":"A"},"limit":25,"offset":10}"#,
    )
    .expect("scan envelope should parse");

    match envelope {
        DynamoCommandEnvelope::Scan { database, table, filter, limit, offset } => {
            assert_eq!(database.as_deref(), Some("dynamodb"));
            assert_eq!(table, "users");
            assert!(filter.is_some());
            assert_eq!(limit, Some(25));
            assert_eq!(offset, Some(10));
        }
        other => panic!("expected scan envelope, got {other:?}"),
    }
}

#[test]
fn parse_put_update_delete_envelopes() {
    let put = parse_command_envelope(r#"{"op":"put","table":"users","item":{"pk":"A","name":"Alice"}}"#)
        .expect("put envelope should parse");
    assert!(matches!(put, DynamoCommandEnvelope::Put { .. }));

    let update =
        parse_command_envelope(r#"{"op":"update","table":"users","key":{"pk":"A"},"update":{"name":"Bob"}}"#)
            .expect("update envelope should parse");
    assert!(matches!(update, DynamoCommandEnvelope::Update { .. }));

    let delete = parse_command_envelope(r#"{"op":"delete","table":"users","key":{"pk":"A"}}"#)
        .expect("delete envelope should parse");
    assert!(matches!(delete, DynamoCommandEnvelope::Delete { .. }));
}

#[test]
fn malformed_json_maps_to_syntax_error() {
    let error = parse_command_envelope("{not-json").expect_err("invalid json must fail");
    assert!(matches!(error, DbError::SyntaxError(_)));
}

#[test]
fn unsupported_op_maps_to_not_supported() {
    let error = parse_command_envelope(r#"{"op":"batch_write","table":"users"}"#).expect_err("unsupported op must fail");
    match error {
        DbError::NotSupported(message) => assert_eq!(message, unsupported_command_message("batch_write")),
        other => panic!("expected NotSupported, got {other:?}"),
    }
}

#[test]
fn invalid_or_unknown_fields_map_to_validation_errors() {
    let missing_table = parse_command_envelope(r#"{"op":"scan"}"#).expect_err("missing field should fail");
    assert!(matches!(missing_table, DbError::QueryFailed(_)));

    let wrong_limit = parse_command_envelope(r#"{"op":"scan","table":"users","limit":"twenty"}"#)
        .expect_err("wrong type should fail");
    assert!(matches!(wrong_limit, DbError::QueryFailed(_)));

    let unknown_field = parse_command_envelope(r#"{"op":"put","table":"users","item":{"pk":"A"},"foo":1}"#)
        .expect_err("unknown field should fail");
    assert!(matches!(unknown_field, DbError::QueryFailed(_)));
}

#[test]
fn generated_insert_update_delete_envelopes_are_parseable() {
    let generator = DynamoQueryGenerator;

    let insert = MutationRequest::DocumentInsert(DocumentInsert {
        collection: "users".to_string(),
        database: None,
        documents: vec![object(vec![("pk", "U#1"), ("name", "alice")])],
    });
    let insert_query = generator.generate_mutation(&insert).expect("insert envelope should be generated");
    parse_command_envelope(&insert_query.text).expect("insert envelope should be parseable");

    let update = MutationRequest::DocumentUpdate(DocumentUpdate {
        collection: "users".to_string(),
        database: None,
        filter: DocumentFilter { filter: object(vec![("pk", "U#1")]) },
        update: object(vec![("name", "bob")]),
        many: false,
        upsert: false,
    });
    let update_query = generator.generate_mutation(&update).expect("update envelope should be generated");
    parse_command_envelope(&update_query.text).expect("update envelope should be parseable");

    let delete = MutationRequest::DocumentDelete(DocumentDelete {
        collection: "users".to_string(),
        database: None,
        filter: DocumentFilter { filter: object(vec![("pk", "U#1")]) },
        many: false,
    });
    let delete_query = generator.generate_mutation(&delete).expect("delete envelope should be generated");
    parse_command_envelope(&delete_query.text).expect("delete envelope should be parseable");
}
