use dbflux::dynamo::attr::AttrValue;
use dbflux::dynamo::driver::{
    append_window_items, endpoint_looks_local, is_supported_mvp_flow, is_unsupported_mvp_flow, normalize_table_names,
    profile_config, unsupported_mvp_message, DatabaseCategory, DriverCapabilities, DynamoDriver, DynamoProfileConfig,
    ReadWindow,
};
use dbflux::dynamo::errors::{classify_connection_error, classify_query_error, DynamoErrorFormatter, SdkFailure};
use dbflux::dynamo::items::{
    build_update_expression_from_json, decide_read_strategy, ensure_item_contains_required_keys,
    extract_key_map_from_filter, DynamoReadStrategy,
};
use dbflux::dynamo::keys::{
    build_table_info_from_description, extract_key_components, key_components_to_fields, key_components_to_indexes,
    key_schema_from_components, AttributeDefinition, DynamoKeyComponent, DynamoKeyRole, DynamoTableKeySchema, IndexData,
    KeySchemaElement, KeyType, ScalarAttributeType, TableDescription,
};
use dbflux::dynamo::service::{
    check_database, check_delete_document, check_insert_document, check_update_document, plan_execution,
    unsupported_non_mvp_operation, DangerousQueryKind, DynamoLanguageService, ExecutionPlan, QueryRequest,
    ValidationResult,
};
use dbflux::error::DbError;
use dbflux::json::{JsonNumber, JsonValue};
use dbflux::profile::{DbConfig, FormValues};

fn config(region: &str) -> DynamoProfileConfig {
    DynamoProfileConfig { region: region.to_string(), profile: None, endpoint: None, table: None }
}

fn text(s: &str) -> JsonValue {
    JsonValue::Str(s.to_string())
}

fn object(members: Vec<(&str, JsonValue)>) -> JsonValue {
    JsonValue::Object(members.into_iter().map(|(k, v)| (k.to_string(), v)).collect())
}

#[test]
fn metadata_uses_document_semantics_with_truthful_phase3_caps() {
    let metadata = DynamoDriver::new().metadata();
    assert_eq!(metadata.category, DatabaseCategory::Document);
    assert!(metadata.capabilities.contains(DriverCapabilities::authentication()));
    assert!(metadata.capabilities.contains(DriverCapabilities::insert()));
    assert!(metadata.capabilities.contains(DriverCapabilities::update()));
    assert!(metadata.capabilities.contains(DriverCapabilities::delete()));
}

#[test]
fn build_config_requires_region() {
    let driver = DynamoDriver::new();
    let values = FormValues::new();

    let error = driver.build_config(&values).expect_err("region should be required");

    match error {
        DbError::InvalidProfile(message) => {
            assert!(message.to_lowercase().contains("region"));
        }
        other => panic!("expected InvalidProfile error, got {other:?}"),
    }
}

#[test]
fn missing_credentials_error_is_actionable() {
    let formatter = DynamoErrorFormatter;
    let config = config("us-east-1");

    let formatted = formatter.format_sdk_message("No credentials found in credential chain", &config);
    let mapped = classify_connection_error(formatted);

    match mapped {
        DbError::ConnectionFailed(details) => {
            let hint = details.hint.unwrap_or_default();
            assert!(hint.to_lowercase().contains("credentials"));
        }
        other => panic!("expected ConnectionFailed, got {other:?}"),
    }
}

#[test]
fn invalid_region_validation_error_is_actionable() {
    let formatter = DynamoErrorFormatter;
    let config = config("invalid-region-1");

    let formatted =
        formatter.format_from_code(Some("ValidationException"), "Region must be a valid AWS region", &config);

    let mapped = classify_connection_error(formatted);

    match mapped {
        DbError::ConnectionFailed(details) => {
            assert_eq!(details.code.as_deref(), Some("ValidationException"));
            let hint = details.hint.unwrap_or_default();
            assert!(hint.to_lowercase().contains("region"));
        }
        other => panic!("expected ConnectionFailed, got {other:?}"),
    }
}

#[test]
fn auth_failure_codes_map_to_auth_failed_for_connection_flows() {
    let formatter = DynamoErrorFormatter;
    let config = config("us-east-1");

    let formatted = formatter.format_from_code(
        Some("UnrecognizedClientException"),
        "The security token included in the request is invalid",
        &config,
    );

    let mapped = classify_connection_error(formatted);

    match mapped {
        DbError::AuthFailed(details) => {
            assert_eq!(details.code.as_deref(), Some("UnrecognizedClientException"));
        }
        other => panic!("expected AuthFailed, got {other:?}"),
    }
}

#[test]
fn auth_failure_codes_map_to_auth_failed_for_query_flows() {
    let formatter = DynamoErrorFormatter;
    let config = config("us-east-1");

    let formatted = formatter.format_from_code(
        Some("ExpiredTokenException"),
        "The security token included in the request is expired",
        &config,
    );

    let mapped = classify_query_error(formatted);

    match mapped {
        DbError::AuthFailed(details) => {
            assert_eq!(details.code.as_deref(), Some("ExpiredTokenException"));
        }
        other => panic!("expected AuthFailed, got {other:?}"),
    }
}

#[test]
fn table_discovery_is_sorted_and_deduplicated() {
    let input = vec!["z".to_string(), "a".to_string(), "m".to_string(), "a".to_string()];
    let output = normalize_table_names(input).expect("normalization should succeed");
    assert_eq!(output, vec!["a".to_string(), "m".to_string(), "z".to_string()]);
}

#[test]
fn key_metadata_supports_partition_only_and_partition_sort_tables() {
    let partition_only = vec![DynamoKeyComponent {
        name: "pk".to_string(),
        role: DynamoKeyRole::Partition,
        attribute_type: "S".to_string(),
    }];

    let fields = key_components_to_fields(&partition_only).expect("fields should be present");
    assert_eq!(fields.len(), 1);
    assert!(fields[0].common_type.contains("partition_key"));

    let partition_sort = vec![
        DynamoKeyComponent { name: "pk".to_string(), role: DynamoKeyRole::Partition, attribute_type: "S".to_string() },
        DynamoKeyComponent { name: "sk".to_string(), role: DynamoKeyRole::Sort, attribute_type: "N".to_string() },
    ];

    let indexes = key_components_to_indexes(&partition_sort).expect("indexes should be present");
    match indexes {
        IndexData::Document(doc_indexes) => {
            assert_eq!(doc_indexes.len(), 1);
            assert_eq!(doc_indexes[0].keys.len(), 2);
        }
    }
}

#[test]
fn browse_window_reports_continuation_on_partial_page() {
    let page_items = vec![1, 2, 3, 4, 5];
    let mut skip = 0;
    let mut collected = vec![1, 2];

    let has_more = append_window_items(&page_items, &mut skip, &mut collected, 4);

    assert!(has_more);
    assert_eq!(collected, vec![1, 2, 1, 2]);
}

#[test]
fn browse_window_final_page_has_no_continuation() {
    let page_items = vec![10, 11, 12];
    let mut skip = 1;
    let mut collected = Vec::new();

    let has_more = append_window_items(&page_items, &mut skip, &mut collected, 10);

    assert!(!has_more);
    assert_eq!(collected, vec![11, 12]);
    assert_eq!(skip, 0);
}

#[test]
fn unsupported_many_operations_are_not_supported_errors() {
    let error = unsupported_non_mvp_operation(
        "update_many_documents",
        "DynamoDB MVP does not support many-item update semantics.",
    );

    match error {
        DbError::NotSupported(message) => {
            assert!(message.contains("update_many_documents"));
        }
        other => panic!("expected NotSupported, got {other:?}"),
    }
}

#[test]
fn dangerous_detection_flags_update_and_delete_envelopes() {
    let service = DynamoLanguageService;

    let delete = service.detect_dangerous(r#"{"op":"delete","table":"users","key":{"pk":"1"}}"#);
    let update = service.detect_dangerous(r#"{"op":"update","table":"users","key":{"pk":"1"},"update":{"name":"A"}}"#);
    let put = service.detect_dangerous(r#"{"op":"put","table":"users","item":{"pk":"1"}}"#);

    assert_eq!(delete, Some(DangerousQueryKind::DeleteNoWhere));
    assert_eq!(update, Some(DangerousQueryKind::UpdateNoWhere));
    assert_eq!(put, None);
}

#[test]
fn key_filter_selects_query_strategy_and_missing_key_falls_back_to_scan() {
    let key_schema = DynamoTableKeySchema { partition_key: Some("pk".to_string()), sort_key: Some("sk".to_string()) };

    let filter = object(vec![("pk", text("A")), ("sk", JsonValue::Number(JsonNumber::PosInt(1)))]);
    let query_strategy = decide_read_strategy(Some(&filter), &key_schema).expect("strategy decision should succeed");
    match query_strategy {
        DynamoReadStrategy::Query(plan) => {
            assert_eq!(plan.key_condition_expression, "#pk = :pk AND #sk = :sk");
            assert_eq!(plan.expression_attribute_names.len(), 2);
            assert!(matches!(&plan.expression_attribute_values[1].1, AttrValue::N(n) if n == "1"));
        }
        other => panic!("expected query, got {other:?}"),
    }

    let other = object(vec![("other", text("A"))]);
    let scan_strategy = decide_read_strategy(Some(&other), &key_schema).expect("strategy decision should succeed");
    assert!(matches!(scan_strategy, DynamoReadStrategy::Scan));
    assert!(matches!(decide_read_strategy(None, &key_schema), Ok(DynamoReadStrategy::Scan)));
}

#[test]
fn put_requires_partition_key() {
    let key_schema = DynamoTableKeySchema { partition_key: Some("pk".to_string()), sort_key: None };

    let item = vec![("other".to_string(), AttrValue::S("x".to_string()))];
    let error = ensure_item_contains_required_keys(&item, &key_schema).expect_err("missing partition key should fail");

    assert!(error.to_display().to_ascii_lowercase().contains("partition key"));
}

#[test]
fn update_filter_requires_full_key_identity() {
    let key_schema = DynamoTableKeySchema { partition_key: Some("pk".to_string()), sort_key: Some("sk".to_string()) };

    let error = extract_key_map_from_filter(&object(vec![("pk", text("A"))]), &key_schema)
        .expect_err("missing sort key should fail");

    assert!(error.to_display().contains("sort key 'sk'"));
}

#[test]
fn update_expression_rejects_key_mutation() {
    let key_schema = DynamoTableKeySchema { partition_key: Some("pk".to_string()), sort_key: None };

    let error = build_update_expression_from_json(&object(vec![("$set", object(vec![("pk", text("new"))]))]), &key_schema)
        .expect_err("updating partition key should fail");

    assert!(error.to_display().contains("cannot be updated"));
}

#[test]
fn update_expression_numbers_each_field() {
    let key_schema = DynamoTableKeySchema { partition_key: Some("pk".to_string()), sort_key: None };
    let update = object(vec![("name", text("bob")), ("age", JsonValue::Number(JsonNumber::NegInt(-3)))]);
    let (expression, names, values) = build_update_expression_from_json(&update, &key_schema).expect("valid update");
    assert_eq!(expression, "SET #u0 = :v0, #u1 = :v1");
    assert_eq!(names, vec![("#u0".to_string(), "name".to_string()), ("#u1".to_string(), "age".to_string())]);
    assert!(matches!(&values[1].1, AttrValue::N(n) if n == "-3"));

    let operator = object(vec![("$inc", object(vec![("n", JsonValue::Null)]))]);
    match build_update_expression_from_json(&operator, &key_schema) {
        Err(DbError::NotSupported(message)) => assert!(message.contains("'$inc'")),
        other => panic!("expected NotSupported, got {other:?}"),
    }
    assert!(build_update_expression_from_json(&object(vec![]), &key_schema).is_err());
    assert!(build_update_expression_from_json(&text("x"), &key_schema).is_err());
}

#[test]
fn key_map_names_partition_and_sort_values() {
    let key_schema = DynamoTableKeySchema { partition_key: Some("pk".to_string()), sort_key: Some("sk".to_string()) };
    let filter = object(vec![("sk", JsonValue::Bool(true)), ("pk", text("A")), ("extra", JsonValue::Null)]);
    let key = extract_key_map_from_filter(&filter, &key_schema).expect("full key");
    assert_eq!(key.len(), 2);
    assert_eq!(key[0].0, "pk");
    assert!(matches!(&key[0].1, AttrValue::S(s) if s == "A"));
    assert!(matches!(key[1].1, AttrValue::Bool(true)));
    let no_partition = DynamoTableKeySchema { partition_key: None, sort_key: None };
    assert!(extract_key_map_from_filter(&filter, &no_partition).is_err());
}

#[test]
fn describe_mapping_includes_partition_and_sort_key_metadata() {
    let description = TableDescription {
        key_schema: vec![
            KeySchemaElement { attribute_name: "pk".to_string(), key_type: KeyType::Hash },
            KeySchemaElement { attribute_name: "sk".to_string(), key_type: KeyType::Range },
        ],
        attribute_definitions: vec![
            AttributeDefinition { attribute_name: "pk".to_string(), attribute_type: ScalarAttributeType::S },
            AttributeDefinition { attribute_name: "sk".to_string(), attribute_type: ScalarAttributeType::N },
        ],
    };
    let table_info = build_table_info_from_description("users", "dynamodb", &description);
    let fields = table_info.sample_fields.expect("sample fields should include key metadata");
    assert_eq!(fields.len(), 2);
    assert_eq!(fields[1].common_type, "N (sort_key)");
    match table_info.indexes.expect("indexes should include primary key metadata") {
        IndexData::Document(doc_indexes) => {
            assert_eq!(doc_indexes[0].name, "PRIMARY");
            assert_eq!(doc_indexes[0].keys.len(), 2);
        }
    }

    let components = extract_key_components(&description.key_schema, &description.attribute_definitions);
    let schema = key_schema_from_components(&components);
    assert_eq!(schema.partition_key.as_deref(), Some("pk"));
    assert_eq!(schema.sort_key.as_deref(), Some("sk"));
}

#[test]
fn empty_discovery_path_returns_empty_collection_semantics() {
    let description = TableDescription { key_schema: vec![], attribute_definitions: vec![] };
    let table_info = build_table_info_from_description("users", "dynamodb", &description);

    assert_eq!(table_info.name, "users");
    assert!(table_info.sample_fields.is_none());
    assert!(table_info.indexes.is_none());
}

#[test]
fn mvp_flow_catalogue() {
    assert!(is_supported_mvp_flow("execute_scan"));
    assert!(!is_supported_mvp_flow("dax"));
    assert!(is_unsupported_mvp_flow("dax"));
    assert!(!is_unsupported_mvp_flow("connect"));
    assert_eq!(
        unsupported_mvp_message("dax"),
        "Operation 'dax' is not supported in DynamoDB MVP. This workflow is outside the current MVP scope."
    );
}

#[test]
fn local_endpoints_are_recognised() {
    assert!(endpoint_looks_local("http://localhost:8000"));
    assert!(endpoint_looks_local("https://LOCALHOST/path"));
    assert!(endpoint_looks_local("127.0.0.1:8000"));
    assert!(!endpoint_looks_local("https://dynamodb.us-east-1.amazonaws.com"));
    assert!(!endpoint_looks_local("http://[::1]:8000"));
}

#[test]
fn config_round_trips_through_form_values() {
    let driver = DynamoDriver::new();
    let mut values = FormValues::new();
    values.insert("region".to_string(), "  eu-west-1 ".to_string());
    values.insert("endpoint".to_string(), "   ".to_string());
    values.insert("table".to_string(), "users".to_string());
    let config = driver.build_config(&values).expect("region present");
    match &config {
        DbConfig::DynamoDB { region, profile, endpoint, table } => {
            assert_eq!(region, "eu-west-1");
            assert!(profile.is_none());
            assert!(endpoint.is_none());
            assert_eq!(table.as_deref(), Some("users"));
        }
        other => panic!("expected DynamoDB config, got {other:?}"),
    }
    let extracted = driver.extract_values(&config);
    assert_eq!(extracted.get("region").map(String::as_str), Some("eu-west-1"));
    assert_eq!(extracted.get("profile").map(String::as_str), Some(""));
    assert_eq!(extracted.len(), 4);

    let settings = profile_config(&config).expect("dynamo config");
    assert_eq!(settings.region, "eu-west-1");
    assert!(profile_config(&DbConfig::SQLite { path: "x".to_string() }).is_err());
}

#[test]
fn sdk_failures_are_described() {
    let formatter = DynamoErrorFormatter;
    let mut config = config("us-east-1");
    config.endpoint = Some("http://localhost:8000".to_string());
    let throttled = formatter.format_sdk_error(
        &SdkFailure::Service { code: Some("ThrottlingException".to_string()), message: None },
        &config,
    );
    assert_eq!(throttled.message, "DynamoDB service error");
    assert!(throttled.retriable);
    assert_eq!(throttled.detail.as_deref(), Some("region=us-east-1, endpoint_override=http://localhost:8000"));
    match classify_query_error(throttled) {
        DbError::QueryFailed(f) => assert!(f.retriable),
        other => panic!("expected QueryFailed, got {other:?}"),
    }
    let timeout = formatter.format_sdk_error(&SdkFailure::Transport("operation TIMED OUT".to_string()), &config);
    assert_eq!(timeout.message, "Connection to DynamoDB timed out.");
    assert!(timeout.retriable);
    let denied = formatter.format_from_code(Some("AccessDeniedException"), "no", &config);
    assert!(matches!(classify_connection_error(denied), DbError::PermissionDenied(_)));
}

#[test]
fn query_language_validation() {
    let service = DynamoLanguageService;
    assert!(matches!(service.validate("   "), ValidationResult::Valid));
    assert!(matches!(service.validate("  SELECT * FROM t"), ValidationResult::WrongLanguage { .. }));
    assert!(matches!(service.validate(r#"{"op":"scan","table":"t"}"#), ValidationResult::Valid));
}

#[test]
fn execution_plans_resolve_database_and_paging() {
    let request = QueryRequest {
        sql: r#"{"op":"scan","table":"users"}"#.to_string(),
        database: None,
        limit: Some(25),
        offset: Some(5),
    };
    match plan_execution(&request).expect("valid envelope") {
        ExecutionPlan::Browse(b) => {
            assert_eq!(b.collection.database, "dynamodb");
            assert_eq!(b.collection.name, "users");
            assert_eq!(b.limit, 25);
            assert_eq!(b.offset, 5);
        }
        other => panic!("expected browse, got {other:?}"),
    }
    let put = QueryRequest {
        sql: r#"{"op":"put","table":"users","item":{"pk":"1"},"database":"other"}"#.to_string(),
        database: None,
        limit: None,
        offset: None,
    };
    match plan_execution(&put).expect("valid envelope") {
        ExecutionPlan::Insert(insert) => {
            assert_eq!(insert.database.as_deref(), Some("other"));
            assert_eq!(insert.documents.len(), 1);
            assert!(check_insert_document(&insert).is_err());
        }
        other => panic!("expected insert, got {other:?}"),
    }
    let bad = QueryRequest { sql: "not json".to_string(), database: None, limit: None, offset: None };
    assert!(matches!(plan_execution(&bad), Err(DbError::SyntaxError(_))));
}

#[test]
fn document_operation_checks() {
    assert!(check_database("dynamodb").is_ok());
    match check_database("main") {
        Err(DbError::ObjectNotFound(f)) => assert_eq!(f.message, "Database 'main' is not available for DynamoDB"),
        other => panic!("expected ObjectNotFound, got {other:?}"),
    }
    let update = dbflux::dynamo::generator::DocumentUpdate {
        collection: "users".to_string(),
        database: None,
        filter: dbflux::dynamo::generator::DocumentFilter { filter: object(vec![("pk", text("1"))]) },
        update: object(vec![("name", text("x"))]),
        many: false,
        upsert: true,
    };
    match check_update_document(&update) {
        Err(DbError::NotSupported(m)) => assert!(m.ends_with("(operation=upsert_document)")),
        other => panic!("expected NotSupported, got {other:?}"),
    }
    let delete = dbflux::dynamo::generator::DocumentDelete {
        collection: "users".to_string(),
        database: Some("dynamodb".to_string()),
        filter: dbflux::dynamo::generator::DocumentFilter { filter: object(vec![]) },
        many: false,
    };
    assert!(check_delete_document(&delete).is_ok());
}

#[test]
fn read_window_pages_through_items() {
    let mut window: ReadWindow<u32> = ReadWindow::new(2, 3);
    assert_eq!(window.request_limit(), 5);
    assert!(!window.is_full());
    assert!(window.absorb_page(&vec![], true));
    assert!(window.absorb_page(&vec![1, 2, 3], true));
    assert_eq!(window.collected, vec![3]);
    assert_eq!(window.remaining_skip, 0);
    assert!(!window.absorb_page(&vec![4, 5, 6, 7], false));
    assert_eq!(window.collected, vec![3, 4, 5]);
    assert!(window.has_more);
}

#[test]
fn building_from_extracted_values_gives_the_configuration_back() {
    let driver = DynamoDriver::new();
    let configs = vec![
        DbConfig::DynamoDB {
            region: "eu-west-1".to_string(),
            profile: Some("dev".to_string()),
            endpoint: Some("http://localhost:8000".to_string()),
            table: Some("users".to_string()),
        },
        DbConfig::DynamoDB { region: "us-east-1".to_string(), profile: None, endpoint: None, table: None },
    ];
    for config in configs {
        let values = driver.extract_values(&config);
        let rebuilt = driver.build_config(&values).expect("region kept");
        assert_eq!(format!("{:?}", rebuilt), format!("{:?}", config));
    }
}

#[test]
fn no_flow_is_both_supported_and_unsupported() {
    for flow in [
        "connect", "execute_scan", "delete_document_single_item_delete", "browse_collection_scan", "dax",
        "bulk_many_update", "bulk_many_delete", "multi_item_transactions", "unknown",
    ] {
        assert!(!(is_supported_mvp_flow(flow) && is_unsupported_mvp_flow(flow)), "{flow}");
    }
    assert!(is_supported_mvp_flow("execute_scan"));
    assert!(!is_supported_mvp_flow("dax") && is_unsupported_mvp_flow("dax"));
}
