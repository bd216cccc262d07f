use dbflux::audit::{audit_query_sql, export_csv, sha256_fingerprint, AuditEvent, SqlParam, StoredAuditFilter};
use dbflux::config::{general_settings_from_values, parse_bool, StartupFocus, ThemeSetting};
use dbflux::ddl::{
    alter_operation_sql, alter_table_with, create_index_sql, create_table_sql, drop_index_sql, validate_drop_database_params,
    validate_drop_table_params, AlterOperation, AlterSql, ColumnDef, DefaultSqlDialect, DropDatabaseParams,
    DropTableParams, ForeignKeyRef,
};
use dbflux::governance::{
    authorize_and_audit, authorize_request, denial_response, AuditAppend, GovernanceMiddleware, GovernedCall, format_policy_deny_reason, is_canonical_v1_tool, is_deferred_v1_tool,
    validate_v1_tool, AuthorizationError, AuthorizationRequest, ConnectionPolicyAssignmentDto, ExecutionClassification,
    GovernanceError, McpRuntime, McpRuntimeEvent, PolicyDecision, PolicyDecisionReason, PolicyEvaluationRequest,
    RequestIdentity, ToolCatalogError, TrustedClientDto, TrustedClientMatch,
};
use dbflux::json::{JsonNumber, JsonValue};
use dbflux::profile::{ConnectionProfile, DbConfig, ProfileManager};
use dbflux::strmap::StrMap;

fn object(members: Vec<(&str, JsonValue)>) -> JsonValue {
    JsonValue::Object(members.into_iter().map(|(k, v)| (k.to_string(), v)).collect())
}

fn text(s: &str) -> JsonValue {
    JsonValue::Str(s.to_string())
}

#[test]
fn test_validate_drop_table_success() {
    let params = DropTableParams {
        connection_id: "test".to_string(),
        table: "users".to_string(),
        cascade: None,
        if_exists: None,
        confirm: "users".to_string(),
    };
    assert!(validate_drop_table_params(&params).is_ok());
}

#[test]
fn test_validate_drop_table_mismatch() {
    let params = DropTableParams {
        connection_id: "test".to_string(),
        table: "users".to_string(),
        cascade: None,
        if_exists: None,
        confirm: "wrong".to_string(),
    };
    let result = validate_drop_table_params(&params);
    assert!(result.is_err());
}

#[test]
fn test_validate_drop_database_success() {
    let params = DropDatabaseParams {
        connection_id: "test".to_string(),
        database: "mydb".to_string(),
        if_exists: None,
        confirm: "mydb".to_string(),
    };
    assert!(validate_drop_database_params(&params).is_ok());
}

#[test]
fn test_validate_drop_database_mismatch() {
    let params = DropDatabaseParams {
        connection_id: "test".to_string(),
        database: "mydb".to_string(),
        if_exists: None,
        confirm: "otherdb".to_string(),
    };
    let result = validate_drop_database_params(&params);
    assert!(result.is_err());
}

fn op(action: &str, column: Option<&str>, definition: Option<JsonValue>) -> AlterOperation {
    AlterOperation { action: action.to_string(), column: column.map(str::to_string), definition }
}

fn single(r: Result<AlterSql, String>) -> String {
    match r {
        Ok(AlterSql::Single(s)) => s,
        other => panic!("expected one statement, got {other:?}"),
    }
}

#[test]
fn alter_operations_become_sql() {
    let d = DefaultSqlDialect;
    let t = "\"users\"";
    assert_eq!(
        single(alter_operation_sql(&d, t, &op("add_column", Some("age"), Some(object(vec![("type", text("integer"))]))))),
        "ALTER TABLE \"users\" ADD COLUMN \"age\" integer"
    );
    assert_eq!(
        single(alter_operation_sql(&d, t, &op("ADD COLUMN", Some("note"), Some(object(vec![]))))),
        "ALTER TABLE \"users\" ADD COLUMN \"note\" TEXT"
    );
    assert_eq!(single(alter_operation_sql(&d, t, &op("drop_column", None, None))), "ALTER TABLE \"users\" DROP COLUMN \"\"");
    assert_eq!(
        single(alter_operation_sql(
            &d,
            t,
            &op("rename_column", None, Some(object(vec![("old_name", text("a\"b")), ("new_name", text("c"))])))
        )),
        "ALTER TABLE \"users\" RENAME COLUMN \"a\"\"b\" TO \"c\""
    );
    match alter_operation_sql(
        &d,
        t,
        &op("alter_column", Some("age"), Some(object(vec![("type", text("bigint")), ("nullable", JsonValue::Bool(false)), ("default", JsonValue::Null)]))),
    ) {
        Ok(AlterSql::Parts(parts)) => assert_eq!(
            parts,
            vec![
                "ALTER TABLE \"users\" ALTER COLUMN \"age\" TYPE bigint".to_string(),
                "ALTER TABLE \"users\" ALTER COLUMN \"age\" SET NOT NULL".to_string(),
                "ALTER TABLE \"users\" ALTER COLUMN \"age\" DROP DEFAULT".to_string(),
            ]
        ),
        other => panic!("expected parts, got {other:?}"),
    }
    assert_eq!(
        alter_operation_sql(&d, t, &op("alter_column", Some("age"), Some(object(vec![])))).unwrap_err(),
        "ALTER_COLUMN requires at least one of: type, nullable, default"
    );
    assert_eq!(
        single(alter_operation_sql(
            &d,
            t,
            &op(
                "add_constraint",
                None,
                Some(object(vec![
                    ("name", text("fk_org")),
                    ("type", text("foreign_key")),
                    ("columns", JsonValue::Array(vec![text("org_id"), JsonValue::Null])),
                    ("ref_table", text("orgs")),
                    ("ref_columns", JsonValue::Array(vec![text("id")])),
                ]))
            )
        )),
        "ALTER TABLE \"users\" ADD CONSTRAINT \"fk_org\" FOREIGN KEY (\"org_id\") REFERENCES \"orgs\" (\"id\")"
    );
    assert_eq!(
        alter_operation_sql(&d, t, &op("add_constraint", None, Some(object(vec![("type", text("unique"))])))).unwrap_err(),
        "UNIQUE constraint requires columns array"
    );
    assert_eq!(
        alter_operation_sql(&d, t, &op("add_constraint", None, Some(object(vec![("type", text("primary"))])))).unwrap_err(),
        "Unsupported constraint type: primary"
    );
    assert_eq!(alter_operation_sql(&d, t, &op("truncate", None, None)).unwrap_err(), "Unsupported alter operation: truncate");
    assert_eq!(alter_operation_sql(&d, t, &op("drop_constraint", None, None)).unwrap_err(), "DROP_CONSTRAINT requires definition");
}

#[test]
fn create_statements() {
    let d = DefaultSqlDialect;
    let columns = vec![
        ColumnDef {
            name: "id".to_string(),
            column_type: "integer".to_string(),
            nullable: Some(false),
            primary_key: Some(true),
            auto_increment: Some(true),
            default: None,
            references: None,
        },
        ColumnDef {
            name: "org".to_string(),
            column_type: "text".to_string(),
            nullable: None,
            primary_key: None,
            auto_increment: None,
            default: Some(text("it's")),
            references: Some(ForeignKeyRef { table: "orgs".to_string(), column: "id".to_string() }),
        },
    ];
    assert_eq!(
        create_table_sql(&d, "\"t\"", &columns, None, true),
        "CREATE TABLE IF NOT EXISTS \"t\" (\"id\" integer NOT NULL PRIMARY KEY AUTOINCREMENT, \"org\" text DEFAULT 'it''s' REFERENCES \"orgs\" (\"id\"))"
    );
    let (name, sql) = create_index_sql(&d, "app.users", "\"app\".\"users\"", &vec!["a".to_string(), "b".to_string()], None, true, false);
    assert_eq!(name, "idx_app_users_a_b");
    assert_eq!(sql, "CREATE UNIQUE INDEX \"idx_app_users_a_b\" ON \"app\".\"users\" (\"a\", \"b\")");
    assert_eq!(drop_index_sql(&d, None, "i", true), "DROP INDEX IF EXISTS \"i\"");
    assert_eq!(drop_index_sql(&d, Some("t"), "i", true), "DROP INDEX \"i\" ON \"t\"");
}

#[test]
fn v1_tool_catalogue() {
    assert!(is_canonical_v1_tool("read_query"));
    assert!(is_deferred_v1_tool("estimate_query_cost"));
    assert!(validate_v1_tool("list_tables").is_ok());
    match validate_v1_tool("get_execution_status") {
        Err(ToolCatalogError::DeferredInV1 { tool }) => assert_eq!(tool, "get_execution_status"),
        other => panic!("expected deferred, got {other:?}"),
    }
    match validate_v1_tool("rm_rf") {
        Err(e @ ToolCatalogError::UnknownTool { .. }) => assert_eq!(e.message(), "unknown tool: rm_rf"),
        other => panic!("expected unknown, got {other:?}"),
    }
}

fn request(enabled: bool) -> AuthorizationRequest {
    AuthorizationRequest {
        identity: RequestIdentity { client_id: "agent".to_string(), issuer: None },
        connection_id: "conn".to_string(),
        tool_id: "read_query".to_string(),
        classification: ExecutionClassification::Read,
        mcp_enabled_for_connection: enabled,
    }
}

#[test]
fn authorization_decisions() {
    let allow = |_: &PolicyEvaluationRequest| Ok(PolicyDecision::Allow);
    let disabled = authorize_request(&TrustedClientMatch::Trusted, allow, &request(false), 10).expect("decided");
    assert!(!disabled.outcome.allowed);
    assert_eq!(disabled.outcome.deny_code, Some("connection_not_mcp_enabled"));
    assert_eq!(disabled.audit.decision, "deny");
    assert_eq!(disabled.audit.created_at_epoch_ms, 10);

    let untrusted = TrustedClientMatch::Untrusted { reason: "client inactive".to_string() };
    let verdict = authorize_request(&untrusted, allow, &request(true), 11).expect("decided");
    assert_eq!(verdict.outcome.deny_reason.as_deref(), Some("client inactive"));

    let allowed = authorize_request(&TrustedClientMatch::Trusted, allow, &request(true), 12).expect("decided");
    assert!(allowed.outcome.allowed);
    assert_eq!(allowed.audit.decision, "allow");
    assert!(denial_response(&allowed.outcome).is_none());

    let deny = |p: &PolicyEvaluationRequest| {
        assert_eq!(p.actor_id, "agent");
        Ok(PolicyDecision::Deny(PolicyDecisionReason::ToolDenied))
    };
    let denied = authorize_request(&TrustedClientMatch::Trusted, deny, &request(true), 13).expect("decided");
    assert_eq!(denied.outcome.deny_code, Some("policy_denied"));
    assert_eq!(denied.outcome.deny_reason.as_deref(), Some("tool denied by policy"));
    let (message, code) = denial_response(&denied.outcome).expect("refused");
    assert_eq!(message, "tool denied by policy");
    assert_eq!(code, Some("policy_denied"));

    let broken = |_: &PolicyEvaluationRequest| Err("engine down".to_string());
    assert!(matches!(
        authorize_request(&TrustedClientMatch::Trusted, broken, &request(true), 14),
        Err(AuthorizationError::Policy(m)) if m == "engine down"
    ));
    assert_eq!(format_policy_deny_reason(PolicyDecisionReason::NoAssignment), "no matching connection-scoped assignment");
}

fn client(id: &str) -> TrustedClientDto {
    TrustedClientDto { id: id.to_string(), name: format!("client {id}"), issuer: None, active: true }
}

#[test]
fn trusted_clients_are_kept_by_id() {
    let mut runtime = McpRuntime::new();
    assert!(matches!(runtime.upsert_trusted_client_mut(client("  ")), Err(GovernanceError::Validation(_))));
    runtime.upsert_trusted_client_mut(client("b")).expect("stored");
    runtime.upsert_trusted_client_mut(client("a")).expect("stored");
    let mut replacement = client("b");
    replacement.active = false;
    runtime.upsert_trusted_client_mut(replacement).expect("stored");
    let listed = runtime.list_trusted_clients();
    assert_eq!(listed.iter().map(|c| c.id.as_str()).collect::<Vec<_>>(), vec!["a", "b"]);
    assert!(!listed[1].active);
    match runtime.delete_trusted_client_mut("zzz") {
        Err(e @ GovernanceError::NotFound { .. }) => assert_eq!(e.message(), "resource not found: trusted client zzz"),
        other => panic!("expected not found, got {other:?}"),
    }
    runtime.delete_trusted_client_mut("a").expect("deleted");
    assert_eq!(runtime.list_trusted_clients().len(), 1);
    let saved = runtime
        .save_connection_policy_assignment_mut(ConnectionPolicyAssignmentDto { connection_id: "conn".to_string(), assignments: vec![] })
        .expect("saved");
    assert_eq!(saved.connection_id, "conn");
    let events = runtime.drain_events();
    assert_eq!(events.len(), 5);
    assert!(matches!(&events[4], McpRuntimeEvent::ConnectionPolicyUpdated { connection_id } if connection_id == "conn"));
    assert!(runtime.drain_events().is_empty());
}

#[test]
fn audit_csv_and_fingerprint() {
    let entries = vec![
        AuditEvent {
            id: 1,
            actor_id: "a".to_string(),
            tool_id: "t".to_string(),
            decision: "deny".to_string(),
            reason: Some("say \"no\"".to_string()),
            created_at_epoch_ms: -5,
        },
        AuditEvent { id: 2, actor_id: "b".to_string(), tool_id: "u".to_string(), decision: "allow".to_string(), reason: None, created_at_epoch_ms: 9 },
    ];
    assert_eq!(
        export_csv(&entries),
        "id,actor_id,tool_id,decision,reason,created_at_epoch_ms\n1,a,t,deny,\"say \"\"no\"\"\",-5\n2,b,u,allow,\"\",9\n"
    );
    assert_eq!(
        sha256_fingerprint("  ABC "),
        "ba7816bf8f01cfea414140de5dae2223b00361a396177a9cb410ff61f20015ad"
    );
}

#[test]
fn audit_query_filters() {
    let filter = StoredAuditFilter {
        id: None,
        actor_id: Some("agent".to_string()),
        tool_id: None,
        decision: Some("deny".to_string()),
        profile_id: None,
        classification: None,
        start_epoch_ms: Some(100),
        end_epoch_ms: None,
        limit: Some(10),
    };
    let (sql, params) = audit_query_sql(&filter);
    assert!(sql.ends_with(" FROM aud_audit_events WHERE actor_id = ? AND decision = ? AND created_at_epoch_ms >= ? ORDER BY id ASC LIMIT 10"));
    assert_eq!(params.len(), 3);
    assert!(matches!(&params[2], SqlParam::Int(100)));
    let empty = StoredAuditFilter {
        id: None,
        actor_id: None,
        tool_id: None,
        decision: None,
        profile_id: None,
        classification: None,
        start_epoch_ms: None,
        end_epoch_ms: None,
        limit: None,
    };
    let (sql, params) = audit_query_sql(&empty);
    assert!(sql.ends_with("FROM aud_audit_events ORDER BY id ASC"));
    assert!(params.is_empty());
}

#[test]
fn general_settings_fall_back_to_defaults() {
    let mut values = StrMap::new();
    values.insert("theme".to_string(), "light".to_string());
    values.insert("max_history_entries".to_string(), "+250".to_string());
    values.insert("default_refresh_interval_secs".to_string(), "-1".to_string());
    values.insert("restore_session_on_startup".to_string(), "False".to_string());
    values.insert("default_focus".to_string(), "last_tab".to_string());
    let settings = general_settings_from_values(&values);
    assert_eq!(settings.theme, ThemeSetting::Light);
    assert_eq!(settings.max_history_entries, 250);
    assert_eq!(settings.default_refresh_interval_secs, 5);
    assert!(settings.restore_session_on_startup);
    assert_eq!(settings.default_focus_on_startup, StartupFocus::LastTab);
    assert_eq!(settings.auto_save_interval_ms, 2000);
    assert_eq!(parse_bool("false"), Some(false));
    assert_eq!(parse_bool("yes"), None);
}

#[test]
fn profile_manager_keeps_profiles_in_order() {
    let p = |id: u128, name: &str| ConnectionProfile::with_id(id, name.to_string(), DbConfig::SQLite { path: format!("/{name}.db") });
    let mut manager = ProfileManager::with_profiles(vec![p(1, "one"), p(2, "two")]);
    manager.add(p(3, "three"));
    assert_eq!(manager.profile_ids(), vec![1, 2, 3]);
    assert!(manager.update(p(2, "deux")));
    assert!(!manager.update(p(9, "nine")));
    assert_eq!(manager.find_by_id(2).map(|x| x.name.as_str()), Some("deux"));
    assert!(manager.find_by_id(9).is_none());
    assert_eq!(manager.remove(0).map(|x| x.id), Some(1));
    assert!(manager.remove(5).is_none());
    assert_eq!(manager.profile_ids(), vec![2, 3]);
}

#[test]
fn json_numbers_in_literals() {
    let d = DefaultSqlDialect;
    let r = alter_operation_sql(
        &d,
        "t",
        &op("alter_column", Some("n"), Some(object(vec![("default", JsonValue::Number(JsonNumber::PosInt(42)))]))),
    );
    match r {
        Ok(AlterSql::Parts(parts)) => assert_eq!(parts, vec!["ALTER TABLE t ALTER COLUMN \"n\" SET DEFAULT 42".to_string()]),
        other => panic!("expected parts, got {other:?}"),
    }
}

#[test]
fn shared_access_cannot_change_governance_state() {
    let mut runtime = McpRuntime::new();
    runtime.upsert_trusted_client_mut(client("a")).expect("stored");
    match runtime.upsert_trusted_client(client("b")) {
        Err(GovernanceError::Operation(m)) => assert_eq!(m, "upsert_trusted_client requires mutable runtime access"),
        other => panic!("unexpected {:?}", other),
    }
    match runtime.delete_trusted_client("a") {
        Err(GovernanceError::Operation(m)) => assert_eq!(m, "delete_trusted_client requires mutable runtime access"),
        other => panic!("unexpected {:?}", other),
    }
    let assignment = ConnectionPolicyAssignmentDto { connection_id: "prod".to_string(), assignments: vec![] };
    match runtime.save_connection_policy_assignment(assignment) {
        Err(GovernanceError::Operation(m)) => {
            assert_eq!(m, "save_connection_policy_assignment requires mutable runtime access")
        }
        other => panic!("unexpected {:?}", other),
    }
    let ids: Vec<String> = runtime.list_trusted_clients().into_iter().map(|c| c.id).collect();
    assert_eq!(ids, vec!["a".to_string()]);
    assert!(runtime.list_connection_policy_assignments().is_empty());
}

#[test]
fn alter_table_reports_each_operation_and_stops_on_column_errors() {
    let ran = std::cell::RefCell::new(Vec::new());
    let ops = vec![
        op("add_column", Some("age"), Some(object(vec![("type", text("INTEGER"))]))),
        op("drop_column", Some("legacy"), None),
    ];
    let answer = alter_table_with(&DefaultSqlDialect, "users", "\"users\"", &ops, |sql: &str| {
        ran.borrow_mut().push(sql.to_string());
        if sql.contains("DROP COLUMN") { Err("no such column".to_string()) } else { Ok(()) }
    })
    .expect("every alteration handled");
    assert_eq!(
        *ran.borrow(),
        vec![
            "ALTER TABLE \"users\" ADD COLUMN \"age\" INTEGER".to_string(),
            "ALTER TABLE \"users\" DROP COLUMN \"legacy\"".to_string(),
        ]
    );
    let expected = object(vec![
        ("altered", JsonValue::Bool(true)),
        ("table", text("users")),
        (
            "operations",
            JsonValue::Array(vec![
                object(vec![("action", text("add_column")), ("success", JsonValue::Bool(true))]),
                object(vec![
                    ("action", text("drop_column")),
                    ("success", JsonValue::Bool(false)),
                    ("error", text("no such column")),
                ]),
            ]),
        ),
    ]);
    assert_eq!(format!("{:?}", answer), format!("{:?}", expected));

    let column_change = vec![
        op("alter_column", Some("age"), Some(object(vec![("type", text("BIGINT")), ("nullable", JsonValue::Bool(false))]))),
        op("drop_column", Some("never"), None),
    ];
    let count = std::cell::Cell::new(0);
    let stopped = alter_table_with(&DefaultSqlDialect, "users", "\"users\"", &column_change, |_sql: &str| {
        count.set(count.get() + 1);
        Err("locked".to_string())
    });
    assert_eq!(stopped.expect_err("column change failed"), "Alter column error: locked");
    assert_eq!(count.get(), 1);

    let unknown = alter_table_with(&DefaultSqlDialect, "users", "\"users\"", &vec![op("truncate", None, None)], |_sql: &str| Ok(()));
    assert_eq!(unknown.expect_err("unsupported"), "Unsupported alter operation: truncate");
}

#[test]
fn authorization_stores_its_audit_record_or_fails() {
    let allow = |_: &PolicyEvaluationRequest| Ok(PolicyDecision::Allow);
    let stored = std::cell::RefCell::new(Vec::new());
    let outcome = authorize_and_audit(
        &TrustedClientMatch::Trusted,
        allow,
        |a: &AuditAppend| {
            stored.borrow_mut().push((a.decision, a.created_at_epoch_ms));
            Ok(())
        },
        &request(true),
        20,
    )
    .expect("decided");
    assert!(outcome.allowed);
    assert_eq!(*stored.borrow(), vec![("allow", 20)]);

    let failed = authorize_and_audit(&TrustedClientMatch::Trusted, allow, |_a: &AuditAppend| Err("disk full".to_string()), &request(true), 21);
    assert!(matches!(&failed, Err(AuthorizationError::Audit(m)) if m == "disk full"));
    assert_eq!(failed.unwrap_err().message(), "audit append failed: disk full");
}

#[test]
fn governed_calls_run_only_when_allowed() {
    let middleware = GovernanceMiddleware::new("agent".to_string());
    let allow = |_: &PolicyEvaluationRequest| Ok(PolicyDecision::Allow);
    let ran = std::cell::Cell::new(0);
    let call = middleware.authorize_and_execute(
        "execute_query", Some("prod"), ExecutionClassification::Read, true, &TrustedClientMatch::Trusted,
        allow, |_a: &AuditAppend| Ok(()), 30, || { ran.set(ran.get() + 1); 7 },
    );
    assert!(matches!(call, GovernedCall::Ran(7)));
    assert_eq!(ran.get(), 1);

    let refused = middleware.authorize_and_execute(
        "execute_query", Some("prod"), ExecutionClassification::Read, false, &TrustedClientMatch::Trusted,
        allow, |_a: &AuditAppend| Ok(()), 31, || { ran.set(ran.get() + 1); 7 },
    );
    match refused {
        GovernedCall::Refused { message, code } => {
            assert_eq!(message, "connection not MCP-enabled");
            assert_eq!(code, Some("connection_not_mcp_enabled"));
        }
        other => panic!("unexpected {:?}", other),
    }
    let unaudited = middleware.authorize_and_execute(
        "list_connections", None, ExecutionClassification::Metadata, false, &TrustedClientMatch::Trusted,
        allow, |_a: &AuditAppend| Err("disk full".to_string()), 32, || { ran.set(ran.get() + 1); 7 },
    );
    match unaudited {
        GovernedCall::Failed(m) => assert_eq!(m, "Authorization error: audit append failed: disk full"),
        other => panic!("unexpected {:?}", other),
    }
    assert_eq!(ran.get(), 1);
}
