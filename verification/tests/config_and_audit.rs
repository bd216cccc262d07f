use dbflux::audit::{apply_query_fingerprint, AppendAuditEvent, AuditEventDto, AuditService, RecordStep};
use dbflux::config::{
    general_settings_from_values, load_config, parse_bool, RefreshPolicySetting, StartupFocus, ThemeSetting,
};
use dbflux::governance::{
    classify_query, ConnectionPolicyAssignmentDto, ExecutionClassification, GovernanceMiddleware, McpRuntime, McpServerArgs,
    PolicyBinding,
};
use dbflux::hooks::{finished_outcome, ConnectionHook, HookFailureMode, HookStop};
use dbflux::profile::{ConnectionProfile, DbConfig};
use dbflux::strmap::StrMap;

fn hook(command: &str) -> ConnectionHook {
    ConnectionHook {
        enabled: true,
        command: command.to_string(),
        args: vec![],
        cwd: None,
        env: StrMap::new(),
        inherit_env: true,
        timeout_ms: None,
        on_failure: HookFailureMode::Warn,
    }
}

#[test]
fn general_settings_use_defaults_when_nothing_is_stored() {
    let settings = general_settings_from_values(&StrMap::new());
    assert_eq!(settings.theme, ThemeSetting::Dark);
    assert!(settings.restore_session_on_startup);
    assert!(!settings.reopen_last_connections);
    assert_eq!(settings.default_focus_on_startup, StartupFocus::Sidebar);
    assert_eq!(settings.max_history_entries, 1000);
    assert_eq!(settings.auto_save_interval_ms, 2000);
    assert_eq!(settings.default_refresh_policy, RefreshPolicySetting::Manual);
    assert_eq!(settings.default_refresh_interval_secs, 5);
    assert_eq!(settings.max_concurrent_background_tasks, 8);
    assert!(settings.auto_refresh_pause_on_error);
    assert!(!settings.auto_refresh_only_if_visible);
    assert!(settings.confirm_dangerous_queries);
    assert!(settings.dangerous_requires_where);
    assert!(!settings.dangerous_requires_preview);
}

#[test]
fn general_settings_read_stored_values() {
    let mut values = StrMap::new();
    values.insert("theme".to_string(), "light".to_string());
    values.insert("default_focus".to_string(), "last_tab".to_string());
    values.insert("default_refresh_policy".to_string(), "interval".to_string());
    values.insert("max_history_entries".to_string(), "250".to_string());
    values.insert("default_refresh_interval_secs".to_string(), "99999999999".to_string());
    values.insert("reopen_last_connections".to_string(), "true".to_string());
    values.insert("confirm_dangerous_queries".to_string(), "yes".to_string());
    let settings = general_settings_from_values(&values);
    assert_eq!(settings.theme, ThemeSetting::Light);
    assert_eq!(settings.default_focus_on_startup, StartupFocus::LastTab);
    assert_eq!(settings.default_refresh_policy, RefreshPolicySetting::Interval);
    assert_eq!(settings.max_history_entries, 250);
    assert_eq!(settings.default_refresh_interval_secs, 5);
    assert!(settings.reopen_last_connections);
    assert!(settings.confirm_dangerous_queries);
    assert_eq!(parse_bool("false"), Some(false));
    assert_eq!(parse_bool("False"), None);
}

#[test]
fn load_config_prefers_whole_settings_and_keeps_last_hook_definition() {
    let mut values = StrMap::new();
    values.insert("theme".to_string(), "light".to_string());
    let mut stored = general_settings_from_values(&StrMap::new());
    stored.max_history_entries = 42;

    let hook_rows = vec![
        ("warm".to_string(), Some(hook("first"))),
        ("broken".to_string(), None),
        ("notify".to_string(), Some(hook("notify"))),
        ("warm".to_string(), Some(hook("second"))),
        ("warm".to_string(), None),
    ];
    let profile_rows = vec![
        Some(ConnectionProfile::with_id(1, "a".to_string(), DbConfig::SQLite { path: "/a.db".to_string() })),
        None,
        Some(ConnectionProfile::with_id(2, "b".to_string(), DbConfig::SQLite { path: "/b.db".to_string() })),
    ];
    let loaded = load_config(&values, Some(stored), hook_rows, profile_rows);
    assert_eq!(loaded.general_settings.max_history_entries, 42);
    assert_eq!(loaded.general_settings.theme, ThemeSetting::Dark);
    assert_eq!(loaded.hook_definitions.len(), 2);
    let warm = loaded.hook_definitions.iter().find(|(name, _)| name == "warm").expect("warm");
    assert_eq!(warm.1.command, "second");
    assert!(loaded.hook_definitions.iter().any(|(name, h)| name == "notify" && h.command == "notify"));
    assert_eq!(loaded.profiles.iter().map(|p| p.id).collect::<Vec<_>>(), vec![1, 2]);

    let fresh = load_config(&values, None, Vec::new(), Vec::new());
    assert_eq!(fresh.general_settings.theme, ThemeSetting::Light);
    assert!(fresh.hook_definitions.is_empty());
    assert!(fresh.profiles.is_empty());
}

#[test]
fn appended_audit_event_keeps_every_field() {
    let event = AppendAuditEvent {
        actor_id: "client-a",
        tool_id: "execute_query",
        decision: "allow",
        reason: Some("ok"),
        profile_id: None,
        classification: Some("read"),
        duration_ms: Some(12),
        created_at_epoch_ms: 1_700_000_000_000,
    };
    let dto = AuditEventDto::appended(&event, 7, "2023-11-14T22:13:20+00:00".to_string());
    assert_eq!(dto.id, 7);
    assert_eq!(dto.actor_id, "client-a");
    assert_eq!(dto.tool_id, "execute_query");
    assert_eq!(dto.decision, "allow");
    assert_eq!(dto.reason.as_deref(), Some("ok"));
    assert_eq!(dto.profile_id, None);
    assert_eq!(dto.classification.as_deref(), Some("read"));
    assert_eq!(dto.duration_ms, Some(12));
    assert_eq!(dto.created_at, "2023-11-14T22:13:20+00:00");
    assert_eq!(dto.created_at_epoch_ms, 1_700_000_000_000);
}

#[test]
fn query_text_is_replaced_by_its_fingerprint() {
    let details = r#"{"user":"x","query":" SELECT 1 "}"#;
    let fingerprinted = apply_query_fingerprint(details).expect("details carry a query");
    assert_eq!(fingerprinted, r#"{"query":"[FINGERPRINT:822ae07d4783158b]","query_length":10,"user":"x"}"#);
}

#[test]
fn query_length_counts_bytes() {
    let fingerprinted = apply_query_fingerprint(r#"{"query":"SÉLECT"}"#).expect("details carry a query");
    assert_eq!(fingerprinted, r#"{"query":"[FINGERPRINT:6a33b1cf4fd8e7bf]","query_length":7}"#);
}

#[test]
fn details_without_query_text_stay_unchanged() {
    assert_eq!(apply_query_fingerprint(r#"{"query":42}"#), None);
    assert_eq!(apply_query_fingerprint(r#"{"rows":3}"#), None);
    assert_eq!(apply_query_fingerprint(r#"["query"]"#), None);
    assert_eq!(apply_query_fingerprint("not json"), None);
}

#[test]
fn governance_middleware_builds_the_authorization_request() {
    let args = McpServerArgs { client_id: "cursor".to_string(), config_dir: None };
    let middleware = GovernanceMiddleware::new(args.client_id.clone());
    let request = middleware.authorization_request("execute_query", Some("conn-1"), ExecutionClassification::Read, false);
    assert_eq!(request.identity.client_id, "cursor");
    assert!(request.identity.issuer.is_none());
    assert_eq!(request.connection_id, "conn-1");
    assert_eq!(request.tool_id, "execute_query");
    assert!(!request.mcp_enabled_for_connection);

    let request = middleware.authorization_request("list_connections", None, ExecutionClassification::Metadata, false);
    assert_eq!(request.connection_id, "");
    assert!(request.mcp_enabled_for_connection);
}

#[test]
fn policy_assignments_flatten_in_connection_order() {
    let binding = |actor: &str, role: &str| PolicyBinding {
        actor_id: actor.to_string(),
        role_ids: vec![role.to_string()],
        policy_ids: vec![],
    };
    let mut runtime = McpRuntime::new();
    runtime
        .save_connection_policy_assignment_mut(ConnectionPolicyAssignmentDto {
            connection_id: "prod".to_string(),
            assignments: vec![binding("alice", "reader"), binding("bob", "writer")],
        })
        .expect("saved");
    runtime
        .save_connection_policy_assignment_mut(ConnectionPolicyAssignmentDto {
            connection_id: "dev".to_string(),
            assignments: vec![binding("carol", "admin")],
        })
        .expect("saved");
    let listed = runtime.list_connection_policy_assignments();
    assert_eq!(listed.iter().map(|a| a.connection_id.as_str()).collect::<Vec<_>>(), vec!["dev", "prod"]);
    let engine = runtime.policy_assignments_for_engine();
    let flat: Vec<(&str, &str, &str)> =
        engine.iter().map(|a| (a.connection_id.as_str(), a.actor_id.as_str(), a.role_ids[0].as_str())).collect();
    assert_eq!(flat, vec![("dev", "carol", "admin"), ("prod", "alice", "reader"), ("prod", "bob", "writer")]);

    let plan = runtime.classify_plan(
        ExecutionClassification::Write,
        dbflux::json::JsonValue::Null,
        "alice".to_string(),
        "prod".to_string(),
        "execute_query".to_string(),
    );
    assert_eq!(plan.actor_id, "alice");
    assert_eq!(plan.connection_id, "prod");
    assert_eq!(plan.tool_id, "execute_query");
    assert_eq!(plan.classification, ExecutionClassification::Write);
}

#[test]
fn hook_processes_stop_on_cancellation_then_timeout() {
    let mut h = hook("sleep");
    h.args = vec!["10".to_string()];
    h.timeout_ms = Some(5);
    assert_eq!(h.should_stop(true, 0), Some(HookStop::Cancelled));
    assert_eq!(h.should_stop(false, 5_000_000), None);
    assert_eq!(h.should_stop(false, 5_000_001), Some(HookStop::TimedOut));
    h.timeout_ms = None;
    assert_eq!(h.should_stop(false, u128::MAX), None);
    assert_eq!(h.spawn_error("not found"), "Failed to execute 'sleep 10': not found");
    assert_eq!(h.wait_error("interrupted"), "Failed to wait for hook 'sleep 10': interrupted");
    match h.stopped_outcome(HookStop::Cancelled, "out".to_string(), "err".to_string()) {
        Err(message) => assert_eq!(message, "Hook 'sleep 10' cancelled\nouterr"),
        other => panic!("expected an error, got {other:?}"),
    }
    let timed_out = h.stopped_outcome(HookStop::TimedOut, "o".to_string(), String::new()).expect("a result");
    assert!(timed_out.timed_out && timed_out.exit_code.is_none() && timed_out.stdout == "o");
    let done = finished_outcome(Some(3), String::new(), "e".to_string()).expect("a result");
    assert_eq!(done.exit_code, Some(3));
    assert!(!done.timed_out);
    assert!(dbflux::hooks::default_enabled() && dbflux::hooks::default_inherit_env());
}

#[test]
fn queries_are_classified_by_their_first_word() {
    assert_eq!(classify_query("  select * from t"), ExecutionClassification::Read);
    assert_eq!(classify_query("EXPLAIN select 1"), ExecutionClassification::Read);
    assert_eq!(classify_query("insert into t values (1)"), ExecutionClassification::Write);
    assert_eq!(classify_query("Update t set a = 1"), ExecutionClassification::Write);
    assert_eq!(classify_query("\ndrop table t"), ExecutionClassification::Destructive);
    assert_eq!(classify_query("truncate t"), ExecutionClassification::Destructive);
    assert_eq!(classify_query("grant select on t to u"), ExecutionClassification::Admin);
    assert_eq!(classify_query("create index i on t (a)"), ExecutionClassification::Admin);
    assert_eq!(classify_query("vacuum"), ExecutionClassification::Read);
    assert_eq!(classify_query(""), ExecutionClassification::Read);
}


#[test]
fn audit_service_switches_start_safe_and_can_be_flipped() {
    let mut service = AuditService::new();
    assert!(service.is_enabled());
    assert!(service.redact_sensitive());
    assert!(!service.capture_query_text());
    service.set_capture_query_text(true);
    service.set_redact_sensitive(false);
    assert!(service.capture_query_text());
    assert!(!service.redact_sensitive());
    assert!(service.is_enabled());
    service.set_enabled(false);
    assert!(!service.is_enabled());
}

#[test]
fn recording_fingerprints_query_text_unless_it_is_captured() {
    let mut service = AuditService::new();
    let details = r#"{"user":"x","query":" SELECT 1 "}"#;
    match service.record("query.execute", Some(details)) {
        RecordStep::Store { details_json, redact } => {
            assert_eq!(
                details_json.as_deref(),
                Some(r#"{"query":"[FINGERPRINT:822ae07d4783158b]","query_length":10,"user":"x"}"#)
            );
            assert!(redact);
        }
        other => panic!("unexpected step {:?}", other),
    }
    match service.record("query.execute", Some("not json")) {
        RecordStep::Store { details_json, .. } => assert_eq!(details_json.as_deref(), Some("not json")),
        other => panic!("unexpected step {:?}", other),
    }
    service.set_capture_query_text(true);
    match service.record("query.execute", Some(details)) {
        RecordStep::Store { details_json, .. } => assert_eq!(details_json.as_deref(), Some(details)),
        other => panic!("unexpected step {:?}", other),
    }
    assert!(matches!(service.record("", None), RecordStep::MissingAction));
    service.set_enabled(false);
    assert!(matches!(service.record("", Some(details)), RecordStep::MissingAction));
    assert!(matches!(service.record("query.execute", Some(details)), RecordStep::Skip));
}
