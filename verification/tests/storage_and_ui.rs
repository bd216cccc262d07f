use dbflux::storage::{
    clear_state_db_with, collect_rows, failed_import_record, import_status_of, plan_service_import,
    should_import_config_json, ImportResult, ImportStatus, LegacyImport, LegacyRpcService, ResetResult,
};
use dbflux::ui::{
    panel_bar_style_defaults, section_for_tree_id, services_key_action, tab_trigger_style_defaults, tree_id_for_section,
    BorderEdge, HeightToken, KeyModifiers, PanelBarStyleKind, ServiceFocus, ServicesKeyAction, ServicesKeyState,
    SettingsSectionId, ThemeColorSlot,
};
use std::cell::RefCell;

#[test]
fn reset_result_tracks_errors() {
    let mut result = ResetResult::default();
    result.errors.push("test error".to_string());

    assert!(result.has_errors());
}

#[test]
fn legacy_surface_source_files_are_removed() {
    assert!(!std::path::Path::new("src/ui/components/surfaces.rs").exists());
    assert!(!std::path::Path::new("src/ui/components/surfaces_style.rs").exists());
}

#[test]
fn tab_trigger_defaults_match_connection_manager_tabs() {
    let style = tab_trigger_style_defaults();

    assert_eq!(style.active_border, ThemeColorSlot::Primary);
    assert_eq!(style.active_text, ThemeColorSlot::Foreground);
    assert_eq!(style.active_background, None);
    assert_eq!(style.inactive_border, ThemeColorSlot::Transparent);
    assert_eq!(style.inactive_text, ThemeColorSlot::MutedForeground);
    assert_eq!(style.inactive_background, None);
    assert_eq!(style.hover_background, Some(ThemeColorSlot::Secondary));
}

#[test]
fn toolbar_panel_bar_defaults_match_workspace_toolbar() {
    let style = panel_bar_style_defaults(PanelBarStyleKind::Toolbar);

    assert_eq!(style.background, ThemeColorSlot::TabBar);
    assert_eq!(style.border_color, ThemeColorSlot::Border);
    assert_eq!(style.border_edge, BorderEdge::Bottom);
    assert_eq!(style.height, Some(HeightToken::Toolbar));
}

#[test]
fn footer_panel_bar_defaults_match_status_bar() {
    let style = panel_bar_style_defaults(PanelBarStyleKind::Footer);

    assert_eq!(style.background, ThemeColorSlot::Background);
    assert_eq!(style.border_color, ThemeColorSlot::Border);
    assert_eq!(style.border_edge, BorderEdge::Top);
    assert_eq!(style.height, Some(HeightToken::Toolbar));
}

#[test]
fn section_for_tree_id_known_ids() {
    assert_eq!(section_for_tree_id("general"), Some(SettingsSectionId::General));
    assert_eq!(section_for_tree_id("proxies"), Some(SettingsSectionId::Proxies));
}

#[test]
fn section_for_tree_id_unknown_returns_none() {
    assert_eq!(section_for_tree_id("nonexistent"), None);
}

#[test]
fn tree_id_roundtrip_all_sections() {
    for section in [
        SettingsSectionId::General,
        SettingsSectionId::Keybindings,
        SettingsSectionId::Proxies,
        SettingsSectionId::SshTunnels,
        SettingsSectionId::AuthProfiles,
        SettingsSectionId::Services,
        SettingsSectionId::Hooks,
        SettingsSectionId::Drivers,
        SettingsSectionId::About,
    ] {
        assert_eq!(section_for_tree_id(tree_id_for_section(section)), Some(section));
    }
}

#[test]
fn services_key_map() {
    let list = ServicesKeyState {
        delete_pending: false,
        content_focused: true,
        focus: ServiceFocus::List,
        editing_field: false,
        selected_idx: Some(1),
        service_count: 3,
    };
    assert_eq!(services_key_action(&list, "j", KeyModifiers::NoModifiers), ServicesKeyAction::NextService);
    assert_eq!(services_key_action(&list, "d", KeyModifiers::NoModifiers), ServicesKeyAction::RequestDelete(1));
    assert_eq!(services_key_action(&list, "g", KeyModifiers::Shift), ServicesKeyAction::SelectLast(2));
    assert_eq!(services_key_action(&list, "j", KeyModifiers::Other), ServicesKeyAction::Ignore);
    let editing = ServicesKeyState { focus: ServiceFocus::Form, editing_field: true, ..list };
    assert_eq!(services_key_action(&editing, "tab", KeyModifiers::Shift), ServicesKeyAction::StopEditingTabPrev);
    assert_eq!(services_key_action(&editing, "j", KeyModifiers::NoModifiers), ServicesKeyAction::Ignore);
    let pending = ServicesKeyState { delete_pending: true, ..list };
    assert_eq!(services_key_action(&pending, "j", KeyModifiers::NoModifiers), ServicesKeyAction::Ignore);
}

#[test]
fn import_status_decisions() {
    assert_eq!(import_status_of(None, "h"), None);
    assert_eq!(import_status_of(Some(("h", "completed")), "h"), Some(ImportStatus::Completed));
    assert_eq!(import_status_of(Some(("h", "running")), "h"), Some(ImportStatus::Failed));
    assert_eq!(import_status_of(Some(("old", "failed")), "h"), Some(ImportStatus::Completed));
}

#[test]
fn failed_import_records() {
    let fresh = failed_import_record(None, "/a/config.json", "config", "boom");
    assert!(fresh.is_failed());
    assert!(!fresh.is_completed());
    assert_eq!(fresh.source_hash, "");
    assert_eq!(fresh.error_message.as_deref(), Some("boom"));
    let existing = LegacyImport::new("/a/b.json".to_string(), "hooks".to_string(), "abc".to_string());
    assert!(existing.is_completed());
    let id = existing.id.clone();
    let updated = failed_import_record(Some(existing), "/ignored", "ignored", "again");
    assert_eq!(updated.id, id);
    assert_eq!(updated.source_hash, "abc");
    assert_eq!(updated.status, "failed");
}

#[test]
fn rows_collect_or_report_last_error() {
    let ok: Vec<Result<u32, String>> = vec![Ok(1), Ok(2)];
    assert_eq!(collect_rows(ok), Ok(vec![1, 2]));
    let bad: Vec<Result<u32, String>> = vec![Err("first".to_string()), Ok(2), Err("last".to_string()), Ok(4)];
    assert_eq!(collect_rows(bad), Err("last".to_string()));
}

#[test]
fn import_result_records_outcomes() {
    let mut result = ImportResult::new();
    assert!(!result.any_imported());
    result.record_rpc_import(Err("parse".to_string()));
    assert!(!result.any_imported());
    assert!(result.has_warnings());
    assert_eq!(result.warnings[0].message, "import failed: parse");
    result.record_rpc_import(Ok(()));
    result.record_backup(Err("rename".to_string()));
    assert!(result.any_imported());
    assert_eq!(result.warnings[1].source, "backup");
    assert_eq!(result.warnings[1].message, "backup failed: rename");
    assert!(should_import_config_json(true, &vec!["other.json".to_string()]));
    assert!(!should_import_config_json(true, &vec!["config.json".to_string()]));
    assert!(!should_import_config_json(false, &vec![]));
}

#[test]
fn legacy_service_rows() {
    let service = LegacyRpcService {
        enabled: None,
        command: Some("test-command".to_string()),
        args: Some(vec!["--flag".to_string(), "-v".to_string()]),
        env: Some(vec![("TEST_VAR".to_string(), "value".to_string())]),
        timeout_ms: Some(30000),
    };
    let rows = plan_service_import("test-socket", &service, false).expect("new service");
    assert_eq!(rows.enabled, 1);
    assert_eq!(rows.args, vec![(0, "--flag".to_string()), (1, "-v".to_string())]);
    assert_eq!(rows.env.len(), 1);
    assert_eq!(rows.startup_timeout_ms, Some(30000));
    assert!(plan_service_import("test-socket", &service, true).is_none());
    let disabled = LegacyRpcService { enabled: Some(false), command: None, args: None, env: None, timeout_ms: None };
    assert_eq!(plan_service_import("s", &disabled, false).expect("new").enabled, 0);
}

#[test]
fn state_reset_stops_at_first_failure() {
    let seen = RefCell::new(Vec::new());
    let ends: RefCell<Vec<bool>> = RefCell::new(Vec::new());
    let result = clear_state_db_with(
        "/tmp/dbflux.db".to_string(),
        || Ok(()),
        |sql: &str| {
            seen.borrow_mut().push(sql.to_string());
            if sql.ends_with("st_query_history") { Err("locked".to_string()) } else { Ok(2) }
        },
        |commit: bool| {
            ends.borrow_mut().push(commit);
            Ok(())
        },
    );
    assert_eq!(result.tables_cleared, vec!["st_sessions".to_string(), "st_session_tabs".to_string()]);
    assert_eq!(result.rows_deleted, 4);
    assert_eq!(result.errors, vec!["st_query_history: locked".to_string()]);
    assert_eq!(seen.borrow().len(), 3);
    assert_eq!(*ends.borrow(), vec![false]);

    let all = clear_state_db_with("p".to_string(), || Ok(()), |_sql: &str| Ok(1), |commit: bool| {
        assert!(commit);
        Err("disk full".to_string())
    });
    assert_eq!(all.tables_cleared.len(), 9);
    assert_eq!(all.errors, vec!["commit failed: disk full".to_string()]);

    let none = clear_state_db_with("p".to_string(), || Err("busy".to_string()), |_sql: &str| Ok(1), |_commit: bool| -> Result<(), String> {
        panic!("no transaction to end")
    });
    assert!(none.tables_cleared.is_empty());
    assert_eq!(none.errors, vec!["cannot start transaction: busy".to_string()]);
}
