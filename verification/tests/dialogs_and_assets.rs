use dbflux::assets::Assets;
use dbflux::modals::{
    DeleteConnectionOutcome, DeleteConnectionRequest, DirtySummaryEntry, DocumentId, ModalDeleteConnection,
    ModalTunnelAuth, ModalUnsavedChanges, TunnelAuthOutcome, TunnelAuthRequest, UnsavedChangesOutcome,
    UnsavedChangesRequest,
};
use dbflux::redis::RedisLanguageService;
use dbflux::dynamo::service::ValidationResult;
use dbflux::ui::{ExternalDriverDiagnostic, ExternalDriverStage};

fn make_entry(id: DocumentId, name: &str) -> DirtySummaryEntry {
    DirtySummaryEntry { id, name: name.to_string(), summary: "+3/-1 lines".to_string() }
}

fn modal_with(entries: Vec<DirtySummaryEntry>) -> ModalUnsavedChanges {
    let mut modal = ModalUnsavedChanges::new();
    modal.open(UnsavedChangesRequest { entries });
    modal
}

#[test]
fn empty_passphrase_fails_validation() {
    assert!(TunnelAuthRequest::validate_passphrase("").is_err());
}

#[test]
fn non_empty_passphrase_passes_validation() {
    assert!(TunnelAuthRequest::validate_passphrase("hunter2").is_ok());
    assert!(TunnelAuthRequest::validate_passphrase(" ").is_ok());
}

#[test]
fn selected_count_all_checked() {
    let a = DocumentId(1);
    let b = DocumentId(2);
    let modal = modal_with(vec![make_entry(a, "query.sql"), make_entry(b, "notes.sql")]);
    assert_eq!(modal.selected_count(), 2);
}

#[test]
fn selected_count_none_checked() {
    let a = DocumentId(1);
    let mut modal = modal_with(vec![make_entry(a, "query.sql")]);
    modal.toggle(a);
    assert_eq!(modal.selected_count(), 0);
}

#[test]
fn save_selected_disabled_when_zero_checked() {
    let a = DocumentId(1);
    let mut modal = modal_with(vec![make_entry(a, "query.sql")]);
    modal.toggle(a);
    assert_eq!(modal.selected_count(), 0, "count zero means button is disabled");
    assert!(modal.save_selected().is_none());
    assert!(modal.is_visible());
}

#[test]
fn selected_ids_returns_only_checked() {
    let a = DocumentId(1);
    let b = DocumentId(2);
    let mut modal = modal_with(vec![make_entry(a, "a.sql"), make_entry(b, "b.sql")]);
    modal.toggle(b);
    let ids = modal.selected_ids();
    assert_eq!(ids, vec![a]);
}

#[test]
fn toggle_flips_state() {
    let a = DocumentId(1);
    let mut modal = modal_with(vec![make_entry(a, "a.sql")]);
    assert_eq!(modal.selected_ids(), vec![a]);
    modal.toggle(a);
    assert!(modal.selected_ids().is_empty());
    modal.toggle(a);
    assert_eq!(modal.selected_ids(), vec![a]);
}

#[test]
fn toggling_an_unlisted_document_checks_it() {
    let a = DocumentId(1);
    let c = DocumentId(3);
    let mut modal = modal_with(vec![make_entry(a, "a.sql")]);
    modal.toggle(c);
    assert_eq!(modal.selected_count(), 2);
}

#[test]
fn duplicate_entries_are_counted_once() {
    let a = DocumentId(1);
    let modal = modal_with(vec![make_entry(a, "a.sql"), make_entry(a, "a-again.sql")]);
    assert_eq!(modal.selected_count(), 1);
}

#[test]
fn unsaved_changes_buttons_close_the_dialog() {
    let a = DocumentId(1);
    let b = DocumentId(2);
    let mut modal = modal_with(vec![make_entry(a, "a.sql"), make_entry(b, "b.sql")]);
    assert_eq!(modal.save_label(), "Save selected (2)");
    modal.toggle(a);
    assert_eq!(modal.save_label(), "Save selected (1)");
    match modal.save_selected() {
        Some(UnsavedChangesOutcome::SaveSelected(ids)) => assert_eq!(ids, vec![b]),
        other => panic!("expected SaveSelected, got {other:?}"),
    }
    assert!(!modal.is_visible());
    assert_eq!(modal.selected_count(), 0);

    let mut modal = modal_with(vec![make_entry(a, "a.sql")]);
    assert!(matches!(modal.discard_all(), UnsavedChangesOutcome::DiscardAll));
    assert!(!modal.is_visible());
    let mut modal = modal_with(vec![make_entry(a, "a.sql")]);
    assert!(matches!(modal.cancel(), UnsavedChangesOutcome::Cancelled));
    assert!(!modal.is_visible());
}

#[test]
fn tunnel_auth_connect_requires_a_passphrase() {
    let request = TunnelAuthRequest {
        tunnel_id: 42,
        tunnel_name: "bastion".to_string(),
        host: "ssh.example.com".to_string(),
        port: 2222,
        user: "deploy".to_string(),
        last_attempt_failed: false,
    };
    assert_eq!(request.connection_detail(), "Host: ssh.example.com:2222 · User: deploy");
    let mut modal = ModalTunnelAuth::new();
    modal.open(request);
    modal.remember = false;
    assert!(modal.connect(String::new()).is_none());
    assert!(modal.is_visible());
    match modal.connect("hunter2".to_string()) {
        Some(TunnelAuthOutcome::Provided { passphrase, remember }) => {
            assert_eq!(passphrase, "hunter2");
            assert!(!remember);
        }
        other => panic!("expected Provided, got {other:?}"),
    }
    assert!(!modal.is_visible());
    assert!(modal.request.is_none());
    modal.open(TunnelAuthRequest {
        tunnel_id: 1,
        tunnel_name: "t".to_string(),
        host: "h".to_string(),
        port: 22,
        user: "u".to_string(),
        last_attempt_failed: true,
    });
    assert!(modal.remember);
    assert!(matches!(modal.cancel(), TunnelAuthOutcome::Cancelled));
    assert!(!modal.is_visible());
}

#[test]
fn delete_connection_dialog_reports_the_choice() {
    let mut modal = ModalDeleteConnection::new();
    assert!(!modal.is_visible());
    modal.open(DeleteConnectionRequest { connection_name: "prod".to_string(), has_open_documents: true });
    assert!(modal.is_visible());
    assert_eq!(modal.resolve(true), DeleteConnectionOutcome::Confirmed);
    assert!(!modal.is_visible());
    assert!(modal.request.is_none());
    modal.open(DeleteConnectionRequest { connection_name: "dev".to_string(), has_open_documents: false });
    assert_eq!(modal.resolve(false), DeleteConnectionOutcome::Cancelled);
}

fn icons() -> Vec<String> {
    vec![
        "icons/ui/chevron-down.svg".to_string(),
        "icons/ui/loader.svg".to_string(),
        "icons/brand/postgres.svg".to_string(),
        "icons/ui/nested/deep.svg".to_string(),
    ]
}

#[test]
fn assets_resolve_exact_and_aliased_icon_paths() {
    let assets = Assets;
    let icons = icons();
    assert_eq!(assets.load("icons/ui/loader.svg", &icons), Some(1));
    assert_eq!(assets.load("icons/chevron-down.svg", &icons), Some(0));
    assert_eq!(assets.load("icons/brand/missing.svg", &icons), None);
    assert_eq!(assets.load("icons/ui/missing.svg", &icons), None);
    assert_eq!(assets.load("icons/postgres.svg", &icons), None);
    assert_eq!(assets.load("fonts/inter.ttf", &icons), None);
}

#[test]
fn assets_list_only_direct_children_of_a_directory() {
    let assets = Assets;
    let icons = icons();
    assert_eq!(assets.list("icons/ui", &icons), vec!["icons/ui/chevron-down.svg", "icons/ui/loader.svg"]);
    assert_eq!(assets.list("icons/ui//", &icons), vec!["icons/ui/chevron-down.svg", "icons/ui/loader.svg"]);
    assert_eq!(assets.list("icons/brand/", &icons), vec!["icons/brand/postgres.svg"]);
    assert!(assets.list("icons", &icons).is_empty());
    assert!(assets.list("", &vec!["top.svg".to_string()]).is_empty());
}

#[test]
fn redis_accepts_every_query() {
    let service = RedisLanguageService;
    assert!(matches!(service.validate("FLUSHALL"), ValidationResult::Valid));
    assert!(matches!(service.validate(""), ValidationResult::Valid));
}

#[test]
fn external_driver_diagnostics_carry_their_stage() {
    let diagnostic = ExternalDriverDiagnostic {
        socket_id: "mongo".to_string(),
        stage: ExternalDriverStage::Probe,
        summary: "probe failed".to_string(),
        details: None,
    };
    assert_eq!(diagnostic.clone().stage, ExternalDriverStage::Probe);
}
