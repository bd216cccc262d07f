use dbflux::ui::{
    build_sidebar_tree, collapse_state, DriversEditor, HookEditorFlags, ServiceFocus, ServicesKeyState, section_for_tree_id, sidebar_cursor, SidebarIcon, SidebarRow, UiState,
    drivers_key_selection, KeyModifiers, SectionRequestOutcome, SettingsFocus, SettingsKeyAction, SettingsNavigation,
    SettingsSectionId, SidebarCursor,
};

const PLAIN: KeyModifiers = KeyModifiers::NoModifiers;

#[test]
fn switching_away_from_a_dirty_section_waits_for_confirmation() {
    let mut nav = SettingsNavigation::new_with_section(SettingsSectionId::General);
    assert_eq!(nav.focus_area, SettingsFocus::Sidebar);
    assert_eq!(nav.request_section_transition(SettingsSectionId::Hooks, true), SectionRequestOutcome::AwaitingConfirmation);
    assert_eq!(nav.active_section, SettingsSectionId::General);
    assert_eq!(nav.pending_section_confirm, Some(SettingsSectionId::Hooks));
    assert_eq!(nav.handle_key_event("escape", PLAIN, SidebarCursor::Other), SettingsKeyAction::Ignore);
    assert_eq!(nav.confirm_section_transition(), Some(SettingsSectionId::Hooks));
    assert_eq!(nav.active_section, SettingsSectionId::Hooks);
    assert_eq!(nav.focus_area, SettingsFocus::Content);
    assert_eq!(nav.pending_section_confirm, None);
    assert_eq!(nav.confirm_section_transition(), None);
}

#[test]
fn cancelling_a_switch_keeps_the_section() {
    let mut nav = SettingsNavigation::new_with_section(SettingsSectionId::Proxies);
    nav.request_section_transition(SettingsSectionId::Drivers, true);
    assert_eq!(nav.cancel_section_transition(), SettingsSectionId::Proxies);
    assert_eq!(nav, SettingsNavigation::new_with_section(SettingsSectionId::Proxies));
}

#[test]
fn clean_sections_switch_at_once() {
    let mut nav = SettingsNavigation::new_with_section(SettingsSectionId::General);
    assert_eq!(nav.request_section_transition(SettingsSectionId::About, false), SectionRequestOutcome::Switched);
    assert_eq!(nav.active_section, SettingsSectionId::About);
    assert_eq!(nav.focus_area, SettingsFocus::Content);
    assert_eq!(nav.request_section_transition(SettingsSectionId::About, true), SectionRequestOutcome::FocusedActive);
    assert!(!nav.set_active_section(SettingsSectionId::About));
    assert!(nav.set_active_section(SettingsSectionId::General));
}

#[test]
fn settings_keys_move_between_panes_and_the_sidebar() {
    let mut nav = SettingsNavigation::new_with_section(SettingsSectionId::General);
    assert_eq!(nav.handle_key_event("j", PLAIN, SidebarCursor::Other), SettingsKeyAction::MoveNext);
    assert_eq!(nav.handle_key_event("up", PLAIN, SidebarCursor::Other), SettingsKeyAction::MovePrev);
    assert_eq!(nav.handle_key_event("space", PLAIN, SidebarCursor::Other), SettingsKeyAction::ActivateCursor);
    assert_eq!(nav.handle_key_event("right", PLAIN, SidebarCursor::CollapsedGroup), SettingsKeyAction::ActivateCursor);
    assert_eq!(nav.handle_key_event("left", PLAIN, SidebarCursor::ExpandedGroup), SettingsKeyAction::ActivateCursor);
    assert_eq!(nav.handle_key_event("left", PLAIN, SidebarCursor::CollapsedGroup), SettingsKeyAction::Ignore);
    assert_eq!(nav.handle_key_event("j", KeyModifiers::Shift, SidebarCursor::Other), SettingsKeyAction::Ignore);
    assert_eq!(nav.handle_key_event("right", PLAIN, SidebarCursor::Other), SettingsKeyAction::FocusContent);
    assert_eq!(nav.focus_area, SettingsFocus::Content);
    assert_eq!(nav.handle_key_event("j", PLAIN, SidebarCursor::Other), SettingsKeyAction::ForwardToSection);
    assert_eq!(nav.handle_key_event("tab", KeyModifiers::Shift, SidebarCursor::Other), SettingsKeyAction::FocusSidebar);
    assert_eq!(nav.handle_key_event("tab", PLAIN, SidebarCursor::Other), SettingsKeyAction::FocusContent);
    assert_eq!(nav.handle_key_event("escape", PLAIN, SidebarCursor::Other), SettingsKeyAction::CloseWindow);
}

#[test]
fn drivers_keys_step_within_the_list() {
    assert_eq!(drivers_key_selection(true, Some(0), 3, "j", PLAIN), Some(1));
    assert_eq!(drivers_key_selection(true, Some(2), 3, "down", PLAIN), None);
    assert_eq!(drivers_key_selection(true, Some(2), 3, "k", PLAIN), Some(1));
    assert_eq!(drivers_key_selection(true, Some(0), 3, "up", PLAIN), None);
    assert_eq!(drivers_key_selection(true, None, 3, "j", PLAIN), None);
    assert_eq!(drivers_key_selection(false, Some(0), 3, "j", PLAIN), None);
    assert_eq!(drivers_key_selection(true, Some(0), 3, "j", KeyModifiers::Other), None);
}

#[test]
fn sidebar_tree_lists_every_section_and_opens_uncollapsed_groups() {
    let state = UiState {
        settings_collapsed_security: false,
        settings_collapsed_network: true,
        settings_collapsed_connection: false,
    };
    let tree = build_sidebar_tree(&state);
    let ids: Vec<&str> = tree.nodes.iter().map(|n| n.entry.id).collect();
    assert_eq!(ids, vec!["general", "keybindings", "security", "network", "connection", "about"]);
    assert_eq!(tree.nodes[3].entry.label, "Network");
    assert_eq!(tree.nodes[3].entry.icon, SidebarIcon::Server);
    let network: Vec<&str> = tree.nodes[3].children.iter().map(|l| l.id).collect();
    assert_eq!(network, vec!["proxies", "ssh-tunnels"]);
    assert_eq!(tree.expanded, vec!["security", "connection"]);
    let mut opened = 0;
    for node in &tree.nodes {
        if node.children.is_empty() {
            assert!(section_for_tree_id(node.entry.id).is_some());
            opened += 1;
        }
        for child in &node.children {
            assert!(section_for_tree_id(child.id).is_some());
            opened += 1;
        }
    }
    assert_eq!(opened, 9);
}

#[test]
fn stored_collapse_state_survives_a_rebuild() {
    for bits in 0..8u8 {
        let state = UiState {
            settings_collapsed_security: bits & 1 != 0,
            settings_collapsed_network: bits & 2 != 0,
            settings_collapsed_connection: bits & 4 != 0,
        };
        let tree = build_sidebar_tree(&state);
        assert_eq!(collapse_state(&tree.expanded), state);
    }
    let all_open = collapse_state(&vec!["connection", "security", "network"]);
    assert!(!all_open.settings_collapsed_security && !all_open.settings_collapsed_network && !all_open.settings_collapsed_connection);
}

#[test]
fn activating_sidebar_entries_asks_for_their_sections() {
    let mut nav = SettingsNavigation::new_with_section(SettingsSectionId::General);
    assert_eq!(nav.activate_sidebar_entry("network", false), None);
    assert_eq!(nav.active_section, SettingsSectionId::General);
    assert_eq!(nav.focus_area, SettingsFocus::Sidebar);
    assert_eq!(nav.activate_sidebar_entry("ssh-tunnels", false), Some(SectionRequestOutcome::Switched));
    assert_eq!(nav.active_section, SettingsSectionId::SshTunnels);
    assert_eq!(nav.activate_sidebar_entry("hooks", true), Some(SectionRequestOutcome::AwaitingConfirmation));
    assert_eq!(nav.pending_section_confirm, Some(SettingsSectionId::Hooks));
}

#[test]
fn only_unselectable_rows_with_children_are_groups() {
    let group = |expanded| Some(SidebarRow { has_children: true, selectable: false, expanded });
    assert_eq!(sidebar_cursor(group(false)), SidebarCursor::CollapsedGroup);
    assert_eq!(sidebar_cursor(group(true)), SidebarCursor::ExpandedGroup);
    assert_eq!(sidebar_cursor(Some(SidebarRow { has_children: false, selectable: true, expanded: false })), SidebarCursor::Other);
    assert_eq!(sidebar_cursor(Some(SidebarRow { has_children: true, selectable: true, expanded: true })), SidebarCursor::Other);
    assert_eq!(sidebar_cursor(None), SidebarCursor::Other);
}

#[test]
fn driver_editor_changes_count_only_outside_loading() {
    let mut editor = DriversEditor::new();
    assert!(!editor.editor_dirty && !editor.content_focused && editor.selected_idx.is_none());
    editor.loading_selected_editor = true;
    editor.input_changed();
    assert!(!editor.editor_dirty);
    editor.loading_selected_editor = false;
    editor.input_changed();
    assert!(editor.editor_dirty);
    editor.focus_in();
    assert!(editor.content_focused);
    editor.focus_out();
    assert!(!editor.content_focused);
    assert!(editor.editor_dirty);
}

#[test]
fn services_section_leaves_field_editing_when_it_loses_focus() {
    let mut state = ServicesKeyState {
        delete_pending: false,
        content_focused: false,
        focus: ServiceFocus::Form,
        editing_field: true,
        selected_idx: Some(0),
        service_count: 1,
    };
    state.focus_in();
    assert!(state.content_focused && state.editing_field);
    state.focus_out();
    assert!(!state.content_focused && !state.editing_field);
    assert_eq!(state.selected_idx, Some(0));
}

#[test]
fn hook_editor_opens_with_safe_defaults() {
    let mut flags = HookEditorFlags::new();
    assert!(flags.hook_enabled && flags.hook_inherit_env);
    assert!(flags.hook_lua_logging && flags.hook_lua_env_read && flags.hook_lua_connection_metadata);
    assert!(!flags.hook_lua_process_run && !flags.content_focused);
    flags.focus_in();
    assert!(flags.content_focused);
    flags.focus_out();
    assert!(!flags.content_focused);
}
