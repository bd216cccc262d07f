//! Style defaults of shared UI surfaces and the settings window's section ids.
use vstd::prelude::*;
use crate::text::str_eq;

verus! {

/// A color of the active theme, by role.
#[derive(Debug, Clone, Copy, PartialEq, Eq, Structural)]
pub enum ThemeColorSlot {
    Background,
    Secondary,
    SecondaryHover,
    TabBar,
    Border,
    MutedForeground,
    Foreground,
    Primary,
    Accent,
    Transparent,
}

/// Which edges of a surface carry a border.
#[derive(Debug, Clone, Copy, PartialEq, Eq, Structural)]
pub enum BorderEdge {
    /// No edge.
    NoEdge,
    Top,
    Bottom,
    All,
}

/// The kinds of horizontal bar panels use.
#[derive(Debug, Clone, Copy, PartialEq, Eq, Structural)]
pub enum PanelBarStyleKind {
    Toolbar,
    RowCompact,
    Footer,
}

/// A height from the design tokens.
#[derive(Debug, Clone, Copy, PartialEq, Eq, Structural)]
pub enum HeightToken {
    Toolbar,
    RowCompact,
}

/// How a panel bar is drawn.
#[derive(Debug, Clone, Copy, PartialEq, Eq, Structural)]
pub struct PanelBarStyleSpec {
    pub background: ThemeColorSlot,
    pub border_color: ThemeColorSlot,
    pub border_edge: BorderEdge,
    pub height: Option<HeightToken>,
    pub hover_background: Option<ThemeColorSlot>,
}

/// The default look of each kind of panel bar: toolbars and compact rows sit
/// on the tab-bar color with a bottom border, footers on the background with
/// a top border; compact rows are row height, the others toolbar height.
pub open spec fn spec_panel_bar_style(kind: PanelBarStyleKind) -> PanelBarStyleSpec {
    match kind {
        PanelBarStyleKind::Toolbar => PanelBarStyleSpec {
            background: ThemeColorSlot::TabBar,
            border_color: ThemeColorSlot::Border,
            border_edge: BorderEdge::Bottom,
            height: Some(HeightToken::Toolbar),
            hover_background: None,
        },
        PanelBarStyleKind::RowCompact => PanelBarStyleSpec {
            background: ThemeColorSlot::TabBar,
            border_color: ThemeColorSlot::Border,
            border_edge: BorderEdge::Bottom,
            height: Some(HeightToken::RowCompact),
            hover_background: None,
        },
        PanelBarStyleKind::Footer => PanelBarStyleSpec {
            background: ThemeColorSlot::Background,
            border_color: ThemeColorSlot::Border,
            border_edge: BorderEdge::Top,
            height: Some(HeightToken::Toolbar),
            hover_background: None,
        },
    }
}

/// The default look of a panel bar of this kind.
pub fn panel_bar_style_defaults(kind: PanelBarStyleKind) -> (r: PanelBarStyleSpec)
    ensures
        r == spec_panel_bar_style(kind),
{
    match kind {
        PanelBarStyleKind::Toolbar => PanelBarStyleSpec {
            background: ThemeColorSlot::TabBar,
            border_color: ThemeColorSlot::Border,
            border_edge: BorderEdge::Bottom,
            height: Some(HeightToken::Toolbar),
            hover_background: None,
        },
        PanelBarStyleKind::RowCompact => PanelBarStyleSpec {
            background: ThemeColorSlot::TabBar,
            border_color: ThemeColorSlot::Border,
            border_edge: BorderEdge::Bottom,
            height: Some(HeightToken::RowCompact),
            hover_background: None,
        },
        PanelBarStyleKind::Footer => PanelBarStyleSpec {
            background: ThemeColorSlot::Background,
            border_color: ThemeColorSlot::Border,
            border_edge: BorderEdge::Top,
            height: Some(HeightToken::Toolbar),
            hover_background: None,
        },
    }
}

/// How a tab trigger is drawn when active, inactive and hovered.
#[derive(Debug, Clone, Copy, PartialEq, Eq, Structural)]
pub struct TabTriggerStyleSpec {
    pub active_border: ThemeColorSlot,
    pub active_text: ThemeColorSlot,
    pub active_background: Option<ThemeColorSlot>,
    pub inactive_border: ThemeColorSlot,
    pub inactive_text: ThemeColorSlot,
    pub inactive_background: Option<ThemeColorSlot>,
    pub hover_background: Option<ThemeColorSlot>,
}

/// The default look of tab triggers: the active tab underlined in the primary
/// color with foreground text, inactive tabs with a transparent border and
/// muted text, hovered tabs on the secondary color; no backgrounds otherwise.
pub fn tab_trigger_style_defaults() -> (r: TabTriggerStyleSpec)
    ensures
        r == (TabTriggerStyleSpec {
            active_border: ThemeColorSlot::Primary,
            active_text: ThemeColorSlot::Foreground,
            active_background: None,
            inactive_border: ThemeColorSlot::Transparent,
            inactive_text: ThemeColorSlot::MutedForeground,
            inactive_background: None,
            hover_background: Some(ThemeColorSlot::Secondary),
        }),
{
    TabTriggerStyleSpec {
        active_border: ThemeColorSlot::Primary,
        active_text: ThemeColorSlot::Foreground,
        active_background: None,
        inactive_border: ThemeColorSlot::Transparent,
        inactive_text: ThemeColorSlot::MutedForeground,
        inactive_background: None,
        hover_background: Some(ThemeColorSlot::Secondary),
    }
}

/// The sections of the settings window.
#[derive(Debug, Clone, Copy, PartialEq, Eq, Structural)]
pub enum SettingsSectionId {
    General,
    Keybindings,
    Proxies,
    SshTunnels,
    AuthProfiles,
    Services,
    Hooks,
    Drivers,
    About,
}

/// The id of a section's entry in the settings sidebar tree.
pub open spec fn spec_tree_id(section: SettingsSectionId) -> Seq<char> {
    match section {
        SettingsSectionId::General => "general"@,
        SettingsSectionId::Keybindings => "keybindings"@,
        SettingsSectionId::Proxies => "proxies"@,
        SettingsSectionId::SshTunnels => "ssh-tunnels"@,
        SettingsSectionId::AuthProfiles => "auth-profiles"@,
        SettingsSectionId::Services => "services"@,
        SettingsSectionId::Hooks => "hooks"@,
        SettingsSectionId::Drivers => "drivers"@,
        SettingsSectionId::About => "about"@,
    }
}

/// The sidebar tree id of a section.
pub fn tree_id_for_section(section: SettingsSectionId) -> (r: &'static str)
    ensures
        r@ == spec_tree_id(section),
{
    match section {
        SettingsSectionId::General => "general",
        SettingsSectionId::Keybindings => "keybindings",
        SettingsSectionId::Proxies => "proxies",
        SettingsSectionId::SshTunnels => "ssh-tunnels",
        SettingsSectionId::AuthProfiles => "auth-profiles",
        SettingsSectionId::Services => "services",
        SettingsSectionId::Hooks => "hooks",
        SettingsSectionId::Drivers => "drivers",
        SettingsSectionId::About => "about",
    }
}

/// The section a sidebar tree id names: the one whose id it is, if any.
pub fn section_for_tree_id(id: &str) -> (r: Option<SettingsSectionId>)
    ensures
        match r {
            Some(s) => spec_tree_id(s) == id@,
            None => forall|s: SettingsSectionId| #[trigger] spec_tree_id(s) != id@,
        },
{
    if str_eq(id, "general") {
        Some(SettingsSectionId::General)
    } else if str_eq(id, "keybindings") {
        Some(SettingsSectionId::Keybindings)
    } else if str_eq(id, "proxies") {
        Some(SettingsSectionId::Proxies)
    } else if str_eq(id, "ssh-tunnels") {
        Some(SettingsSectionId::SshTunnels)
    } else if str_eq(id, "auth-profiles") {
        Some(SettingsSectionId::AuthProfiles)
    } else if str_eq(id, "services") {
        Some(SettingsSectionId::Services)
    } else if str_eq(id, "hooks") {
        Some(SettingsSectionId::Hooks)
    } else if str_eq(id, "drivers") {
        Some(SettingsSectionId::Drivers)
    } else if str_eq(id, "about") {
        Some(SettingsSectionId::About)
    } else {
        assert forall|s: SettingsSectionId| spec_tree_id(s) != id@ by {
            match s {
                SettingsSectionId::General => {},
                SettingsSectionId::Keybindings => {},
                SettingsSectionId::Proxies => {},
                SettingsSectionId::SshTunnels => {},
                SettingsSectionId::AuthProfiles => {},
                SettingsSectionId::Services => {},
                SettingsSectionId::Hooks => {},
                SettingsSectionId::Drivers => {},
                SettingsSectionId::About => {},
            }
        }
        None
    }
}

/// Distinct sections have distinct tree ids.
pub proof fn lemma_tree_ids_distinct(a: SettingsSectionId, b: SettingsSectionId)
    ensures
        spec_tree_id(a) == spec_tree_id(b) ==> a == b,
{
    reveal_strlit("general");
    reveal_strlit("keybindings");
    reveal_strlit("proxies");
    reveal_strlit("ssh-tunnels");
    reveal_strlit("auth-profiles");
    reveal_strlit("services");
    reveal_strlit("hooks");
    reveal_strlit("drivers");
    reveal_strlit("about");
    if spec_tree_id(a) == spec_tree_id(b) && a != b {
        assert(spec_tree_id(a).len() == spec_tree_id(b).len());
        assert(spec_tree_id(a)[0] == spec_tree_id(b)[0]);
        assert(spec_tree_id(a)[1] == spec_tree_id(b)[1]);
    }
}

/// Looking up a section's own tree id gives the section back.
pub proof fn lemma_tree_id_roundtrip(section: SettingsSectionId, found: Option<SettingsSectionId>)
    requires
        found matches Some(s) ==> spec_tree_id(s) == spec_tree_id(section),
        found is None ==> forall|s: SettingsSectionId| #[trigger] spec_tree_id(s) != spec_tree_id(section),
    ensures
        found == Some(section),
{
    match found {
        Some(s) => {
            lemma_tree_ids_distinct(s, section);
            assert(s == section);
        },
        None => {
            let id = spec_tree_id(section);
            assert(spec_tree_id(section) == id);
        },
    }
}

/// The icon shown beside an entry of the settings sidebar.
#[derive(Debug, Clone, Copy, PartialEq, Eq, Structural)]
pub enum SidebarIcon {
    Settings,
    Keyboard,
    Lock,
    KeyRound,
    Server,
    FingerprintPattern,
    Link2,
    Plug,
    SquareTerminal,
    Database,
    Info,
}

/// One entry of the settings sidebar: its tree id, its label and its icon.
#[derive(Debug, Clone, Copy, PartialEq, Eq)]
pub struct SidebarLeaf {
    pub id: &'static str,
    pub label: &'static str,
    pub icon: SidebarIcon,
}

/// A top-level entry of the settings sidebar; a group when it has children.
#[derive(Debug, Clone)]
pub struct SidebarNode {
    pub entry: SidebarLeaf,
    pub children: Vec<SidebarLeaf>,
}

/// Which groups of the settings sidebar the user left collapsed.
#[derive(Debug, Clone, Copy, PartialEq, Eq, Structural)]
pub struct UiState {
    pub settings_collapsed_security: bool,
    pub settings_collapsed_network: bool,
    pub settings_collapsed_connection: bool,
}

/// The settings sidebar: its entries and the ids of the groups shown open.
#[derive(Debug, Clone)]
pub struct SidebarTree {
    pub nodes: Vec<SidebarNode>,
    pub expanded: Vec<&'static str>,
}

pub open spec fn leaf(id: &'static str, label: &'static str, icon: SidebarIcon) -> SidebarLeaf {
    SidebarLeaf { id, label, icon }
}

pub open spec fn node_view(n: SidebarNode) -> (SidebarLeaf, Seq<SidebarLeaf>) {
    (n.entry, n.children@)
}

/// The entries of the settings sidebar, in the order shown.
pub open spec fn spec_sidebar_nodes() -> Seq<(SidebarLeaf, Seq<SidebarLeaf>)> {
    seq![
        (leaf("general", "General", SidebarIcon::Settings), seq![]),
        (leaf("keybindings", "Keybindings", SidebarIcon::Keyboard), seq![]),
        (leaf("security", "Security", SidebarIcon::Lock), seq![
            leaf("auth-profiles", "Auth Profiles", SidebarIcon::KeyRound),
        ]),
        (leaf("network", "Network", SidebarIcon::Server), seq![
            leaf("proxies", "Proxy", SidebarIcon::Server),
            leaf("ssh-tunnels", "SSH Tunnels", SidebarIcon::FingerprintPattern),
        ]),
        (leaf("connection", "Connection", SidebarIcon::Link2), seq![
            leaf("services", "Services", SidebarIcon::Plug),
            leaf("hooks", "Hooks", SidebarIcon::SquareTerminal),
            leaf("drivers", "Drivers", SidebarIcon::Database),
        ]),
        (leaf("about", "About", SidebarIcon::Info), seq![]),
    ]
}

/// The groups shown open: each one that the stored state does not mark collapsed.
pub open spec fn spec_expanded_groups(state: UiState) -> Seq<Seq<char>> {
    let a: Seq<Seq<char>> = if state.settings_collapsed_security { seq![] } else { seq!["security"@] };
    let b: Seq<Seq<char>> = if state.settings_collapsed_network { a } else { a.push("network"@) };
    if state.settings_collapsed_connection { b } else { b.push("connection"@) }
}

/// The entries that open a section: the top-level entries without children
/// and the children of the groups.
pub open spec fn spec_sidebar_sections() -> Seq<Seq<char>> {
    seq![
        "general"@, "keybindings"@, "auth-profiles"@, "proxies"@, "ssh-tunnels"@,
        "services"@, "hooks"@, "drivers"@, "about"@,
    ]
}

fn sidebar_leaf(id: &'static str, label: &'static str, icon: SidebarIcon) -> (r: SidebarLeaf)
    ensures
        r == leaf(id, label, icon),
{
    SidebarLeaf { id, label, icon }
}

/// The settings sidebar for a stored collapse state: its fixed entries, and
/// open every group that the state does not mark collapsed.
pub fn build_sidebar_tree(ui_state: &UiState) -> (r: SidebarTree)
    ensures
        r.nodes@.map_values(|n: SidebarNode| node_view(n)) == spec_sidebar_nodes(),
        r.expanded@.map_values(|s: &'static str| s@) == spec_expanded_groups(*ui_state),
{
    let mut nodes: Vec<SidebarNode> = Vec::new();
    nodes.push(SidebarNode { entry: sidebar_leaf("general", "General", SidebarIcon::Settings), children: Vec::new() });
    nodes.push(SidebarNode { entry: sidebar_leaf("keybindings", "Keybindings", SidebarIcon::Keyboard), children: Vec::new() });
    let mut security: Vec<SidebarLeaf> = Vec::new();
    security.push(sidebar_leaf("auth-profiles", "Auth Profiles", SidebarIcon::KeyRound));
    assert(security@ =~= seq![leaf("auth-profiles", "Auth Profiles", SidebarIcon::KeyRound)]);
    nodes.push(SidebarNode { entry: sidebar_leaf("security", "Security", SidebarIcon::Lock), children: security });
    let mut network: Vec<SidebarLeaf> = Vec::new();
    network.push(sidebar_leaf("proxies", "Proxy", SidebarIcon::Server));
    network.push(sidebar_leaf("ssh-tunnels", "SSH Tunnels", SidebarIcon::FingerprintPattern));
    assert(network@ =~= seq![
        leaf("proxies", "Proxy", SidebarIcon::Server),
        leaf("ssh-tunnels", "SSH Tunnels", SidebarIcon::FingerprintPattern),
    ]);
    nodes.push(SidebarNode { entry: sidebar_leaf("network", "Network", SidebarIcon::Server), children: network });
    let mut connection: Vec<SidebarLeaf> = Vec::new();
    connection.push(sidebar_leaf("services", "Services", SidebarIcon::Plug));
    connection.push(sidebar_leaf("hooks", "Hooks", SidebarIcon::SquareTerminal));
    connection.push(sidebar_leaf("drivers", "Drivers", SidebarIcon::Database));
    assert(connection@ =~= seq![
        leaf("services", "Services", SidebarIcon::Plug),
        leaf("hooks", "Hooks", SidebarIcon::SquareTerminal),
        leaf("drivers", "Drivers", SidebarIcon::Database),
    ]);
    nodes.push(SidebarNode { entry: sidebar_leaf("connection", "Connection", SidebarIcon::Link2), children: connection });
    nodes.push(SidebarNode { entry: sidebar_leaf("about", "About", SidebarIcon::Info), children: Vec::new() });

    let mut expanded: Vec<&'static str> = Vec::new();
    if !ui_state.settings_collapsed_security {
        expanded.push("security");
    }
    if !ui_state.settings_collapsed_network {
        expanded.push("network");
    }
    if !ui_state.settings_collapsed_connection {
        expanded.push("connection");
    }
    assert(nodes@.map_values(|n: SidebarNode| node_view(n)) =~= spec_sidebar_nodes());
    assert(expanded@.map_values(|s: &'static str| s@) =~= spec_expanded_groups(*ui_state));
    SidebarTree { nodes, expanded }
}

fn contains_id(ids: &Vec<&'static str>, id: &str) -> (r: bool)
    ensures
        r == ids@.map_values(|s: &'static str| s@).contains(id@),
{
    let ghost view = ids@.map_values(|s: &'static str| s@);
    let mut i: usize = 0;
    while i < ids.len()
        invariant
            i <= ids.len(),
            view == ids@.map_values(|s: &'static str| s@),
            forall|j: int| 0 <= j < i ==> view[j] != id@,
        decreases ids.len() - i,
    {
        if str_eq(ids[i], id) {
            assert(view[i as int] == id@);
            return true;
        }
        i = i + 1;
    }
    false
}

/// The collapse state to store for the groups shown open: a group is
/// collapsed exactly when it is not among them.
pub fn collapse_state(expanded: &Vec<&'static str>) -> (r: UiState)
    ensures
        r.settings_collapsed_security == !expanded@.map_values(|s: &'static str| s@).contains("security"@),
        r.settings_collapsed_network == !expanded@.map_values(|s: &'static str| s@).contains("network"@),
        r.settings_collapsed_connection == !expanded@.map_values(|s: &'static str| s@).contains("connection"@),
{
    UiState {
        settings_collapsed_security: !contains_id(expanded, "security"),
        settings_collapsed_network: !contains_id(expanded, "network"),
        settings_collapsed_connection: !contains_id(expanded, "connection"),
    }
}

/// Storing the collapse state of a sidebar built from a stored state gives
/// that state back.
pub proof fn lemma_collapse_state_roundtrip(state: UiState, expanded: Seq<Seq<char>>)
    requires
        expanded == spec_expanded_groups(state),
    ensures
        state.settings_collapsed_security == !expanded.contains("security"@),
        state.settings_collapsed_network == !expanded.contains("network"@),
        state.settings_collapsed_connection == !expanded.contains("connection"@),
{
    reveal_strlit("security");
    reveal_strlit("network");
    reveal_strlit("connection");
    assert("security"@ != "network"@) by { assert("security"@[0] != "network"@[0]); }
    assert("security"@ != "connection"@) by { assert("security"@[0] != "connection"@[0]); }
    assert("network"@ != "connection"@) by { assert("network"@[0] != "connection"@[0]); }
    let a: Seq<Seq<char>> = if state.settings_collapsed_security { seq![] } else { seq!["security"@] };
    let b: Seq<Seq<char>> = if state.settings_collapsed_network { a } else { a.push("network"@) };
    assert(!state.settings_collapsed_security ==> a[0] == "security"@);
    assert(!state.settings_collapsed_security ==> b[0] == "security"@);
    assert(!state.settings_collapsed_security ==> expanded[0] == "security"@);
    assert(!state.settings_collapsed_network ==> b[b.len() - 1] == "network"@);
    assert(!state.settings_collapsed_network ==> expanded.contains("network"@)) by {
        if !state.settings_collapsed_network {
            assert(expanded[b.len() - 1] == "network"@);
        }
    }
    assert(!state.settings_collapsed_connection ==> expanded[expanded.len() - 1] == "connection"@);
}

/// Every section is opened by an entry of the sidebar, and every entry that
/// opens something opens a section.
pub proof fn lemma_sidebar_entries_are_sections(section: SettingsSectionId, i: int)
    requires
        0 <= i < spec_sidebar_sections().len(),
    ensures
        spec_sidebar_sections().contains(spec_tree_id(section)),
        exists|s: SettingsSectionId| spec_tree_id(s) == #[trigger] spec_sidebar_sections()[i],
{
    let ids = spec_sidebar_sections();
    match section {
        SettingsSectionId::General => assert(ids[0] == spec_tree_id(section)),
        SettingsSectionId::Keybindings => assert(ids[1] == spec_tree_id(section)),
        SettingsSectionId::AuthProfiles => assert(ids[2] == spec_tree_id(section)),
        SettingsSectionId::Proxies => assert(ids[3] == spec_tree_id(section)),
        SettingsSectionId::SshTunnels => assert(ids[4] == spec_tree_id(section)),
        SettingsSectionId::Services => assert(ids[5] == spec_tree_id(section)),
        SettingsSectionId::Hooks => assert(ids[6] == spec_tree_id(section)),
        SettingsSectionId::Drivers => assert(ids[7] == spec_tree_id(section)),
        SettingsSectionId::About => assert(ids[8] == spec_tree_id(section)),
    }
    let s = if i == 0 { SettingsSectionId::General } else if i == 1 { SettingsSectionId::Keybindings }
        else if i == 2 { SettingsSectionId::AuthProfiles } else if i == 3 { SettingsSectionId::Proxies }
        else if i == 4 { SettingsSectionId::SshTunnels } else if i == 5 { SettingsSectionId::Services }
        else if i == 6 { SettingsSectionId::Hooks } else if i == 7 { SettingsSectionId::Drivers }
        else { SettingsSectionId::About };
    assert(spec_tree_id(s) == ids[i]);
}

/// Which part of the services section has the keyboard.
#[derive(Debug, Clone, Copy, PartialEq, Eq, Structural)]
pub enum ServiceFocus {
    List,
    Form,
}

/// The modifier keys held with a key.
#[derive(Debug, Clone, Copy, PartialEq, Eq, Structural)]
pub enum KeyModifiers {
    NoModifiers,
    Shift,
    Other,
}

/// What the services section knows when a key arrives.
#[derive(Debug, Clone, Copy, PartialEq, Eq, Structural)]
pub struct ServicesKeyState {
    pub delete_pending: bool,
    pub content_focused: bool,
    pub focus: ServiceFocus,
    pub editing_field: bool,
    pub selected_idx: Option<usize>,
    pub service_count: usize,
}

/// What a key press asks the services section to do.
#[derive(Debug, Clone, Copy, PartialEq, Eq, Structural)]
pub enum ServicesKeyAction {
    Ignore,
    StopEditing,
    StopEditingMoveDown,
    StopEditingTabNext,
    StopEditingTabPrev,
    NextService,
    PrevService,
    EnterForm,
    RequestDelete(usize),
    SelectNone,
    SelectLast(usize),
    RefreshOnly,
    ExitForm,
    MoveDown,
    MoveUp,
    MoveLeft,
    MoveRight,
    ActivateField,
    TabNext,
    TabPrev,
    MoveFirst,
    MoveLast,
}

/// The services section's key map: nothing while a delete awaits
/// confirmation or the content lacks focus; while a form field is edited,
/// escape, enter and tab (forward or back) stop editing; in the list, vim
/// keys or arrows move between services, `l`/right/enter open the form, `d`
/// asks to delete the selected service, `g` clears the selection and `G`
/// selects the last service; in the form, escape leaves it, vim keys or
/// arrows move, enter or space activate the field, tab moves on or back,
/// `g`/`G` go to the first or last field.
pub open spec fn spec_services_key_action(s: ServicesKeyState, key: Seq<char>, m: KeyModifiers) -> ServicesKeyAction {
    let plain = m == KeyModifiers::NoModifiers;
    let shift = m == KeyModifiers::Shift;
    if s.delete_pending || !s.content_focused {
        ServicesKeyAction::Ignore
    } else if s.focus == ServiceFocus::Form && s.editing_field {
        if key == "escape"@ && plain {
            ServicesKeyAction::StopEditing
        } else if key == "enter"@ && plain {
            ServicesKeyAction::StopEditingMoveDown
        } else if key == "tab"@ && plain {
            ServicesKeyAction::StopEditingTabNext
        } else if key == "tab"@ && shift {
            ServicesKeyAction::StopEditingTabPrev
        } else {
            ServicesKeyAction::Ignore
        }
    } else if s.focus == ServiceFocus::List {
        if (key == "j"@ || key == "down"@) && plain {
            ServicesKeyAction::NextService
        } else if (key == "k"@ || key == "up"@) && plain {
            ServicesKeyAction::PrevService
        } else if (key == "l"@ || key == "right"@ || key == "enter"@) && plain {
            ServicesKeyAction::EnterForm
        } else if key == "d"@ && plain {
            match s.selected_idx {
                Some(i) => ServicesKeyAction::RequestDelete(i),
                None => ServicesKeyAction::Ignore,
            }
        } else if key == "g"@ && plain {
            ServicesKeyAction::SelectNone
        } else if key == "g"@ && shift {
            if s.service_count > 0 {
                ServicesKeyAction::SelectLast((s.service_count - 1) as usize)
            } else {
                ServicesKeyAction::RefreshOnly
            }
        } else {
            ServicesKeyAction::Ignore
        }
    } else {
        if key == "escape"@ && plain {
            ServicesKeyAction::ExitForm
        } else if (key == "j"@ || key == "down"@) && plain {
            ServicesKeyAction::MoveDown
        } else if (key == "k"@ || key == "up"@) && plain {
            ServicesKeyAction::MoveUp
        } else if (key == "h"@ || key == "left"@) && plain {
            ServicesKeyAction::MoveLeft
        } else if (key == "l"@ || key == "right"@) && plain {
            ServicesKeyAction::MoveRight
        } else if (key == "enter"@ || key == "space"@) && plain {
            ServicesKeyAction::ActivateField
        } else if key == "tab"@ && plain {
            ServicesKeyAction::TabNext
        } else if key == "tab"@ && shift {
            ServicesKeyAction::TabPrev
        } else if key == "g"@ && plain {
            ServicesKeyAction::MoveFirst
        } else if key == "g"@ && shift {
            ServicesKeyAction::MoveLast
        } else {
            ServicesKeyAction::Ignore
        }
    }
}

impl ServicesKeyState {
    /// The section's content takes the keyboard.
    pub fn focus_in(&mut self)
        ensures
            *final(self) == (ServicesKeyState { content_focused: true, ..*old(self) }),
    {
        self.content_focused = true;
    }

    /// The section's content gives up the keyboard, leaving any field it
    /// was editing.
    pub fn focus_out(&mut self)
        ensures
            *final(self) == (ServicesKeyState { content_focused: false, editing_field: false, ..*old(self) }),
    {
        self.content_focused = false;
        self.editing_field = false;
    }
}

/// What a key press asks the services section to do.
pub fn services_key_action(s: &ServicesKeyState, key: &str, m: KeyModifiers) -> (r: ServicesKeyAction)
    ensures
        r == spec_services_key_action(*s, key@, m),
{
    let plain = m == KeyModifiers::NoModifiers;
    let shift = m == KeyModifiers::Shift;
    if s.delete_pending || !s.content_focused {
        return ServicesKeyAction::Ignore;
    }
    if s.focus == ServiceFocus::Form && s.editing_field {
        return if str_eq(key, "escape") && plain {
            ServicesKeyAction::StopEditing
        } else if str_eq(key, "enter") && plain {
            ServicesKeyAction::StopEditingMoveDown
        } else if str_eq(key, "tab") && plain {
            ServicesKeyAction::StopEditingTabNext
        } else if str_eq(key, "tab") && shift {
            ServicesKeyAction::StopEditingTabPrev
        } else {
            ServicesKeyAction::Ignore
        };
    }
    if s.focus == ServiceFocus::List {
        if (str_eq(key, "j") || str_eq(key, "down")) && plain {
            ServicesKeyAction::NextService
        } else if (str_eq(key, "k") || str_eq(key, "up")) && plain {
            ServicesKeyAction::PrevService
        } else if (str_eq(key, "l") || str_eq(key, "right") || str_eq(key, "enter")) && plain {
            ServicesKeyAction::EnterForm
        } else if str_eq(key, "d") && plain {
            match s.selected_idx {
                Some(i) => ServicesKeyAction::RequestDelete(i),
                None => ServicesKeyAction::Ignore,
            }
        } else if str_eq(key, "g") && plain {
            ServicesKeyAction::SelectNone
        } else if str_eq(key, "g") && shift {
            if s.service_count > 0 {
                ServicesKeyAction::SelectLast(s.service_count - 1)
            } else {
                ServicesKeyAction::RefreshOnly
            }
        } else {
            ServicesKeyAction::Ignore
        }
    } else {
        if str_eq(key, "escape") && plain {
            ServicesKeyAction::ExitForm
        } else if (str_eq(key, "j") || str_eq(key, "down")) && plain {
            ServicesKeyAction::MoveDown
        } else if (str_eq(key, "k") || str_eq(key, "up")) && plain {
            ServicesKeyAction::MoveUp
        } else if (str_eq(key, "h") || str_eq(key, "left")) && plain {
            ServicesKeyAction::MoveLeft
        } else if (str_eq(key, "l") || str_eq(key, "right")) && plain {
            ServicesKeyAction::MoveRight
        } else if (str_eq(key, "enter") || str_eq(key, "space")) && plain {
            ServicesKeyAction::ActivateField
        } else if str_eq(key, "tab") && plain {
            ServicesKeyAction::TabNext
        } else if str_eq(key, "tab") && shift {
            ServicesKeyAction::TabPrev
        } else if str_eq(key, "g") && plain {
            ServicesKeyAction::MoveFirst
        } else if str_eq(key, "g") && shift {
            ServicesKeyAction::MoveLast
        } else {
            ServicesKeyAction::Ignore
        }
    }
}

/// The step at which an external driver service failed.
#[derive(Debug, Clone, Copy, PartialEq, Eq, Structural)]
pub enum ExternalDriverStage {
    Config,
    Launch,
    Probe,
}

/// What the UI shows of an external driver service that failed to come up.
#[derive(Debug, Clone)]
pub struct ExternalDriverDiagnostic {
    pub socket_id: String,
    pub stage: ExternalDriverStage,
    pub summary: String,
    pub details: Option<String>,
}

/// Which pane of the settings window has the keyboard.
#[derive(Debug, Clone, Copy, PartialEq, Eq, Structural)]
pub enum SettingsFocus {
    Sidebar,
    Content,
}

/// The settings window's navigation: the section shown, the focused pane,
/// and the section a switch waits to be confirmed for (the shown one has
/// unsaved changes).
#[derive(Debug, Clone, Copy, PartialEq, Eq, Structural)]
pub struct SettingsNavigation {
    pub active_section: SettingsSectionId,
    pub focus_area: SettingsFocus,
    pub pending_section_confirm: Option<SettingsSectionId>,
}

/// What asking for a section leads to.
#[derive(Debug, Clone, Copy, PartialEq, Eq, Structural)]
pub enum SectionRequestOutcome {
    /// The section is already shown; its content takes the focus.
    FocusedActive,
    /// The shown section has unsaved changes; the switch waits for a
    /// confirmation.
    AwaitingConfirmation,
    /// The requested section is now shown, its content focused.
    Switched,
}

/// The sidebar row under the cursor, as far as keys care.
#[derive(Debug, Clone, Copy, PartialEq, Eq, Structural)]
pub enum SidebarCursor {
    /// No row, or a row that is not a closed or open group.
    Other,
    /// A group of sections that is folded.
    CollapsedGroup,
    /// A group of sections that is unfolded.
    ExpandedGroup,
}

/// A row of the settings sidebar as the cursor finds it.
#[derive(Debug, Clone, Copy, PartialEq, Eq, Structural)]
pub struct SidebarRow {
    pub has_children: bool,
    pub selectable: bool,
    pub expanded: bool,
}

/// What the row under the cursor is, as far as keys care: a group (a row
/// with children that cannot itself be selected), folded or unfolded, or
/// anything else.
pub fn sidebar_cursor(row: Option<SidebarRow>) -> (r: SidebarCursor)
    ensures
        r == match row {
            Some(x) => if x.has_children && !x.selectable {
                if x.expanded { SidebarCursor::ExpandedGroup } else { SidebarCursor::CollapsedGroup }
            } else {
                SidebarCursor::Other
            },
            None => SidebarCursor::Other,
        },
{
    match row {
        Some(x) => if x.has_children && !x.selectable {
            if x.expanded { SidebarCursor::ExpandedGroup } else { SidebarCursor::CollapsedGroup }
        } else {
            SidebarCursor::Other
        },
        None => SidebarCursor::Other,
    }
}

/// What a key asks of the settings window.
#[derive(Debug, Clone, Copy, PartialEq, Eq, Structural)]
pub enum SettingsKeyAction {
    Ignore,
    CloseWindow,
    FocusContent,
    FocusSidebar,
    ForwardToSection,
    MoveNext,
    MovePrev,
    ActivateCursor,
}

/// Showing a section: a different one replaces the shown one and drops any
/// pending switch; the same one changes nothing.
pub open spec fn spec_set_active_section(s: SettingsNavigation, section: SettingsSectionId) -> SettingsNavigation {
    if s.active_section == section {
        s
    } else {
        SettingsNavigation { active_section: section, pending_section_confirm: None, ..s }
    }
}

/// Asking for a section: the shown one gets the focus; with unsaved changes
/// the switch waits for confirmation; otherwise the content is focused and
/// the section shown.
pub open spec fn spec_request_section(
    s: SettingsNavigation,
    section: SettingsSectionId,
    active_is_dirty: bool,
) -> (SettingsNavigation, SectionRequestOutcome) {
    if section == s.active_section {
        (SettingsNavigation { focus_area: SettingsFocus::Content, ..s }, SectionRequestOutcome::FocusedActive)
    } else if active_is_dirty {
        (SettingsNavigation { pending_section_confirm: Some(section), ..s }, SectionRequestOutcome::AwaitingConfirmation)
    } else {
        (
            spec_set_active_section(SettingsNavigation { focus_area: SettingsFocus::Content, ..s }, section),
            SectionRequestOutcome::Switched,
        )
    }
}

/// Confirming the pending switch shows that section with its content
/// focused; without one nothing changes.
pub open spec fn spec_confirm_section(s: SettingsNavigation) -> SettingsNavigation {
    match s.pending_section_confirm {
        Some(section) => spec_set_active_section(
            SettingsNavigation { focus_area: SettingsFocus::Content, pending_section_confirm: None, ..s },
            section,
        ),
        None => s,
    }
}

/// Cancelling drops the pending switch.
pub open spec fn spec_cancel_section(s: SettingsNavigation) -> SettingsNavigation {
    SettingsNavigation { pending_section_confirm: None, ..s }
}

pub open spec fn other_pane(f: SettingsFocus) -> SettingsFocus {
    match f {
        SettingsFocus::Sidebar => SettingsFocus::Content,
        SettingsFocus::Content => SettingsFocus::Sidebar,
    }
}

/// The settings window's key map: nothing while a switch awaits
/// confirmation; escape closes the window; tab (or shift-tab) moves the
/// focus to the other pane; with the content focused the section gets the
/// key; in the sidebar, vim keys or arrows move the cursor, enter or space
/// activate it, right unfolds a folded group or else focuses the content,
/// and left folds an unfolded group.
pub open spec fn spec_settings_key(
    s: SettingsNavigation,
    key: Seq<char>,
    m: KeyModifiers,
    cursor: SidebarCursor,
) -> (SettingsNavigation, SettingsKeyAction) {
    let plain = m == KeyModifiers::NoModifiers;
    if s.pending_section_confirm is Some {
        (s, SettingsKeyAction::Ignore)
    } else if key == "escape"@ && plain {
        (s, SettingsKeyAction::CloseWindow)
    } else if key == "tab"@ && (plain || m == KeyModifiers::Shift) {
        let next = other_pane(s.focus_area);
        (
            SettingsNavigation { focus_area: next, ..s },
            if next == SettingsFocus::Content { SettingsKeyAction::FocusContent } else { SettingsKeyAction::FocusSidebar },
        )
    } else if s.focus_area != SettingsFocus::Sidebar {
        (s, SettingsKeyAction::ForwardToSection)
    } else if (key == "j"@ || key == "down"@) && plain {
        (s, SettingsKeyAction::MoveNext)
    } else if (key == "k"@ || key == "up"@) && plain {
        (s, SettingsKeyAction::MovePrev)
    } else if (key == "enter"@ || key == "space"@) && plain {
        (s, SettingsKeyAction::ActivateCursor)
    } else if key == "right"@ && plain {
        if cursor == SidebarCursor::CollapsedGroup {
            (s, SettingsKeyAction::ActivateCursor)
        } else {
            (SettingsNavigation { focus_area: SettingsFocus::Content, ..s }, SettingsKeyAction::FocusContent)
        }
    } else if key == "left"@ && plain && cursor == SidebarCursor::ExpandedGroup {
        (s, SettingsKeyAction::ActivateCursor)
    } else {
        (s, SettingsKeyAction::Ignore)
    }
}

impl SettingsNavigation {
    /// The window as it opens: the given section, the sidebar focused.
    pub fn new_with_section(initial_section: SettingsSectionId) -> (r: SettingsNavigation)
        ensures
            r.active_section == initial_section,
            r.focus_area == SettingsFocus::Sidebar,
            r.pending_section_confirm is None,
    {
        SettingsNavigation {
            active_section: initial_section,
            focus_area: SettingsFocus::Sidebar,
            pending_section_confirm: None,
        }
    }

    /// Shows a section; whether it replaced the shown one.
    pub fn set_active_section(&mut self, section: SettingsSectionId) -> (changed: bool)
        ensures
            *final(self) == spec_set_active_section(*old(self), section),
            changed == (old(self).active_section != section),
    {
        if self.active_section == section {
            return false;
        }
        self.active_section = section;
        self.pending_section_confirm = None;
        true
    }

    /// Asks for a section, the shown one having unsaved changes or not.
    pub fn request_section_transition(&mut self, section: SettingsSectionId, active_is_dirty: bool) -> (r:
        SectionRequestOutcome)
        ensures
            (*final(self), r) == spec_request_section(*old(self), section, active_is_dirty),
    {
        if section == self.active_section {
            self.focus_area = SettingsFocus::Content;
            return SectionRequestOutcome::FocusedActive;
        }
        if active_is_dirty {
            self.pending_section_confirm = Some(section);
            return SectionRequestOutcome::AwaitingConfirmation;
        }
        self.focus_area = SettingsFocus::Content;
        self.set_active_section(section);
        SectionRequestOutcome::Switched
    }

    /// Confirms the pending switch; the section switched to, if any.
    pub fn confirm_section_transition(&mut self) -> (r: Option<SettingsSectionId>)
        ensures
            *final(self) == spec_confirm_section(*old(self)),
            r == old(self).pending_section_confirm,
    {
        let pending = self.pending_section_confirm;
        match pending {
            Some(section) => {
                self.pending_section_confirm = None;
                self.focus_area = SettingsFocus::Content;
                self.set_active_section(section);
            },
            None => {},
        }
        pending
    }

    /// Cancels the pending switch; the section the sidebar selects again.
    pub fn cancel_section_transition(&mut self) -> (r: SettingsSectionId)
        ensures
            *final(self) == spec_cancel_section(*old(self)),
            r == old(self).active_section,
    {
        self.pending_section_confirm = None;
        self.active_section
    }

    /// Activates the sidebar entry with this tree id: an entry that opens a
    /// section asks for that section; any other id asks for nothing.
    pub fn activate_sidebar_entry(&mut self, id: &str, active_is_dirty: bool) -> (r: Option<SectionRequestOutcome>)
        ensures
            match r {
                Some(outcome) => exists|section: SettingsSectionId| spec_tree_id(section) == id@
                    && (*final(self), outcome) == spec_request_section(*old(self), section, active_is_dirty),
                None => *final(self) == *old(self) && forall|section: SettingsSectionId| #[trigger] spec_tree_id(section) != id@,
            },
    {
        match section_for_tree_id(id) {
            Some(section) => Some(self.request_section_transition(section, active_is_dirty)),
            None => None,
        }
    }

    /// Handles a key, given the sidebar row under the cursor.
    pub fn handle_key_event(&mut self, key: &str, m: KeyModifiers, cursor: SidebarCursor) -> (r: SettingsKeyAction)
        ensures
            (*final(self), r) == spec_settings_key(*old(self), key@, m, cursor),
    {
        let plain = m == KeyModifiers::NoModifiers;
        if self.pending_section_confirm.is_some() {
            return SettingsKeyAction::Ignore;
        }
        if str_eq(key, "escape") && plain {
            return SettingsKeyAction::CloseWindow;
        }
        if str_eq(key, "tab") && (plain || m == KeyModifiers::Shift) {
            self.focus_area = match self.focus_area {
                SettingsFocus::Sidebar => SettingsFocus::Content,
                SettingsFocus::Content => SettingsFocus::Sidebar,
            };
            return if self.focus_area == SettingsFocus::Content {
                SettingsKeyAction::FocusContent
            } else {
                SettingsKeyAction::FocusSidebar
            };
        }
        if self.focus_area != SettingsFocus::Sidebar {
            return SettingsKeyAction::ForwardToSection;
        }
        if (str_eq(key, "j") || str_eq(key, "down")) && plain {
            SettingsKeyAction::MoveNext
        } else if (str_eq(key, "k") || str_eq(key, "up")) && plain {
            SettingsKeyAction::MovePrev
        } else if (str_eq(key, "enter") || str_eq(key, "space")) && plain {
            SettingsKeyAction::ActivateCursor
        } else if str_eq(key, "right") && plain {
            if cursor == SidebarCursor::CollapsedGroup {
                SettingsKeyAction::ActivateCursor
            } else {
                self.focus_area = SettingsFocus::Content;
                SettingsKeyAction::FocusContent
            }
        } else if str_eq(key, "left") && plain && cursor == SidebarCursor::ExpandedGroup {
            SettingsKeyAction::ActivateCursor
        } else {
            SettingsKeyAction::Ignore
        }
    }
}

/// A switch away from a section with unsaved changes waits, and confirming
/// it then shows the requested section with its content focused.
pub proof fn lemma_confirmed_switch_shows_requested_section(s: SettingsNavigation, section: SettingsSectionId)
    requires
        section != s.active_section,
    ensures
        spec_request_section(s, section, true).0.active_section == s.active_section,
        spec_request_section(s, section, true).1 == SectionRequestOutcome::AwaitingConfirmation,
        spec_confirm_section(spec_request_section(s, section, true).0).active_section == section,
        spec_confirm_section(spec_request_section(s, section, true).0).focus_area == SettingsFocus::Content,
        spec_confirm_section(spec_request_section(s, section, true).0).pending_section_confirm is None,
{
}

/// Cancelling a switch that waits for confirmation leaves the window as it
/// was before the request, but for the pending switch being gone.
pub proof fn lemma_cancelled_switch_changes_nothing(s: SettingsNavigation, section: SettingsSectionId)
    requires
        section != s.active_section,
    ensures
        spec_cancel_section(spec_request_section(s, section, true).0) == spec_cancel_section(s),
{
}

/// No key acts while a switch waits for confirmation.
pub proof fn lemma_keys_ignored_while_confirming(
    s: SettingsNavigation,
    key: Seq<char>,
    m: KeyModifiers,
    cursor: SidebarCursor,
)
    requires
        s.pending_section_confirm is Some,
    ensures
        spec_settings_key(s, key, m, cursor) == (s, SettingsKeyAction::Ignore),
{
}

/// Tab twice gives the focus back to the pane that had it.
pub proof fn lemma_tab_twice_restores_focus(s: SettingsNavigation, m: KeyModifiers, cursor: SidebarCursor)
    requires
        s.pending_section_confirm is None,
        m == KeyModifiers::NoModifiers || m == KeyModifiers::Shift,
    ensures
        spec_settings_key(spec_settings_key(s, "tab"@, m, cursor).0, "tab"@, m, cursor).0 == s,
{
    reveal_strlit("tab");
    reveal_strlit("escape");
    assert("tab"@.len() != "escape"@.len());
}

/// The driver to select after a key in the drivers section: vim keys or
/// arrows step down or up the list, stopping at its ends; nothing while
/// the content is not focused.
pub open spec fn spec_drivers_key(
    content_focused: bool,
    selected: Option<usize>,
    driver_count: usize,
    key: Seq<char>,
    m: KeyModifiers,
) -> Option<usize> {
    let plain = m == KeyModifiers::NoModifiers;
    if !content_focused {
        None
    } else if (key == "j"@ || key == "down"@) && plain {
        match selected {
            Some(i) => if i + 1 < driver_count { Some((i + 1) as usize) } else { None },
            None => None,
        }
    } else if (key == "k"@ || key == "up"@) && plain {
        match selected {
            Some(i) => if i > 0 { Some((i - 1) as usize) } else { None },
            None => None,
        }
    } else {
        None
    }
}

/// The state the drivers section keeps around its editor: the selected
/// driver, whether the editor holds unsaved changes, whether it is being
/// filled from the selected driver, which global settings the driver
/// overrides, and whether the section has the keyboard.
#[derive(Debug, Clone, Copy, PartialEq, Eq, Structural)]
pub struct DriversEditor {
    pub selected_idx: Option<usize>,
    pub editor_dirty: bool,
    pub loading_selected_editor: bool,
    pub override_refresh_policy: bool,
    pub override_refresh_interval: bool,
    pub content_focused: bool,
}

impl DriversEditor {
    /// The editor as the section opens: nothing selected, nothing changed,
    /// nothing overridden, the keyboard elsewhere.
    pub fn new() -> (r: DriversEditor)
        ensures
            r == (DriversEditor {
                selected_idx: None,
                editor_dirty: false,
                loading_selected_editor: false,
                override_refresh_policy: false,
                override_refresh_interval: false,
                content_focused: false,
            }),
    {
        DriversEditor {
            selected_idx: None,
            editor_dirty: false,
            loading_selected_editor: false,
            override_refresh_policy: false,
            override_refresh_interval: false,
            content_focused: false,
        }
    }

    /// An input of the editor changed: that marks the editor dirty, unless
    /// the change comes from filling it from the selected driver.
    pub fn input_changed(&mut self)
        ensures
            *final(self) == (if old(self).loading_selected_editor {
                *old(self)
            } else {
                DriversEditor { editor_dirty: true, ..*old(self) }
            }),
    {
        if self.loading_selected_editor {
            return;
        }
        self.editor_dirty = true;
    }

    /// The section's content takes the keyboard.
    pub fn focus_in(&mut self)
        ensures
            *final(self) == (DriversEditor { content_focused: true, ..*old(self) }),
    {
        self.content_focused = true;
    }

    /// The section's content gives up the keyboard.
    pub fn focus_out(&mut self)
        ensures
            *final(self) == (DriversEditor { content_focused: false, ..*old(self) }),
    {
        self.content_focused = false;
    }
}

/// The switches of the hooks section's editor and whether the section has
/// the keyboard.
#[derive(Debug, Clone, Copy, PartialEq, Eq, Structural)]
pub struct HookEditorFlags {
    pub hook_enabled: bool,
    pub hook_inherit_env: bool,
    pub hook_lua_logging: bool,
    pub hook_lua_env_read: bool,
    pub hook_lua_connection_metadata: bool,
    pub hook_lua_process_run: bool,
    pub content_focused: bool,
}

impl HookEditorFlags {
    /// The editor as the section opens: a new hook is enabled and inherits
    /// the environment; a Lua hook may log, read the environment and see
    /// the connection, but not run processes; the keyboard is elsewhere.
    pub fn new() -> (r: HookEditorFlags)
        ensures
            r == (HookEditorFlags {
                hook_enabled: true,
                hook_inherit_env: true,
                hook_lua_logging: true,
                hook_lua_env_read: true,
                hook_lua_connection_metadata: true,
                hook_lua_process_run: false,
                content_focused: false,
            }),
    {
        HookEditorFlags {
            hook_enabled: true,
            hook_inherit_env: true,
            hook_lua_logging: true,
            hook_lua_env_read: true,
            hook_lua_connection_metadata: true,
            hook_lua_process_run: false,
            content_focused: false,
        }
    }

    /// The section's content takes the keyboard.
    pub fn focus_in(&mut self)
        ensures
            *final(self) == (HookEditorFlags { content_focused: true, ..*old(self) }),
    {
        self.content_focused = true;
    }

    /// The section's content gives up the keyboard.
    pub fn focus_out(&mut self)
        ensures
            *final(self) == (HookEditorFlags { content_focused: false, ..*old(self) }),
    {
        self.content_focused = false;
    }
}

/// The drivers section's key map (see `spec_drivers_key`).
pub fn drivers_key_selection(
    content_focused: bool,
    selected: Option<usize>,
    driver_count: usize,
    key: &str,
    m: KeyModifiers,
) -> (r: Option<usize>)
    ensures
        r == spec_drivers_key(content_focused, selected, driver_count, key@, m),
{
    let plain = m == KeyModifiers::NoModifiers;
    if !content_focused {
        return None;
    }
    if (str_eq(key, "j") || str_eq(key, "down")) && plain {
        match selected {
            Some(i) => if i < driver_count && i + 1 < driver_count { Some(i + 1) } else { None },
            None => None,
        }
    } else if (str_eq(key, "k") || str_eq(key, "up")) && plain {
        match selected {
            Some(i) => if i > 0 { Some(i - 1) } else { None },
            None => None,
        }
    } else {
        None
    }
}

} // verus!
