//! General application settings and how they are read from stored values.
use vstd::prelude::*;
use crate::hooks::{map_get, definition_of, lemma_definition_at, lemma_definition_absent, ConnectionHook, HookView};
use crate::profile::ConnectionProfile;
use crate::strmap::StrMap;
use crate::text::{parse_unsigned, spec_parse_unsigned, str_eq};

verus! {

/// The color theme.
#[derive(Debug, Clone, Copy, PartialEq, Eq, Structural)]
pub enum ThemeSetting {
    Dark,
    Light,
}

/// Where keyboard focus goes at startup.
#[derive(Debug, Clone, Copy, PartialEq, Eq, Structural)]
pub enum StartupFocus {
    Sidebar,
    LastTab,
}

/// How results refresh by default.
#[derive(Debug, Clone, Copy, PartialEq, Eq, Structural)]
pub enum RefreshPolicySetting {
    Manual,
    Interval,
}

/// The general settings of the application.
#[derive(Debug, Clone, Copy, PartialEq, Eq, Structural)]
pub struct GeneralSettings {
    pub theme: ThemeSetting,
    pub restore_session_on_startup: bool,
    pub reopen_last_connections: bool,
    pub default_focus_on_startup: StartupFocus,
    pub max_history_entries: usize,
    pub auto_save_interval_ms: u64,
    pub default_refresh_policy: RefreshPolicySetting,
    pub default_refresh_interval_secs: u32,
    pub max_concurrent_background_tasks: usize,
    pub auto_refresh_pause_on_error: bool,
    pub auto_refresh_only_if_visible: bool,
    pub confirm_dangerous_queries: bool,
    pub dangerous_requires_where: bool,
    pub dangerous_requires_preview: bool,
}

/// What `str::parse::<bool>` gives: `true` and `false` only.
pub open spec fn spec_parse_bool(s: Seq<char>) -> Option<bool> {
    if s == "true"@ {
        Some(true)
    } else if s == "false"@ {
        Some(false)
    } else {
        None
    }
}

/// A stored flag, or its default when absent or unreadable.
pub open spec fn stored_bool(values: Map<Seq<char>, Seq<char>>, key: Seq<char>, default: bool) -> bool {
    match map_get(values, key) {
        Some(text) => match spec_parse_bool(text) {
            Some(b) => b,
            None => default,
        },
        None => default,
    }
}

/// A stored count, or its default when absent or unreadable.
pub open spec fn stored_unsigned(values: Map<Seq<char>, Seq<char>>, key: Seq<char>, max: nat, default: nat) -> nat {
    match map_get(values, key) {
        Some(text) => match spec_parse_unsigned(text, max) {
            Some(n) => n,
            None => default,
        },
        None => default,
    }
}

/// The general settings that stored key/value pairs describe: each setting
/// read from its key, with its default when the key is absent or its value
/// unreadable; a stored theme other than `light` means dark, a startup focus
/// other than `last_tab` the sidebar, a refresh policy other than `interval`
/// manual.
pub open spec fn spec_general_settings(values: Map<Seq<char>, Seq<char>>) -> GeneralSettings {
    GeneralSettings {
        theme: if map_get(values, "theme"@) == Some("light"@) { ThemeSetting::Light } else { ThemeSetting::Dark },
        restore_session_on_startup: stored_bool(values, "restore_session_on_startup"@, true),
        reopen_last_connections: stored_bool(values, "reopen_last_connections"@, false),
        default_focus_on_startup: if map_get(values, "default_focus"@) == Some("last_tab"@) {
            StartupFocus::LastTab
        } else {
            StartupFocus::Sidebar
        },
        max_history_entries: stored_unsigned(values, "max_history_entries"@, usize::MAX as nat, 1000) as usize,
        auto_save_interval_ms: stored_unsigned(values, "auto_save_interval_ms"@, u64::MAX as nat, 2000) as u64,
        default_refresh_policy: if map_get(values, "default_refresh_policy"@) == Some("interval"@) {
            RefreshPolicySetting::Interval
        } else {
            RefreshPolicySetting::Manual
        },
        default_refresh_interval_secs: stored_unsigned(values, "default_refresh_interval_secs"@, u32::MAX as nat, 5) as u32,
        max_concurrent_background_tasks: stored_unsigned(values, "max_concurrent_background_tasks"@, usize::MAX as nat, 8) as usize,
        auto_refresh_pause_on_error: stored_bool(values, "auto_refresh_pause_on_error"@, true),
        auto_refresh_only_if_visible: stored_bool(values, "auto_refresh_only_if_visible"@, false),
        confirm_dangerous_queries: stored_bool(values, "confirm_dangerous_queries"@, true),
        dangerous_requires_where: stored_bool(values, "dangerous_requires_where"@, true),
        dangerous_requires_preview: stored_bool(values, "dangerous_requires_preview"@, false),
    }
}

/// Reads a stored flag.
pub fn parse_bool(s: &str) -> (r: Option<bool>)
    ensures
        r == spec_parse_bool(s@),
{
    if str_eq(s, "true") {
        Some(true)
    } else if str_eq(s, "false") {
        Some(false)
    } else {
        None
    }
}

fn load_bool(values: &StrMap, key: &str, default: bool) -> (r: bool)
    ensures
        r == stored_bool(values@, key@, default),
{
    match values.get(key) {
        Some(text) => match parse_bool(text.as_str()) {
            Some(b) => b,
            None => default,
        },
        None => default,
    }
}

fn load_unsigned(values: &StrMap, key: &str, max: u64, default: u64) -> (r: u64)
    requires
        default <= max,
    ensures
        r as nat == stored_unsigned(values@, key@, max as nat, default as nat),
        r <= max,
{
    match values.get(key) {
        Some(text) => match parse_unsigned(text.as_str(), max) {
            Some(n) => n,
            None => default,
        },
        None => default,
    }
}

fn text_is(values: &StrMap, key: &str, expected: &str) -> (r: bool)
    ensures
        r == (map_get(values@, key@) == Some(expected@)),
{
    match values.get(key) {
        Some(text) => str_eq(text.as_str(), expected),
        None => false,
    }
}

/// The general settings stored as key/value pairs (the form older
/// installations keep them in).
pub fn general_settings_from_values(values: &StrMap) -> (r: GeneralSettings)
    ensures
        r == spec_general_settings(values@),
{
    let usize_max = usize::MAX as u64;
    GeneralSettings {
        theme: if text_is(values, "theme", "light") { ThemeSetting::Light } else { ThemeSetting::Dark },
        restore_session_on_startup: load_bool(values, "restore_session_on_startup", true),
        reopen_last_connections: load_bool(values, "reopen_last_connections", false),
        default_focus_on_startup: if text_is(values, "default_focus", "last_tab") {
            StartupFocus::LastTab
        } else {
            StartupFocus::Sidebar
        },
        max_history_entries: load_unsigned(values, "max_history_entries", usize_max, 1000) as usize,
        auto_save_interval_ms: load_unsigned(values, "auto_save_interval_ms", u64::MAX, 2000),
        default_refresh_policy: if text_is(values, "default_refresh_policy", "interval") {
            RefreshPolicySetting::Interval
        } else {
            RefreshPolicySetting::Manual
        },
        default_refresh_interval_secs: load_unsigned(values, "default_refresh_interval_secs", u32::MAX as u64, 5) as u32,
        max_concurrent_background_tasks: load_unsigned(values, "max_concurrent_background_tasks", usize_max, 8) as usize,
        auto_refresh_pause_on_error: load_bool(values, "auto_refresh_pause_on_error", true),
        auto_refresh_only_if_visible: load_bool(values, "auto_refresh_only_if_visible", false),
        confirm_dangerous_queries: load_bool(values, "confirm_dangerous_queries", true),
        dangerous_requires_where: load_bool(values, "dangerous_requires_where", true),
        dangerous_requires_preview: load_bool(values, "dangerous_requires_preview", false),
    }
}

/// The durable configuration the application starts with.
#[derive(Debug)]
pub struct LoadedConfig {
    pub general_settings: GeneralSettings,
    /// Global hook definitions by name, each name once.
    pub hook_definitions: Vec<(String, ConnectionHook)>,
    pub profiles: Vec<ConnectionProfile>,
}

/// The hook the last readable row with this name defines.
pub open spec fn last_definition(rows: Seq<(String, Option<ConnectionHook>)>, name: Seq<char>) -> Option<HookView>
    decreases rows.len(),
{
    if rows.len() == 0 {
        None
    } else {
        let row = rows.last();
        match row.1 {
            Some(h) => if row.0@ == name {
                Some(h@)
            } else {
                last_definition(rows.drop_last(), name)
            },
            None => last_definition(rows.drop_last(), name),
        }
    }
}

/// The readable profile rows, in order.
pub open spec fn readable_profiles(rows: Seq<Option<ConnectionProfile>>) -> Seq<ConnectionProfile>
    decreases rows.len(),
{
    if rows.len() == 0 {
        Seq::empty()
    } else {
        match rows.last() {
            Some(p) => readable_profiles(rows.drop_last()).push(p),
            None => readable_profiles(rows.drop_last()),
        }
    }
}

fn position_of_name(defs: &Vec<(String, ConnectionHook)>, name: &str) -> (r: Option<usize>)
    ensures
        match r {
            Some(p) => p < defs.len() && defs@[p as int].0@ == name@,
            None => forall|j: int| 0 <= j < defs.len() ==> defs@[j].0@ != name@,
        },
{
    let mut i: usize = 0;
    while i < defs.len()
        invariant
            i <= defs.len(),
            forall|j: int| 0 <= j < i ==> defs@[j].0@ != name@,
        decreases defs.len() - i,
    {
        if str_eq(defs[i].0.as_str(), name) {
            return Some(i);
        }
        i = i + 1;
    }
    None
}

/// The hook definitions of the readable rows: a name defined twice keeps
/// its last definition.
pub fn hook_definitions_from_rows(rows: Vec<(String, Option<ConnectionHook>)>) -> (r: Vec<(String, ConnectionHook)>)
    ensures
        forall|name: Seq<char>| #[trigger] definition_of(r@, name) == last_definition(rows@, name),
        forall|a: int, b: int| 0 <= a < b < r.len() ==> r@[a].0@ != r@[b].0@,
{
    let ghost orig = rows@;
    let mut rows = rows;
    assert(orig.len() == rows.len());
    let mut out: Vec<(String, ConnectionHook)> = Vec::new();
    let mut i: usize = 0;
    while rows.len() > 0
        invariant
            i + rows.len() == orig.len(),
            orig.len() <= usize::MAX,
            rows@ == orig.subrange(i as int, orig.len() as int),
            forall|a: int, b: int| 0 <= a < b < out.len() ==> out@[a].0@ != out@[b].0@,
            forall|j: int| 0 <= j < out.len() ==> last_definition(orig.take(i as int), #[trigger] out@[j].0@) == Some(out@[j].1@),
            forall|name: Seq<char>| #[trigger] last_definition(orig.take(i as int), name) is Some ==> exists|j: int|
                0 <= j < out.len() && out@[j].0@ == name,
        decreases rows.len(),
    {
        let ghost before = out@;
        let row = rows.remove(0);
        assert(row == orig[i as int]);
        assert(orig.take(i + 1).drop_last() =~= orig.take(i as int));
        assert(orig.take(i + 1).last() == orig[i as int]);
        let (name, parsed) = row;
        match parsed {
            Some(hook) => {
                let ghost n = name@;
                let ghost h = hook@;
                match position_of_name(&out, name.as_str()) {
                    Some(p) => {
                        out.set(p, (name, hook));
                        assert forall|j: int| 0 <= j < out.len() implies last_definition(orig.take(i + 1), #[trigger] out@[j].0@) == Some(out@[j].1@) by {
                            if j != p {
                                assert(out@[j] == before[j]);
                            }
                        }
                        assert forall|x: Seq<char>| #[trigger] last_definition(orig.take(i + 1), x) is Some implies exists|j: int|
                            0 <= j < out.len() && out@[j].0@ == x by {
                            if x == n {
                                assert(out@[p as int].0@ == x);
                            } else {
                                assert(last_definition(orig.take(i as int), x) is Some);
                                let j = choose|j: int| 0 <= j < before.len() && before[j].0@ == x;
                                assert(out@[j] == before[j]);
                            }
                        }
                    },
                    None => {
                        out.push((name, hook));
                        assert forall|j: int| 0 <= j < out.len() implies last_definition(orig.take(i + 1), #[trigger] out@[j].0@) == Some(out@[j].1@) by {
                            if j < before.len() {
                                assert(out@[j] == before[j]);
                            }
                        }
                        assert forall|x: Seq<char>| #[trigger] last_definition(orig.take(i + 1), x) is Some implies exists|j: int|
                            0 <= j < out.len() && out@[j].0@ == x by {
                            if x == n {
                                assert(out@[before.len() as int].0@ == x);
                            } else {
                                assert(last_definition(orig.take(i as int), x) is Some);
                                let j = choose|j: int| 0 <= j < before.len() && before[j].0@ == x;
                                assert(out@[j] == before[j]);
                            }
                        }
                    },
                }
            },
            None => {
                assert forall|x: Seq<char>| #[trigger] last_definition(orig.take(i + 1), x) is Some implies exists|j: int|
                    0 <= j < out.len() && out@[j].0@ == x by {
                    assert(last_definition(orig.take(i as int), x) is Some);
                }
            },
        }
        i = i + 1;
        assert(rows@ =~= orig.subrange(i as int, orig.len() as int));
    }
    assert(orig.take(i as int) =~= orig);
    proof {
        assert forall|name: Seq<char>| #[trigger] definition_of(out@, name) == last_definition(orig, name) by {
            if exists|j: int| 0 <= j < out.len() && out@[j].0@ == name {
                let j = choose|j: int| 0 <= j < out.len() && out@[j].0@ == name;
                lemma_definition_at(out@, j);
            } else {
                lemma_definition_absent(out@, name);
            }
        }
    }
    out
}

/// The readable profiles, in the order of their rows.
pub fn profiles_from_rows(rows: Vec<Option<ConnectionProfile>>) -> (r: Vec<ConnectionProfile>)
    ensures
        r@ == readable_profiles(rows@),
{
    let ghost orig = rows@;
    let mut rows = rows;
    assert(orig.len() == rows.len());
    let mut out: Vec<ConnectionProfile> = Vec::new();
    let mut i: usize = 0;
    while rows.len() > 0
        invariant
            i + rows.len() == orig.len(),
            orig.len() <= usize::MAX,
            rows@ == orig.subrange(i as int, orig.len() as int),
            out@ == readable_profiles(orig.take(i as int)),
        decreases rows.len(),
    {
        let row = rows.remove(0);
        assert(row == orig[i as int]);
        assert(orig.take(i + 1).drop_last() =~= orig.take(i as int));
        assert(orig.take(i + 1).last() == orig[i as int]);
        match row {
            Some(p) => out.push(p),
            None => {},
        }
        i = i + 1;
        assert(rows@ =~= orig.subrange(i as int, orig.len() as int));
    }
    assert(orig.take(i as int) =~= orig);
    out
}

/// Assembles the durable configuration from what storage holds: the general
/// settings stored whole if they could be read, else those kept as single
/// values; the hook definitions and profiles whose rows could be read.
pub fn load_config(
    settings: &StrMap,
    stored_general: Option<GeneralSettings>,
    hook_rows: Vec<(String, Option<ConnectionHook>)>,
    profile_rows: Vec<Option<ConnectionProfile>>,
) -> (r: LoadedConfig)
    ensures
        r.general_settings == match stored_general {
            Some(g) => g,
            None => spec_general_settings(settings@),
        },
        forall|name: Seq<char>| #[trigger] definition_of(r.hook_definitions@, name) == last_definition(hook_rows@, name),
        forall|a: int, b: int| 0 <= a < b < r.hook_definitions.len() ==> r.hook_definitions@[a].0@ != r.hook_definitions@[b].0@,
        r.profiles@ == readable_profiles(profile_rows@),
{
    let general_settings = match stored_general {
        Some(g) => g,
        None => general_settings_from_values(settings),
    };
    LoadedConfig {
        general_settings,
        hook_definitions: hook_definitions_from_rows(hook_rows),
        profiles: profiles_from_rows(profile_rows),
    }
}

} // verus!
