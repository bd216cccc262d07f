//! Connection lifecycle hooks: commands that run before and after a profile
//! connects or disconnects, and how their failures are handled.
use vstd::prelude::*;
use crate::error::opt_view;
use crate::profile::{ConnectionProfile, DbConfig, kind_name};
use crate::strmap::StrMap;
use crate::text::{cat, cat3, i64_to_decimal, join, parse_unsigned, spec_decimal, spec_join, spec_parse_unsigned, spec_signed_decimal, spec_trim, str_eq, trim, u64_to_decimal, views};

verus! {

/// What happens to the connection when a hook fails.
#[derive(Debug, Clone, Copy, PartialEq, Eq, Structural)]
pub enum HookFailureMode {
    Disconnect,
    Warn,
    Ignore,
}

impl Default for HookFailureMode {
    fn default() -> (r: HookFailureMode)
        ensures
            r == HookFailureMode::Disconnect,
    {
        HookFailureMode::Disconnect
    }
}

/// The moments at which hooks run.
#[derive(Debug, Clone, Copy, PartialEq, Eq, Structural)]
pub enum HookPhase {
    PreConnect,
    PostConnect,
    PreDisconnect,
    PostDisconnect,
}

pub open spec fn phase_label(phase: HookPhase) -> Seq<char> {
    match phase {
        HookPhase::PreConnect => "Pre-connect"@,
        HookPhase::PostConnect => "Post-connect"@,
        HookPhase::PreDisconnect => "Pre-disconnect"@,
        HookPhase::PostDisconnect => "Post-disconnect"@,
    }
}

impl HookPhase {
    /// The phase's name as the UI shows it.
    pub fn label(&self) -> (r: &'static str)
        ensures
            r@ == phase_label(*self),
    {
        match self {
            HookPhase::PreConnect => "Pre-connect",
            HookPhase::PostConnect => "Post-connect",
            HookPhase::PreDisconnect => "Pre-disconnect",
            HookPhase::PostDisconnect => "Post-disconnect",
        }
    }
}

/// A command run at a lifecycle phase.
#[derive(Debug)]
pub struct ConnectionHook {
    pub enabled: bool,
    pub command: String,
    pub args: Vec<String>,
    pub cwd: Option<String>,
    pub env: StrMap,
    pub inherit_env: bool,
    pub timeout_ms: Option<u64>,
    pub on_failure: HookFailureMode,
}

pub ghost struct HookView {
    pub enabled: bool,
    pub command: Seq<char>,
    pub args: Seq<Seq<char>>,
    pub cwd: Option<Seq<char>>,
    pub env: Map<Seq<char>, Seq<char>>,
    pub inherit_env: bool,
    pub timeout_ms: Option<u64>,
    pub on_failure: HookFailureMode,
}

impl ConnectionHook {
    pub open spec fn view(&self) -> HookView {
        HookView {
            enabled: self.enabled,
            command: self.command@,
            args: views(self.args@),
            cwd: opt_view(self.cwd),
            env: self.env@,
            inherit_env: self.inherit_env,
            timeout_ms: self.timeout_ms,
            on_failure: self.on_failure,
        }
    }

    /// A copy with the same view.
    pub fn duplicate(&self) -> (r: ConnectionHook)
        ensures
            r@ == self@,
    {
        let mut args: Vec<String> = Vec::new();
        let mut i: usize = 0;
        while i < self.args.len()
            invariant
                i <= self.args.len(),
                args.len() == i,
                forall|j: int| 0 <= j < i ==> (#[trigger] args@[j])@ == self.args@[j]@,
            decreases self.args.len() - i,
        {
            args.push(self.args[i].clone());
            i = i + 1;
        }
        assert(views(args@) =~= views(self.args@));
        ConnectionHook {
            enabled: self.enabled,
            command: self.command.clone(),
            args,
            cwd: crate::error::opt_copy(&self.cwd),
            env: self.env.duplicate(),
            inherit_env: self.inherit_env,
            timeout_ms: self.timeout_ms,
            on_failure: self.on_failure,
        }
    }
}

pub open spec fn view_hooks(s: Seq<ConnectionHook>) -> Seq<HookView> {
    s.map_values(|h: ConnectionHook| h@)
}

/// The hooks of a profile, by phase.
#[derive(Debug)]
pub struct ConnectionHooks {
    pub pre_connect: Vec<ConnectionHook>,
    pub post_connect: Vec<ConnectionHook>,
    pub pre_disconnect: Vec<ConnectionHook>,
    pub post_disconnect: Vec<ConnectionHook>,
}

/// The hooks of one phase.
pub open spec fn hooks_of(hooks: ConnectionHooks, phase: HookPhase) -> Vec<ConnectionHook> {
    match phase {
        HookPhase::PreConnect => hooks.pre_connect,
        HookPhase::PostConnect => hooks.post_connect,
        HookPhase::PreDisconnect => hooks.pre_disconnect,
        HookPhase::PostDisconnect => hooks.post_disconnect,
    }
}

/// `hooks` with the hooks of one phase replaced.
pub open spec fn with_phase_hooks(hooks: ConnectionHooks, phase: HookPhase, v: Vec<ConnectionHook>) -> ConnectionHooks {
    match phase {
        HookPhase::PreConnect => ConnectionHooks { pre_connect: v, ..hooks },
        HookPhase::PostConnect => ConnectionHooks { post_connect: v, ..hooks },
        HookPhase::PreDisconnect => ConnectionHooks { pre_disconnect: v, ..hooks },
        HookPhase::PostDisconnect => ConnectionHooks { post_disconnect: v, ..hooks },
    }
}

impl Default for ConnectionHooks {
    fn default() -> (r: ConnectionHooks)
        ensures
            r.pre_connect.len() == 0,
            r.post_connect.len() == 0,
            r.pre_disconnect.len() == 0,
            r.post_disconnect.len() == 0,
    {
        ConnectionHooks {
            pre_connect: Vec::new(),
            post_connect: Vec::new(),
            pre_disconnect: Vec::new(),
            post_disconnect: Vec::new(),
        }
    }
}

impl ConnectionHooks {
    /// The hooks that run at `phase`.
    pub fn phase_hooks(&self, phase: HookPhase) -> (r: &Vec<ConnectionHook>)
        ensures
            *r == hooks_of(*self, phase),
    {
        match phase {
            HookPhase::PreConnect => &self.pre_connect,
            HookPhase::PostConnect => &self.post_connect,
            HookPhase::PreDisconnect => &self.pre_disconnect,
            HookPhase::PostDisconnect => &self.post_disconnect,
        }
    }

    /// The hooks that run at `phase`, for changing; the other phases stay as they are.
    pub fn phase_hooks_mut(&mut self, phase: HookPhase) -> (r: &mut Vec<ConnectionHook>)
        ensures
            *r == hooks_of(*old(self), phase),
            *final(self) == with_phase_hooks(*old(self), phase, *final(r)),
    {
        match phase {
            HookPhase::PreConnect => &mut self.pre_connect,
            HookPhase::PostConnect => &mut self.post_connect,
            HookPhase::PreDisconnect => &mut self.pre_disconnect,
            HookPhase::PostDisconnect => &mut self.post_disconnect,
        }
    }
}

/// The ids of the global hooks a profile uses, by phase.
#[derive(Debug)]
pub struct ConnectionHookBindings {
    pub pre_connect: Vec<String>,
    pub post_connect: Vec<String>,
    pub pre_disconnect: Vec<String>,
    pub post_disconnect: Vec<String>,
}

/// The hook ids bound to one phase.
pub open spec fn bindings_of(b: ConnectionHookBindings, phase: HookPhase) -> Vec<String> {
    match phase {
        HookPhase::PreConnect => b.pre_connect,
        HookPhase::PostConnect => b.post_connect,
        HookPhase::PreDisconnect => b.pre_disconnect,
        HookPhase::PostDisconnect => b.post_disconnect,
    }
}

impl Default for ConnectionHookBindings {
    fn default() -> (r: ConnectionHookBindings)
        ensures
            r.pre_connect.len() == 0,
            r.post_connect.len() == 0,
            r.pre_disconnect.len() == 0,
            r.post_disconnect.len() == 0,
    {
        ConnectionHookBindings {
            pre_connect: Vec::new(),
            post_connect: Vec::new(),
            pre_disconnect: Vec::new(),
            post_disconnect: Vec::new(),
        }
    }
}

impl ConnectionHookBindings {
    /// The hook ids bound to `phase`.
    pub fn phase_bindings(&self, phase: HookPhase) -> (r: &Vec<String>)
        ensures
            *r == bindings_of(*self, phase),
    {
        match phase {
            HookPhase::PreConnect => &self.pre_connect,
            HookPhase::PostConnect => &self.post_connect,
            HookPhase::PreDisconnect => &self.pre_disconnect,
            HookPhase::PostDisconnect => &self.post_disconnect,
        }
    }
}

/// The definition of the first entry with the given id.
pub open spec fn definition_of(defs: Seq<(String, ConnectionHook)>, id: Seq<char>) -> Option<HookView>
    decreases defs.len(),
{
    if defs.len() == 0 {
        None
    } else if defs[0].0@ == id {
        Some(defs[0].1@)
    } else {
        definition_of(defs.drop_first(), id)
    }
}

pub(crate) proof fn lemma_definition_at(defs: Seq<(String, ConnectionHook)>, i: int)
    requires
        0 <= i < defs.len(),
        forall|j: int| 0 <= j < i ==> defs[j].0@ != defs[i].0@,
    ensures
        definition_of(defs, defs[i].0@) == Some(defs[i].1@),
    decreases i,
{
    if i > 0 {
        let t = defs.drop_first();
        assert forall|j: int| 0 <= j < i - 1 implies (#[trigger] t[j]).0@ != t[i - 1].0@ by {
            assert(t[j] == defs[j + 1]);
        }
        lemma_definition_at(t, i - 1);
    }
}

pub(crate) proof fn lemma_definition_absent(defs: Seq<(String, ConnectionHook)>, id: Seq<char>)
    requires
        forall|j: int| 0 <= j < defs.len() ==> defs[j].0@ != id,
    ensures
        definition_of(defs, id) is None,
    decreases defs.len(),
{
    if defs.len() > 0 {
        let t = defs.drop_first();
        assert forall|j: int| 0 <= j < t.len() implies t[j].0@ != id by {
            assert(t[j] == defs[j + 1]);
        }
        lemma_definition_absent(t, id);
    }
}

/// The hooks bound ids resolve to, in binding order; ids without a definition are skipped.
pub open spec fn resolve_ids(ids: Seq<Seq<char>>, defs: Seq<(String, ConnectionHook)>) -> Seq<HookView>
    decreases ids.len(),
{
    if ids.len() == 0 {
        Seq::empty()
    } else {
        let rest = resolve_ids(ids.drop_last(), defs);
        match definition_of(defs, ids.last()) {
            Some(h) => rest.push(h),
            None => rest,
        }
    }
}

/// The hooks that apply to a profile at one phase: with bindings, the bound
/// definitions; else the profile's inline hooks; else none.
pub open spec fn resolved_phase(
    profile: ConnectionProfile,
    defs: Seq<(String, ConnectionHook)>,
    phase: HookPhase,
) -> Seq<HookView> {
    match profile.hook_bindings {
        Some(b) => resolve_ids(views(bindings_of(b, phase)@), defs),
        None => match profile.hooks {
            Some(h) => view_hooks(hooks_of(h, phase)@),
            None => Seq::empty(),
        },
    }
}

fn find_definition<'a>(defs: &'a Vec<(String, ConnectionHook)>, id: &str) -> (r: Option<&'a ConnectionHook>)
    ensures
        match r {
            Some(h) => definition_of(defs@, id@) == Some(h@),
            None => definition_of(defs@, id@) is None,
        },
{
    let mut i: usize = 0;
    assert(defs@.subrange(0, defs@.len() as int) =~= defs@);
    while i < defs.len()
        invariant
            i <= defs.len(),
            definition_of(defs@, id@) == definition_of(defs@.subrange(i as int, defs@.len() as int), id@),
        decreases defs.len() - i,
    {
        let ghost rest = defs@.subrange(i as int, defs@.len() as int);
        assert(rest.drop_first() =~= defs@.subrange(i + 1, defs@.len() as int));
        if str_eq(defs[i].0.as_str(), id) {
            return Some(&defs[i].1);
        }
        i = i + 1;
    }
    None
}

fn resolve_phase_into(
    ids: &Vec<String>,
    defs: &Vec<(String, ConnectionHook)>,
    out: &mut Vec<ConnectionHook>,
)
    requires
        old(out).len() == 0,
    ensures
        view_hooks(final(out)@) == resolve_ids(views(ids@), defs@),
{
    let mut i: usize = 0;
    while i < ids.len()
        invariant
            i <= ids.len(),
            view_hooks(out@) == resolve_ids(views(ids@.subrange(0, i as int)), defs@),
        decreases ids.len() - i,
    {
        let ghost before = out@;
        let ghost pre = views(ids@.subrange(0, i as int));
        let ghost cur = views(ids@.subrange(0, i + 1));
        assert(cur.drop_last() =~= pre);
        assert(cur.last() == ids@[i as int]@);
        match find_definition(defs, ids[i].as_str()) {
            Some(hook) => {
                out.push(hook.duplicate());
                assert(view_hooks(out@) =~= view_hooks(before).push(out@.last()@));
            },
            None => {},
        }
        i = i + 1;
    }
    assert(ids@.subrange(0, ids@.len() as int) =~= ids@);
}

fn copy_hooks(hooks: &Vec<ConnectionHook>) -> (r: Vec<ConnectionHook>)
    ensures
        view_hooks(r@) == view_hooks(hooks@),
{
    let mut out: Vec<ConnectionHook> = Vec::new();
    let mut i: usize = 0;
    while i < hooks.len()
        invariant
            i <= hooks.len(),
            out.len() == i,
            forall|j: int| 0 <= j < i ==> (#[trigger] out@[j])@ == hooks@[j]@,
        decreases hooks.len() - i,
    {
        out.push(hooks[i].duplicate());
        i = i + 1;
    }
    assert(view_hooks(out@) =~= view_hooks(hooks@));
    out
}

/// No two hook definitions share an id, as in a map keyed by id.
pub open spec fn distinct_definition_ids(definitions: Seq<(String, ConnectionHook)>) -> bool {
    forall|a: int, b: int| 0 <= a < b < definitions.len() ==> definitions[a].0@ != definitions[b].0@
}

impl ConnectionHooks {
    /// The hooks that apply to a profile. With hook bindings, each bound id is
    /// looked up among the global definitions, one per id, and the found hooks
    /// are taken in binding order, missing ids skipped; without bindings, the
    /// profile's inline hooks, or none.
    pub fn resolve_from_bindings(
        profile: &ConnectionProfile,
        definitions: &Vec<(String, ConnectionHook)>,
    ) -> (r: ConnectionHooks)
        requires
            distinct_definition_ids(definitions@),
        ensures
            view_hooks(r.pre_connect@) == resolved_phase(*profile, definitions@, HookPhase::PreConnect),
            view_hooks(r.post_connect@) == resolved_phase(*profile, definitions@, HookPhase::PostConnect),
            view_hooks(r.pre_disconnect@) == resolved_phase(*profile, definitions@, HookPhase::PreDisconnect),
            view_hooks(r.post_disconnect@) == resolved_phase(*profile, definitions@, HookPhase::PostDisconnect),
    {
        match &profile.hook_bindings {
            Some(bindings) => {
                let mut hooks = ConnectionHooks::default();
                resolve_phase_into(&bindings.pre_connect, definitions, &mut hooks.pre_connect);
                resolve_phase_into(&bindings.post_connect, definitions, &mut hooks.post_connect);
                resolve_phase_into(&bindings.pre_disconnect, definitions, &mut hooks.pre_disconnect);
                resolve_phase_into(&bindings.post_disconnect, definitions, &mut hooks.post_disconnect);
                hooks
            },
            None => match &profile.hooks {
                Some(h) => ConnectionHooks {
                    pre_connect: copy_hooks(&h.pre_connect),
                    post_connect: copy_hooks(&h.post_connect),
                    pre_disconnect: copy_hooks(&h.pre_disconnect),
                    post_disconnect: copy_hooks(&h.post_disconnect),
                },
                None => {
                    let r = ConnectionHooks::default();
                    assert(view_hooks(r.pre_connect@) =~= Seq::<HookView>::empty());
                    assert(view_hooks(r.post_connect@) =~= Seq::<HookView>::empty());
                    assert(view_hooks(r.pre_disconnect@) =~= Seq::<HookView>::empty());
                    assert(view_hooks(r.post_disconnect@) =~= Seq::<HookView>::empty());
                    r
                },
            },
        }
    }
}

/// What a hook's process reported.
#[derive(Debug)]
pub struct HookResult {
    pub exit_code: Option<i32>,
    pub stdout: String,
    pub stderr: String,
    pub timed_out: bool,
}

pub ghost struct HookResultView {
    pub exit_code: Option<i32>,
    pub stdout: Seq<char>,
    pub stderr: Seq<char>,
    pub timed_out: bool,
}

impl HookResult {
    pub open spec fn view(&self) -> HookResultView {
        HookResultView {
            exit_code: self.exit_code,
            stdout: self.stdout@,
            stderr: self.stderr@,
            timed_out: self.timed_out,
        }
    }

    /// Whether the hook succeeded: it finished in time with exit code zero.
    pub fn is_success(&self) -> (r: bool)
        ensures
            r == result_succeeded(self@),
    {
        !self.timed_out && match self.exit_code {
            Some(c) => c == 0,
            None => false,
        }
    }
}

/// A hook succeeded: it finished in time with exit code zero.
pub open spec fn result_succeeded(r: HookResultView) -> bool {
    !r.timed_out && r.exit_code == Some(0i32)
}

/// The view of the outcome of running a hook: its report, or why it could not run.
pub open spec fn outcome_view(r: Result<HookResult, String>) -> Result<HookResultView, Seq<char>> {
    match r {
        Ok(o) => Ok(o@),
        Err(e) => Err(e@),
    }
}

/// The command line of a hook as shown to the user: the command, then its
/// arguments, separated by spaces.
pub open spec fn spec_display_command(hook: HookView) -> Seq<char> {
    if hook.args.len() == 0 {
        hook.command
    } else {
        hook.command + " "@ + spec_join(hook.args, " "@)
    }
}

/// How `{:?}` prints an exit code.
pub open spec fn exit_code_text(code: Option<i32>) -> Seq<char> {
    match code {
        Some(n) => "Some("@ + spec_signed_decimal(n as int) + ")"@,
        None => "None"@,
    }
}

/// How a hook's time limit is named in a timeout message.
pub open spec fn timeout_text(timeout_ms: Option<u64>) -> Seq<char> {
    match timeout_ms {
        Some(v) => spec_decimal(v as nat) + "ms"@,
        None => "timeout"@,
    }
}

/// The output quoted in a failure message: standard error, else standard
/// output, trimmed, or `no output` when both are blank.
pub open spec fn output_details(r: HookResultView) -> Seq<char> {
    if spec_trim(r.stderr).len() != 0 {
        spec_trim(r.stderr)
    } else if spec_trim(r.stdout).len() != 0 {
        spec_trim(r.stdout)
    } else {
        "no output"@
    }
}

/// The message that reports a failed hook.
pub open spec fn spec_failure_message(
    hook: HookView,
    phase: HookPhase,
    result: Result<HookResultView, Seq<char>>,
) -> Seq<char> {
    match result {
        Ok(o) => if o.timed_out {
            phase_label(phase) + " hook timed out after "@ + timeout_text(hook.timeout_ms) + ": "@
                + spec_display_command(hook)
        } else {
            phase_label(phase) + " hook failed (exit code "@ + exit_code_text(o.exit_code) + "): "@
                + spec_display_command(hook) + " ("@ + output_details(o) + ")"@
        },
        Err(e) => phase_label(phase) + " hook failed: "@ + spec_display_command(hook) + " ("@ + e + ")"@,
    }
}

fn exit_code_to_text(code: Option<i32>) -> (r: String)
    ensures
        r@ == exit_code_text(code),
{
    match code {
        Some(n) => cat3("Some(", i64_to_decimal(n as i64).as_str(), ")"),
        None => String::from_str("None"),
    }
}

fn details_of(output: &HookResult) -> (r: String)
    ensures
        r@ == output_details(output@),
{
    let stderr = trim(output.stderr.as_str());
    if stderr.unicode_len() != 0 {
        return stderr;
    }
    let stdout = trim(output.stdout.as_str());
    if stdout.unicode_len() != 0 {
        return stdout;
    }
    String::from_str("no output")
}

impl ConnectionHook {
    /// The hook's command line as shown to the user.
    pub fn display_command(&self) -> (r: String)
        ensures
            r@ == spec_display_command(self@),
    {
        if self.args.len() == 0 {
            return self.command.clone();
        }
        let joined = join(&self.args, " ");
        cat3(self.command.as_str(), " ", joined.as_str())
    }

    /// The message that reports this hook failing at `phase` with `result`.
    pub fn failure_message(&self, phase: HookPhase, result: &Result<HookResult, String>) -> (r: String)
        ensures
            r@ == spec_failure_message(self@, phase, outcome_view(*result)),
    {
        let command = self.display_command();
        match result {
            Ok(output) => {
                if output.timed_out {
                    let timeout = match self.timeout_ms {
                        Some(v) => cat(u64_to_decimal(v).as_str(), "ms"),
                        None => String::from_str("timeout"),
                    };
                    let mut s = cat(phase.label(), " hook timed out after ");
                    s.append(timeout.as_str());
                    s.append(": ");
                    s.append(command.as_str());
                    s
                } else {
                    let details = details_of(output);
                    let mut s = cat(phase.label(), " hook failed (exit code ");
                    s.append(exit_code_to_text(output.exit_code).as_str());
                    s.append("): ");
                    s.append(command.as_str());
                    s.append(" (");
                    s.append(details.as_str());
                    s.append(")");
                    s
                }
            },
            Err(error) => {
                let mut s = cat(phase.label(), " hook failed: ");
                s.append(command.as_str());
                s.append(" (");
                s.append(error.as_str());
                s.append(")");
                s
            },
        }
    }
}

/// The lowercase hexadecimal digit for `d` (below sixteen).
pub open spec fn hex_digit(d: nat) -> char {
    if d < 10 {
        (('0' as nat) + d) as char
    } else {
        (('a' as nat) + d - 10) as char
    }
}

/// The last `n` hexadecimal digits of `v`, most significant first.
pub open spec fn hex_digits(v: nat, n: nat) -> Seq<char>
    decreases n,
{
    if n == 0 {
        Seq::empty()
    } else {
        hex_digits(v / 16, (n - 1) as nat).push(hex_digit(v % 16))
    }
}

/// The hyphenated lowercase text of the UUID with this 128-bit value: its
/// thirty-two hex digits in groups of eight, four, four, four and twelve.
pub open spec fn spec_uuid_text(id: u128) -> Seq<char> {
    let h = hex_digits(id as nat, 32);
    h.subrange(0, 8) + "-"@ + h.subrange(8, 12) + "-"@ + h.subrange(12, 16) + "-"@
        + h.subrange(16, 20) + "-"@ + h.subrange(20, 32)
}

/// `uuid::Uuid::from_u128(id).to_string()`: the UUID's hyphenated lowercase
/// text, as the uuid crate documents and formats it.
#[verifier::external_body]
fn uuid_text(id: u128) -> (r: String)
    ensures
        r@ == spec_uuid_text(id),
{
    uuid::Uuid::from_u128(id).to_string()
}

/// `uuid::Uuid::new_v4()`: a fresh random UUID, as its 128-bit value. Nothing
/// is promised of the value.
#[verifier::external_body]
fn random_uuid() -> (r: u128) {
    uuid::Uuid::new_v4().as_u128()
}

impl ConnectionProfile {
    /// A new profile with a fresh random id and no hooks; its kind is the configuration's.
    pub fn new(name: String, config: DbConfig) -> (r: ConnectionProfile)
        ensures
            r.name@ == name@,
            r.kind == crate::profile::config_kind(config),
            r.config == config,
            r.hooks is None,
            r.hook_bindings is None,
    {
        ConnectionProfile::with_id(random_uuid(), name, config)
    }
}

/// What a hook learns of the profile it runs for.
#[derive(Debug)]
pub struct HookContext {
    pub profile_id: u128,
    pub profile_name: String,
    pub db_kind: String,
    pub host: Option<String>,
    pub port: Option<u16>,
    pub database: Option<String>,
}

/// The value under `k`, if any.
pub open spec fn map_get(m: Map<Seq<char>, Seq<char>>, k: Seq<char>) -> Option<Seq<char>> {
    if m.dom().contains(k) {
        Some(m[k])
    } else {
        None
    }
}

/// A port number read from text, if the text is one.
pub open spec fn port_of(text: Option<Seq<char>>) -> Option<u16> {
    match text {
        Some(t) => match spec_parse_unsigned(t, 65535) {
            Some(v) => Some(v as u16),
            None => None,
        },
        None => None,
    }
}

/// The host, port and database a configuration names.
pub open spec fn spec_config_context(config: DbConfig) -> (Option<Seq<char>>, Option<u16>, Option<Seq<char>>) {
    match config {
        DbConfig::Postgres { host, port, database, .. } => (Some(host@), Some(port), Some(database@)),
        DbConfig::SQLite { path } => (None, None, Some(path@)),
        DbConfig::MySQL { host, port, database, .. } => (Some(host@), Some(port), opt_view(database)),
        DbConfig::MongoDB { host, port, database } => (Some(host@), Some(port), opt_view(database)),
        DbConfig::Redis { host, port, database } => (Some(host@), Some(port), match database {
            Some(d) => Some(spec_decimal(d as nat)),
            None => None,
        }),
        DbConfig::DynamoDB { .. } => (None, None, None),
        DbConfig::External { values, .. } => (
            map_get(values@, "host"@),
            port_of(map_get(values@, "port"@)),
            map_get(values@, "database"@),
        ),
    }
}

fn copy_value(v: Option<&String>) -> (r: Option<String>)
    ensures
        opt_view(r) == match v {
            Some(s) => Some(s@),
            None => None::<Seq<char>>,
        },
{
    match v {
        Some(s) => Some(s.clone()),
        None => None,
    }
}

/// The host, port and database a configuration names, where it names them.
pub fn profile_config_context(config: &DbConfig) -> (r: (Option<String>, Option<u16>, Option<String>))
    ensures
        (opt_view(r.0), r.1, opt_view(r.2)) == spec_config_context(*config),
{
    match config {
        DbConfig::Postgres { host, port, database, .. } => (Some(host.clone()), Some(*port), Some(database.clone())),
        DbConfig::SQLite { path } => (None, None, Some(path.clone())),
        DbConfig::MySQL { host, port, database, .. } => (Some(host.clone()), Some(*port), crate::error::opt_copy(database)),
        DbConfig::MongoDB { host, port, database } => (Some(host.clone()), Some(*port), crate::error::opt_copy(database)),
        DbConfig::Redis { host, port, database } => (Some(host.clone()), Some(*port), match database {
            Some(d) => Some(u64_to_decimal(*d as u64)),
            None => None,
        }),
        DbConfig::DynamoDB { .. } => (None, None, None),
        DbConfig::External { values, .. } => {
            let host = copy_value(values.get("host"));
            let port = match values.get("port") {
                Some(text) => match parse_unsigned(text.as_str(), 65535) {
                    Some(v) => Some(v as u16),
                    None => None,
                },
                None => None,
            };
            let database = copy_value(values.get("database"));
            (host, port, database)
        },
    }
}

impl HookContext {
    /// The context of a profile: its id and name, its kind's name, and the
    /// host, port and database its configuration names.
    pub fn from_profile(profile: &ConnectionProfile) -> (r: HookContext)
        ensures
            r.profile_id == profile.id,
            r.profile_name@ == profile.name@,
            r.db_kind@ == kind_name(profile.kind),
            (opt_view(r.host), r.port, opt_view(r.database)) == spec_config_context(profile.config),
    {
        let (host, port, database) = profile_config_context(&profile.config);
        HookContext {
            profile_id: profile.id,
            profile_name: profile.name.clone(),
            db_kind: String::from_str(profile.kind().debug_name()),
            host,
            port,
            database,
        }
    }
}

/// The variables that describe the profile to a hook's process.
pub open spec fn spec_context_env(c: HookContext) -> Map<Seq<char>, Seq<char>> {
    let base = Map::<Seq<char>, Seq<char>>::empty()
        .insert("DBFLUX_PROFILE_ID"@, spec_uuid_text(c.profile_id))
        .insert("DBFLUX_PROFILE_NAME"@, c.profile_name@)
        .insert("DBFLUX_DB_KIND"@, c.db_kind@);
    let with_host = match c.host {
        Some(h) => base.insert("DBFLUX_HOST"@, h@),
        None => base,
    };
    let with_port = match c.port {
        Some(p) => with_host.insert("DBFLUX_PORT"@, spec_decimal(p as nat)),
        None => with_host,
    };
    match c.database {
        Some(d) => with_port.insert("DBFLUX_DATABASE"@, d@),
        None => with_port,
    }
}

impl ConnectionHook {
    /// The environment variables that tell the hook's process about the
    /// profile; the hook's own `env` is applied over them.
    pub fn context_env(&self, context: &HookContext) -> (r: StrMap)
        ensures
            r@ == spec_context_env(*context),
    {
        let mut environment = StrMap::new();
        environment.insert(String::from_str("DBFLUX_PROFILE_ID"), uuid_text(context.profile_id));
        environment.insert(String::from_str("DBFLUX_PROFILE_NAME"), context.profile_name.clone());
        environment.insert(String::from_str("DBFLUX_DB_KIND"), context.db_kind.clone());
        if let Some(host) = &context.host {
            environment.insert(String::from_str("DBFLUX_HOST"), host.clone());
        }
        if let Some(port) = context.port {
            environment.insert(String::from_str("DBFLUX_PORT"), u64_to_decimal(port as u64));
        }
        if let Some(database) = &context.database {
            environment.insert(String::from_str("DBFLUX_DATABASE"), database.clone());
        }
        environment
    }
}

/// `target` with every variable of `source` set over it.
fn overlay_env(target: &mut StrMap, source: &StrMap)
    ensures
        final(target)@ == old(target)@.union_prefer_right(source@),
{
    let pairs = source.pairs();
    let ghost orig = target@;
    let mut i: usize = 0;
    while i < pairs.len()
        invariant
            i <= pairs.len(),
            forall|a: int, b: int| 0 <= a < pairs.len() && 0 <= b < pairs.len() && a != b ==> pairs@[a].0@ != pairs@[b].0@,
            forall|a: int| 0 <= a < pairs.len() ==> source@.dom().contains(#[trigger] pairs@[a].0@) && source@[pairs@[a].0@] == pairs@[a].1@,
            forall|k: Seq<char>| #[trigger] target@.dom().contains(k) <==> (orig.dom().contains(k)
                || exists|j: int| 0 <= j < i && pairs@[j].0@ == k),
            forall|k: Seq<char>| #[trigger] target@.dom().contains(k) ==> target@[k] == (if exists|j: int| 0 <= j < i && pairs@[j].0@ == k {
                source@[k]
            } else {
                orig[k]
            }),
        decreases pairs.len() - i,
    {
        let ghost before = target@;
        target.insert(pairs[i].0.clone(), pairs[i].1.clone());
        proof {
            let key = pairs@[i as int].0@;
            assert forall|k: Seq<char>| #[trigger] target@.dom().contains(k) <==> (orig.dom().contains(k)
                || exists|j: int| 0 <= j < i + 1 && pairs@[j].0@ == k) by {
                if k == key {
                    assert(pairs@[i as int].0@ == k);
                } else if exists|j: int| 0 <= j < i + 1 && pairs@[j].0@ == k {
                    let j = choose|j: int| 0 <= j < i + 1 && pairs@[j].0@ == k;
                    assert(j < i);
                    assert(before.dom().contains(k));
                }
            }
            assert forall|k: Seq<char>| #[trigger] target@.dom().contains(k) implies target@[k] == (if exists|j: int| 0 <= j < i + 1 && pairs@[j].0@ == k {
                source@[k]
            } else {
                orig[k]
            }) by {
                if k == key {
                    assert(pairs@[i as int].0@ == k);
                } else {
                    assert((exists|j: int| 0 <= j < i + 1 && pairs@[j].0@ == k) == (exists|j: int| 0 <= j < i && pairs@[j].0@ == k)) by {
                        if exists|j: int| 0 <= j < i + 1 && pairs@[j].0@ == k {
                            let j = choose|j: int| 0 <= j < i + 1 && pairs@[j].0@ == k;
                            assert(j != i);
                        }
                    }
                }
            }
        }
        i = i + 1;
    }
    proof {
        let want = orig.union_prefer_right(source@);
        assert forall|k: Seq<char>| #[trigger] target@.dom().contains(k) <==> want.dom().contains(k) by {
            if source@.dom().contains(k) {
                let j = choose|j: int| 0 <= j < pairs.len() && pairs@[j].0@ == k;
                assert(pairs@[j].0@ == k);
            }
        }
        assert forall|k: Seq<char>| #[trigger] target@.dom().contains(k) implies target@[k] == want[k] by {
            if source@.dom().contains(k) {
                let j = choose|j: int| 0 <= j < pairs.len() && pairs@[j].0@ == k;
                assert(pairs@[j].0@ == k);
            } else if exists|j: int| 0 <= j < pairs.len() && pairs@[j].0@ == k {
                let j = choose|j: int| 0 <= j < pairs.len() && pairs@[j].0@ == k;
                assert(source@.dom().contains(pairs@[j].0@));
            }
        }
        assert(target@ =~= want);
    }
}

/// The environment a hook's process starts with, each later part set over
/// the earlier ones: the parent's environment when the hook inherits it
/// (else nothing), then the variables that describe the profile
/// (`context_env`), then the hook's own `env`.
pub open spec fn spec_effective_env(
    hook: ConnectionHook,
    parent: Map<Seq<char>, Seq<char>>,
    context: HookContext,
) -> Map<Seq<char>, Seq<char>> {
    (if hook.inherit_env { parent } else { Map::<Seq<char>, Seq<char>>::empty() })
        .union_prefer_right(spec_context_env(context))
        .union_prefer_right(hook.env@)
}

impl ConnectionHook {
    /// The environment the hook's process starts with (see
    /// `spec_effective_env`), given the parent process's environment.
    pub fn effective_env(&self, parent: &StrMap, context: &HookContext) -> (r: StrMap)
        ensures
            r@ == spec_effective_env(*self, parent@, *context),
    {
        let mut environment = if self.inherit_env { parent.duplicate() } else { StrMap::new() };
        let described = self.context_env(context);
        overlay_env(&mut environment, &described);
        overlay_env(&mut environment, &self.env);
        environment
    }
}

/// One hook that ran, with what it reported.
#[derive(Debug)]
pub struct HookExecution {
    pub hook: ConnectionHook,
    pub result: Result<HookResult, String>,
}

pub ghost struct HookExecutionView {
    pub hook: HookView,
    pub result: Result<HookResultView, Seq<char>>,
}

impl HookExecution {
    pub open spec fn view(&self) -> HookExecutionView {
        HookExecutionView { hook: self.hook@, result: outcome_view(self.result) }
    }
}

pub open spec fn view_executions(s: Seq<HookExecution>) -> Seq<HookExecutionView> {
    s.map_values(|e: HookExecution| e@)
}

/// How a phase's hooks went.
#[derive(Debug)]
pub enum HookPhaseOutcome {
    /// Every hook that ran succeeded, or failed with its failure ignored.
    Success { executions: Vec<HookExecution> },
    /// A hook whose failure disconnects failed; no later hook ran.
    Aborted { executions: Vec<HookExecution>, error: String },
    /// All hooks ran, and some failures were reported as warnings.
    CompletedWithWarnings { executions: Vec<HookExecution>, warnings: Vec<String> },
}

/// An execution failed: its hook could not run, or did not succeed.
pub open spec fn execution_failed(e: HookExecutionView) -> bool {
    match e.result {
        Ok(o) => !result_succeeded(o),
        Err(_) => true,
    }
}

/// The enabled hooks, in order.
pub open spec fn enabled_hooks(s: Seq<HookView>) -> Seq<HookView>
    decreases s.len(),
{
    if s.len() == 0 {
        Seq::empty()
    } else if s.last().enabled {
        enabled_hooks(s.drop_last()).push(s.last())
    } else {
        enabled_hooks(s.drop_last())
    }
}

/// The hooks of a list of executions, in order.
pub open spec fn executed_hooks(e: Seq<HookExecutionView>) -> Seq<HookView> {
    e.map_values(|x: HookExecutionView| x.hook)
}

/// The warnings a phase reports: the failure message of every failed
/// execution whose hook warns on failure, in order.
pub open spec fn phase_warnings(phase: HookPhase, e: Seq<HookExecutionView>) -> Seq<Seq<char>>
    decreases e.len(),
{
    if e.len() == 0 {
        Seq::empty()
    } else {
        let rest = phase_warnings(phase, e.drop_last());
        let x = e.last();
        if execution_failed(x) && x.hook.on_failure == HookFailureMode::Warn {
            rest.push(spec_failure_message(x.hook, phase, x.result))
        } else {
            rest
        }
    }
}

/// No execution failed with a hook whose failure disconnects.
pub open spec fn none_aborts(e: Seq<HookExecutionView>) -> bool {
    forall|i: int| 0 <= i < e.len() ==> !(execution_failed(#[trigger] e[i]) && e[i].hook.on_failure == HookFailureMode::Disconnect)
}

/// Each execution's result is one that `execute` may give for a hook with that view.
pub open spec fn results_from<F: Fn(&ConnectionHook) -> Result<HookResult, String>>(
    execute: F,
    e: Seq<HookExecution>,
) -> bool {
    forall|i: int| 0 <= i < e.len() ==> exists|h: ConnectionHook| h@ == (#[trigger] e[i]).hook@ && execute.ensures((&h,), e[i].result)
}

/// The outcome of running a phase's hooks in order: disabled hooks are
/// skipped; each enabled hook runs; a failure of a hook that disconnects
/// aborts the phase at once with that failure's message; failures of hooks
/// that warn become warnings; failures of ignored hooks change nothing.
pub open spec fn phase_outcome_matches(phase: HookPhase, hooks: Seq<HookView>, r: HookPhaseOutcome) -> bool {
    match r {
        HookPhaseOutcome::Success { executions } => {
            let e = view_executions(executions@);
            &&& executed_hooks(e) == enabled_hooks(hooks)
            &&& none_aborts(e)
            &&& phase_warnings(phase, e).len() == 0
        },
        HookPhaseOutcome::CompletedWithWarnings { executions, warnings } => {
            let e = view_executions(executions@);
            &&& executed_hooks(e) == enabled_hooks(hooks)
            &&& none_aborts(e)
            &&& views(warnings@) == phase_warnings(phase, e)
            &&& warnings.len() > 0
        },
        HookPhaseOutcome::Aborted { executions, error } => {
            let e = view_executions(executions@);
            &&& e.len() > 0
            &&& exists|j: int| 0 < j <= hooks.len() && executed_hooks(e) == enabled_hooks(#[trigger] hooks.subrange(0, j))
            &&& none_aborts(e.drop_last())
            &&& execution_failed(e.last())
            &&& e.last().hook.on_failure == HookFailureMode::Disconnect
            &&& error@ == spec_failure_message(e.last().hook, phase, e.last().result)
        },
    }
}

/// The executions an outcome records.
pub open spec fn outcome_executions(r: HookPhaseOutcome) -> Seq<HookExecution> {
    match r {
        HookPhaseOutcome::Success { executions } => executions@,
        HookPhaseOutcome::CompletedWithWarnings { executions, .. } => executions@,
        HookPhaseOutcome::Aborted { executions, .. } => executions@,
    }
}

/// Runs the hooks of a phase.
pub struct HookRunner;

impl HookRunner {
    /// Runs the enabled hooks of a phase in order with `execute`, which runs one
    /// hook and reports what happened, and decides the phase's outcome.
    pub fn run_phase_with<F: Fn(&ConnectionHook) -> Result<HookResult, String>>(
        phase: HookPhase,
        hooks: &Vec<ConnectionHook>,
        execute: F,
    ) -> (r: HookPhaseOutcome)
        requires
            forall|h: &ConnectionHook| execute.requires((h,)),
        ensures
            phase_outcome_matches(phase, view_hooks(hooks@), r),
            results_from(execute, outcome_executions(r)),
    {
        let ghost all = view_hooks(hooks@);
        let mut warnings: Vec<String> = Vec::new();
        let mut executions: Vec<HookExecution> = Vec::new();
        let mut i: usize = 0;
        while i < hooks.len()
            invariant
                i <= hooks.len(),
                all == view_hooks(hooks@),
                forall|h: &ConnectionHook| execute.requires((h,)),
                executed_hooks(view_executions(executions@)) == enabled_hooks(all.subrange(0, i as int)),
                none_aborts(view_executions(executions@)),
                views(warnings@) == phase_warnings(phase, view_executions(executions@)),
                results_from(execute, executions@),
            decreases hooks.len() - i,
        {
            let ghost pre = all.subrange(0, i as int);
            let ghost cur = all.subrange(0, i + 1);
            assert(cur.drop_last() =~= pre);
            assert(cur.last() == hooks@[i as int]@);
            let hook = &hooks[i];
            if !hook.enabled {
                i = i + 1;
                continue;
            }
            let result = execute(hook);
            let succeeded = match &result {
                Ok(o) => o.is_success(),
                Err(_) => false,
            };
            let message = hook.failure_message(phase, &result);
            let ghost before = executions@;
            let ghost wbefore = warnings@;
            let execution = HookExecution { hook: hook.duplicate(), result };
            executions.push(execution);
            proof {
                let ev = view_executions(executions@);
                assert(ev =~= view_executions(before).push(executions@.last()@));
                assert(ev.drop_last() =~= view_executions(before));
                assert(executed_hooks(ev) =~= executed_hooks(view_executions(before)).push(hook@));
                assert forall|k: int| 0 <= k < executions@.len() implies exists|h: ConnectionHook| h@ == (#[trigger] executions@[k]).hook@ && execute.ensures((&h,), executions@[k].result) by {
                    if k < before.len() {
                        assert(executions@[k] == before[k]);
                    } else {
                        assert(executions@[k].hook@ == hook@);
                    }
                }
            }
            if !succeeded {
                match hook.on_failure {
                    HookFailureMode::Disconnect => {
                        proof {
                            let ev = view_executions(executions@);
                            assert(ev.drop_last() =~= view_executions(before));
                            assert(executed_hooks(ev) == enabled_hooks(cur));
                        }
                        return HookPhaseOutcome::Aborted { executions, error: message };
                    },
                    HookFailureMode::Warn => {
                        warnings.push(message);
                        proof {
                            assert(views(warnings@) =~= views(wbefore).push(warnings@.last()@));
                        }
                    },
                    HookFailureMode::Ignore => {},
                }
            }
            proof {
                let ev = view_executions(executions@);
                assert forall|k: int| 0 <= k < ev.len() implies !(execution_failed(#[trigger] ev[k]) && ev[k].hook.on_failure == HookFailureMode::Disconnect) by {
                    if k < before.len() {
                        assert(ev[k] == view_executions(before)[k]);
                    }
                }
            }
            i = i + 1;
        }
        assert(all.subrange(0, hooks@.len() as int) =~= all);
        if warnings.len() == 0 {
            HookPhaseOutcome::Success { executions }
        } else {
            HookPhaseOutcome::CompletedWithWarnings { executions, warnings }
        }
    }
}

/// Why a running hook's process is stopped before it exits.
#[derive(Debug, Clone, Copy, PartialEq, Eq, Structural)]
pub enum HookStop {
    Cancelled,
    TimedOut,
}

impl ConnectionHook {
    /// Whether to stop the hook's process now: cancellation first, then a
    /// timeout that has run out (`elapsed_nanos` since the process started,
    /// strictly beyond the limit).
    pub fn should_stop(&self, cancelled: bool, elapsed_nanos: u128) -> (r: Option<HookStop>)
        ensures
            r == (if cancelled {
                Some(HookStop::Cancelled)
            } else if self.timeout_ms matches Some(t) && elapsed_nanos > t * 1_000_000 {
                Some(HookStop::TimedOut)
            } else {
                None
            }),
    {
        if cancelled {
            return Some(HookStop::Cancelled);
        }
        match self.timeout_ms {
            Some(t) => if elapsed_nanos > (t as u128) * 1_000_000 {
                Some(HookStop::TimedOut)
            } else {
                None
            },
            None => None,
        }
    }

    /// The error of a hook whose process could not start.
    pub fn spawn_error(&self, error: &str) -> (r: String)
        ensures
            r@ == "Failed to execute '"@ + spec_display_command(self@) + "': "@ + error@,
    {
        let command = self.display_command();
        let head = cat3("Failed to execute '", command.as_str(), "': ");
        cat(head.as_str(), error)
    }

    /// The error of a hook whose process could not be waited for.
    pub fn wait_error(&self, error: &str) -> (r: String)
        ensures
            r@ == "Failed to wait for hook '"@ + spec_display_command(self@) + "': "@ + error@,
    {
        let command = self.display_command();
        let head = cat3("Failed to wait for hook '", command.as_str(), "': ");
        cat(head.as_str(), error)
    }

    /// What a stopped hook reports, with the output it left: a cancelled one
    /// fails naming the command, a timed-out one has no exit code.
    pub fn stopped_outcome(&self, stop: HookStop, stdout: String, stderr: String) -> (r: Result<HookResult, String>)
        ensures
            stop == HookStop::Cancelled ==> (r matches Err(e)
                && e@ == "Hook '"@ + spec_display_command(self@) + "' cancelled\n"@ + stdout@ + stderr@),
            stop == HookStop::TimedOut ==> (r matches Ok(o) && o.exit_code is None && o.timed_out
                && o.stdout@ == stdout@ && o.stderr@ == stderr@),
    {
        match stop {
            HookStop::Cancelled => {
                let command = self.display_command();
                let head = cat3("Hook '", command.as_str(), "' cancelled\n");
                let output = cat(stdout.as_str(), stderr.as_str());
                Err(cat(head.as_str(), output.as_str()))
            },
            HookStop::TimedOut => Ok(HookResult { exit_code: None, stdout, stderr, timed_out: true }),
        }
    }
}

/// What a hook that exited reports: its exit code (none when a signal ended
/// it) and its output.
pub fn finished_outcome(exit_code: Option<i32>, stdout: String, stderr: String) -> (r: Result<HookResult, String>)
    ensures
        r matches Ok(o) && o.exit_code == exit_code && !o.timed_out && o.stdout@ == stdout@ && o.stderr@ == stderr@,
{
    Ok(HookResult { exit_code, stdout, stderr, timed_out: false })
}

/// A hook read without an `enabled` field is enabled.
pub fn default_enabled() -> (r: bool)
    ensures
        r,
{
    true
}

/// A hook read without an `inherit_env` field inherits the environment.
pub fn default_inherit_env() -> (r: bool)
    ensures
        r,
{
    true
}

} // verus!
