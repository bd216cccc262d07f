use dbflux::hooks::{
    ConnectionHook, ConnectionHookBindings, ConnectionHooks, HookContext, HookExecution, HookFailureMode,
    HookPhase, HookPhaseOutcome, HookResult, HookRunner,
};
use dbflux::profile::{ConnectionProfile, DbConfig, DbKind};
use dbflux::strmap::StrMap;

fn echo_hook(message: &str) -> ConnectionHook {
    ConnectionHook {
        enabled: true,
        command: "echo".to_string(),
        args: vec![message.to_string()],
        cwd: None,
        env: StrMap::new(),
        inherit_env: true,
        timeout_ms: None,
        on_failure: HookFailureMode::Disconnect,
    }
}

fn failing_hook() -> ConnectionHook {
    ConnectionHook {
        enabled: true,
        command: "false".to_string(),
        args: vec![],
        cwd: None,
        env: StrMap::new(),
        inherit_env: true,
        timeout_ms: None,
        on_failure: HookFailureMode::Disconnect,
    }
}

fn result_with(exit_code: Option<i32>, timed_out: bool) -> HookResult {
    HookResult { exit_code, stdout: String::new(), stderr: String::new(), timed_out }
}

#[test]
fn connection_hooks_defaults_all_phases_empty() {
    let hooks = ConnectionHooks::default();

    assert!(hooks.pre_connect.is_empty());
    assert!(hooks.post_connect.is_empty());
    assert!(hooks.pre_disconnect.is_empty());
    assert!(hooks.post_disconnect.is_empty());
}

#[test]
fn hook_result_success_when_exit_zero() {
    let result = HookResult { exit_code: Some(0), stdout: String::new(), stderr: String::new(), timed_out: false };

    assert!(result.is_success());
}

#[test]
fn hook_result_failure_on_nonzero_exit() {
    let result = HookResult { exit_code: Some(1), stdout: String::new(), stderr: String::new(), timed_out: false };

    assert!(!result.is_success());
}

#[test]
fn hook_result_failure_on_timeout() {
    let result = HookResult { exit_code: Some(0), stdout: String::new(), stderr: String::new(), timed_out: true };

    assert!(!result.is_success());
}

#[test]
fn hook_result_failure_on_none_exit_code() {
    let result = HookResult { exit_code: None, stdout: String::new(), stderr: String::new(), timed_out: false };

    assert!(!result.is_success());
}

#[test]
fn phase_hooks_returns_correct_phase() {
    let hooks = ConnectionHooks {
        pre_connect: vec![echo_hook("pre")],
        post_connect: vec![echo_hook("post1"), echo_hook("post2")],
        pre_disconnect: vec![],
        post_disconnect: vec![failing_hook()],
    };

    assert_eq!(hooks.phase_hooks(HookPhase::PreConnect).len(), 1);
    assert_eq!(hooks.phase_hooks(HookPhase::PostConnect).len(), 2);
    assert_eq!(hooks.phase_hooks(HookPhase::PreDisconnect).len(), 0);
    assert_eq!(hooks.phase_hooks(HookPhase::PostDisconnect).len(), 1);
}

#[test]
fn phase_hooks_mut_allows_modification() {
    let mut hooks = ConnectionHooks::default();

    hooks.phase_hooks_mut(HookPhase::PostConnect).push(echo_hook("added"));

    assert_eq!(hooks.post_connect.len(), 1);
    assert_eq!(hooks.post_connect[0].args, vec!["added"]);
}

#[test]
fn phase_bindings_returns_correct_phase() {
    let bindings = ConnectionHookBindings {
        pre_connect: vec!["a".to_string()],
        post_connect: vec!["b".to_string(), "c".to_string()],
        pre_disconnect: vec![],
        post_disconnect: vec!["d".to_string()],
    };

    assert_eq!(bindings.phase_bindings(HookPhase::PreConnect), &["a"]);
    assert_eq!(bindings.phase_bindings(HookPhase::PostConnect), &["b", "c"]);
    assert!(bindings.phase_bindings(HookPhase::PreDisconnect).is_empty());
    assert_eq!(bindings.phase_bindings(HookPhase::PostDisconnect), &["d"]);
}

#[test]
fn failure_message_on_timeout() {
    let hook = ConnectionHook { timeout_ms: Some(3000), ..echo_hook("slow") };

    let result = Ok(HookResult { exit_code: None, stdout: String::new(), stderr: String::new(), timed_out: true });

    let message = hook.failure_message(HookPhase::PreConnect, &result);

    assert!(message.contains("timed out"));
    assert!(message.contains("3000ms"));
    assert!(message.contains("Pre-connect"));
}

#[test]
fn failure_message_on_nonzero_exit() {
    let hook = echo_hook("fail");

    let result = Ok(HookResult {
        exit_code: Some(1),
        stdout: String::new(),
        stderr: "something went wrong".to_string(),
        timed_out: false,
    });

    let message = hook.failure_message(HookPhase::PostConnect, &result);

    assert!(message.contains("exit code"));
    assert!(message.contains("something went wrong"));
    assert!(message.contains("Post-connect"));
}

#[test]
fn failure_message_on_execution_error() {
    let hook = echo_hook("broken");
    let result: Result<HookResult, String> = Err("spawn failed".to_string());

    let message = hook.failure_message(HookPhase::PreDisconnect, &result);

    assert!(message.contains("spawn failed"));
    assert!(message.contains("Pre-disconnect"));
}

#[test]
fn display_command_no_args() {
    let hook = ConnectionHook { args: vec![], ..echo_hook("") };

    assert_eq!(hook.display_command(), "echo");
}

#[test]
fn display_command_with_args() {
    let hook = echo_hook("hello world");

    assert_eq!(hook.display_command(), "echo hello world");
}

#[test]
fn failure_message_exact_texts() {
    let hook = ConnectionHook { timeout_ms: Some(3000), ..echo_hook("slow") };
    let timed_out: Result<HookResult, String> = Ok(result_with(None, true));
    assert_eq!(hook.failure_message(HookPhase::PreConnect, &timed_out), "Pre-connect hook timed out after 3000ms: echo slow");

    let no_limit = echo_hook("slow");
    assert_eq!(
        no_limit.failure_message(HookPhase::PostDisconnect, &timed_out),
        "Post-disconnect hook timed out after timeout: echo slow"
    );

    let failed: Result<HookResult, String> = Ok(HookResult {
        exit_code: Some(2),
        stdout: "  out  ".to_string(),
        stderr: "   ".to_string(),
        timed_out: false,
    });
    assert_eq!(
        no_limit.failure_message(HookPhase::PostConnect, &failed),
        "Post-connect hook failed (exit code Some(2)): echo slow (out)"
    );

    let silent: Result<HookResult, String> = Ok(result_with(None, false));
    assert_eq!(
        no_limit.failure_message(HookPhase::PreDisconnect, &silent),
        "Pre-disconnect hook failed (exit code None): echo slow (no output)"
    );

    let negative: Result<HookResult, String> = Ok(result_with(Some(-1), false));
    assert!(no_limit.failure_message(HookPhase::PreConnect, &negative).contains("exit code Some(-1)"));
}

fn warn_hook(command: &str) -> ConnectionHook {
    ConnectionHook { command: command.to_string(), args: vec![], on_failure: HookFailureMode::Warn, ..echo_hook("") }
}

fn executions_of(outcome: &HookPhaseOutcome) -> &Vec<HookExecution> {
    match outcome {
        HookPhaseOutcome::Success { executions } => executions,
        HookPhaseOutcome::Aborted { executions, .. } => executions,
        HookPhaseOutcome::CompletedWithWarnings { executions, .. } => executions,
    }
}

fn run_by_command(hook: &ConnectionHook) -> Result<HookResult, String> {
    match hook.command.as_str() {
        "ok" | "echo" => Ok(result_with(Some(0), false)),
        "fail" => Ok(HookResult { exit_code: Some(1), stdout: String::new(), stderr: "bad".to_string(), timed_out: false }),
        "slow" => Ok(result_with(None, true)),
        _ => Err("cannot spawn".to_string()),
    }
}

#[test]
fn run_phase_skips_disabled_hooks_and_succeeds() {
    let disabled = ConnectionHook { enabled: false, command: "fail".to_string(), ..echo_hook("x") };
    let hooks = vec![echo_hook("a"), disabled, echo_hook("b")];
    let outcome = HookRunner::run_phase_with(HookPhase::PreConnect, &hooks, run_by_command);
    match outcome {
        HookPhaseOutcome::Success { executions } => {
            assert_eq!(executions.len(), 2);
            assert_eq!(executions[0].hook.args, vec!["a"]);
            assert_eq!(executions[1].hook.args, vec!["b"]);
        }
        other => panic!("expected success, got {other:?}"),
    }
}

#[test]
fn run_phase_abort_stops_remaining_hooks() {
    let failing = ConnectionHook { command: "fail".to_string(), args: vec![], ..echo_hook("") };
    let hooks = vec![echo_hook("first"), failing, echo_hook("never")];
    let outcome = HookRunner::run_phase_with(HookPhase::PostConnect, &hooks, run_by_command);
    assert_eq!(executions_of(&outcome).len(), 2);
    match outcome {
        HookPhaseOutcome::Aborted { error, .. } => {
            assert_eq!(error, "Post-connect hook failed (exit code Some(1)): fail (bad)");
        }
        other => panic!("expected abort, got {other:?}"),
    }
}

#[test]
fn run_phase_warnings_and_ignored_failures_continue() {
    let ignored = ConnectionHook { command: "slow".to_string(), args: vec![], on_failure: HookFailureMode::Ignore, ..echo_hook("") };
    let hooks = vec![warn_hook("fail"), ignored, warn_hook("spawn"), echo_hook("done")];
    let outcome = HookRunner::run_phase_with(HookPhase::PreDisconnect, &hooks, run_by_command);
    match outcome {
        HookPhaseOutcome::CompletedWithWarnings { executions, warnings } => {
            assert_eq!(executions.len(), 4);
            assert_eq!(
                warnings,
                vec![
                    "Pre-disconnect hook failed (exit code Some(1)): fail (bad)".to_string(),
                    "Pre-disconnect hook failed: spawn (cannot spawn)".to_string(),
                ]
            );
        }
        other => panic!("expected warnings, got {other:?}"),
    }
}

#[test]
fn run_phase_with_only_ignored_failures_is_success() {
    let ignored = ConnectionHook { command: "fail".to_string(), args: vec![], on_failure: HookFailureMode::Ignore, ..echo_hook("") };
    let hooks = vec![ignored];
    let outcome = HookRunner::run_phase_with(HookPhase::PreConnect, &hooks, run_by_command);
    assert!(matches!(outcome, HookPhaseOutcome::Success { .. }));
    let empty: Vec<ConnectionHook> = Vec::new();
    let outcome = HookRunner::run_phase_with(HookPhase::PreConnect, &empty, run_by_command);
    assert!(matches!(outcome, HookPhaseOutcome::Success { executions } if executions.is_empty()));
}

fn sqlite_profile(name: &str, path: &str) -> ConnectionProfile {
    ConnectionProfile::with_id(7, name.to_string(), DbConfig::SQLite { path: path.to_string() })
}

#[test]
fn resolve_from_bindings_uses_definitions_in_binding_order() {
    let mut profile = sqlite_profile("p", "/tmp/x.db");
    profile.hooks = Some(ConnectionHooks { pre_connect: vec![echo_hook("inline")], ..ConnectionHooks::default() });
    profile.hook_bindings = Some(ConnectionHookBindings {
        post_connect: vec!["warm".to_string(), "missing".to_string(), "notify".to_string()],
        ..ConnectionHookBindings::default()
    });
    let definitions = vec![("notify".to_string(), echo_hook("notify")), ("warm".to_string(), echo_hook("warm"))];
    let hooks = ConnectionHooks::resolve_from_bindings(&profile, &definitions);
    assert!(hooks.pre_connect.is_empty());
    assert_eq!(hooks.post_connect.len(), 2);
    assert_eq!(hooks.post_connect[0].args, vec!["warm"]);
    assert_eq!(hooks.post_connect[1].args, vec!["notify"]);
}

#[test]
fn resolve_from_bindings_falls_back_to_inline_hooks() {
    let mut profile = sqlite_profile("p", "/tmp/x.db");
    let definitions = vec![("warm".to_string(), echo_hook("warm"))];
    let none = ConnectionHooks::resolve_from_bindings(&profile, &definitions);
    assert!(none.pre_connect.is_empty() && none.post_connect.is_empty());
    profile.hooks = Some(ConnectionHooks { pre_connect: vec![echo_hook("inline")], ..ConnectionHooks::default() });
    let inline = ConnectionHooks::resolve_from_bindings(&profile, &definitions);
    assert_eq!(inline.pre_connect.len(), 1);
    assert_eq!(inline.pre_connect[0].args, vec!["inline"]);
}

#[test]
fn hook_context_from_profiles() {
    let pg = ConnectionProfile::with_id(
        1,
        "pg".to_string(),
        DbConfig::Postgres { host: "db.example.com".to_string(), port: 5433, user: "admin".to_string(), database: "production".to_string() },
    );
    let ctx = HookContext::from_profile(&pg);
    assert_eq!(ctx.host.as_deref(), Some("db.example.com"));
    assert_eq!(ctx.port, Some(5433));
    assert_eq!(ctx.database.as_deref(), Some("production"));
    assert_eq!(ctx.db_kind, "Postgres");

    let lite = sqlite_profile("lite", "/data/app.db");
    let ctx = HookContext::from_profile(&lite);
    assert!(ctx.host.is_none());
    assert!(ctx.port.is_none());
    assert_eq!(ctx.database.as_deref(), Some("/data/app.db"));
    assert_eq!(ctx.profile_name, "lite");
    assert_eq!(ctx.profile_id, 7);

    let mut values = StrMap::new();
    values.insert("host".to_string(), "ext-host".to_string());
    values.insert("port".to_string(), "9999".to_string());
    values.insert("database".to_string(), "ext-db".to_string());
    let ext = ConnectionProfile::with_id(2, "external".to_string(), DbConfig::External { kind: DbKind::Postgres, values });
    let ctx = HookContext::from_profile(&ext);
    assert_eq!(ctx.host.as_deref(), Some("ext-host"));
    assert_eq!(ctx.port, Some(9999));
    assert_eq!(ctx.database.as_deref(), Some("ext-db"));

    let mut bad_port = StrMap::new();
    bad_port.insert("port".to_string(), "70000".to_string());
    let ext = ConnectionProfile::with_id(3, "bad".to_string(), DbConfig::External { kind: DbKind::MySQL, values: bad_port });
    assert_eq!(HookContext::from_profile(&ext).port, None);
}

#[test]
fn context_env_describes_the_profile() {
    let ctx = HookContext {
        profile_id: 0x67e5504410b1426f9247bb680e5fe0c8,
        profile_name: "test-profile".to_string(),
        db_kind: "Postgres".to_string(),
        host: Some("localhost".to_string()),
        port: Some(5432),
        database: None,
    };
    let env = echo_hook("x").context_env(&ctx);
    assert_eq!(env.get("DBFLUX_PROFILE_ID").map(String::as_str), Some("67e55044-10b1-426f-9247-bb680e5fe0c8"));
    assert_eq!(env.get("DBFLUX_PROFILE_NAME").map(String::as_str), Some("test-profile"));
    assert_eq!(env.get("DBFLUX_PORT").map(String::as_str), Some("5432"));
    assert_eq!(env.get("DBFLUX_HOST").map(String::as_str), Some("localhost"));
    assert!(env.get("DBFLUX_DATABASE").is_none());
    assert_eq!(env.len(), 5);
}

#[test]
fn hook_context_from_postgres_profile() {
    let profile = ConnectionProfile::new(
        "pg".to_string(),
        DbConfig::Postgres {
            host: "db.example.com".to_string(),
            port: 5433,
            user: "admin".to_string(),
            database: "production".to_string(),
        },
    );
    let ctx = HookContext::from_profile(&profile);
    assert_eq!(ctx.host.as_deref(), Some("db.example.com"));
    assert_eq!(ctx.port, Some(5433));
    assert_eq!(ctx.database.as_deref(), Some("production"));
}

#[test]
fn hook_context_from_sqlite_profile() {
    let profile = ConnectionProfile::new("lite".to_string(), DbConfig::SQLite { path: "/data/app.db".to_string() });
    let ctx = HookContext::from_profile(&profile);
    assert!(ctx.host.is_none());
    assert!(ctx.port.is_none());
    assert_eq!(ctx.database.as_deref(), Some("/data/app.db"));
}

#[test]
fn hook_context_from_external_profile() {
    let mut values = StrMap::new();
    values.insert("host".to_string(), "ext-host".to_string());
    values.insert("port".to_string(), "9999".to_string());
    values.insert("database".to_string(), "ext-db".to_string());
    let profile = ConnectionProfile::new("external".to_string(), DbConfig::External { kind: DbKind::Postgres, values });
    let ctx = HookContext::from_profile(&profile);
    assert_eq!(ctx.host.as_deref(), Some("ext-host"));
    assert_eq!(ctx.port, Some(9999));
    assert_eq!(ctx.database.as_deref(), Some("ext-db"));
}

#[test]
fn hook_context_preserves_profile_id_and_name() {
    let profile = ConnectionProfile::new("my-db".to_string(), DbConfig::SQLite { path: "/tmp/test.db".to_string() });
    let ctx = HookContext::from_profile(&profile);
    assert_eq!(ctx.profile_id, profile.id);
    assert_eq!(ctx.profile_name, "my-db");
}

/// Runs hooks as a shell would: `echo` succeeds, `false` exits with 1.
fn run_like_shell(hook: &ConnectionHook) -> Result<HookResult, String> {
    match hook.command.as_str() {
        "echo" => Ok(result_with(Some(0), false)),
        "false" => Ok(result_with(Some(1), false)),
        other => Err(format!("cannot run {other}")),
    }
}

fn disabled_hook() -> ConnectionHook {
    ConnectionHook { enabled: false, ..echo_hook("disabled") }
}

#[test]
fn run_phase_empty_hooks_returns_success() {
    let outcome = HookRunner::run_phase_with(HookPhase::PreConnect, &Vec::new(), run_like_shell);
    assert!(matches!(outcome, HookPhaseOutcome::Success { executions } if executions.is_empty()));
}

#[test]
fn run_phase_single_success() {
    let hooks = vec![echo_hook("ok")];
    let outcome = HookRunner::run_phase_with(HookPhase::PreConnect, &hooks, run_like_shell);
    assert!(matches!(outcome, HookPhaseOutcome::Success { executions } if executions.len() == 1));
}

#[test]
fn run_phase_multiple_all_succeed() {
    let hooks = vec![echo_hook("a"), echo_hook("b"), echo_hook("c")];
    let outcome = HookRunner::run_phase_with(HookPhase::PreConnect, &hooks, run_like_shell);
    assert!(matches!(outcome, HookPhaseOutcome::Success { executions } if executions.len() == 3));
}

#[test]
fn run_phase_skips_disabled_hooks() {
    let hooks = vec![echo_hook("a"), disabled_hook(), echo_hook("c")];
    let outcome = HookRunner::run_phase_with(HookPhase::PreConnect, &hooks, run_like_shell);
    match outcome {
        HookPhaseOutcome::Success { executions } => assert_eq!(executions.len(), 2),
        other => panic!("expected Success, got {:?}", other),
    }
}

#[test]
fn run_phase_disconnect_failure_aborts() {
    let mut hook = failing_hook();
    hook.on_failure = HookFailureMode::Disconnect;
    let hooks = vec![hook];
    let outcome = HookRunner::run_phase_with(HookPhase::PreConnect, &hooks, run_like_shell);
    assert!(matches!(outcome, HookPhaseOutcome::Aborted { .. }));
}

#[test]
fn run_phase_warn_failure_continues() {
    let mut warn = failing_hook();
    warn.on_failure = HookFailureMode::Warn;
    let hooks = vec![warn, echo_hook("after")];
    let outcome = HookRunner::run_phase_with(HookPhase::PreConnect, &hooks, run_like_shell);
    match outcome {
        HookPhaseOutcome::CompletedWithWarnings { executions, warnings } => {
            assert_eq!(executions.len(), 2);
            assert_eq!(warnings.len(), 1);
        }
        other => panic!("expected CompletedWithWarnings, got {:?}", other),
    }
}

#[test]
fn run_phase_ignore_failure_continues_silently() {
    let mut ignore = failing_hook();
    ignore.on_failure = HookFailureMode::Ignore;
    let hooks = vec![ignore, echo_hook("after")];
    let outcome = HookRunner::run_phase_with(HookPhase::PreConnect, &hooks, run_like_shell);
    match outcome {
        HookPhaseOutcome::Success { executions } => assert_eq!(executions.len(), 2),
        other => panic!("expected Success (ignore swallows warnings), got {:?}", other),
    }
}

#[test]
fn run_phase_mixed_failure_modes() {
    let mut warn = failing_hook();
    warn.on_failure = HookFailureMode::Warn;
    let mut abort = failing_hook();
    abort.on_failure = HookFailureMode::Disconnect;
    let hooks = vec![warn, abort, echo_hook("never")];
    let outcome = HookRunner::run_phase_with(HookPhase::PreConnect, &hooks, run_like_shell);
    assert!(matches!(outcome, HookPhaseOutcome::Aborted { .. }));
}

#[test]
fn run_phase_cancelled_token_aborts_immediately() {
    let hooks = vec![ConnectionHook { command: "sleep".to_string(), args: vec!["10".to_string()], ..echo_hook("") }];
    let cancelled = |_: &ConnectionHook| -> Result<HookResult, String> { Err("Hook execution cancelled".to_string()) };
    let outcome = HookRunner::run_phase_with(HookPhase::PreConnect, &hooks, cancelled);
    match outcome {
        HookPhaseOutcome::Aborted { executions, .. } => {
            assert_eq!(executions.len(), 1);
            assert!(executions[0].result.is_err());
        }
        other => panic!("expected Aborted on cancellation, got {:?}", other),
    }
}

#[test]
fn hook_environment_layers_parent_context_and_own_variables() {
    let ctx = HookContext {
        profile_id: 1,
        profile_name: "p".to_string(),
        db_kind: "SQLite".to_string(),
        host: None,
        port: None,
        database: Some("/tmp/x.db".to_string()),
    };
    let mut parent = StrMap::new();
    parent.insert("PATH".to_string(), "/usr/bin".to_string());
    parent.insert("DBFLUX_PROFILE_NAME".to_string(), "from parent".to_string());
    let mut hook = echo_hook("x");
    hook.env.insert("DBFLUX_DATABASE".to_string(), "override".to_string());
    hook.env.insert("EXTRA".to_string(), "1".to_string());

    let inherited = hook.effective_env(&parent, &ctx);
    assert_eq!(inherited.get("PATH").map(String::as_str), Some("/usr/bin"));
    assert_eq!(inherited.get("DBFLUX_PROFILE_NAME").map(String::as_str), Some("p"));
    assert_eq!(inherited.get("DBFLUX_DATABASE").map(String::as_str), Some("override"));
    assert_eq!(inherited.get("EXTRA").map(String::as_str), Some("1"));
    assert_eq!(inherited.len(), 6);

    hook.inherit_env = false;
    let cleared = hook.effective_env(&parent, &ctx);
    assert!(cleared.get("PATH").is_none());
    assert_eq!(cleared.get("DBFLUX_PROFILE_NAME").map(String::as_str), Some("p"));
    assert_eq!(cleared.len(), 5);
}
