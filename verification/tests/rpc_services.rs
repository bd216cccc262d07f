use dbflux::access::{AccessKind, AccessRoute, AppAccessManager};
use dbflux::error::DbError;
use dbflux::rpc::{
    adapt_driver_service_with, discover_services, rpc_registry_id, DriverServiceAdaptation, RpcServiceKind,
    ServiceConfig,
};
use dbflux::strmap::StrMap;

fn fake_probe() -> (&'static str, &'static str) {
    ("sqlite", "SQLite")
}

fn test_service(kind: RpcServiceKind, enabled: bool) -> ServiceConfig {
    let mut env = StrMap::new();
    env.insert("RUST_LOG".to_string(), "info".to_string());
    ServiceConfig {
        socket_id: "svc-socket".to_string(),
        enabled,
        command: None,
        args: vec!["--stdio".to_string()],
        env,
        startup_timeout_ms: Some(7_500),
        kind,
    }
}

#[test]
fn discover_and_adapt_driver_service_preserves_rpc_registry_id() {
    let descriptor = discover_services(vec![test_service(RpcServiceKind::Driver, true)])
        .into_iter()
        .next()
        .expect("descriptor");

    let adaptation = adapt_driver_service_with(
        descriptor,
        |_| false,
        |socket_id, launch| -> Result<(&str, &str), Box<DbError>> {
            assert_eq!(socket_id, "svc-socket");
            assert_eq!(launch.program, "dbflux-driver-host");
            assert_eq!(launch.args, vec!["--stdio".to_string()]);
            assert_eq!(launch.startup_timeout_ms, 7_500);
            Ok(fake_probe())
        },
        |driver_id, socket_id, _, launch| (driver_id, socket_id, launch.program),
    );

    match adaptation {
        DriverServiceAdaptation::Registered { driver_id, service } => {
            assert_eq!(driver_id, "rpc:svc-socket");
            assert_eq!(service.0, "rpc:svc-socket");
            assert_eq!(service.1, "svc-socket");
            assert_eq!(service.2, "dbflux-driver-host");
        }
        _ => panic!("expected driver registration"),
    }
}

#[test]
fn adapt_driver_service_skips_non_driver_descriptors() {
    let descriptor = discover_services(vec![test_service(RpcServiceKind::AuthProvider, true)])
        .into_iter()
        .next()
        .expect("descriptor");

    let adaptation = adapt_driver_service_with(
        descriptor,
        |_| false,
        |_, _| -> Result<(&str, &str), Box<DbError>> { Ok(fake_probe()) },
        |driver_id, _, _, _| driver_id,
    );

    match adaptation {
        DriverServiceAdaptation::SkippedNonDriver { socket_id, kind } => {
            assert_eq!(socket_id, "svc-socket");
            assert_eq!(kind, RpcServiceKind::AuthProvider);
        }
        _ => panic!("expected non-driver service to stay inert"),
    }
}

#[test]
fn adapt_driver_service_skips_disabled_descriptors_before_probe() {
    let descriptor = discover_services(vec![test_service(RpcServiceKind::Driver, false)])
        .into_iter()
        .next()
        .expect("descriptor");

    let adaptation = adapt_driver_service_with(
        descriptor,
        |_| false,
        |_, _| -> Result<(&str, &str), Box<DbError>> { panic!("disabled services must not be probed") },
        |driver_id, _, _, _| driver_id,
    );

    match adaptation {
        DriverServiceAdaptation::SkippedDisabled { socket_id } => assert_eq!(socket_id, "svc-socket"),
        _ => panic!("expected disabled service to be skipped"),
    }
}

#[test]
fn adapt_driver_service_returns_probe_failure_without_registration() {
    let descriptor = discover_services(vec![test_service(RpcServiceKind::Driver, true)])
        .into_iter()
        .next()
        .expect("descriptor");

    let adaptation = adapt_driver_service_with(
        descriptor,
        |_| false,
        |_, _| -> Result<(&str, &str), Box<DbError>> {
            Err(Box::new(DbError::connection_failed("probe failed".to_string())))
        },
        |driver_id, _, _, _| driver_id,
    );

    match adaptation {
        DriverServiceAdaptation::ProbeFailed { socket_id, error } => {
            assert_eq!(socket_id, "svc-socket");
            assert_eq!(error.to_display(), "Connection failed: probe failed");
        }
        _ => panic!("expected probe failure"),
    }
}

#[test]
fn registered_driver_ids_are_never_registered_twice() {
    let descriptor = discover_services(vec![test_service(RpcServiceKind::Driver, true)])
        .into_iter()
        .next()
        .expect("descriptor");
    let adaptation = adapt_driver_service_with(
        descriptor,
        |id| id == "rpc:svc-socket",
        |_, _| -> Result<(&str, &str), Box<DbError>> { panic!("a registered driver must not be probed again") },
        |driver_id, _, _, _| driver_id,
    );
    assert!(matches!(adaptation, DriverServiceAdaptation::SkippedDuplicate { socket_id } if socket_id == "svc-socket"));
}

#[test]
fn launch_configuration_uses_the_configured_command_and_defaults() {
    let mut service = test_service(RpcServiceKind::Driver, true);
    service.command = Some("/opt/driver".to_string());
    service.startup_timeout_ms = None;
    let descriptors = discover_services(vec![service, test_service(RpcServiceKind::AuthProvider, false)]);
    assert_eq!(descriptors.len(), 2);
    assert_eq!(descriptors[0].launch.program, "/opt/driver");
    assert_eq!(descriptors[0].launch.startup_timeout_ms, 5_000);
    assert_eq!(descriptors[0].launch.env.get("RUST_LOG").map(|v| v.as_str()), Some("info"));
    assert_eq!(descriptors[1].launch.program, "dbflux-driver-host");
    assert_eq!(rpc_registry_id("abc"), "rpc:abc");
}

#[test]
fn access_routes_follow_the_access_kind() {
    let manager = AppAccessManager::new(true);
    assert!(matches!(manager.open(&AccessKind::Direct, "db"), Ok(AccessRoute::Direct)));
    match manager.open(&AccessKind::Ssh, "db") {
        Err(e) => assert_eq!(e.to_display(), "Connection failed: SSH tunnels are managed by the legacy connect path"),
        other => panic!("expected an error, got {other:?}"),
    }
    match manager.open(&AccessKind::Proxy, "db") {
        Err(e) => assert_eq!(e.to_display(), "Connection failed: Proxy tunnels are managed by the legacy connect path"),
        other => panic!("expected an error, got {other:?}"),
    }
    let mut params = StrMap::new();
    params.insert("instance_id".to_string(), "i-123".to_string());
    params.insert("remote_port".to_string(), "5432".to_string());
    let ssm = AccessKind::Managed { provider: "aws-ssm".to_string(), params };
    match manager.open(&ssm, "db.internal") {
        Ok(AccessRoute::SsmTunnel { instance_id, region, remote_host, remote_port }) => {
            assert_eq!(instance_id, "i-123");
            assert_eq!(region, "us-east-1");
            assert_eq!(remote_host, "db.internal");
            assert_eq!(remote_port, 5432);
        }
        other => panic!("expected an SSM tunnel, got {other:?}"),
    }
    match AppAccessManager::new(false).open(&ssm, "db") {
        Err(e) => assert_eq!(e.to_display(), "Connection failed: SSM tunnel factory not available"),
        other => panic!("expected an error, got {other:?}"),
    }
    let mut bad_port = StrMap::new();
    bad_port.insert("remote_port".to_string(), "99999".to_string());
    match manager.open(&AccessKind::Managed { provider: "aws-ssm".to_string(), params: bad_port }, "h") {
        Ok(AccessRoute::SsmTunnel { instance_id, remote_port, .. }) => {
            assert_eq!(instance_id, "");
            assert_eq!(remote_port, 0);
        }
        other => panic!("expected an SSM tunnel, got {other:?}"),
    }
    match manager.open(&AccessKind::Managed { provider: "gcp-iap".to_string(), params: StrMap::new() }, "h") {
        Err(e) => assert_eq!(
            e.to_display(),
            "Connection failed: Unknown managed access provider: 'gcp-iap'. No handler registered."
        ),
        other => panic!("expected an error, got {other:?}"),
    }
}

