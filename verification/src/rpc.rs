//! Configured RPC services and how a driver service becomes a registered
//! driver: skipped when disabled, not a driver or already registered;
//! probed, then built, otherwise.
use vstd::prelude::*;
use crate::error::opt_view;
use crate::strmap::StrMap;
use crate::text::cat;

verus! {

/// What an RPC service provides.
#[derive(Debug, Clone, Copy, PartialEq, Eq, Structural)]
pub enum RpcServiceKind {
    Driver,
    AuthProvider,
}

/// A configured RPC service.
#[derive(Debug)]
pub struct ServiceConfig {
    pub socket_id: String,
    pub enabled: bool,
    /// The program to launch; the standard driver host when absent.
    pub command: Option<String>,
    pub args: Vec<String>,
    pub env: StrMap,
    pub startup_timeout_ms: Option<u64>,
    pub kind: RpcServiceKind,
}

/// How to launch the process behind a service.
#[derive(Debug)]
pub struct IpcDriverLaunchConfig {
    pub program: String,
    pub args: Vec<String>,
    pub env: StrMap,
    pub startup_timeout_ms: u64,
}

/// A service with the launch configuration derived from it.
#[derive(Debug)]
pub struct RpcServiceDescriptor {
    pub config: ServiceConfig,
    pub launch: IpcDriverLaunchConfig,
}

/// What became of a service offered as a driver.
#[derive(Debug)]
pub enum DriverServiceAdaptation<T, E> {
    Registered { driver_id: String, service: T },
    SkippedDisabled { socket_id: String },
    SkippedNonDriver { socket_id: String, kind: RpcServiceKind },
    SkippedDuplicate { socket_id: String },
    ProbeFailed { socket_id: String, error: E },
}

pub open spec fn spec_registry_id(socket_id: Seq<char>) -> Seq<char> {
    "rpc:"@ + socket_id
}

/// The id a driver served over RPC is registered under: `rpc:<socket id>`.
pub fn rpc_registry_id(socket_id: &str) -> (r: String)
    ensures
        r@ == spec_registry_id(socket_id@),
{
    cat("rpc:", socket_id)
}

pub open spec fn string_views(v: Seq<String>) -> Seq<Seq<char>> {
    v.map_values(|s: String| s@)
}

fn copy_args(v: &Vec<String>) -> (r: Vec<String>)
    ensures
        string_views(r@) == string_views(v@),
{
    let mut out: Vec<String> = Vec::new();
    let mut i: usize = 0;
    while i < v.len()
        invariant
            i <= v.len(),
            out.len() == i,
            forall|j: int| 0 <= j < i ==> (#[trigger] out@[j])@ == v@[j]@,
        decreases v.len() - i,
    {
        out.push(v[i].clone());
        i = i + 1;
    }
    assert(string_views(out@) =~= string_views(v@));
    out
}

/// The launch configuration of a service: its command, or the standard
/// driver host; its arguments and environment; its startup timeout, or
/// five seconds.
pub open spec fn launches(config: ServiceConfig, launch: IpcDriverLaunchConfig) -> bool {
    &&& launch.program@ == match opt_view(config.command) {
        Some(c) => c,
        None => "dbflux-driver-host"@,
    }
    &&& string_views(launch.args@) == string_views(config.args@)
    &&& launch.env@ == config.env@
    &&& launch.startup_timeout_ms == match config.startup_timeout_ms {
        Some(ms) => ms,
        None => 5000,
    }
}

/// Pairs each configured service with its launch configuration, in order.
pub fn discover_services(services: Vec<ServiceConfig>) -> (r: Vec<RpcServiceDescriptor>)
    ensures
        r.len() == services.len(),
        forall|i: int| 0 <= i < r.len() ==> (#[trigger] r@[i]).config == services@[i] && launches(r@[i].config, r@[i].launch),
{
    let ghost orig = services@;
    let mut services = services;
    assert(orig.len() == services.len());
    let mut out: Vec<RpcServiceDescriptor> = Vec::new();
    let mut i: usize = 0;
    while services.len() > 0
        invariant
            i + services.len() == orig.len(),
            orig.len() <= usize::MAX,
            services@ == orig.subrange(i as int, orig.len() as int),
            out.len() == i,
            forall|j: int| 0 <= j < i ==> (#[trigger] out@[j]).config == orig[j] && launches(out@[j].config, out@[j].launch),
        decreases services.len(),
    {
        let config = services.remove(0);
        assert(config == orig[i as int]);
        let program = match &config.command {
            Some(c) => c.clone(),
            None => String::from_str("dbflux-driver-host"),
        };
        let launch = IpcDriverLaunchConfig {
            program,
            args: copy_args(&config.args),
            env: config.env.duplicate(),
            startup_timeout_ms: match config.startup_timeout_ms {
                Some(ms) => ms,
                None => 5000,
            },
        };
        out.push(RpcServiceDescriptor { config, launch });
        i = i + 1;
        assert(services@ =~= orig.subrange(i as int, orig.len() as int));
    }
    out
}

/// `r` registers, under the service's registry id, a driver that `build`
/// made from that id, the socket id, the probe result `p` and `launch`.
pub open spec fn registers<T, P, E, Build: FnOnce(String, String, P, IpcDriverLaunchConfig) -> T>(
    r: DriverServiceAdaptation<T, E>,
    build: Build,
    socket_id: Seq<char>,
    p: P,
    launch: IpcDriverLaunchConfig,
) -> bool {
    match r {
        DriverServiceAdaptation::Registered { driver_id, service } => {
            &&& driver_id@ == spec_registry_id(socket_id)
            &&& exists|id2: String, s2: String|
                id2@ == driver_id@ && s2@ == socket_id && #[trigger] build.ensures((id2, s2, p, launch), service)
        },
        _ => false,
    }
}

/// After a probe with this outcome, `r` reports the failure or registers
/// the driver built from the result.
pub open spec fn after_probe<T, P, E, Build: FnOnce(String, String, P, IpcDriverLaunchConfig) -> T>(
    r: DriverServiceAdaptation<T, E>,
    build: Build,
    socket_id: Seq<char>,
    outcome: Result<P, E>,
    launch: IpcDriverLaunchConfig,
) -> bool {
    match outcome {
        Err(e) => r matches DriverServiceAdaptation::ProbeFailed { socket_id: s, error } && s@ == socket_id && error == e,
        Ok(p) => registers(r, build, socket_id, p, launch),
    }
}

/// Turns a service into a registered driver: a disabled service is skipped
/// first, then one that is not a driver, then one whose registry id
/// `driver_exists` reports taken; otherwise the service is probed, and a
/// failed probe is reported, a successful one built into the driver that is
/// registered.
pub fn adapt_driver_service_with<T, P, E, D, Probe, Build>(
    descriptor: RpcServiceDescriptor,
    driver_exists: D,
    probe: Probe,
    build: Build,
) -> (r: DriverServiceAdaptation<T, E>)
    where
        D: FnOnce(&str) -> bool,
        Probe: FnOnce(&str, &IpcDriverLaunchConfig) -> Result<P, E>,
        Build: FnOnce(String, String, P, IpcDriverLaunchConfig) -> T,
    requires
        forall|id: &str| driver_exists.requires((id,)),
        forall|s: &str, l: &IpcDriverLaunchConfig| probe.requires((s, l)),
        forall|id: String, s: String, p: P, l: IpcDriverLaunchConfig| build.requires((id, s, p, l)),
    ensures
        !descriptor.config.enabled ==> (r matches DriverServiceAdaptation::SkippedDisabled { socket_id }
            && socket_id@ == descriptor.config.socket_id@),
        descriptor.config.enabled && descriptor.config.kind != RpcServiceKind::Driver ==> (
            r matches DriverServiceAdaptation::SkippedNonDriver { socket_id, kind }
            && socket_id@ == descriptor.config.socket_id@ && kind == descriptor.config.kind),
        descriptor.config.enabled && descriptor.config.kind == RpcServiceKind::Driver ==> exists|id: &str, taken: bool|
            id@ == spec_registry_id(descriptor.config.socket_id@) && #[trigger] driver_exists.ensures((id,), taken) && if taken {
                r matches DriverServiceAdaptation::SkippedDuplicate { socket_id }
                    && socket_id@ == descriptor.config.socket_id@
            } else {
                exists|s: &str, outcome: Result<P, E>|
                    s@ == descriptor.config.socket_id@ && #[trigger] probe.ensures((s, &descriptor.launch), outcome)
                    && after_probe(r, build, descriptor.config.socket_id@, outcome, descriptor.launch)
            },
{
    if !descriptor.config.enabled {
        return DriverServiceAdaptation::SkippedDisabled { socket_id: descriptor.config.socket_id };
    }
    if descriptor.config.kind != RpcServiceKind::Driver {
        return DriverServiceAdaptation::SkippedNonDriver {
            socket_id: descriptor.config.socket_id,
            kind: descriptor.config.kind,
        };
    }
    let driver_id = rpc_registry_id(descriptor.config.socket_id.as_str());
    let id_str = driver_id.as_str();
    let taken = driver_exists(id_str);
    assert(driver_exists.ensures((id_str,), taken));
    if taken {
        return DriverServiceAdaptation::SkippedDuplicate { socket_id: descriptor.config.socket_id };
    }
    let socket_str = descriptor.config.socket_id.as_str();
    let outcome = probe(socket_str, &descriptor.launch);
    let ghost outcome_copy = outcome;
    assert(probe.ensures((socket_str, &descriptor.launch), outcome_copy));
    let probed = match outcome {
        Ok(p) => p,
        Err(error) => {
            return DriverServiceAdaptation::ProbeFailed { socket_id: descriptor.config.socket_id, error };
        },
    };
    let RpcServiceDescriptor { config, launch } = descriptor;
    let id_copy = driver_id.clone();
    let ghost args = (id_copy, config.socket_id, probed, launch);
    let service = build(id_copy, config.socket_id, probed, launch);
    assert(build.ensures(args, service));
    let r = DriverServiceAdaptation::Registered { driver_id, service };
    proof {
        assert(build.ensures((args.0, args.1, args.2, args.3), service));
        assert(args.3 == descriptor.launch);
        assert(args.1@ == descriptor.config.socket_id@);
        assert(args.0@ == spec_registry_id(descriptor.config.socket_id@));
        assert(r matches DriverServiceAdaptation::Registered { driver_id: d, service: sv } && sv == service && d@ == args.0@);
        assert(registers(r, build, descriptor.config.socket_id@, args.2, descriptor.launch));
        assert(outcome_copy == Ok::<P, E>(args.2));
        assert(after_probe(r, build, descriptor.config.socket_id@, outcome_copy, descriptor.launch));
    }
    r
}

} // verus!
