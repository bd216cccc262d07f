//! How a connection reaches its database: directly, or through a managed
//! tunnel such as AWS SSM; SSH and proxy tunnels go through the connect
//! path of their own.
use vstd::prelude::*;
use crate::error::{connection_failed_view, DbError};
use crate::hooks::map_get;
use crate::strmap::StrMap;
use crate::text::{cat3, parse_unsigned, spec_parse_unsigned, str_eq};

verus! {

/// How a profile reaches its database.
#[derive(Debug)]
pub enum AccessKind {
    Direct,
    Ssh,
    Proxy,
    /// A tunnel run by a named provider, configured by its parameters.
    Managed { provider: String, params: StrMap },
}

/// What opening access amounts to.
#[derive(Debug)]
pub enum AccessRoute {
    /// Connect to the database's own address.
    Direct,
    /// Start an SSM port-forwarding session to the host and connect through it.
    SsmTunnel { instance_id: String, region: String, remote_host: String, remote_port: u16 },
}

/// A parameter's value, or a default when it is absent.
pub open spec fn param_or(params: Map<Seq<char>, Seq<char>>, key: Seq<char>, default: Seq<char>) -> Seq<char> {
    match map_get(params, key) {
        Some(v) => v,
        None => default,
    }
}

/// The SSM session's remote port: the `remote_port` parameter when it
/// reads as a port number, else zero.
pub open spec fn ssm_remote_port(params: Map<Seq<char>, Seq<char>>) -> u16 {
    match map_get(params, "remote_port"@) {
        Some(t) => match spec_parse_unsigned(t, u16::MAX as nat) {
            Some(p) => p as u16,
            None => 0,
        },
        None => 0,
    }
}

/// Opens access for the application: direct access at once; SSH and proxy
/// tunnels are refused (another path handles them); an `aws-ssm` managed
/// tunnel needs the SSM factory and then targets the instance (empty when
/// unnamed) in the region (`us-east-1` when unnamed); any other provider is
/// refused.
#[derive(Debug, Clone, Copy)]
pub struct AppAccessManager {
    pub has_ssm_factory: bool,
}

impl AppAccessManager {
    pub fn new(has_ssm_factory: bool) -> (r: AppAccessManager)
        ensures
            r.has_ssm_factory == has_ssm_factory,
    {
        AppAccessManager { has_ssm_factory }
    }

    /// The route to open for an access kind toward `remote_host`.
    pub fn open(&self, access_kind: &AccessKind, remote_host: &str) -> (r: Result<AccessRoute, DbError>)
        ensures
            *access_kind is Direct ==> r is Ok && r->Ok_0 is Direct,
            *access_kind is Ssh ==> r is Err && r->Err_0@ == connection_failed_view(
                "SSH tunnels are managed by the legacy connect path"@,
            ),
            *access_kind is Proxy ==> r is Err && r->Err_0@ == connection_failed_view(
                "Proxy tunnels are managed by the legacy connect path"@,
            ),
            *access_kind is Managed && access_kind->provider@ != "aws-ssm"@ ==> r is Err && r->Err_0@
                == connection_failed_view(
                "Unknown managed access provider: '"@ + access_kind->provider@ + "'. No handler registered."@,
            ),
            *access_kind is Managed && access_kind->provider@ == "aws-ssm"@ && !self.has_ssm_factory ==> r is Err
                && r->Err_0@ == connection_failed_view("SSM tunnel factory not available"@),
            *access_kind is Managed && access_kind->provider@ == "aws-ssm"@ && self.has_ssm_factory ==> r is Ok
                && r->Ok_0 is SsmTunnel
                && r->Ok_0->instance_id@ == param_or(access_kind->params@, "instance_id"@, Seq::<char>::empty())
                && r->Ok_0->region@ == param_or(access_kind->params@, "region"@, "us-east-1"@)
                && r->Ok_0->remote_host@ == remote_host@
                && r->Ok_0->remote_port == ssm_remote_port(access_kind->params@),
    {
        match access_kind {
            AccessKind::Direct => Ok(AccessRoute::Direct),
            AccessKind::Ssh => Err(DbError::connection_failed(String::from_str("SSH tunnels are managed by the legacy connect path"))),
            AccessKind::Proxy => Err(DbError::connection_failed(String::from_str("Proxy tunnels are managed by the legacy connect path"))),
            AccessKind::Managed { provider, params } => {
                if !str_eq(provider.as_str(), "aws-ssm") {
                    return Err(DbError::connection_failed(cat3(
                        "Unknown managed access provider: '",
                        provider.as_str(),
                        "'. No handler registered.",
                    )));
                }
                let instance_id = match params.get("instance_id") {
                    Some(v) => v.clone(),
                    None => String::new(),
                };
                let region = match params.get("region") {
                    Some(v) => v.clone(),
                    None => String::from_str("us-east-1"),
                };
                let remote_port: u16 = match params.get("remote_port") {
                    Some(t) => match parse_unsigned(t.as_str(), u16::MAX as u64) {
                        Some(p) => p as u16,
                        None => 0,
                    },
                    None => 0,
                };
                if !self.has_ssm_factory {
                    return Err(DbError::connection_failed(String::from_str("SSM tunnel factory not available")));
                }
                Ok(AccessRoute::SsmTunnel { instance_id, region, remote_host: String::from_str(remote_host), remote_port })
            },
        }
    }
}

} // verus!
