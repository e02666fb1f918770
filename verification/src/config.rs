//! The configuration of a tunnel: transport, name resolution and proxy.

use vstd::prelude::*;

verus! {

/// What the program is allowed to do.
#[derive(Debug, Clone, Copy, PartialEq, Eq, Structural)]
pub enum ExecutionMode {
    Conceptual,
    RealNetwork,
}

/// An operation a policy may allow.
#[derive(Debug, Clone, Copy, PartialEq, Eq, Structural)]
pub enum Capability {
    NoNetworking,
    RealNetworking,
}

/// An execution mode with the capabilities it allows.
#[derive(Debug, Clone)]
pub struct CapabilityPolicy {
    pub execution_mode: ExecutionMode,
    pub allowed_capabilities: Vec<Capability>,
}

/// The kinds of transport.
#[derive(Debug, Clone, Copy, PartialEq, Eq, Structural)]
pub enum TransportKind {
    Ssh,
    Tls,
    Quic,
}

/// The transport of a tunnel: its kind and its two endpoints.
#[derive(Debug, Clone)]
pub struct TransportConfig {
    pub kind: TransportKind,
    pub proxy_host: String,
    pub proxy_port: u16,
    pub target_host: String,
    pub target_port: u16,
}

/// Where names are resolved.
#[derive(Debug, Clone, Copy, PartialEq, Eq, Structural)]
pub enum ResolutionLocation {
    Local,
    Remote,
}

/// How a name-resolution leak is treated.
#[derive(Debug, Clone, Copy, PartialEq, Eq, Structural)]
pub enum LeakDetection {
    Strict,
    Warn,
    Disabled,
}

/// The name-resolution policy of a tunnel.
#[derive(Debug, Clone, Copy, PartialEq, Eq, Structural)]
pub struct DnsPolicy {
    pub resolution_location: ResolutionLocation,
    pub leak_detection: LeakDetection,
}

/// How the proxy is exposed.
#[derive(Debug, Clone, Copy, PartialEq, Eq, Structural)]
pub enum ProxyMode {
    System,
    Application,
}

/// A placeholder for the authentication of the proxy.
#[derive(Debug, Clone)]
pub struct AuthenticationPlaceholder {
    pub enabled: bool,
    pub method: String,
}

/// The proxy of a tunnel. The content policy is never switched on by
/// itself.
#[derive(Debug, Clone)]
pub struct ProxyPolicy {
    pub mode: ProxyMode,
    pub bind_address: String,
    pub bind_port: u16,
    pub authentication: Option<AuthenticationPlaceholder>,
    pub content_policy_enabled: bool,
    pub content_policy_rules: Option<String>,
}

/// The configuration of a tunnel.
#[derive(Debug, Clone)]
pub struct TunnelConfig {
    pub transport: TransportConfig,
    pub dns_policy: DnsPolicy,
    pub proxy_policy: ProxyPolicy,
}

impl CapabilityPolicy {
    /// Whether the policy allows `capability`.
    pub fn allows(&self, capability: Capability) -> (allowed: bool)
        ensures
            allowed == self.allowed_capabilities@.contains(capability),
    {
        let mut i: usize = 0;
        while i < self.allowed_capabilities.len()
            invariant
                0 <= i <= self.allowed_capabilities@.len(),
                forall|j: int| 0 <= j < i ==> self.allowed_capabilities@[j] != capability,
            decreases self.allowed_capabilities@.len() - i,
        {
            if self.allowed_capabilities[i] == capability {
                return true;
            }
            i += 1;
        }
        false
    }
}

impl TunnelConfig {
    /// The configuration of the demonstration set-up: an SSH transport from
    /// `relay.example.com:22` to `target.example.com:443`, names resolved
    /// remotely with a warning on leaks, and an application proxy on port
    /// 8080 without authentication and without content policy.
    pub fn educational_ssh_socks() -> (config: TunnelConfig)
        ensures
            config.transport.kind == TransportKind::Ssh,
            config.transport.proxy_host@ == "relay.example.com"@,
            config.transport.proxy_port == 22,
            config.transport.target_host@ == "target.example.com"@,
            config.transport.target_port == 443,
            config.dns_policy == (DnsPolicy {
                resolution_location: ResolutionLocation::Remote,
                leak_detection: LeakDetection::Warn,
            }),
            config.proxy_policy.mode == ProxyMode::Application,
            config.proxy_policy.bind_address@ == "proxy-bind.placeholder"@,
            config.proxy_policy.bind_port == 8080,
            config.proxy_policy.authentication is None,
            !config.proxy_policy.content_policy_enabled,
            config.proxy_policy.content_policy_rules is None,
    {
        TunnelConfig {
            transport: TransportConfig {
                kind: TransportKind::Ssh,
                proxy_host: "relay.example.com".to_string(),
                proxy_port: 22,
                target_host: "target.example.com".to_string(),
                target_port: 443,
            },
            dns_policy: DnsPolicy {
                resolution_location: ResolutionLocation::Remote,
                leak_detection: LeakDetection::Warn,
            },
            proxy_policy: ProxyPolicy {
                mode: ProxyMode::Application,
                bind_address: "proxy-bind.placeholder".to_string(),
                bind_port: 8080,
                authentication: None,
                content_policy_enabled: false,
                content_policy_rules: None,
            },
        }
    }
}

} // verus!
