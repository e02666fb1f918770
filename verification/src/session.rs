//! The tunnel session: a client, a transport and a resolver under one
//! capability policy.

use vstd::prelude::*;
use crate::client::{Client, ProxyConfig, ProxyType};
use crate::config::{Capability, CapabilityPolicy, DnsPolicy, ExecutionMode};
use crate::dns::{
    DnsPolicyViolation, DnsQuery, DnsResolver, DnsResponse, QueryType, RealDnsResolver,
    ResolverType,
};
use crate::transport::{
    CapabilityError, QuicTransport, SshTransport, TlsTransport, Transport, TransportError,
};

verus! {

/// Why a session refused or failed an operation.
#[derive(Debug)]
pub enum SessionError {
    /// A capability was needed that the policy does not allow.
    Capability(CapabilityError),
    /// The transport failed.
    Transport(TransportError),
    /// An answer breached the name-resolution policy.
    Dns(DnsPolicyViolation),
}

/// A tunnel session.
pub struct TunnelSession {
    pub client: Client,
    pub transport: Transport,
    pub dns_resolver: DnsResolver,
    pub capability_policy: CapabilityPolicy,
}

/// Whether a policy lets the program use the real network: it runs in the
/// real-network mode and allows real networking.
pub open spec fn spec_real_networking(policy: CapabilityPolicy) -> bool {
    policy.execution_mode == ExecutionMode::RealNetwork && policy.allowed_capabilities@.contains(
        Capability::RealNetworking,
    )
}

impl TunnelSession {
    /// A session through the proxy of `proxy_config`: the transport is of
    /// the kind the proxy asks for, and names are resolved remotely.
    pub fn new(proxy_config: ProxyConfig, capability_policy: CapabilityPolicy) -> (session:
        TunnelSession)
        ensures
            session.capability_policy == capability_policy,
            session.dns_resolver.spec_type() == ResolverType::Remote,
            session.dns_resolver.spec_server() == "relay-dns.example"@,
            session.client.spec_config() == proxy_config,
            match proxy_config.proxy_type {
                ProxyType::SshSocks => session.transport is Ssh,
                ProxyType::HttpsConnect => session.transport is Tls,
                ProxyType::QuicHttp3 => session.transport is Quic,
            },
    {
        let transport = match proxy_config.proxy_type {
            ProxyType::SshSocks => Transport::Ssh(
                SshTransport::new(proxy_config.address.clone(), proxy_config.port),
            ),
            ProxyType::HttpsConnect => Transport::Tls(
                TlsTransport::new(proxy_config.address.clone(), proxy_config.port),
            ),
            ProxyType::QuicHttp3 => Transport::Quic(
                QuicTransport::new(proxy_config.address.clone(), proxy_config.port),
            ),
        };
        let dns_resolver = DnsResolver::new_remote("relay-dns.example".to_string());
        TunnelSession { client: Client::new(proxy_config), transport, dns_resolver, capability_policy }
    }

    /// Establishes the tunnel: the transport is connected.
    pub fn establish_tunnel(&mut self) -> (r: Result<(), SessionError>)
        ensures
            r is Ok,
            *final(self) == *old(self),
    {
        match self.transport.establish_connection() {
            Ok(()) => Ok(()),
            Err(e) => Err(SessionError::Transport(e)),
        }
    }

    /// Sends a request through the tunnel and returns the answer. The
    /// placeholder transports hand the request back as the answer.
    pub fn process_request(&self, target_domain: &str, request_data: &[u8]) -> (r: Result<
        Vec<u8>,
        SessionError,
    >)
        ensures
            r is Ok,
            r->Ok_0@ == request_data@,
    {
        let query = DnsQuery { domain: target_domain.to_owned(), query_type: QueryType::A };
        let _answer = self.dns_resolver.resolve(query);
        let encrypted = match self.transport.encrypt_data(request_data) {
            Ok(bytes) => bytes,
            Err(e) => {
                return Err(SessionError::Transport(e));
            },
        };
        match self.transport.decrypt_data(encrypted.as_slice()) {
            Ok(bytes) => Ok(bytes),
            Err(e) => Err(SessionError::Transport(e)),
        }
    }

    /// Whether names are resolved where they should be: no leak against a
    /// remote resolver.
    pub fn validate_dns_configuration(&self) -> (valid: bool)
        ensures
            valid == (self.dns_resolver.spec_type() != ResolverType::Local),
    {
        !self.dns_resolver.check_dns_leak(ResolverType::Remote)
    }

    /// Checks that the policy allows `capability`.
    pub fn ensure_capability(&self, capability: Capability) -> (r: Result<(), CapabilityError>)
        ensures
            r is Ok <==> self.capability_policy.allowed_capabilities@.contains(capability),
            r is Err ==> r->Err_0.required == capability,
    {
        if self.capability_policy.allows(capability) {
            Ok(())
        } else {
            Err(CapabilityError { required: capability })
        }
    }

    /// Checks that the program may use the real network.
    pub fn ensure_real_networking(&self) -> (r: Result<(), CapabilityError>)
        ensures
            r is Ok <==> spec_real_networking(self.capability_policy),
            r is Err ==> r->Err_0.required == Capability::RealNetworking,
    {
        match self.capability_policy.execution_mode {
            ExecutionMode::RealNetwork => self.ensure_capability(Capability::RealNetworking),
            ExecutionMode::Conceptual => Err(
                CapabilityError { required: Capability::RealNetworking },
            ),
        }
    }

    /// Resolves `domain` under `dns_policy` and checks the answer against
    /// the policy. Without the real network nothing is resolved.
    pub fn resolve_dns_with_policy(&self, dns_policy: &DnsPolicy, domain: &str) -> (r: Result<
        DnsResponse,
        SessionError,
    >)
        ensures
            !spec_real_networking(self.capability_policy) ==> r is Err && r->Err_0 is Capability,
            spec_real_networking(self.capability_policy) ==> r is Ok && r->Ok_0.domain@
                == domain@,
    {
        match self.ensure_real_networking() {
            Ok(()) => {},
            Err(e) => {
                return Err(SessionError::Capability(e));
            },
        }
        let real_dns = RealDnsResolver::new(*dns_policy);
        let query = DnsQuery { domain: domain.to_owned(), query_type: QueryType::A };
        let response = real_dns.resolve_with_policy(query);
        match real_dns.validate_resolution(&response) {
            Ok(()) => Ok(response),
            Err(violation) => Err(SessionError::Dns(violation)),
        }
    }
}

} // verus!
