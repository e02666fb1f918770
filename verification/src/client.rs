//! The client side: how an application reaches the proxy.

use vstd::prelude::*;

verus! {

/// The kinds of proxy.
#[derive(Debug, Clone, Copy, PartialEq, Eq, Structural)]
pub enum ProxyType {
    SshSocks,
    HttpsConnect,
    QuicHttp3,
}

/// Where the proxy is and of what kind.
#[derive(Debug, Clone)]
pub struct ProxyConfig {
    pub proxy_type: ProxyType,
    pub address: String,
    pub port: u16,
}

/// A client of the proxy.
#[derive(Clone)]
pub struct Client {
    proxy_config: ProxyConfig,
}

impl Client {
    /// The configuration of the client.
    pub closed spec fn spec_config(&self) -> ProxyConfig {
        self.proxy_config
    }

    /// A client that uses the proxy of `config`.
    pub fn new(config: ProxyConfig) -> (client: Client)
        ensures
            client.spec_config() == config,
    {
        Client { proxy_config: config }
    }

    /// Connects the client to its proxy. The placeholder client connects to
    /// nothing and always succeeds.
    pub fn connect(&self) -> (connected: bool)
        ensures
            connected,
    {
        true
    }

    /// The kind of proxy the client uses.
    pub fn proxy_type(&self) -> (t: ProxyType)
        ensures
            t == self.spec_config().proxy_type,
    {
        self.proxy_config.proxy_type
    }
}

/// A relay node between client and destination.
pub struct ProxyRelay {
    bind_address: String,
    bind_port: u16,
    dns_resolver: String,
}

impl ProxyRelay {
    /// The address the relay binds to.
    pub closed spec fn spec_bind_address(&self) -> Seq<char> {
        self.bind_address@
    }

    /// The port the relay binds to.
    pub closed spec fn spec_bind_port(&self) -> u16 {
        self.bind_port
    }

    /// The resolver the relay uses.
    pub closed spec fn spec_dns_resolver(&self) -> Seq<char> {
        self.dns_resolver@
    }

    /// A relay on `bind_address` and `bind_port` that resolves names with
    /// `dns_resolver`.
    pub fn new(bind_address: String, bind_port: u16, dns_resolver: String) -> (relay: ProxyRelay)
        ensures
            relay.spec_bind_address() == bind_address@,
            relay.spec_bind_port() == bind_port,
            relay.spec_dns_resolver() == dns_resolver@,
    {
        ProxyRelay { bind_address, bind_port, dns_resolver }
    }
}

/// How much is logged: an error is always logged, a trace only at the
/// highest level.
#[derive(Debug, Clone, Copy, PartialEq, Eq, Structural)]
pub enum LogLevel {
    Error,
    Info,
    Debug,
    Trace,
}

/// The level up to which messages are logged.
pub const LOG_LEVEL_RANK: u8 = 0;

/// The rank of a log level: 0 for `Error` up to 3 for `Trace`.
pub open spec fn spec_log_rank(level: LogLevel) -> u8 {
    match level {
        LogLevel::Error => 0,
        LogLevel::Info => 1,
        LogLevel::Debug => 2,
        LogLevel::Trace => 3,
    }
}

impl LogLevel {
    /// The rank of this level.
    pub fn rank(self) -> (r: u8)
        ensures
            r == spec_log_rank(self),
    {
        match self {
            LogLevel::Error => 0,
            LogLevel::Info => 1,
            LogLevel::Debug => 2,
            LogLevel::Trace => 3,
        }
    }

    /// Whether a message of this level is logged: its rank is not above the
    /// configured one.
    pub fn is_logged(self) -> (logged: bool)
        ensures
            logged == (spec_log_rank(self) <= LOG_LEVEL_RANK),
    {
        self.rank() <= LOG_LEVEL_RANK
    }
}

} // verus!
