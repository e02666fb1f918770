//! Encrypted transports as the tunnel session sees them. The transports of
//! this module are placeholders: they connect to nothing and leave the
//! bytes as they are.

use vstd::prelude::*;
use vstd::string::StringExecFns;
use crate::config::Capability;
use crate::frame::copy_range;

verus! {

/// Why an encrypted transport failed.
#[derive(Debug, Clone, Copy, PartialEq, Eq, Structural)]
pub enum TransportError {
    ConnectionFailed,
    EncryptionFailed,
    DecryptionFailed,
}

/// A transport that encrypts what it carries.
pub trait EncryptedTransport {
    /// Connects the transport.
    fn establish_connection(&self) -> (r: Result<(), TransportError>);

    /// Encrypts `data`.
    fn encrypt_data(&self, data: &[u8]) -> (r: Result<Vec<u8>, TransportError>);

    /// Decrypts `data`.
    fn decrypt_data(&self, data: &[u8]) -> (r: Result<Vec<u8>, TransportError>);
}

/// A copy of `data`.
pub fn copy_of(data: &[u8]) -> (out: Vec<u8>)
    ensures
        out@ == data@,
{
    let out = copy_range(data, 0, data.len());
    assert(out@ =~= data@);
    out
}

/// A transport over SSH.
pub struct SshTransport {
    host: String,
    port: u16,
}

/// A transport over TLS.
pub struct TlsTransport {
    host: String,
    port: u16,
}

/// A transport over QUIC.
pub struct QuicTransport {
    host: String,
    port: u16,
}

impl SshTransport {
    /// The host of the transport.
    pub closed spec fn spec_host(&self) -> Seq<char> {
        self.host@
    }

    /// The port of the transport.
    pub closed spec fn spec_port(&self) -> u16 {
        self.port
    }

    /// A transport to `host` and `port`.
    pub fn new(host: String, port: u16) -> (t: SshTransport)
        ensures
            t.spec_host() == host@,
            t.spec_port() == port,
    {
        SshTransport { host, port }
    }
}

impl TlsTransport {
    /// The host of the transport.
    pub closed spec fn spec_host(&self) -> Seq<char> {
        self.host@
    }

    /// The port of the transport.
    pub closed spec fn spec_port(&self) -> u16 {
        self.port
    }

    /// A transport to `host` and `port`.
    pub fn new(host: String, port: u16) -> (t: TlsTransport)
        ensures
            t.spec_host() == host@,
            t.spec_port() == port,
    {
        TlsTransport { host, port }
    }
}

impl QuicTransport {
    /// The host of the transport.
    pub closed spec fn spec_host(&self) -> Seq<char> {
        self.host@
    }

    /// The port of the transport.
    pub closed spec fn spec_port(&self) -> u16 {
        self.port
    }

    /// A transport to `host` and `port`.
    pub fn new(host: String, port: u16) -> (t: QuicTransport)
        ensures
            t.spec_host() == host@,
            t.spec_port() == port,
    {
        QuicTransport { host, port }
    }
}

impl EncryptedTransport for SshTransport {
    fn establish_connection(&self) -> (r: Result<(), TransportError>)
        ensures
            r is Ok,
    {
        Ok(())
    }

    fn encrypt_data(&self, data: &[u8]) -> (r: Result<Vec<u8>, TransportError>)
        ensures
            r is Ok && r->Ok_0@ == data@,
    {
        Ok(copy_of(data))
    }

    fn decrypt_data(&self, data: &[u8]) -> (r: Result<Vec<u8>, TransportError>)
        ensures
            r is Ok && r->Ok_0@ == data@,
    {
        Ok(copy_of(data))
    }
}

impl EncryptedTransport for TlsTransport {
    fn establish_connection(&self) -> (r: Result<(), TransportError>)
        ensures
            r is Ok,
    {
        Ok(())
    }

    fn encrypt_data(&self, data: &[u8]) -> (r: Result<Vec<u8>, TransportError>)
        ensures
            r is Ok && r->Ok_0@ == data@,
    {
        Ok(copy_of(data))
    }

    fn decrypt_data(&self, data: &[u8]) -> (r: Result<Vec<u8>, TransportError>)
        ensures
            r is Ok && r->Ok_0@ == data@,
    {
        Ok(copy_of(data))
    }
}

impl EncryptedTransport for QuicTransport {
    fn establish_connection(&self) -> (r: Result<(), TransportError>)
        ensures
            r is Ok,
    {
        Ok(())
    }

    fn encrypt_data(&self, data: &[u8]) -> (r: Result<Vec<u8>, TransportError>)
        ensures
            r is Ok && r->Ok_0@ == data@,
    {
        Ok(copy_of(data))
    }

    fn decrypt_data(&self, data: &[u8]) -> (r: Result<Vec<u8>, TransportError>)
        ensures
            r is Ok && r->Ok_0@ == data@,
    {
        Ok(copy_of(data))
    }
}

/// A transport that fails at everything, for tests.
pub struct FailingTransport;

impl EncryptedTransport for FailingTransport {
    fn establish_connection(&self) -> (r: Result<(), TransportError>)
        ensures
            r == Err::<(), TransportError>(TransportError::ConnectionFailed),
    {
        Err(TransportError::ConnectionFailed)
    }

    fn encrypt_data(&self, data: &[u8]) -> (r: Result<Vec<u8>, TransportError>)
        ensures
            r is Err && r->Err_0 == TransportError::EncryptionFailed,
    {
        Err(TransportError::EncryptionFailed)
    }

    fn decrypt_data(&self, data: &[u8]) -> (r: Result<Vec<u8>, TransportError>)
        ensures
            r is Err && r->Err_0 == TransportError::DecryptionFailed,
    {
        Err(TransportError::DecryptionFailed)
    }
}

/// A relay transport that connects to the target without a relay between.
pub struct DirectRelayTransport;

/// One of the three transports.
pub enum Transport {
    Ssh(SshTransport),
    Tls(TlsTransport),
    Quic(QuicTransport),
}

impl Transport {
    /// Connects the transport.
    pub fn establish_connection(&mut self) -> (r: Result<(), TransportError>)
        ensures
            r is Ok,
            *final(self) == *old(self),
    {
        match self {
            Transport::Ssh(t) => t.establish_connection(),
            Transport::Tls(t) => t.establish_connection(),
            Transport::Quic(t) => t.establish_connection(),
        }
    }

    /// Encrypts `data`.
    pub fn encrypt_data(&self, data: &[u8]) -> (r: Result<Vec<u8>, TransportError>)
        ensures
            r is Ok && r->Ok_0@ == data@,
    {
        match self {
            Transport::Ssh(t) => t.encrypt_data(data),
            Transport::Tls(t) => t.encrypt_data(data),
            Transport::Quic(t) => t.encrypt_data(data),
        }
    }

    /// Decrypts `data`.
    pub fn decrypt_data(&self, data: &[u8]) -> (r: Result<Vec<u8>, TransportError>)
        ensures
            r is Ok && r->Ok_0@ == data@,
    {
        match self {
            Transport::Ssh(t) => t.decrypt_data(data),
            Transport::Tls(t) => t.decrypt_data(data),
            Transport::Quic(t) => t.decrypt_data(data),
        }
    }
}

/// A capability that was needed and not allowed.
#[derive(Debug)]
pub struct CapabilityError {
    pub required: Capability,
}

impl TransportError {
    /// The failure in words.
    pub fn describe(&self) -> (text: &'static str)
        ensures
            text@ == (match *self {
                TransportError::ConnectionFailed => "Transport connection failed"@,
                TransportError::EncryptionFailed => "Data encryption failed"@,
                TransportError::DecryptionFailed => "Data decryption failed"@,
            }),
    {
        match self {
            TransportError::ConnectionFailed => "Transport connection failed",
            TransportError::EncryptionFailed => "Data encryption failed",
            TransportError::DecryptionFailed => "Data decryption failed",
        }
    }
}

/// The name of a capability.
pub open spec fn spec_capability_name(capability: Capability) -> Seq<char> {
    match capability {
        Capability::NoNetworking => "NoNetworking"@,
        Capability::RealNetworking => "RealNetworking"@,
    }
}

impl CapabilityError {
    /// The failure in words: which capability was required.
    pub fn describe(&self) -> (text: String)
        ensures
            text@ == "Required capability "@ + spec_capability_name(self.required)
                + " not available"@,
    {
        let mut text = "Required capability ".to_string();
        match self.required {
            Capability::NoNetworking => text.append("NoNetworking"),
            Capability::RealNetworking => text.append("RealNetworking"),
        }
        text.append(" not available");
        text
    }
}

} // verus!
