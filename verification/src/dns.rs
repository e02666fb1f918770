//! Name resolution: where a name is resolved, and whether that agrees with
//! the policy. Resolving itself is done by the surrounding program.

use vstd::prelude::*;
use vstd::string::StringExecFns;
use crate::config::{DnsPolicy, LeakDetection, ResolutionLocation};

verus! {

/// Where a resolver runs.
#[derive(Debug, Clone, Copy, PartialEq, Eq, Structural)]
pub enum ResolverType {
    Local,
    Remote,
}

/// The kinds of query.
#[derive(Debug, Clone, Copy, PartialEq, Eq, Structural)]
pub enum QueryType {
    A,
    AAAA,
    CNAME,
}

/// A query for a name.
#[derive(Debug)]
pub struct DnsQuery {
    pub domain: String,
    pub query_type: QueryType,
}

/// An address, by its bytes.
#[derive(Debug, Clone, Copy, PartialEq, Eq)]
pub enum AddressBytes {
    V4([u8; 4]),
    V6([u8; 16]),
}

/// The answer to a query.
#[derive(Debug)]
pub struct DnsResponse {
    pub domain: String,
    pub ip_address: Option<AddressBytes>,
    pub resolved_via: ResolverType,
}

/// Why a name was not resolved.
#[derive(Debug, Clone, Copy, PartialEq, Eq, Structural)]
pub enum DnsError {
    ResolutionFailed,
    Timeout,
    InvalidDomain,
}

/// The resolver of the operating system.
pub struct SystemDnsResolver;

/// A resolver, local or remote.
pub struct DnsResolver {
    resolver_type: ResolverType,
    server_address: String,
}

impl DnsResolver {
    /// Where the resolver runs.
    pub closed spec fn spec_type(&self) -> ResolverType {
        self.resolver_type
    }

    /// The server the resolver asks.
    pub closed spec fn spec_server(&self) -> Seq<char> {
        self.server_address@
    }

    /// A resolver that runs locally.
    pub fn new_local() -> (r: DnsResolver)
        ensures
            r.spec_type() == ResolverType::Local,
            r.spec_server() == "local-dns.placeholder"@,
    {
        DnsResolver {
            resolver_type: ResolverType::Local,
            server_address: "local-dns.placeholder".to_string(),
        }
    }

    /// A resolver that asks the remote server `server_address`.
    pub fn new_remote(server_address: String) -> (r: DnsResolver)
        ensures
            r.spec_type() == ResolverType::Remote,
            r.spec_server() == server_address@,
    {
        DnsResolver { resolver_type: ResolverType::Remote, server_address }
    }

    /// Answers `query` without an address: this resolver only records where
    /// the name would be resolved.
    pub fn resolve(&self, query: DnsQuery) -> (r: Result<DnsResponse, DnsError>)
        ensures
            r is Ok,
            r->Ok_0.domain == query.domain,
            r->Ok_0.ip_address is None,
            r->Ok_0.resolved_via == self.spec_type(),
    {
        Ok(
            DnsResponse {
                domain: query.domain,
                ip_address: None,
                resolved_via: self.resolver_type,
            },
        )
    }

    /// Whether names leak: the resolver runs locally where a remote one was
    /// expected.
    pub fn check_dns_leak(&self, expected_resolver: ResolverType) -> (leak: bool)
        ensures
            leak == (self.spec_type() == ResolverType::Local && expected_resolver
                == ResolverType::Remote),
    {
        match (self.resolver_type, expected_resolver) {
            (ResolverType::Local, ResolverType::Remote) => true,
            _ => false,
        }
    }
}

/// A breach of the name-resolution policy.
#[derive(Debug)]
pub enum DnsPolicyViolation {
    LeakDetected { query: String, attempted_resolver: ResolverType },
    RemoteResolutionRequired { query: String },
}

/// A resolver that keeps to a policy.
pub struct RealDnsResolver {
    policy: DnsPolicy,
}

impl RealDnsResolver {
    /// The policy of the resolver.
    pub closed spec fn spec_policy(&self) -> DnsPolicy {
        self.policy
    }

    /// A resolver that keeps to `policy`.
    pub fn new(policy: DnsPolicy) -> (r: RealDnsResolver)
        ensures
            r.spec_policy() == policy,
    {
        RealDnsResolver { policy }
    }

    /// Where `query` is to be resolved under the policy.
    pub fn resolution_location(&self) -> (location: ResolutionLocation)
        ensures
            location == self.spec_policy().resolution_location,
    {
        self.policy.resolution_location
    }

    /// The answer of the remote placeholder resolver: every name is at
    /// 93.184.216.34.
    pub fn resolve_remote(&self, query: DnsQuery) -> (r: DnsResponse)
        ensures
            r.domain == query.domain,
            r.resolved_via == ResolverType::Remote,
            r.ip_address matches Some(AddressBytes::V4(a)) && a@ == seq![93u8, 184u8, 216u8, 34u8],
    {
        let address: [u8; 4] = [93, 184, 216, 34];
        assert(address@ =~= seq![93u8, 184u8, 216u8, 34u8]);
        DnsResponse {
            domain: query.domain,
            ip_address: Some(AddressBytes::V4(address)),
            resolved_via: ResolverType::Remote,
        }
    }

    /// The answer of the local placeholder resolver: every name is at
    /// 127.0.0.1.
    pub fn resolve_local(&self, query: DnsQuery) -> (r: DnsResponse)
        ensures
            r.domain == query.domain,
            r.resolved_via == ResolverType::Local,
            r.ip_address matches Some(AddressBytes::V4(a)) && a@ == seq![127u8, 0u8, 0u8, 1u8],
    {
        let address: [u8; 4] = [127, 0, 0, 1];
        assert(address@ =~= seq![127u8, 0u8, 0u8, 1u8]);
        DnsResponse {
            domain: query.domain,
            ip_address: Some(AddressBytes::V4(address)),
            resolved_via: ResolverType::Local,
        }
    }

    /// Resolves `query` where the policy says.
    pub fn resolve_with_policy(&self, query: DnsQuery) -> (r: DnsResponse)
        ensures
            r.domain == query.domain,
            r.resolved_via == (match self.spec_policy().resolution_location {
                ResolutionLocation::Remote => ResolverType::Remote,
                ResolutionLocation::Local => ResolverType::Local,
            }),
    {
        match self.policy.resolution_location {
            ResolutionLocation::Remote => self.resolve_remote(query),
            ResolutionLocation::Local => self.resolve_local(query),
        }
    }

    /// Checks, before `query` is resolved, whether resolving it would leak.
    ///
    /// `local_resolution_attempted` says whether the system is about to
    /// resolve locally. Under a policy of remote resolution with strict leak
    /// detection that is a violation; in every other case the query may go
    /// ahead.
    pub fn enforce_policy(&self, query: &DnsQuery, local_resolution_attempted: bool) -> (r: Result<
        (),
        DnsPolicyViolation,
    >)
        ensures
            r is Err <==> (self.spec_policy().resolution_location == ResolutionLocation::Remote
                && local_resolution_attempted && self.spec_policy().leak_detection
                == LeakDetection::Strict),
            r is Err ==> r->Err_0 is LeakDetected && r->Err_0->LeakDetected_query@ == query.domain@
                && r->Err_0->LeakDetected_attempted_resolver == ResolverType::Local,
    {
        match self.policy.resolution_location {
            ResolutionLocation::Remote => {
                if local_resolution_attempted {
                    match self.policy.leak_detection {
                        LeakDetection::Strict => {
                            return Err(
                                DnsPolicyViolation::LeakDetected {
                                    query: query.domain.clone(),
                                    attempted_resolver: ResolverType::Local,
                                },
                            );
                        },
                        LeakDetection::Warn => {},
                        LeakDetection::Disabled => {},
                    }
                }
                Ok(())
            },
            ResolutionLocation::Local => Ok(()),
        }
    }

    /// Whether a local resolution is being attempted where the policy asks
    /// for a remote one. This resolver never resolves locally by itself.
    pub fn detect_local_resolution_attempt(&self) -> (attempted: bool)
        ensures
            !attempted,
    {
        false
    }

    /// Checks an answer against the policy.
    ///
    /// An answer that was resolved locally although the policy asks for
    /// remote resolution is a violation under strict leak detection; in
    /// every other case the answer passes.
    pub fn validate_resolution(&self, response: &DnsResponse) -> (r: Result<
        (),
        DnsPolicyViolation,
    >)
        ensures
            r is Err <==> (self.spec_policy().resolution_location == ResolutionLocation::Remote
                && response.resolved_via == ResolverType::Local
                && self.spec_policy().leak_detection == LeakDetection::Strict),
            r is Err ==> r->Err_0 is RemoteResolutionRequired
                && r->Err_0->RemoteResolutionRequired_query@ == response.domain@,
    {
        match (self.policy.resolution_location, response.resolved_via) {
            (ResolutionLocation::Remote, ResolverType::Local) => {
                match self.policy.leak_detection {
                    LeakDetection::Strict => Err(
                        DnsPolicyViolation::RemoteResolutionRequired {
                            query: response.domain.clone(),
                        },
                    ),
                    LeakDetection::Warn => Ok(()),
                    LeakDetection::Disabled => Ok(()),
                }
            },
            _ => Ok(()),
        }
    }

    /// Whether a warning is due for an answer: it was resolved locally
    /// although the policy asks for remote resolution, and leaks are warned
    /// of.
    pub fn warns_of(&self, response: &DnsResponse) -> (warn: bool)
        ensures
            warn == (self.spec_policy().resolution_location == ResolutionLocation::Remote
                && response.resolved_via == ResolverType::Local
                && self.spec_policy().leak_detection == LeakDetection::Warn),
    {
        match (self.policy.resolution_location, response.resolved_via) {
            (ResolutionLocation::Remote, ResolverType::Local) => {
                match self.policy.leak_detection {
                    LeakDetection::Warn => true,
                    _ => false,
                }
            },
            _ => false,
        }
    }
}

/// The longest time, in seconds, an answer is kept.
pub const DEFAULT_CACHE_TTL: u32 = 300;

/// The smallest of `DEFAULT_CACHE_TTL` and the lifetimes `ttls`.
pub open spec fn spec_cache_ttl(ttls: Seq<u32>) -> u32
    decreases ttls.len(),
{
    if ttls.len() == 0 {
        DEFAULT_CACHE_TTL
    } else if ttls.last() < spec_cache_ttl(ttls.drop_last()) {
        ttls.last()
    } else {
        spec_cache_ttl(ttls.drop_last())
    }
}

/// How long, in seconds, an answer is kept whose addresses have the
/// lifetimes `ttls`: as long as the shortest-lived address, and
/// `DEFAULT_CACHE_TTL` at most.
pub fn cache_ttl(ttls: &[u32]) -> (ttl: u32)
    ensures
        ttl == spec_cache_ttl(ttls@),
        ttl <= DEFAULT_CACHE_TTL,
        forall|i: int| 0 <= i < ttls@.len() ==> ttl <= ttls@[i],
{
    let mut ttl: u32 = DEFAULT_CACHE_TTL;
    let mut i: usize = 0;
    proof {
        assert(ttls@.take(0) =~= Seq::<u32>::empty());
    }
    while i < ttls.len()
        invariant
            0 <= i <= ttls@.len(),
            ttl == spec_cache_ttl(ttls@.take(i as int)),
            ttl <= DEFAULT_CACHE_TTL,
            forall|j: int| 0 <= j < i ==> ttl <= ttls@[j],
        decreases ttls@.len() - i,
    {
        let ghost upto = ttls@.take(i as int + 1);
        proof {
            assert(upto.drop_last() =~= ttls@.take(i as int));
            assert(upto.last() == ttls@[i as int]);
        }
        if ttls[i] < ttl {
            ttl = ttls[i];
        }
        i += 1;
    }
    proof {
        assert(ttls@.take(i as int) =~= ttls@);
    }
    ttl
}

/// Whether a cached answer that expires at `expires` is still good at time
/// `now`.
pub fn cache_entry_fresh(expires: u64, now: u64) -> (fresh: bool)
    ensures
        fresh == (expires > now),
{
    expires > now
}

impl DnsError {
    /// The failure in words.
    pub fn describe(&self) -> (text: &'static str)
        ensures
            text@ == (match *self {
                DnsError::ResolutionFailed => "DNS resolution failed"@,
                DnsError::Timeout => "DNS query timeout"@,
                DnsError::InvalidDomain => "Invalid domain name"@,
            }),
    {
        match self {
            DnsError::ResolutionFailed => "DNS resolution failed",
            DnsError::Timeout => "DNS query timeout",
            DnsError::InvalidDomain => "Invalid domain name",
        }
    }
}

/// The name of a kind of resolver.
pub open spec fn spec_resolver_name(resolver: ResolverType) -> Seq<char> {
    match resolver {
        ResolverType::Local => "Local"@,
        ResolverType::Remote => "Remote"@,
    }
}

/// A violation in words.
pub open spec fn spec_violation_text(violation: DnsPolicyViolation) -> Seq<char> {
    match violation {
        DnsPolicyViolation::LeakDetected { query, attempted_resolver } => {
            "DNS leak detected for query '"@ + query@ + "' using "@ + spec_resolver_name(
                attempted_resolver,
            ) + " resolver"@
        },
        DnsPolicyViolation::RemoteResolutionRequired { query } => {
            "Remote DNS resolution required for query '"@ + query@
                + "' but local resolution attempted"@
        },
    }
}

impl DnsPolicyViolation {
    /// The violation in words.
    pub fn describe(&self) -> (text: String)
        ensures
            text@ == spec_violation_text(*self),
    {
        match self {
            DnsPolicyViolation::LeakDetected { query, attempted_resolver } => {
                let mut text = "DNS leak detected for query '".to_string();
                text.append(query.as_str());
                text.append("' using ");
                match attempted_resolver {
                    ResolverType::Local => text.append("Local"),
                    ResolverType::Remote => text.append("Remote"),
                }
                text.append(" resolver");
                text
            },
            DnsPolicyViolation::RemoteResolutionRequired { query } => {
                let mut text = "Remote DNS resolution required for query '".to_string();
                text.append(query.as_str());
                text.append("' but local resolution attempted");
                text
            },
        }
    }
}

} // verus!
