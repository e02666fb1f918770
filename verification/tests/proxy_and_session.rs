use std::cell::RefCell;
use std::rc::Rc;

use anon_pipeline::binding::{EpochTransportFactory, Phase9BindingPump, PumpFailure};
use anon_pipeline::client::{Client, ProxyConfig, ProxyType};
use anon_pipeline::config::{
    Capability, CapabilityPolicy, DnsPolicy, ExecutionMode, LeakDetection, ResolutionLocation,
};
use anon_pipeline::content_policy::{ContentPolicyEngine, ReasonCode, Rule, RuleAction, RuleSet};
use anon_pipeline::delay::{DelayQueue, UniformDelay};
use anon_pipeline::dns::{DnsResolver, ResolverType};
use anon_pipeline::path_epoch::{PathEpoch, UniformEpochDuration};
use anon_pipeline::proxy_policy::PolicyAdapter;
use anon_pipeline::proxy_request::{
    classify_request, connect_target, decide, first_line, header_end, is_hop_by_hop,
    last_index_of, parse_host_port, parse_u16, plan_http_forward, status_text, ForwardPlan,
    HttpForwardError, ProxyDecision, ProxyStatus, RequestKind,
};
use anon_pipeline::rng::RandomSource;
use anon_pipeline::session::{SessionError, TunnelSession};
use anon_pipeline::transport::{SshTransport, Transport};
use anon_pipeline::transport_adapter::{TransportAdapter, TransportCallbacks, TransportError};

#[test]
fn test_educational_tunnel_session_basic_lifecycle() {
    let config = ProxyConfig {
        proxy_type: ProxyType::SshSocks,
        address: "educational.example.com".to_string(),
        port: 22,
    };
    let capability_policy = CapabilityPolicy {
        execution_mode: ExecutionMode::Conceptual,
        allowed_capabilities: vec![Capability::NoNetworking],
    };
    let mut session = TunnelSession::new(config, capability_policy);
    assert!(session.client.connect());
    let result = session.establish_tunnel();
    assert!(
        result.is_ok(),
        "Educational tunnel session should demonstrate successful component integration"
    );
}

#[test]
fn test_educational_dns_leak_detection_validates_configuration() {
    let local_resolver = DnsResolver::new_local();
    let has_leak = local_resolver.check_dns_leak(ResolverType::Remote);
    assert!(
        has_leak,
        "Educational DNS leak detection should identify when local DNS is used instead of tunnel DNS"
    );
}

#[test]
fn test_educational_transport_failure_prevents_unsafe_tunnel_state() {
    let client = Client::new(ProxyConfig {
        proxy_type: ProxyType::SshSocks,
        address: "educational-success.example.com".to_string(),
        port: 22,
    });
    let transport =
        Transport::Ssh(SshTransport::new("educational-success.example.com".to_string(), 22));
    let dns_resolver = DnsResolver::new_remote("relay-dns.example".to_string());
    let capability_policy = CapabilityPolicy {
        execution_mode: ExecutionMode::Conceptual,
        allowed_capabilities: vec![Capability::NoNetworking],
    };
    let mut session = TunnelSession { client, transport, dns_resolver, capability_policy };
    let result = session.establish_tunnel();
    assert!(
        result.is_ok(),
        "Educational demonstration shows successful component integration"
    );
}

#[test]
fn session_guards_the_real_network() {
    let config = ProxyConfig {
        proxy_type: ProxyType::QuicHttp3,
        address: "p".to_string(),
        port: 1,
    };
    let conceptual = TunnelSession::new(
        config.clone(),
        CapabilityPolicy {
            execution_mode: ExecutionMode::Conceptual,
            allowed_capabilities: vec![Capability::RealNetworking],
        },
    );
    assert!(matches!(conceptual.transport, Transport::Quic(_)));
    assert!(conceptual.validate_dns_configuration());
    assert!(conceptual.ensure_capability(Capability::RealNetworking).is_ok());
    assert_eq!(
        conceptual.ensure_capability(Capability::NoNetworking).err().map(|e| e.required),
        Some(Capability::NoNetworking)
    );
    assert!(conceptual.ensure_real_networking().is_err());
    let strict = DnsPolicy {
        resolution_location: ResolutionLocation::Remote,
        leak_detection: LeakDetection::Strict,
    };
    assert!(matches!(
        conceptual.resolve_dns_with_policy(&strict, "example.com"),
        Err(SessionError::Capability(_))
    ));
    assert_eq!(conceptual.process_request("example.com", &[1, 2, 3]).ok(), Some(vec![1, 2, 3]));
    let unarmed = TunnelSession::new(
        config.clone(),
        CapabilityPolicy {
            execution_mode: ExecutionMode::RealNetwork,
            allowed_capabilities: vec![Capability::NoNetworking],
        },
    );
    assert!(unarmed.ensure_real_networking().is_err());
    let real = TunnelSession::new(
        ProxyConfig { proxy_type: ProxyType::HttpsConnect, ..config },
        CapabilityPolicy {
            execution_mode: ExecutionMode::RealNetwork,
            allowed_capabilities: vec![Capability::NoNetworking, Capability::RealNetworking],
        },
    );
    assert!(matches!(real.transport, Transport::Tls(_)));
    assert!(real.ensure_real_networking().is_ok());
    let answer = real.resolve_dns_with_policy(&strict, "example.com").ok().unwrap();
    assert_eq!(answer.domain, "example.com");
    assert_eq!(answer.resolved_via, ResolverType::Remote);
    let local = DnsPolicy {
        resolution_location: ResolutionLocation::Local,
        leak_detection: LeakDetection::Disabled,
    };
    let answer = real.resolve_dns_with_policy(&local, "example.org").ok().unwrap();
    assert_eq!(answer.resolved_via, ResolverType::Local);
}

#[test]
fn ports_are_plain_decimal_numbers() {
    assert_eq!(parse_u16(b"0"), Some(0));
    assert_eq!(parse_u16(b"443"), Some(443));
    assert_eq!(parse_u16(b"+443"), Some(443));
    assert_eq!(parse_u16(b"00080"), Some(80));
    assert_eq!(parse_u16(b"65535"), Some(65535));
    assert_eq!(parse_u16(b"65536"), None);
    assert_eq!(parse_u16(b"99999999999999999999"), None);
    assert_eq!(parse_u16(b""), None);
    assert_eq!(parse_u16(b"+"), None);
    assert_eq!(parse_u16(b"-1"), None);
    assert_eq!(parse_u16(b"++1"), None);
    assert_eq!(parse_u16(b"4 43"), None);
    assert_eq!(parse_u16(b"44a"), None);
    assert_eq!(parse_u16(b" 443"), None);
    for (text, expected) in [("8080", Some(8080u16)), ("70000", None), ("+7", Some(7)), ("x", None)]
    {
        assert_eq!(parse_u16(text.as_bytes()), expected);
        assert_eq!(text.parse::<u16>().ok(), expected);
    }
}

#[test]
fn targets_split_at_their_last_colon() {
    assert_eq!(parse_host_port("example.com:8443", 443), ("example.com".to_string(), 8443));
    assert_eq!(parse_host_port("example.com", 443), ("example.com".to_string(), 443));
    assert_eq!(parse_host_port("example.com:", 80), ("example.com".to_string(), 80));
    assert_eq!(parse_host_port("example.com:http", 80), ("example.com".to_string(), 80));
    assert_eq!(parse_host_port("[::1]:22", 1), ("[::1]".to_string(), 22));
    assert_eq!(parse_host_port(":5", 1), (String::new(), 5));
    assert_eq!(parse_host_port("", 9), (String::new(), 9));
    assert_eq!(parse_host_port("b\u{fc}cher.example:70000", 7), ("b\u{fc}cher.example".to_string(), 7));
    assert_eq!(last_index_of(b"a:b:c", b':'), Some(3));
    assert_eq!(last_index_of(b"abc", b':'), None);
    assert_eq!(last_index_of(b"", b':'), None);
    assert_eq!(first_line("a b\r\nc"), "a b");
    assert_eq!(first_line("a b\nc\n"), "a b");
    assert_eq!(first_line("a b\r"), "a b\r");
    assert_eq!(first_line("\nx"), "");
    assert_eq!(first_line(""), "");
    assert_eq!(connect_target("CONNECT h.example:81 HTTP/1.1\r\n\r\n"), ("h.example".to_string(), 81));
    assert_eq!(connect_target("CONNECT\u{2003}h.example  HTTP/1.1"), ("h.example".to_string(), 443));
    assert_eq!(connect_target("CONNECT \r\nhost:1 x"), ("unknown".to_string(), 443));
    assert_eq!(connect_target(""), ("unknown".to_string(), 443));
}

#[test]
fn requests_are_classified() {
    assert_eq!(header_end(b"GET / HTTP/1.1\r\nHost: a\r\n\r\nbody\r\n\r\n"), Some(27));
    assert_eq!(header_end(b"\r\n\r\n"), Some(4));
    assert_eq!(header_end(b"GET / HTTP/1.1\r\nHost: a\r\n\r"), None);
    assert_eq!(header_end(b""), None);
    assert_eq!(
        classify_request("GET http://clients3.google.com/generate_204 HTTP/1.1\r\n\r\n"),
        RequestKind::ConnectivityCheck
    );
    assert_eq!(
        classify_request("GET / HTTP/1.1\r\nHost: detectportal.firefox.com\r\n\r\n"),
        RequestKind::PortalCheck
    );
    assert_eq!(classify_request("GET / HTTP/1.1\r\nHost: example.com\r\n\r\n"), RequestKind::NotAllowed);
    assert_eq!(
        classify_request("POST /clients3.google.com/generate_204 HTTP/1.1\r\n\r\n"),
        RequestKind::NotAllowed
    );
    assert_eq!(
        classify_request("CONNECT example.com:443 HTTP/1.1\r\nHost: detectportal.firefox.com\r\n\r\n"),
        RequestKind::Connect { host: "example.com".to_string(), port: 443 }
    );
    assert_eq!(classify_request("connect example.com:443 HTTP/1.1\r\n\r\n"), RequestKind::NotAllowed);
    assert_eq!(classify_request(""), RequestKind::NotAllowed);
    assert_eq!(status_text(ProxyStatus::NoContent), "HTTP/1.1 204 No Content\r\n\r\n");
    assert_eq!(status_text(ProxyStatus::Success), "HTTP/1.1 200 OK\r\n\r\n");
    assert_eq!(
        status_text(ProxyStatus::ConnectionEstablished),
        "HTTP/1.1 200 Connection Established\r\n\r\n"
    );
    assert_eq!(status_text(ProxyStatus::Forbidden), "HTTP/1.1 403 Forbidden\r\n\r\n");
    assert_eq!(status_text(ProxyStatus::MethodNotAllowed), "HTTP/1.1 405 Method Not Allowed\r\n\r\n");
}

#[test]
fn proxy_decisions_follow_the_policy() {
    let rules = vec![Rule::DomainSuffix {
        suffix: "blocked.example".to_string(),
        action: RuleAction::Block(ReasonCode::Tracking),
    }];
    let mut adapter = PolicyAdapter::new(ContentPolicyEngine::new(RuleSet::new(rules)), true);
    let blocked = "CONNECT a.blocked.example:443 HTTP/1.1\r\n\r\n";
    let fine = "CONNECT fine.example:8443 HTTP/1.1\r\n\r\n";
    assert_eq!(decide(blocked, &adapter), ProxyDecision::Reply(ProxyStatus::Forbidden));
    assert_eq!(
        decide(fine, &adapter),
        ProxyDecision::Tunnel { host: "fine.example".to_string(), port: 8443 }
    );
    assert_eq!(
        decide("GET http://x/ HTTP/1.1\r\n\r\n", &adapter),
        ProxyDecision::Reply(ProxyStatus::MethodNotAllowed)
    );
    assert_eq!(
        decide("GET http://detectportal.firefox.com/ HTTP/1.1\r\n\r\n", &adapter),
        ProxyDecision::Reply(ProxyStatus::Success)
    );
    assert_eq!(
        decide("GET http://clients3.google.com/generate_204 HTTP/1.1\r\n\r\n", &adapter),
        ProxyDecision::Reply(ProxyStatus::NoContent)
    );
    adapter.set_enabled(false);
    assert_eq!(
        decide(blocked, &adapter),
        ProxyDecision::Tunnel { host: "a.blocked.example".to_string(), port: 443 }
    );
}

struct Recorder {
    sent: Rc<RefCell<Vec<(char, Vec<u8>)>>>,
    path: char,
}

impl TransportAdapter for Recorder {
    fn send_bytes(&mut self, data: &[u8]) -> Result<(), TransportError> {
        if data == [0xFF] {
            return Err(TransportError::Timeout);
        }
        self.sent.borrow_mut().push((self.path, data.to_vec()));
        Ok(())
    }

    fn close_transport(&mut self) {}

    fn start_reading<C: TransportCallbacks>(&mut self, _callbacks: &mut C) {}
}

struct RecorderFactory {
    sent: Rc<RefCell<Vec<(char, Vec<u8>)>>>,
    refuse: Rc<RefCell<bool>>,
}

impl EpochTransportFactory<char, Recorder> for RecorderFactory {
    fn open_transport(&mut self, path: &char) -> Result<Recorder, TransportError> {
        if *self.refuse.borrow() {
            return Err(TransportError::ConnectionLost);
        }
        Ok(Recorder { sent: self.sent.clone(), path: *path })
    }
}

#[test]
fn earlier_pump_rotates_before_it_drains() {
    let sent = Rc::new(RefCell::new(Vec::new()));
    let refuse = Rc::new(RefCell::new(false));
    let delay = DelayQueue::with_rng(UniformDelay::new(10, 10).unwrap(), RandomSource::seeded(1));
    let epoch = PathEpoch::with_rng(
        vec!['A', 'B'],
        UniformEpochDuration::new(15, 15).unwrap(),
        RandomSource::seeded(2),
        0,
    )
    .unwrap();
    let first_path = *epoch.current_path();
    let factory = RecorderFactory { sent: sent.clone(), refuse: refuse.clone() };
    let mut pump = Phase9BindingPump::new(delay, epoch, factory);
    assert_eq!(pump.release(0).ready, 0);
    pump.refill(0, vec![vec![9]]);
    assert!(pump.start());
    pump.refill(0, vec![vec![1], vec![2]]);
    let report = pump.release(10);
    assert_eq!((report.ready, report.sent, report.rotated), (2, 2, false));
    assert!(sent.borrow().iter().all(|(p, _)| *p == first_path));
    pump.refill(10, vec![vec![3]]);
    let report = pump.release(20);
    assert_eq!((report.ready, report.sent, report.rotated), (1, 1, true));
    assert_ne!(sent.borrow()[2].0, first_path);
    pump.refill(20, vec![vec![0xFF], vec![4]]);
    *refuse.borrow_mut() = true;
    let report = pump.release(29);
    assert_eq!((report.ready, report.rotated, report.failure), (0, false, None));
    let report = pump.release(35);
    assert_eq!(report.failure, Some(PumpFailure::OpenFailed(TransportError::ConnectionLost)));
    assert_eq!((report.ready, report.sent, report.rotated), (0, 0, true));
    assert!(!pump.is_running());
    assert_eq!(sent.borrow().len(), 3);
    pump.stop();

    let delay = DelayQueue::with_rng(UniformDelay::new(10, 10).unwrap(), RandomSource::seeded(1));
    let epoch = PathEpoch::with_rng(
        vec!['A'],
        UniformEpochDuration::new(1_000, 1_000).unwrap(),
        RandomSource::seeded(2),
        0,
    )
    .unwrap();
    let factory = RecorderFactory { sent: sent.clone(), refuse: Rc::new(RefCell::new(false)) };
    let mut failing = Phase9BindingPump::new(delay, epoch, factory);
    assert!(failing.start());
    failing.refill(0, vec![vec![0xFF]]);
    let report = failing.release(10);
    assert_eq!(report.failure, Some(PumpFailure::SendFailed(TransportError::Timeout)));
    assert_eq!((report.ready, report.sent), (1, 0));
    assert!(!failing.is_running());
}

#[test]
fn plain_http_requests_are_rewritten_to_origin_form() {
    let request = "GET http://example.com:8080/a/b?c=d HTTP/1.0\r\nHost: example.com\r\n  Proxy-Connection : keep-alive\r\nUser-Agent: x\r\nbroken line\r\nTE: trailers\r\nX-Te: 1\r\n\r\nConnection: upgrade\r\n";
    assert_eq!(
        plan_http_forward(request),
        Ok(ForwardPlan {
            host: "example.com".to_string(),
            port: 8080,
            origin_request:
                b"GET /a/b?c=d HTTP/1.0\r\nHost: example.com\r\nUser-Agent: x\r\nX-Te: 1\r\nConnection: close\r\n\r\n"
                    .to_vec(),
        })
    );
    assert_eq!(
        plan_http_forward("HEAD http://example.com"),
        Ok(ForwardPlan {
            host: "example.com".to_string(),
            port: 80,
            origin_request: b"HEAD / HTTP/1.1\r\nConnection: close\r\n\r\n".to_vec(),
        })
    );
    assert_eq!(plan_http_forward("GET"), Err(HttpForwardError::BadRequest));
    assert_eq!(plan_http_forward(""), Err(HttpForwardError::BadRequest));
    assert_eq!(plan_http_forward("GET /local HTTP/1.1"), Err(HttpForwardError::NotAbsoluteUrl));
    assert_eq!(
        plan_http_forward("GET https://example.com/ HTTP/1.1"),
        Err(HttpForwardError::NotAbsoluteUrl)
    );
    for name in ["proxy-connection", "connection", "keep-alive", "te", "trailer", "transfer-encoding", "upgrade"] {
        assert!(is_hop_by_hop(name.as_bytes()));
    }
    assert!(!is_hop_by_hop(b"host") && !is_hop_by_hop(b"") && !is_hop_by_hop(b"Connection"));
}
