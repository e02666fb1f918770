//! What the proxy makes of a request: the decisions between reading the
//! request headers and answering them.

use vstd::prelude::*;
use vstd::string::StringSliceAdditionalSpecFns;
use vstd::utf8::{decode_utf8, encode_utf8};
use crate::content_policy::{spec_engine_decision, Decision};
use crate::frame::copy_range;
use crate::guard::{contains_token, find_token, spec_contains, spec_occurs_at};
use crate::proxy_policy::{policy_allows_connect, spec_connect_metadata, PolicyAdapter};
use crate::text::{
    index_of, lemma_index_of, lemma_split_at_ascii, spec_index_of, spec_name_bytes,
    spec_starts_with, spec_strip_cr, spec_trim_bytes, starts_with, string_of_utf8,
};

verus! {

/// The port of a CONNECT target that names none.
pub const DEFAULT_CONNECT_PORT: u16 = 443;

/// The bytes of the empty line that ends the headers: a carriage return and
/// a line feed, twice.
pub open spec fn spec_header_terminator() -> Seq<u8> {
    seq![13u8, 10u8, 13u8, 10u8]
}

/// The bytes of `GET `.
pub open spec fn spec_get_prefix() -> Seq<u8> {
    seq![71u8, 69u8, 84u8, 32u8]
}

/// The bytes of `CONNECT `.
pub open spec fn spec_connect_prefix() -> Seq<u8> {
    seq![67u8, 79u8, 78u8, 78u8, 69u8, 67u8, 84u8, 32u8]
}

/// The bytes of `unknown`.
pub open spec fn spec_unknown_host() -> Seq<u8> {
    seq![117u8, 110u8, 107u8, 110u8, 111u8, 119u8, 110u8]
}

/// The bytes of `clients3.google.com/generate_204`.
pub open spec fn spec_connectivity_probe() -> Seq<u8> {
    seq![
        99u8, 108u8, 105u8, 101u8, 110u8, 116u8, 115u8, 51u8, 46u8, 103u8, 111u8, 111u8, 103u8,
        108u8, 101u8, 46u8, 99u8, 111u8, 109u8, 47u8, 103u8, 101u8, 110u8, 101u8, 114u8, 97u8,
        116u8, 101u8, 95u8, 50u8, 48u8, 52u8,
    ]
}

/// The bytes of `detectportal.firefox.com`.
pub open spec fn spec_portal_probe() -> Seq<u8> {
    seq![
        100u8, 101u8, 116u8, 101u8, 99u8, 116u8, 112u8, 111u8, 114u8, 116u8, 97u8, 108u8, 46u8,
        102u8, 105u8, 114u8, 101u8, 102u8, 111u8, 120u8, 46u8, 99u8, 111u8, 109u8,
    ]
}

/// The answers of the proxy.
#[derive(Debug, Clone, Copy, PartialEq, Eq, Structural)]
pub enum ProxyStatus {
    /// `204 No Content`
    NoContent,
    /// `200 OK`
    Success,
    /// `200 Connection Established`
    ConnectionEstablished,
    /// `403 Forbidden`
    Forbidden,
    /// `405 Method Not Allowed`
    MethodNotAllowed,
}

/// What a request asks for.
#[derive(Debug, Clone, PartialEq, Eq)]
pub enum RequestKind {
    /// A connectivity check that expects `204 No Content`.
    ConnectivityCheck,
    /// A captive-portal check that expects `200 OK`.
    PortalCheck,
    /// A tunnel to `host` and `port`.
    Connect { host: String, port: u16 },
    /// Anything else.
    NotAllowed,
}

/// What the proxy does with a request.
#[derive(Debug, Clone, PartialEq, Eq)]
pub enum ProxyDecision {
    /// Answer and close.
    Reply(ProxyStatus),
    /// Answer `200 Connection Established` and tunnel to `host` and `port`.
    Tunnel { host: String, port: u16 },
}

/// The number a text of decimal digits stands for.
pub open spec fn spec_digits_value(d: Seq<u8>) -> nat
    decreases d.len(),
{
    if d.len() == 0 {
        0
    } else {
        spec_digits_value(d.drop_last()) * 10 + (d.last() - 48) as nat
    }
}

/// Whether every byte of a text is a decimal digit.
pub open spec fn spec_all_digits(d: Seq<u8>) -> bool {
    forall|i: int| 0 <= i < d.len() ==> 48 <= #[trigger] d[i] <= 57
}

/// The port that a text stands for: decimal digits, with a plus sign in
/// front at most, that give a number below 65536.
pub open spec fn spec_parse_u16(t: Seq<u8>) -> Option<u16> {
    let d = if t.len() > 0 && t[0] == 43u8 {
        t.skip(1)
    } else {
        t
    };
    if d.len() > 0 && spec_all_digits(d) && spec_digits_value(d) <= u16::MAX {
        Some(spec_digits_value(d) as u16)
    } else {
        None
    }
}

/// The last position of the byte `b` in `t`; -1 if `b` does not occur.
pub open spec fn spec_last_index_of(t: Seq<u8>, b: u8) -> int
    decreases t.len(),
{
    if t.len() == 0 {
        -1
    } else if t.last() == b {
        t.len() - 1
    } else {
        spec_last_index_of(t.drop_last(), b)
    }
}

/// A target split into host and port at its last colon. A target without
/// colon is all host; a port that is not a number below 65536 counts as the
/// default.
pub open spec fn spec_parse_host_port(target: Seq<u8>, default_port: u16) -> (Seq<u8>, u16) {
    let at = spec_last_index_of(target, 58u8);
    if at < 0 {
        (target, default_port)
    } else {
        (
            target.take(at),
            match spec_parse_u16(target.skip(at + 1)) {
                Some(port) => port,
                None => default_port,
            },
        )
    }
}

/// The first line of a text.
pub open spec fn spec_first_line(t: Seq<u8>) -> Seq<u8> {
    let at = spec_index_of(t, 10u8);
    if at < t.len() {
        spec_strip_cr(t.take(at))
    } else {
        t
    }
}

/// What `str::split_whitespace` of the standard library makes of a string:
/// its pieces between white space, in the sense of Unicode.
pub uninterp spec fn spec_split_whitespace(s: Seq<char>) -> Seq<Seq<char>>;

/// `str::split_whitespace` of the standard library, with each piece copied
/// into a `String`: the pieces come in the order in which they stand in
/// `s`. They depend on the characters of `s` alone and are known by their
/// name only.
#[verifier::external_body]
fn str_split_whitespace(s: &str) -> (parts: Vec<String>)
    ensures
        parts@.len() == spec_split_whitespace(s@).len(),
        forall|i: int| 0 <= i < parts@.len() ==> (#[trigger] parts@[i])@ == spec_split_whitespace(
            s@,
        )[i],
{
    s.split_whitespace().map(|part| part.to_string()).collect()
}

/// The target of a CONNECT request: host and port of the second word of its
/// first line; `unknown` and the default port if the line has no second
/// word.
pub open spec fn spec_connect_target(request: Seq<u8>) -> (Seq<u8>, u16) {
    let words = spec_split_whitespace(decode_utf8(spec_first_line(request)));
    if words.len() >= 2 {
        spec_parse_host_port(encode_utf8(words[1]), DEFAULT_CONNECT_PORT)
    } else {
        (spec_unknown_host(), DEFAULT_CONNECT_PORT)
    }
}

/// What a request asks for, as a mathematical value.
pub enum RequestKindView {
    ConnectivityCheck,
    PortalCheck,
    Connect { host: Seq<u8>, port: u16 },
    NotAllowed,
}

impl View for RequestKind {
    type V = RequestKindView;

    open spec fn view(&self) -> RequestKindView {
        match *self {
            RequestKind::ConnectivityCheck => RequestKindView::ConnectivityCheck,
            RequestKind::PortalCheck => RequestKindView::PortalCheck,
            RequestKind::Connect { host, port } => RequestKindView::Connect {
                host: encode_utf8(host@),
                port,
            },
            RequestKind::NotAllowed => RequestKindView::NotAllowed,
        }
    }
}

/// What a request asks for: the two probes are `GET` requests that name
/// their host; a request that begins with `CONNECT ` asks for a tunnel;
/// nothing else is allowed.
pub open spec fn spec_classify(request: Seq<u8>) -> RequestKindView {
    if spec_starts_with(request, spec_get_prefix()) && spec_contains(
        request,
        spec_connectivity_probe(),
    ) {
        RequestKindView::ConnectivityCheck
    } else if spec_starts_with(request, spec_get_prefix()) && spec_contains(
        request,
        spec_portal_probe(),
    ) {
        RequestKindView::PortalCheck
    } else if spec_starts_with(request, spec_connect_prefix()) {
        RequestKindView::Connect {
            host: spec_connect_target(request).0,
            port: spec_connect_target(request).1,
        }
    } else {
        RequestKindView::NotAllowed
    }
}

/// The position behind the empty line that ends the headers, once that line
/// has arrived.
pub fn header_end(buffer: &[u8]) -> (end: Option<usize>)
    ensures
        end is Some <==> spec_contains(buffer@, spec_header_terminator()),
        end is Some ==> 4 <= end->Some_0 <= buffer@.len() && spec_occurs_at(
            buffer@,
            spec_header_terminator(),
            end->Some_0 - 4,
        ) && forall|i: int|
            0 <= i < end->Some_0 - 4 ==> !spec_occurs_at(buffer@, spec_header_terminator(), i),
{
    let terminator: Vec<u8> = vec![13u8, 10u8, 13u8, 10u8];
    proof {
        assert(terminator@ =~= spec_header_terminator());
    }
    let n: usize = buffer.len();
    match find_token(buffer, terminator.as_slice()) {
        Some(at) => Some(at + 4),
        None => None,
    }
}

/// The port that a text stands for.
pub fn parse_u16(t: &[u8]) -> (port: Option<u16>)
    ensures
        port == spec_parse_u16(t@),
{
    let n: usize = t.len();
    let start: usize = if n > 0 && t[0] == 43 {
        1
    } else {
        0
    };
    let ghost d = t@.skip(start as int);
    proof {
        assert(t@.skip(0) =~= t@);
    }
    if start == n {
        return None;
    }
    let mut value: u32 = 0;
    let mut i: usize = start;
    proof {
        assert(d.take(0) =~= Seq::<u8>::empty());
    }
    while i < n
        invariant
            start <= i <= n,
            n == t@.len(),
            d == t@.skip(start as int),
            d == (if t@.len() > 0 && t@[0] == 43u8 {
                t@.skip(1)
            } else {
                t@
            }),
            spec_all_digits(d.take(i - start)),
            value == spec_digits_value(d.take(i - start)),
            value <= u16::MAX,
        decreases n - i,
    {
        let b: u8 = t[i];
        let ghost upto = d.take(i - start + 1);
        proof {
            assert(upto.drop_last() =~= d.take(i - start));
            assert(upto.last() == b);
        }
        if b < 48 || b > 57 {
            proof {
                assert(d[i - start] == b);
                assert(!spec_all_digits(d));
            }
            return None;
        }
        let next: u32 = value * 10 + (b - 48) as u32;
        proof {
            assert forall|j: int| 0 <= j < upto.len() implies 48 <= #[trigger] upto[j] <= 57 by {
                if j < upto.len() - 1 {
                    assert(upto[j] == d.take(i - start)[j]);
                }
            }
            assert(spec_digits_value(upto) == next);
        }
        if next > 65535 {
            proof {
                lemma_digits_value_grows(d, i - start + 1);
            }
            return None;
        }
        value = next;
        i += 1;
    }
    proof {
        assert(d.take(n - start) =~= d);
    }
    Some(value as u16)
}

/// The number a text of digits stands for is at least the number its front
/// stands for.
pub proof fn lemma_digits_value_grows(d: Seq<u8>, k: int)
    requires
        0 <= k <= d.len(),
        spec_all_digits(d.take(k)),
    ensures
        spec_all_digits(d) ==> spec_digits_value(d) >= spec_digits_value(d.take(k)),
    decreases d.len() - k,
{
    if k < d.len() && spec_all_digits(d) {
        let next = d.take(k + 1);
        assert(next.drop_last() =~= d.take(k));
        assert(next.last() == d[k]);
        assert(spec_all_digits(next));
        lemma_digits_value_grows(d, k + 1);
    } else if k == d.len() {
        assert(d.take(k) =~= d);
    }
}

/// The last position of the byte `b` in `t`, if it occurs.
pub fn last_index_of(t: &[u8], b: u8) -> (at: Option<usize>)
    ensures
        at is Some <==> spec_last_index_of(t@, b) >= 0,
        at is Some ==> at->Some_0 == spec_last_index_of(t@, b) && at->Some_0 < t@.len()
            && t@[at->Some_0 as int] == b,
{
    let mut i: usize = t.len();
    proof {
        assert(t@.take(i as int) =~= t@);
    }
    while i > 0
        invariant
            0 <= i <= t@.len(),
            spec_last_index_of(t@, b) == spec_last_index_of(t@.take(i as int), b),
        decreases i,
    {
        let ghost upto = t@.take(i as int);
        i -= 1;
        proof {
            assert(upto.drop_last() =~= t@.take(i as int));
            assert(upto.last() == t@[i as int]);
        }
        if t[i] == b {
            return Some(i);
        }
    }
    None
}

/// A target split into host and port at its last colon.
pub fn parse_host_port(target: &str, default_port: u16) -> (r: (String, u16))
    ensures
        (encode_utf8(r.0@), r.1) == spec_parse_host_port(target.spec_bytes(), default_port),
{
    broadcast use vstd::utf8::encode_utf8_valid_utf8, vstd::utf8::decode_utf8_encode_utf8;

    let bytes = target.as_bytes();
    let n: usize = bytes.len();
    match last_index_of(bytes, 58) {
        None => (target.to_owned(), default_port),
        Some(at) => {
            let host_bytes = copy_range(bytes, 0, at);
            proof {
                lemma_split_at_ascii(bytes@, at as int);
                assert(host_bytes@ =~= bytes@.take(at as int));
            }
            let host = string_of_utf8(host_bytes);
            let port = match parse_u16(crate::stream::tail_of(bytes, at + 1)) {
                Some(p) => p,
                None => default_port,
            };
            (host, port)
        },
    }
}

/// The first line of a text.
pub fn first_line(request: &str) -> (line: String)
    ensures
        encode_utf8(line@) == spec_first_line(request.spec_bytes()),
{
    broadcast use vstd::utf8::encode_utf8_valid_utf8, vstd::utf8::decode_utf8_encode_utf8;

    let bytes = request.as_bytes();
    let n: usize = bytes.len();
    let at: usize = index_of(bytes, 0, 10);
    proof {
        assert(bytes@.skip(0) =~= bytes@);
        lemma_index_of(bytes@, 10u8);
    }
    if at >= n {
        return request.to_owned();
    }
    let mut end: usize = at;
    proof {
        lemma_split_at_ascii(bytes@, at as int);
    }
    if at > 0 && bytes[at - 1] == 13 {
        end = at - 1;
        proof {
            lemma_split_at_ascii(bytes@.take(at as int), at - 1);
            assert(bytes@.take(at as int).take(at - 1) =~= bytes@.take(at - 1));
        }
    }
    let line_bytes = copy_range(bytes, 0, end);
    proof {
        assert(line_bytes@ =~= spec_strip_cr(bytes@.take(at as int)));
        assert(line_bytes@ =~= bytes@.take(end as int));
    }
    string_of_utf8(line_bytes)
}

/// The target of a CONNECT request.
pub fn connect_target(request: &str) -> (r: (String, u16))
    ensures
        (encode_utf8(r.0@), r.1) == spec_connect_target(request.spec_bytes()),
{
    broadcast use vstd::utf8::encode_utf8_decode_utf8;

    let line = first_line(request);
    let words = str_split_whitespace(line.as_str());
    if words.len() >= 2 {
        parse_host_port(words[1].as_str(), DEFAULT_CONNECT_PORT)
    } else {
        let unknown = "unknown".to_string();
        proof {
            reveal_strlit("unknown");
            assert(vstd::utf8::is_ascii_chars("unknown"@));
            vstd::utf8::is_ascii_chars_encode_utf8("unknown"@);
            assert(encode_utf8(unknown@) =~= spec_unknown_host());
        }
        (unknown, DEFAULT_CONNECT_PORT)
    }
}

/// What a request asks for.
pub fn classify_request(request: &str) -> (kind: RequestKind)
    ensures
        kind@ == spec_classify(request.spec_bytes()),
{
    let bytes = request.as_bytes();
    let get: Vec<u8> = vec![71u8, 69u8, 84u8, 32u8];
    let connect: Vec<u8> = vec![67u8, 79u8, 78u8, 78u8, 69u8, 67u8, 84u8, 32u8];
    let connectivity: Vec<u8> = vec![
        99u8, 108u8, 105u8, 101u8, 110u8, 116u8, 115u8, 51u8, 46u8, 103u8, 111u8, 111u8, 103u8,
        108u8, 101u8, 46u8, 99u8, 111u8, 109u8, 47u8, 103u8, 101u8, 110u8, 101u8, 114u8, 97u8,
        116u8, 101u8, 95u8, 50u8, 48u8, 52u8,
    ];
    let portal: Vec<u8> = vec![
        100u8, 101u8, 116u8, 101u8, 99u8, 116u8, 112u8, 111u8, 114u8, 116u8, 97u8, 108u8, 46u8,
        102u8, 105u8, 114u8, 101u8, 102u8, 111u8, 120u8, 46u8, 99u8, 111u8, 109u8,
    ];
    proof {
        assert(get@ =~= spec_get_prefix());
        assert(connect@ =~= spec_connect_prefix());
        assert(connectivity@ =~= spec_connectivity_probe());
        assert(portal@ =~= spec_portal_probe());
    }
    if starts_with(bytes, get.as_slice()) {
        if contains_token(bytes, connectivity.as_slice()) {
            return RequestKind::ConnectivityCheck;
        }
        if contains_token(bytes, portal.as_slice()) {
            return RequestKind::PortalCheck;
        }
    }
    if starts_with(bytes, connect.as_slice()) {
        let (host, port) = connect_target(request);
        return RequestKind::Connect { host, port };
    }
    RequestKind::NotAllowed
}

/// The status line of an answer, with the empty line behind it.
pub fn status_text(status: ProxyStatus) -> (text: &'static str)
    ensures
        text@ == (match status {
            ProxyStatus::NoContent => "HTTP/1.1 204 No Content\r\n\r\n"@,
            ProxyStatus::Success => "HTTP/1.1 200 OK\r\n\r\n"@,
            ProxyStatus::ConnectionEstablished => "HTTP/1.1 200 Connection Established\r\n\r\n"@,
            ProxyStatus::Forbidden => "HTTP/1.1 403 Forbidden\r\n\r\n"@,
            ProxyStatus::MethodNotAllowed => "HTTP/1.1 405 Method Not Allowed\r\n\r\n"@,
        }),
{
    match status {
        ProxyStatus::NoContent => "HTTP/1.1 204 No Content\r\n\r\n",
        ProxyStatus::Success => "HTTP/1.1 200 OK\r\n\r\n",
        ProxyStatus::ConnectionEstablished => "HTTP/1.1 200 Connection Established\r\n\r\n",
        ProxyStatus::Forbidden => "HTTP/1.1 403 Forbidden\r\n\r\n",
        ProxyStatus::MethodNotAllowed => "HTTP/1.1 405 Method Not Allowed\r\n\r\n",
    }
}

/// What the proxy does with a request, as a mathematical value.
pub enum ProxyDecisionView {
    Reply(ProxyStatus),
    Tunnel { host: Seq<u8>, port: u16 },
}

impl View for ProxyDecision {
    type V = ProxyDecisionView;

    open spec fn view(&self) -> ProxyDecisionView {
        match *self {
            ProxyDecision::Reply(status) => ProxyDecisionView::Reply(status),
            ProxyDecision::Tunnel { host, port } => ProxyDecisionView::Tunnel {
                host: encode_utf8(host@),
                port,
            },
        }
    }
}

/// What the proxy does with a request under a policy: the probes are
/// answered; a CONNECT request is tunnelled if the policy allows it and
/// forbidden if not; anything else is not allowed.
pub open spec fn spec_decide(request: Seq<u8>, enabled: bool, rules: Seq<
    crate::content_policy::RuleView,
>) -> ProxyDecisionView {
    match spec_classify(request) {
        RequestKindView::ConnectivityCheck => ProxyDecisionView::Reply(ProxyStatus::NoContent),
        RequestKindView::PortalCheck => ProxyDecisionView::Reply(ProxyStatus::Success),
        RequestKindView::Connect { host, port } => {
            if !enabled || spec_engine_decision(rules, spec_connect_metadata(request, host, port))
                == Decision::Allow {
                ProxyDecisionView::Tunnel { host, port }
            } else {
                ProxyDecisionView::Reply(ProxyStatus::Forbidden)
            }
        },
        RequestKindView::NotAllowed => ProxyDecisionView::Reply(ProxyStatus::MethodNotAllowed),
    }
}

/// What the proxy does with a request under the policy of `policy_adapter`.
pub fn decide(request: &str, policy_adapter: &PolicyAdapter) -> (decision: ProxyDecision)
    ensures
        decision@ == spec_decide(
            request.spec_bytes(),
            policy_adapter.spec_enabled(),
            policy_adapter.spec_rules(),
        ),
{
    match classify_request(request) {
        RequestKind::ConnectivityCheck => ProxyDecision::Reply(ProxyStatus::NoContent),
        RequestKind::PortalCheck => ProxyDecision::Reply(ProxyStatus::Success),
        RequestKind::Connect { host, port } => {
            if policy_allows_connect(policy_adapter, request, host.as_str(), port) {
                ProxyDecision::Tunnel { host, port }
            } else {
                ProxyDecision::Reply(ProxyStatus::Forbidden)
            }
        },
        RequestKind::NotAllowed => ProxyDecision::Reply(ProxyStatus::MethodNotAllowed),
    }
}

/// The port of an HTTP target that names none.
pub const DEFAULT_HTTP_PORT: u16 = 80;

/// Why a request cannot be forwarded as plain HTTP.
#[derive(Debug, Clone, Copy, PartialEq, Eq, Structural)]
pub enum HttpForwardError {
    /// The request line has fewer than two words.
    BadRequest,
    /// The target is not an absolute `http://` URL.
    NotAbsoluteUrl,
}

/// How a request is forwarded as plain HTTP: where to, and the request in
/// origin form.
#[derive(Debug, Clone, PartialEq, Eq)]
pub struct ForwardPlan {
    pub host: String,
    pub port: u16,
    pub origin_request: Vec<u8>,
}

/// The bytes of `http://`.
pub open spec fn spec_http_scheme() -> Seq<u8> {
    seq![104u8, 116u8, 116u8, 112u8, 58u8, 47u8, 47u8]
}

/// The bytes of `HTTP/1.1`.
pub open spec fn spec_default_version() -> Seq<u8> {
    seq![72u8, 84u8, 84u8, 80u8, 47u8, 49u8, 46u8, 49u8]
}

/// The bytes of `Connection: close`, a line end, and the empty line that
/// ends the headers.
pub open spec fn spec_close_trailer() -> Seq<u8> {
    seq![
        67u8, 111u8, 110u8, 110u8, 101u8, 99u8, 116u8, 105u8, 111u8, 110u8, 58u8, 32u8, 99u8,
        108u8, 111u8, 115u8, 101u8, 13u8, 10u8, 13u8, 10u8,
    ]
}

/// The names, in lower case, of the headers that concern one hop only.
pub open spec fn spec_hop_by_hop_names() -> Seq<Seq<u8>> {
    seq![
        seq![
            112u8, 114u8, 111u8, 120u8, 121u8, 45u8, 99u8, 111u8, 110u8, 110u8, 101u8, 99u8, 116u8,
            105u8, 111u8, 110u8,
        ],
        seq![99u8, 111u8, 110u8, 110u8, 101u8, 99u8, 116u8, 105u8, 111u8, 110u8],
        seq![107u8, 101u8, 101u8, 112u8, 45u8, 97u8, 108u8, 105u8, 118u8, 101u8],
        seq![116u8, 101u8],
        seq![116u8, 114u8, 97u8, 105u8, 108u8, 101u8, 114u8],
        seq![
            116u8, 114u8, 97u8, 110u8, 115u8, 102u8, 101u8, 114u8, 45u8, 101u8, 110u8, 99u8, 111u8,
            100u8, 105u8, 110u8, 103u8,
        ],
        seq![117u8, 112u8, 103u8, 114u8, 97u8, 100u8, 101u8],
    ]
}

/// Whether a header name, in lower case, is one of those that concern one
/// hop only.
pub open spec fn spec_is_hop_by_hop(name: Seq<u8>) -> bool {
    exists|k: int| 0 <= k < spec_hop_by_hop_names().len() && #[trigger] spec_hop_by_hop_names()[k]
        == name
}

/// What a header line, already without the white space at its ends, adds to
/// the forwarded headers: the line with a line end, unless it has no colon
/// or its name concerns one hop only.
pub open spec fn spec_forwarded_header(line: Seq<u8>) -> Seq<u8> {
    let at = spec_index_of(line, 58u8);
    if at < line.len() && !spec_is_hop_by_hop(spec_name_bytes(line.take(at))) {
        line + seq![13u8, 10u8]
    } else {
        Seq::<u8>::empty()
    }
}

/// The forwarded headers of the lines from index `from` on, up to the first
/// line that is empty once the white space at its ends is gone.
pub open spec fn spec_forwarded_headers(all: Seq<Seq<u8>>, from: int) -> Seq<u8>
    decreases all.len() - from,
{
    if from < 0 || from >= all.len() {
        Seq::<u8>::empty()
    } else {
        let line = spec_trim_bytes(all[from]);
        if line.len() == 0 {
            Seq::<u8>::empty()
        } else {
            spec_forwarded_header(line) + spec_forwarded_headers(all, from + 1)
        }
    }
}

/// The target of an absolute `http://` URL: host, port and path. A URL
/// without a slash behind the scheme has the path `/`.
pub open spec fn spec_http_target(url: Seq<u8>) -> (Seq<u8>, u16, Seq<u8>) {
    let rest = url.skip(7);
    let slash = spec_index_of(rest, 47u8);
    if slash < rest.len() {
        (
            spec_parse_host_port(rest.take(slash), DEFAULT_HTTP_PORT).0,
            spec_parse_host_port(rest.take(slash), DEFAULT_HTTP_PORT).1,
            rest.skip(slash),
        )
    } else {
        (
            spec_parse_host_port(rest, DEFAULT_HTTP_PORT).0,
            spec_parse_host_port(rest, DEFAULT_HTTP_PORT).1,
            seq![47u8],
        )
    }
}

/// How a request is forwarded, as a mathematical value.
pub struct ForwardPlanView {
    pub host: Seq<u8>,
    pub port: u16,
    pub origin_request: Seq<u8>,
}

/// How a request is forwarded as plain HTTP.
///
/// The request line must have a method and an absolute `http://` URL. The
/// request in origin form is the method, the path and the version, then the
/// headers that do not concern one hop only, then `Connection: close`.
pub open spec fn spec_plan_http_forward(request: Seq<u8>) -> Result<
    ForwardPlanView,
    HttpForwardError,
> {
    let words = spec_split_whitespace(decode_utf8(spec_first_line(request)));
    if words.len() < 2 {
        Err(HttpForwardError::BadRequest)
    } else if !spec_starts_with(encode_utf8(words[1]), spec_http_scheme()) {
        Err(HttpForwardError::NotAbsoluteUrl)
    } else {
        let target = spec_http_target(encode_utf8(words[1]));
        let version = if words.len() >= 3 {
            encode_utf8(words[2])
        } else {
            spec_default_version()
        };
        Ok(
            ForwardPlanView {
                host: target.0,
                port: target.1,
                origin_request: encode_utf8(words[0]) + seq![32u8] + target.2 + seq![32u8]
                    + version + seq![13u8, 10u8] + spec_forwarded_headers(
                    crate::text::spec_lines(request),
                    1,
                ) + spec_close_trailer(),
            },
        )
    }
}

/// Whether a header name, in lower case, is one of those that concern one
/// hop only.
pub fn is_hop_by_hop(name: &[u8]) -> (r: bool)
    ensures
        r == spec_is_hop_by_hop(name@),
{
    let names: Vec<Vec<u8>> = vec![
        vec![
            112u8, 114u8, 111u8, 120u8, 121u8, 45u8, 99u8, 111u8, 110u8, 110u8, 101u8, 99u8, 116u8,
            105u8, 111u8, 110u8,
        ],
        vec![99u8, 111u8, 110u8, 110u8, 101u8, 99u8, 116u8, 105u8, 111u8, 110u8],
        vec![107u8, 101u8, 101u8, 112u8, 45u8, 97u8, 108u8, 105u8, 118u8, 101u8],
        vec![116u8, 101u8],
        vec![116u8, 114u8, 97u8, 105u8, 108u8, 101u8, 114u8],
        vec![
            116u8, 114u8, 97u8, 110u8, 115u8, 102u8, 101u8, 114u8, 45u8, 101u8, 110u8, 99u8, 111u8,
            100u8, 105u8, 110u8, 103u8,
        ],
        vec![117u8, 112u8, 103u8, 114u8, 97u8, 100u8, 101u8],
    ];
    proof {
        assert forall|k: int| 0 <= k < 7 implies (#[trigger] names@[k])@
            == spec_hop_by_hop_names()[k] by {
            assert(names@[k]@ =~= spec_hop_by_hop_names()[k]);
        }
    }
    let mut k: usize = 0;
    while k < names.len()
        invariant
            0 <= k <= names@.len(),
            names@.len() == 7,
            spec_hop_by_hop_names().len() == 7,
            forall|j: int| 0 <= j < 7 ==> (#[trigger] names@[j])@ == spec_hop_by_hop_names()[j],
            forall|j: int| 0 <= j < k ==> #[trigger] spec_hop_by_hop_names()[j] != name@,
        decreases names@.len() - k,
    {
        if crate::text::bytes_eq(names[k].as_slice(), name) {
            proof {
                assert(spec_hop_by_hop_names()[k as int] == name@);
            }
            return true;
        }
        k += 1;
    }
    false
}

/// What a header line, already without the white space at its ends, adds to
/// the forwarded headers.
fn forwarded_header(line: &str, out: &mut Vec<u8>)
    ensures
        final(out)@ == old(out)@ + spec_forwarded_header(line.spec_bytes()),
{
    broadcast use vstd::utf8::encode_utf8_valid_utf8;

    let bytes = line.as_bytes();
    let n: usize = bytes.len();
    let at: usize = index_of(bytes, 0, 58);
    proof {
        assert(bytes@.skip(0) =~= bytes@);
        lemma_index_of(bytes@, 58u8);
    }
    if at >= n {
        proof {
            assert(out@ + Seq::<u8>::empty() =~= out@);
        }
        return ;
    }
    let name_bytes = copy_range(bytes, 0, at);
    proof {
        lemma_split_at_ascii(bytes@, at as int);
        assert(name_bytes@ =~= bytes@.take(at as int));
    }
    let name_text = string_of_utf8(name_bytes);
    let name = crate::text::str_to_lowercase(crate::text::str_trim(name_text.as_str()).as_str());
    if is_hop_by_hop(name.as_str().as_bytes()) {
        proof {
            assert(out@ + Seq::<u8>::empty() =~= out@);
        }
        return ;
    }
    out.extend_from_slice(bytes);
    out.push(13);
    out.push(10);
    proof {
        assert(out@ =~= old(out)@ + (bytes@ + seq![13u8, 10u8]));
    }
}

/// How a request is forwarded as plain HTTP.
pub fn plan_http_forward(request: &str) -> (r: Result<ForwardPlan, HttpForwardError>)
    ensures
        match r {
            Ok(plan) => spec_plan_http_forward(request.spec_bytes()) == Ok::<
                ForwardPlanView,
                HttpForwardError,
            >(
                ForwardPlanView {
                    host: encode_utf8(plan.host@),
                    port: plan.port,
                    origin_request: plan.origin_request@,
                },
            ),
            Err(e) => spec_plan_http_forward(request.spec_bytes()) == Err::<
                ForwardPlanView,
                HttpForwardError,
            >(e),
        },
{
    broadcast use
        vstd::utf8::encode_utf8_valid_utf8,
        vstd::utf8::encode_utf8_decode_utf8,
        vstd::utf8::decode_utf8_encode_utf8,
    ;

    let line = first_line(request);
    let words = str_split_whitespace(line.as_str());
    if words.len() < 2 {
        return Err(HttpForwardError::BadRequest);
    }
    let url = words[1].as_str().as_bytes();
    let url_len: usize = url.len();
    let scheme: Vec<u8> = vec![104u8, 116u8, 116u8, 112u8, 58u8, 47u8, 47u8];
    proof {
        assert(scheme@ =~= spec_http_scheme());
    }
    if !starts_with(url, scheme.as_slice()) {
        return Err(HttpForwardError::NotAbsoluteUrl);
    }
    let ghost rest = url@.skip(7);
    let slash: usize = index_of(url, 7, 47);
    proof {
        lemma_index_of(rest, 47u8);
        lemma_split_at_ascii(url@, 6);
        assert(vstd::utf8::valid_utf8(rest)) by {
            assert(url@.skip(6int + 1) =~= rest);
        }
    }
    let mut origin: Vec<u8> = Vec::new();
    origin.extend_from_slice(words[0].as_str().as_bytes());
    origin.push(32);
    let (host, port) = if 7 + slash < url_len {
        let host_bytes = copy_range(url, 7, 7 + slash);
        proof {
            assert(host_bytes@ =~= rest.take(slash as int));
            assert(rest[slash as int] == 47u8);
            lemma_split_at_ascii(rest, slash as int);
            assert(url@.subrange(7 + slash, url_len as int) =~= rest.skip(slash as int));
        }
        let host_part = string_of_utf8(host_bytes);
        let path = copy_range(url, 7 + slash, url_len);
        origin.extend_from_slice(path.as_slice());
        parse_host_port(host_part.as_str(), DEFAULT_HTTP_PORT)
    } else {
        let host_bytes = copy_range(url, 7, url_len);
        proof {
            assert(host_bytes@ =~= rest);
        }
        let host_part = string_of_utf8(host_bytes);
        origin.push(47);
        parse_host_port(host_part.as_str(), DEFAULT_HTTP_PORT)
    };
    origin.push(32);
    let ghost version = if words@.len() >= 3 {
        encode_utf8(words@[2]@)
    } else {
        spec_default_version()
    };
    if words.len() >= 3 {
        origin.extend_from_slice(words[2].as_str().as_bytes());
    } else {
        let default_version: Vec<u8> = vec![72u8, 84u8, 84u8, 80u8, 47u8, 49u8, 46u8, 49u8];
        proof {
            assert(default_version@ =~= spec_default_version());
        }
        origin.extend_from_slice(default_version.as_slice());
    }
    origin.push(13);
    origin.push(10);
    let ghost target = spec_http_target(url@);
    let ghost request_line = encode_utf8(words@[0]@) + seq![32u8] + target.2 + seq![32u8] + version
        + seq![13u8, 10u8];
    proof {
        assert(origin@ =~= request_line);
    }
    let all = crate::text::lines(request.as_bytes());
    let ghost all_lines = crate::text::spec_lines(request.spec_bytes());
    proof {
        crate::text::lemma_lines_valid(request.spec_bytes());
        assert(origin@ + spec_forwarded_headers(all_lines, 1) =~= request_line
            + spec_forwarded_headers(all_lines, 1));
    }
    let mut i: usize = 1;
    while i < all.len()
        invariant
            1 <= i,
            crate::text::spec_byte_strings(all@) == all_lines,
            forall|k: int| 0 <= k < all_lines.len() ==> vstd::utf8::valid_utf8(#[trigger] all_lines[k]),
            request_line + spec_forwarded_headers(all_lines, 1) == origin@
                + spec_forwarded_headers(all_lines, i as int),
        ensures
            request_line + spec_forwarded_headers(all_lines, 1) == origin@,
        decreases all@.len() - i,
    {
        proof {
            assert(all_lines[i as int] == all@[i as int]@);
        }
        let piece = copy_range(all[i].as_slice(), 0, all[i].len());
        proof {
            assert(piece@ =~= all@[i as int]@);
        }
        let text = string_of_utf8(piece);
        let trimmed = crate::text::str_trim(text.as_str());
        if trimmed.as_str().as_bytes().len() == 0 {
            proof {
                assert(origin@ + Seq::<u8>::empty() =~= origin@);
            }
            break ;
        }
        let ghost before = origin@;
        forwarded_header(trimmed.as_str(), &mut origin);
        proof {
            let line_bytes = spec_trim_bytes(all_lines[i as int]);
            assert(before + (spec_forwarded_header(line_bytes) + spec_forwarded_headers(
                all_lines,
                i + 1,
            )) =~= origin@ + spec_forwarded_headers(all_lines, i + 1));
        }
        i += 1;
    }
    proof {
        if i >= all@.len() {
            assert(origin@ + Seq::<u8>::empty() =~= origin@);
        }
    }
    let trailer: Vec<u8> = vec![
        67u8, 111u8, 110u8, 110u8, 101u8, 99u8, 116u8, 105u8, 111u8, 110u8, 58u8, 32u8, 99u8,
        108u8, 111u8, 115u8, 101u8, 13u8, 10u8, 13u8, 10u8,
    ];
    proof {
        assert(trailer@ =~= spec_close_trailer());
    }
    origin.extend_from_slice(trailer.as_slice());
    proof {
        assert(origin@ =~= request_line + spec_forwarded_headers(all_lines, 1)
            + spec_close_trailer());
    }
    Ok(ForwardPlan { host, port, origin_request: origin })
}

} // verus!
