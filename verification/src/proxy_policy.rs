//! The policy check of the proxy edge: whether a CONNECT request may go
//! ahead.

use vstd::prelude::*;
use vstd::string::StringSliceAdditionalSpecFns;
use vstd::utf8::{encode_utf8, valid_utf8};
use crate::content_policy::{
    spec_engine_decision, spec_headers, ContentPolicyEngine, Decision, RequestMetadata,
    RequestView, RuleView,
};
use crate::frame::copy_range;
use crate::text::{
    index_of, lemma_ascii_is_utf8, lemma_decimal_is_ascii, lemma_index_of, lemma_lines_valid,
    lemma_split_at_ascii, lines, push_decimal, spec_byte_strings, spec_decimal, spec_index_of,
    spec_lines, spec_name_bytes, spec_trim_bytes, str_to_lowercase, str_trim, string_from_utf8,
    string_of_utf8,
};

verus! {

/// The bytes of `CONNECT`.
pub open spec fn spec_connect_method() -> Seq<u8> {
    seq![67u8, 79u8, 78u8, 78u8, 69u8, 67u8, 84u8]
}

/// The bytes of `https://`.
pub open spec fn spec_https_scheme() -> Seq<u8> {
    seq![104u8, 116u8, 116u8, 112u8, 115u8, 58u8, 47u8, 47u8]
}

/// The URL of a CONNECT target: `https://`, the host, a colon and the port
/// in decimal.
pub open spec fn spec_connect_url(host: Seq<u8>, port: u16) -> Seq<u8> {
    spec_https_scheme() + host + seq![58u8] + spec_decimal(port as nat)
}

/// What a header line, already without the white space at its ends, adds to
/// the headers: the name in front of the first colon, in lower case, with
/// the value behind it, both without the white space at their ends; nothing
/// for a line without a colon.
pub open spec fn spec_header_of_line(line: Seq<u8>) -> Option<(Seq<u8>, Seq<u8>)> {
    let at = spec_index_of(line, 58u8);
    if 0 <= at < line.len() {
        Some((spec_name_bytes(line.take(at)), spec_trim_bytes(line.skip(at + 1))))
    } else {
        None
    }
}

/// The headers of the lines from index `from` on: the header lines up to the
/// first line that is empty once the white space at its ends is gone.
pub open spec fn spec_headers_from(all: Seq<Seq<u8>>, from: int) -> Seq<(Seq<u8>, Seq<u8>)>
    decreases all.len() - from,
{
    if from < 0 || from >= all.len() {
        Seq::<(Seq<u8>, Seq<u8>)>::empty()
    } else {
        let line = spec_trim_bytes(all[from]);
        if line.len() == 0 {
            Seq::<(Seq<u8>, Seq<u8>)>::empty()
        } else {
            match spec_header_of_line(line) {
                Some(header) => seq![header] + spec_headers_from(all, from + 1),
                None => spec_headers_from(all, from + 1),
            }
        }
    }
}

/// The headers of a request: those of its lines behind the request line.
pub open spec fn spec_parse_headers(request: Seq<u8>) -> Seq<(Seq<u8>, Seq<u8>)> {
    spec_headers_from(spec_lines(request), 1)
}

/// The metadata of a CONNECT request for `host` and `port`.
pub open spec fn spec_connect_metadata(request: Seq<u8>, host: Seq<u8>, port: u16) -> RequestView {
    RequestView {
        method: spec_connect_method(),
        full_url: spec_connect_url(host, port),
        host,
        port,
        headers: spec_parse_headers(request),
    }
}

/// The URL of a CONNECT target.
fn format_connect_url(host: &str, port: u16) -> (url: String)
    ensures
        encode_utf8(url@) == spec_connect_url(host.spec_bytes(), port),
{
    broadcast use
        vstd::utf8::valid_utf8_concat,
        vstd::utf8::encode_utf8_valid_utf8,
        vstd::utf8::decode_utf8_encode_utf8,
    ;

    let mut bytes: Vec<u8> = vec![104u8, 116u8, 116u8, 112u8, 115u8, 58u8, 47u8, 47u8];
    proof {
        assert(bytes@ =~= spec_https_scheme());
    }
    bytes.extend_from_slice(host.as_bytes());
    bytes.push(58);
    push_decimal(&mut bytes, port as u64);
    proof {
        let scheme = spec_https_scheme();
        let colon = seq![58u8];
        let digits = spec_decimal(port as nat);
        assert(bytes@ =~= spec_connect_url(host.spec_bytes(), port));
        lemma_ascii_is_utf8(scheme);
        lemma_ascii_is_utf8(colon);
        lemma_decimal_is_ascii(port as nat);
        lemma_ascii_is_utf8(digits);
        assert(valid_utf8(host.spec_bytes()));
        assert(valid_utf8(scheme + host.spec_bytes()));
        assert(valid_utf8(scheme + host.spec_bytes() + colon));
        assert(valid_utf8(scheme + host.spec_bytes() + colon + digits));
    }
    match string_from_utf8(bytes) {
        Some(url) => url,
        None => String::new(),
    }
}

/// The method of a CONNECT request.
fn connect_method() -> (method: String)
    ensures
        encode_utf8(method@) == spec_connect_method(),
{
    let method = "CONNECT".to_string();
    proof {
        reveal_strlit("CONNECT");
        assert(vstd::utf8::is_ascii_chars("CONNECT"@));
        vstd::utf8::is_ascii_chars_encode_utf8("CONNECT"@);
        assert(encode_utf8(method@) =~= spec_connect_method());
    }
    method
}

/// What a header line, already without the white space at its ends, adds to
/// the headers.
pub fn header_of_line(line: &str) -> (header: Option<(String, String)>)
    ensures
        header is Some <==> spec_header_of_line(line.spec_bytes()) is Some,
        header is Some ==> (encode_utf8(header->Some_0.0@), encode_utf8(header->Some_0.1@))
            == spec_header_of_line(line.spec_bytes())->Some_0,
{
    broadcast use vstd::utf8::encode_utf8_valid_utf8;

    let bytes = line.as_bytes();
    let n: usize = bytes.len();
    let at: usize = index_of(bytes, 0, 58);
    proof {
        assert(bytes@.skip(0) =~= bytes@);
        lemma_index_of(bytes@, 58u8);
    }
    if at >= n {
        return None;
    }
    let name_bytes = copy_range(bytes, 0, at);
    let value_bytes = copy_range(bytes, at + 1, n);
    proof {
        lemma_split_at_ascii(bytes@, at as int);
        assert(name_bytes@ =~= bytes@.take(at as int));
        assert(value_bytes@ =~= bytes@.skip(at + 1));
    }
    let name_text = string_of_utf8(name_bytes);
    let value_text = string_of_utf8(value_bytes);
    let name = str_to_lowercase(str_trim(name_text.as_str()).as_str());
    let value = str_trim(value_text.as_str());
    Some((name, value))
}

/// The headers of a request: the lines behind the request line, up to the
/// first empty line, each split at its first colon. Names are kept in lower
/// case; names and values are kept without the white space at their ends.
pub fn parse_headers(request: &str) -> (headers: Vec<(String, String)>)
    ensures
        spec_headers(headers@) == spec_parse_headers(request.spec_bytes()),
{
    broadcast use vstd::utf8::encode_utf8_valid_utf8;

    let all = lines(request.as_bytes());
    let ghost all_lines = spec_lines(request.spec_bytes());
    let mut headers: Vec<(String, String)> = Vec::new();
    let mut i: usize = 1;
    proof {
        lemma_lines_valid(request.spec_bytes());
        assert(spec_headers(headers@) + spec_headers_from(all_lines, 1) =~= spec_headers_from(
            all_lines,
            1,
        ));
    }
    while i < all.len()
        invariant
            1 <= i,
            spec_byte_strings(all@) == all_lines,
            forall|k: int| 0 <= k < all_lines.len() ==> valid_utf8(#[trigger] all_lines[k]),
            spec_headers_from(all_lines, 1) == spec_headers(headers@) + spec_headers_from(
                all_lines,
                i as int,
            ),
        ensures
            spec_headers_from(all_lines, 1) == spec_headers(headers@),
        decreases all@.len() - i,
    {
        proof {
            assert(all_lines[i as int] == all@[i as int]@);
        }
        let piece = copy_range(all[i].as_slice(), 0, all[i].len());
        proof {
            assert(piece@ =~= all@[i as int]@);
        }
        let text = string_of_utf8(piece);
        let trimmed = str_trim(text.as_str());
        if trimmed.as_str().as_bytes().len() == 0 {
            proof {
                assert(spec_headers(headers@) + Seq::<(Seq<u8>, Seq<u8>)>::empty()
                    =~= spec_headers(headers@));
            }
            break ;
        }
        let ghost before = headers@;
        match header_of_line(trimmed.as_str()) {
            Some(header) => {
                headers.push(header);
                proof {
                    let h = (encode_utf8(header.0@), encode_utf8(header.1@));
                    assert(spec_headers(headers@) =~= spec_headers(before).push(h));
                    assert(spec_headers(before) + (seq![h] + spec_headers_from(
                        all_lines,
                        i + 1,
                    )) =~= spec_headers(headers@) + spec_headers_from(all_lines, i + 1));
                }
            },
            None => {},
        }
        i += 1;
    }
    proof {
        if i >= all@.len() {
            assert(spec_headers(headers@) + Seq::<(Seq<u8>, Seq<u8>)>::empty() =~= spec_headers(
                headers@,
            ));
        }
    }
    headers
}

/// The metadata of a CONNECT request for `host` and `port`.
pub fn build_connect_metadata(request: &str, host: &str, port: u16) -> (metadata: RequestMetadata)
    ensures
        metadata@ == spec_connect_metadata(request.spec_bytes(), host.spec_bytes(), port),
{
    let headers = parse_headers(request);
    let full_url = format_connect_url(host, port);
    RequestMetadata::new(connect_method(), full_url, host.to_owned(), port, headers)
}

/// A content policy engine with a switch.
pub struct PolicyAdapter {
    engine: ContentPolicyEngine,
    enabled: bool,
}

impl PolicyAdapter {
    /// The rules of the adapter's engine.
    pub closed spec fn spec_rules(&self) -> Seq<RuleView> {
        self.engine@
    }

    /// Whether the policy is switched on.
    pub closed spec fn spec_enabled(&self) -> bool {
        self.enabled
    }

    /// An adapter over `engine`, switched on or off.
    pub fn new(engine: ContentPolicyEngine, enabled: bool) -> (adapter: PolicyAdapter)
        ensures
            adapter.spec_rules() == engine@,
            adapter.spec_enabled() == enabled,
    {
        PolicyAdapter { engine, enabled }
    }

    /// Switches the policy on or off.
    pub fn set_enabled(&mut self, enabled: bool)
        ensures
            final(self).spec_enabled() == enabled,
            final(self).spec_rules() == old(self).spec_rules(),
    {
        self.enabled = enabled;
    }

    /// Whether the policy is switched on.
    pub fn is_enabled(&self) -> (enabled: bool)
        ensures
            enabled == self.spec_enabled(),
    {
        self.enabled
    }

    /// The decision of the engine on `request`.
    pub fn evaluate(&self, request: &RequestMetadata) -> (decision: Decision)
        ensures
            decision == spec_engine_decision(self.spec_rules(), request@),
    {
        self.engine.evaluate(request)
    }
}

/// Whether a CONNECT request for `host` and `port` may go ahead: always
/// while the policy is switched off, and otherwise exactly when the engine
/// allows the request's metadata.
pub fn policy_allows_connect(
    policy_adapter: &PolicyAdapter,
    request: &str,
    host: &str,
    port: u16,
) -> (allowed: bool)
    ensures
        allowed == (!policy_adapter.spec_enabled() || spec_engine_decision(
            policy_adapter.spec_rules(),
            spec_connect_metadata(request.spec_bytes(), host.spec_bytes(), port),
        ) == Decision::Allow),
{
    if !policy_adapter.is_enabled() {
        return true;
    }
    let metadata = build_connect_metadata(request, host, port);
    match policy_adapter.evaluate(&metadata) {
        Decision::Allow => true,
        Decision::Block { .. } => false,
    }
}

} // verus!
