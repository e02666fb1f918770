//! The control channel to a relay: routing information travels under a
//! placeholder cipher, and control messages are framed as text lines.

use vstd::prelude::*;
use vstd::string::StringSliceAdditionalSpecFns;
use crate::text::{push_decimal, spec_decimal, spec_starts_with, starts_with};

verus! {

/// The byte that every byte of the placeholder key holds.
pub const KEY_BYTE: u8 = 0x42;

/// The bytes of `CTRL `.
pub open spec fn spec_ctrl_prefix() -> Seq<u8> {
    seq![67u8, 84u8, 82u8, 76u8, 32u8]
}

/// The bytes of ` ROUTE`, a carriage return and a line feed.
pub open spec fn spec_route_suffix() -> Seq<u8> {
    seq![32u8, 82u8, 79u8, 85u8, 84u8, 69u8, 13u8, 10u8]
}

/// The bytes of `CTRL OK`.
pub open spec fn spec_ctrl_ok() -> Seq<u8> {
    seq![67u8, 84u8, 82u8, 76u8, 32u8, 79u8, 75u8]
}

/// The routing information of a target in the clear: the host, a colon and
/// the port in decimal.
pub open spec fn spec_routing_text(host: Seq<u8>, port: u16) -> Seq<u8> {
    host + seq![58u8] + spec_decimal(port as nat)
}

/// Each byte of a text combined with the key byte by exclusive or.
pub open spec fn spec_masked(text: Seq<u8>) -> Seq<u8> {
    Seq::new(text.len(), |i: int| text[i] ^ KEY_BYTE)
}

/// The header of a control message that carries `len` bytes of routing
/// information: `CTRL`, the length in decimal, `ROUTE`, and a line end.
pub open spec fn spec_control_header(len: nat) -> Seq<u8> {
    spec_ctrl_prefix() + spec_decimal(len) + spec_route_suffix()
}

/// The control channel to a relay.
pub struct ControlChannel {
    key: [u8; 32],
}

impl ControlChannel {
    /// The invariant of the channel: every byte of its key is `KEY_BYTE`.
    pub closed spec fn wf(&self) -> bool {
        forall|i: int| 0 <= i < 32 ==> self.key@[i] == KEY_BYTE
    }

    /// A channel with the placeholder key.
    pub fn new() -> (c: ControlChannel)
        ensures
            c.wf(),
    {
        ControlChannel { key: [0x42u8; 32] }
    }

    /// The routing information for `target_host` and `target_port` under
    /// the placeholder cipher.
    pub fn encrypt_routing_info(&self, target_host: &str, target_port: u16) -> (encrypted: Vec<u8>)
        requires
            self.wf(),
        ensures
            encrypted@ == spec_masked(spec_routing_text(target_host.spec_bytes(), target_port)),
    {
        let mut plaintext: Vec<u8> = Vec::new();
        plaintext.extend_from_slice(target_host.as_bytes());
        plaintext.push(58);
        push_decimal(&mut plaintext, target_port as u64);
        proof {
            assert(plaintext@ =~= spec_routing_text(target_host.spec_bytes(), target_port));
        }
        let mut encrypted: Vec<u8> = Vec::new();
        let mut i: usize = 0;
        while i < plaintext.len()
            invariant
                0 <= i <= plaintext@.len(),
                self.wf(),
                encrypted@ == spec_masked(plaintext@.take(i as int)),
            decreases plaintext@.len() - i,
        {
            encrypted.push(plaintext[i] ^ self.key[i % 32]);
            i += 1;
            assert(encrypted@ =~= spec_masked(plaintext@.take(i as int)));
        }
        proof {
            assert(plaintext@.take(i as int) =~= plaintext@);
        }
        encrypted
    }

    /// The header of the control message that carries `len` bytes of
    /// routing information.
    pub fn control_header(&self, len: usize) -> (header: Vec<u8>)
        ensures
            header@ == spec_control_header(len as nat),
    {
        let mut header: Vec<u8> = vec![67u8, 84u8, 82u8, 76u8, 32u8];
        proof {
            assert(header@ =~= spec_ctrl_prefix());
        }
        push_decimal(&mut header, len as u64);
        let ghost head = header@;
        header.push(32);
        header.push(82);
        header.push(79);
        header.push(85);
        header.push(84);
        header.push(69);
        header.push(13);
        header.push(10);
        proof {
            assert(header@ =~= head + spec_route_suffix());
        }
        header
    }

    /// Whether the bytes read so far are a whole response: they end with a
    /// carriage return and a line feed.
    pub fn response_complete(&self, response: &[u8]) -> (complete: bool)
        ensures
            complete == (response@.len() >= 2 && response@[response@.len() - 2] == 13u8
                && response@[response@.len() - 1] == 10u8),
    {
        let n: usize = response.len();
        n >= 2 && response[n - 2] == 13 && response[n - 1] == 10
    }

    /// Whether a response accepts the route: it begins with `CTRL OK`.
    pub fn response_accepts(&self, response: &[u8]) -> (ok: bool)
        ensures
            ok == spec_starts_with(response@, spec_ctrl_ok()),
    {
        let expected: Vec<u8> = vec![67u8, 84u8, 82u8, 76u8, 32u8, 79u8, 75u8];
        proof {
            assert(expected@ =~= spec_ctrl_ok());
        }
        starts_with(response, expected.as_slice())
    }
}

/// The bytes of `CONNECT `.
pub open spec fn spec_connect_word() -> Seq<u8> {
    seq![67u8, 79u8, 78u8, 78u8, 69u8, 67u8, 84u8, 32u8]
}

/// The bytes of ` HTTP/1.1` and the empty line that ends a request.
pub open spec fn spec_request_tail() -> Seq<u8> {
    seq![32u8, 72u8, 84u8, 84u8, 80u8, 47u8, 49u8, 46u8, 49u8, 13u8, 10u8, 13u8, 10u8]
}

/// The bytes of `HTTP/1.1 200`.
pub open spec fn spec_status_200() -> Seq<u8> {
    seq![72u8, 84u8, 84u8, 80u8, 47u8, 49u8, 46u8, 49u8, 32u8, 50u8, 48u8, 48u8]
}

/// The CONNECT request that asks a relay for a tunnel to `target` and
/// `port`.
pub open spec fn spec_relay_connect_request(target: Seq<u8>, port: u16) -> Seq<u8> {
    spec_connect_word() + target + seq![58u8] + spec_decimal(port as nat) + spec_request_tail()
}

/// The CONNECT request that asks a relay for a tunnel to `target` and
/// `port`.
pub fn relay_connect_request(target: &str, port: u16) -> (request: Vec<u8>)
    ensures
        request@ == spec_relay_connect_request(target.spec_bytes(), port),
{
    let mut request: Vec<u8> = vec![67u8, 79u8, 78u8, 78u8, 69u8, 67u8, 84u8, 32u8];
    proof {
        assert(request@ =~= spec_connect_word());
    }
    request.extend_from_slice(target.as_bytes());
    request.push(58);
    push_decimal(&mut request, port as u64);
    let ghost head = request@;
    let tail: Vec<u8> = vec![
        32u8, 72u8, 84u8, 84u8, 80u8, 47u8, 49u8, 46u8, 49u8, 13u8, 10u8, 13u8, 10u8,
    ];
    proof {
        assert(tail@ =~= spec_request_tail());
    }
    request.extend_from_slice(tail.as_slice());
    proof {
        assert(request@ =~= spec_relay_connect_request(target.spec_bytes(), port));
    }
    request
}

/// Whether the bytes read from a relay so far are a whole response: they
/// end with an empty line.
pub fn relay_response_complete(response: &[u8]) -> (complete: bool)
    ensures
        complete == (response@.len() >= 4 && response@.subrange(
            response@.len() - 4,
            response@.len() as int,
        ) == seq![13u8, 10u8, 13u8, 10u8]),
{
    let n: usize = response.len();
    if n < 4 {
        return false;
    }
    let complete = response[n - 4] == 13 && response[n - 3] == 10 && response[n - 2] == 13
        && response[n - 1] == 10;
    proof {
        let tail = response@.subrange(n - 4, n as int);
        if complete {
            assert(tail =~= seq![13u8, 10u8, 13u8, 10u8]);
        } else {
            assert(tail[0] == response@[n - 4]);
            assert(tail[1] == response@[n - 3]);
            assert(tail[2] == response@[n - 2]);
            assert(tail[3] == response@[n - 1]);
        }
    }
    complete
}

/// Whether a relay accepted the tunnel: its response begins with
/// `HTTP/1.1 200`.
pub fn relay_accepts(response: &[u8]) -> (accepted: bool)
    ensures
        accepted == spec_starts_with(response@, spec_status_200()),
{
    let expected: Vec<u8> = vec![
        72u8, 84u8, 84u8, 80u8, 47u8, 49u8, 46u8, 49u8, 32u8, 50u8, 48u8, 48u8,
    ];
    proof {
        assert(expected@ =~= spec_status_200());
    }
    starts_with(response, expected.as_slice())
}

} // verus!
