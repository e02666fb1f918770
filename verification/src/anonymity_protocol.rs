//! The protocol engine of the anonymity path: payloads are wrapped in data
//! frames and wait in one mixing pool; inbound bytes are cut into frames and
//! the payloads of data frames are handed up.

use vstd::prelude::*;
use crate::counters::{bump, spec_count_up};
use crate::frame::{
    copy_range, spec_encode_frame, FrameEncoder, FrameType, ProtocolVersion, MAX_PAYLOAD_LEN,
};
use crate::mixing::{
    spec_drain_batch, spec_drain_order, spec_enqueue, spec_rng_after_drain, MixingPool,
    MixingPoolView,
};
use crate::rng::{lemma_frames_push, spec_frames, Frame, RandomSource};
use crate::stream::{
    lemma_stream_step_progress, next_stream_event, spec_stream_step, tail_of, StreamEvent,
    StreamStep,
};

verus! {

/// The protocol version of the anonymity path.
pub const ANONYMITY_PROTOCOL_VERSION: ProtocolVersion = 2;

/// What a byte stream yields: the payloads handed up, the bytes that stay
/// buffered, and the number of protocol violations met.
pub struct StreamParse {
    pub payloads: Seq<Seq<u8>>,
    pub rest: Seq<u8>,
    pub violations: nat,
}

/// What the buffered bytes `buf` yield for protocol version `version`.
///
/// Frames are taken from the front as long as whole frames are there. The
/// payload of a data frame of the given version is handed up; a frame of
/// another version or type is dropped silently; a protocol violation is
/// thrown away and counted.
pub open spec fn spec_parse_stream(buf: Seq<u8>, version: ProtocolVersion) -> StreamParse
    decreases buf.len(),
{
    match spec_stream_step(buf) {
        StreamStep::NeedMore => StreamParse {
            payloads: Seq::<Seq<u8>>::empty(),
            rest: buf,
            violations: 0,
        },
        StreamStep::Frame { version: v, frame_type, payload, consumed } => {
            if 0 < consumed <= buf.len() {
                let later = spec_parse_stream(buf.skip(consumed as int), version);
                if v == version && frame_type == FrameType::Data {
                    StreamParse { payloads: seq![payload] + later.payloads, ..later }
                } else {
                    later
                }
            } else {
                StreamParse { payloads: Seq::<Seq<u8>>::empty(), rest: buf, violations: 0 }
            }
        },
        StreamStep::Discard { consumed } => {
            if 0 < consumed <= buf.len() {
                let later = spec_parse_stream(buf.skip(consumed as int), version);
                StreamParse { violations: later.violations + 1, ..later }
            } else {
                StreamParse { payloads: Seq::<Seq<u8>>::empty(), rest: buf, violations: 0 }
            }
        },
    }
}

/// An anonymity protocol engine as a mathematical value.
pub struct AnonymityEngineView {
    pub pool: MixingPoolView,
    pub inbound: Seq<u8>,
    pub violations: u64,
}

/// The protocol engine of the anonymity path.
pub struct AnonymityProtocolEngine {
    outbound_pool: MixingPool,
    inbound_buffer: Vec<u8>,
    protocol_violations: u64,
}

impl View for AnonymityProtocolEngine {
    type V = AnonymityEngineView;

    closed spec fn view(&self) -> AnonymityEngineView {
        AnonymityEngineView {
            pool: self.outbound_pool@,
            inbound: self.inbound_buffer@,
            violations: self.protocol_violations,
        }
    }
}

impl AnonymityProtocolEngine {
    /// The state of the generator that the engine's pool shuffles with:
    /// that of a deterministic generator, `None` for the operating system's.
    pub closed spec fn spec_rng_state(&self) -> Option<u64> {
        self.outbound_pool.spec_rng_state()
    }

    /// An engine with an empty pool that shuffles with the operating
    /// system's generator.
    pub fn new() -> (engine: AnonymityProtocolEngine)
        ensures
            engine@.pool.current.len() == 0,
            engine@.pool.next.len() == 0,
            engine@.inbound.len() == 0,
            engine@.violations == 0,
            engine.spec_rng_state() is None,
    {
        AnonymityProtocolEngine::with_rng(RandomSource::os())
    }

    /// An engine with an empty pool that shuffles with `rng`.
    pub fn with_rng(rng: RandomSource) -> (engine: AnonymityProtocolEngine)
        ensures
            engine@.pool.current.len() == 0,
            engine@.pool.next.len() == 0,
            engine@.inbound.len() == 0,
            engine@.violations == 0,
            engine.spec_rng_state() == rng.spec_state(),
    {
        AnonymityProtocolEngine {
            outbound_pool: MixingPool::with_rng(rng),
            inbound_buffer: Vec::new(),
            protocol_violations: 0,
        }
    }

    /// Wraps `payload` in a data frame of the anonymity version and puts the
    /// encoded frame into the mixing pool. A payload too large for one frame
    /// is dropped.
    pub fn enqueue(&mut self, payload: Vec<u8>)
        ensures
            payload@.len() <= MAX_PAYLOAD_LEN ==> final(self)@ == (AnonymityEngineView {
                pool: spec_enqueue(
                    old(self)@.pool,
                    spec_encode_frame(ANONYMITY_PROTOCOL_VERSION, FrameType::Data, payload@),
                ),
                ..old(self)@
            }),
            payload@.len() > MAX_PAYLOAD_LEN ==> final(self)@ == old(self)@,
            final(self).spec_rng_state() == old(self).spec_rng_state(),
    {
        let mut buffer: Vec<u8> = Vec::new();
        match FrameEncoder::encode_frame(
            &mut buffer,
            ANONYMITY_PROTOCOL_VERSION,
            FrameType::Data,
            payload.as_slice(),
        ) {
            Ok(()) => {
                assert(buffer@ =~= spec_encode_frame(
                    ANONYMITY_PROTOCOL_VERSION,
                    FrameType::Data,
                    payload@,
                ));
                self.outbound_pool.enqueue(buffer);
            },
            Err(_) => {},
        }
    }

    /// Hands out up to `max_frames` encoded frames from the mixing pool.
    pub fn drain_batch(&mut self, max_frames: usize) -> (frames: Vec<Frame>)
        ensures
            spec_drain_batch(
                old(self)@.pool,
                max_frames as nat,
                final(self)@.pool,
                spec_frames(frames@),
            ),
            final(self)@.inbound == old(self)@.inbound,
            final(self)@.violations == old(self)@.violations,
            final(self).spec_rng_state() == spec_rng_after_drain(
                old(self)@.pool,
                max_frames as nat,
                old(self).spec_rng_state(),
            ),
            spec_drain_order(
                old(self)@.pool,
                max_frames as nat,
                old(self).spec_rng_state(),
                final(self)@.pool,
                spec_frames(frames@),
            ),
    {
        self.outbound_pool.drain_batch(max_frames)
    }

    /// The number of protocol violations met on the inbound stream so far.
    pub fn protocol_violations(&self) -> (n: u64)
        ensures
            n == self@.violations,
    {
        self.protocol_violations
    }

    /// Takes in bytes from the transport and hands up the payloads of the
    /// data frames that are now complete.
    ///
    /// The bytes are put behind those buffered before. What the whole yields
    /// is `spec_parse_stream`: its payloads are returned in order, its rest
    /// stays buffered, and its violations are counted.
    pub fn on_transport_bytes(&mut self, data: &[u8]) -> (payloads: Vec<Vec<u8>>)
        ensures
            ({
                let parsed = spec_parse_stream(
                    old(self)@.inbound + data@,
                    ANONYMITY_PROTOCOL_VERSION,
                );
                &&& spec_frames(payloads@) == parsed.payloads
                &&& final(self)@.inbound == parsed.rest
                &&& final(self)@.violations == spec_count_up(
                    old(self)@.violations,
                    parsed.violations,
                )
                &&& final(self)@.pool == old(self)@.pool
                &&& final(self).spec_rng_state() == old(self).spec_rng_state()
            }),
    {
        self.inbound_buffer.extend_from_slice(data);
        let ghost full = self.inbound_buffer@;
        let buffered: usize = self.inbound_buffer.len();
        let ghost before = self.protocol_violations;
        let mut payloads: Vec<Vec<u8>> = Vec::new();
        let mut pos: usize = 0;
        let ghost mut seen: nat = 0;
        proof {
            assert(full.skip(0) =~= full);
            assert(spec_frames(payloads@) =~= Seq::<Seq<u8>>::empty());
            assert(spec_frames(payloads@) + spec_parse_stream(
                full,
                ANONYMITY_PROTOCOL_VERSION,
            ).payloads =~= spec_parse_stream(full, ANONYMITY_PROTOCOL_VERSION).payloads);
        }
        loop
            invariant
                full == old(self)@.inbound + data@,
                self.inbound_buffer@ == full,
                full.len() <= usize::MAX,
                self.outbound_pool == old(self).outbound_pool,
                before == old(self)@.violations,
                0 <= pos <= full.len(),
                self.protocol_violations == spec_count_up(before, seen),
                spec_parse_stream(full, ANONYMITY_PROTOCOL_VERSION).payloads == spec_frames(
                    payloads@,
                ) + spec_parse_stream(full.skip(pos as int), ANONYMITY_PROTOCOL_VERSION).payloads,
                spec_parse_stream(full, ANONYMITY_PROTOCOL_VERSION).rest == spec_parse_stream(
                    full.skip(pos as int),
                    ANONYMITY_PROTOCOL_VERSION,
                ).rest,
                spec_parse_stream(full, ANONYMITY_PROTOCOL_VERSION).violations == seen
                    + spec_parse_stream(
                    full.skip(pos as int),
                    ANONYMITY_PROTOCOL_VERSION,
                ).violations,
            ensures
                self.inbound_buffer@ == full,
                self.outbound_pool == old(self).outbound_pool,
                0 <= pos <= full.len(),
                self.protocol_violations == spec_count_up(
                    before,
                    spec_parse_stream(full, ANONYMITY_PROTOCOL_VERSION).violations,
                ),
                spec_parse_stream(full, ANONYMITY_PROTOCOL_VERSION).payloads == spec_frames(
                    payloads@,
                ),
                spec_parse_stream(full, ANONYMITY_PROTOCOL_VERSION).rest == full.skip(pos as int),
            decreases full.len() - pos,
        {
            let ghost here = full.skip(pos as int);
            proof {
                lemma_stream_step_progress(here);
            }
            let event = next_stream_event(tail_of(self.inbound_buffer.as_slice(), pos));
            proof {
                assert(event@ == spec_stream_step(here));
            }
            match event {
                StreamEvent::NeedMore => {
                    proof {
                        assert(spec_frames(payloads@) + Seq::<Seq<u8>>::empty() =~= spec_frames(
                            payloads@,
                        ));
                    }
                    break ;
                },
                StreamEvent::Frame { version, frame_type, payload, consumed } => {
                    proof {
                        assert(here.skip(consumed as int) =~= full.skip(pos + consumed));
                    }
                    if version == ANONYMITY_PROTOCOL_VERSION && frame_type == FrameType::Data {
                        let ghost prev = payloads@;
                        payloads.push(payload);
                        proof {
                            lemma_frames_push(prev, payloads@, payload);
                            let later = spec_parse_stream(
                                full.skip(pos + consumed),
                                ANONYMITY_PROTOCOL_VERSION,
                            );
                            assert(spec_frames(prev) + (seq![payload@] + later.payloads)
                                =~= spec_frames(prev).push(payload@) + later.payloads);
                        }
                    }
                    pos = pos + consumed;
                },
                StreamEvent::Discard { consumed } => {
                    proof {
                        assert(here.skip(consumed as int) =~= full.skip(pos + consumed));
                        seen = seen + 1;
                    }
                    self.protocol_violations = bump(self.protocol_violations);
                    pos = pos + consumed;
                },
            }
        }
        let rest = copy_range(self.inbound_buffer.as_slice(), pos, buffered);
        proof {
            assert(rest@ =~= full.skip(pos as int));
        }
        self.inbound_buffer = rest;
        payloads
    }
}

/// What was enqueued comes back: the frame that `enqueue` makes of a payload
/// of at most `MAX_PAYLOAD_LEN` bytes, fed to an engine with an empty inbound
/// buffer, yields exactly that payload, leaves nothing buffered and counts no
/// violation.
pub proof fn lemma_engine_round_trip(payload: Seq<u8>)
    requires
        payload.len() <= MAX_PAYLOAD_LEN,
    ensures
        spec_parse_stream(
            spec_encode_frame(ANONYMITY_PROTOCOL_VERSION, FrameType::Data, payload),
            ANONYMITY_PROTOCOL_VERSION,
        ) == (StreamParse { payloads: seq![payload], rest: Seq::<u8>::empty(), violations: 0 }),
{
    let enc = spec_encode_frame(ANONYMITY_PROTOCOL_VERSION, FrameType::Data, payload);
    crate::frame::lemma_frame_round_trip(
        ANONYMITY_PROTOCOL_VERSION,
        FrameType::Data,
        payload,
        Seq::<u8>::empty(),
    );
    assert(enc + Seq::<u8>::empty() =~= enc);
    let tail = enc.skip(6 + payload.len() as int);
    assert(tail =~= Seq::<u8>::empty());
    assert(spec_stream_step(tail) == StreamStep::NeedMore);
    let later = spec_parse_stream(tail, ANONYMITY_PROTOCOL_VERSION);
    assert(later.payloads =~= Seq::<Seq<u8>>::empty());
    assert(seq![payload] + later.payloads =~= seq![payload]);
}

impl Default for AnonymityProtocolEngine {
    /// An engine with an empty pool that shuffles with the operating
    /// system's generator.
    fn default() -> (engine: AnonymityProtocolEngine)
        ensures
            engine@.pool.current.len() == 0,
            engine@.pool.next.len() == 0,
            engine@.inbound.len() == 0,
            engine@.violations == 0,
            engine.spec_rng_state() is None,
    {
        AnonymityProtocolEngine::new()
    }
}

} // verus!
