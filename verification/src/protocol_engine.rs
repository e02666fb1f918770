//! The protocol engine of the connection-oriented variant: per-connection
//! inbound buffers and outbound queues around a connection table.

use vstd::prelude::*;
use std::collections::HashMap;
use crate::connection_table::{
    spec_after_close, spec_after_consume, spec_after_credit, spec_after_finalize_open,
    spec_after_open, spec_after_poll,
    spec_update_due, spec_window_update, ConnectionInfo, ConnectionState, ConnectionTable,
    ConnectionTableView, RelayLimits,
};
use crate::control::{
    spec_decode_control, spec_encode_control, spec_encode_data, ControlMessage,
    ControlMessageView, DataFrame,
};
use crate::frame::{
    copy_range, spec_encode_frame, FrameEncoder, FrameType, ProtocolVersion, MAX_PAYLOAD_LEN,
};
use crate::negotiation::{NegotiatorView, ProtocolNegotiator};
use crate::counters::{bump, spec_count_up};
use crate::rng::{lemma_frames_drop_last, lemma_frames_push, spec_frames, Frame};
use crate::transport_adapter::{TransportCallbacks, TransportError};
use crate::stream::{
    lemma_stream_step_progress, next_stream_event, spec_stream_step, tail_of, StreamEvent,
    StreamStep,
};

verus! {

/// The protocol version of the connection-oriented variant.
pub const RELAY_PROTOCOL_VERSION: ProtocolVersion = 1;

/// Why a data frame was not queued.
#[derive(Debug, Clone, Copy, PartialEq, Eq, Structural)]
pub enum EngineError {
    /// The connection is not open or its send window is too small.
    InsufficientCredits,
    /// The data does not fit in one frame.
    FrameEncodingFailed,
}

/// The table after a control message arrived on connection `conn_id`: an
/// `Open` opens that connection, a `Close` starts its close, a
/// `WindowUpdate` adds its credits, and any other message changes nothing.
pub open spec fn spec_apply_control(
    t: ConnectionTableView,
    conn_id: u32,
    m: ControlMessageView,
) -> ConnectionTableView {
    match m {
        ControlMessageView::Open { .. } => spec_after_open(t, conn_id),
        ControlMessageView::Close { .. } => spec_after_close(t, conn_id),
        ControlMessageView::WindowUpdate { credits, .. } => spec_after_credit(
            t,
            conn_id,
            credits,
        ),
        _ => t,
    }
}

/// The table after a frame arrived on connection `conn_id`: a control frame
/// whose payload decodes is applied, anything else changes nothing.
pub open spec fn spec_apply_frame(
    t: ConnectionTableView,
    conn_id: u32,
    frame_type: FrameType,
    payload: Seq<u8>,
) -> ConnectionTableView {
    if frame_type == FrameType::Control {
        match spec_decode_control(payload) {
            Ok(m) => spec_apply_control(t, conn_id, m),
            Err(_) => t,
        }
    } else {
        t
    }
}

/// The table and the bytes left over after the buffered bytes `buf` of
/// connection `conn_id` were cut into frames and each frame was applied.
pub open spec fn spec_feed(t: ConnectionTableView, conn_id: u32, buf: Seq<u8>) -> (
    ConnectionTableView,
    Seq<u8>,
)
    decreases buf.len(),
{
    match spec_stream_step(buf) {
        StreamStep::NeedMore => (t, buf),
        StreamStep::Frame { frame_type, payload, consumed, .. } => {
            if 0 < consumed <= buf.len() {
                spec_feed(
                    spec_apply_frame(t, conn_id, frame_type, payload),
                    conn_id,
                    buf.skip(consumed as int),
                )
            } else {
                (t, buf)
            }
        },
        StreamStep::Discard { consumed } => {
            if 0 < consumed <= buf.len() {
                spec_feed(t, conn_id, buf.skip(consumed as int))
            } else {
                (t, buf)
            }
        },
    }
}

/// Whether the payload of a frame cannot be read: a control payload that
/// does not decode, or a data payload too short for its connection id.
pub open spec fn spec_undecodable(frame_type: FrameType, payload: Seq<u8>) -> bool {
    match frame_type {
        FrameType::Control => spec_decode_control(payload) is Err,
        FrameType::Data => payload.len() < 4,
    }
}

/// The number of protocol violations in the buffered bytes `buf`: the
/// frames that are discarded for their size or their type, and the frames
/// whose payload cannot be read.
pub open spec fn spec_feed_violations(buf: Seq<u8>) -> nat
    decreases buf.len(),
{
    match spec_stream_step(buf) {
        StreamStep::NeedMore => 0,
        StreamStep::Frame { frame_type, payload, consumed, .. } => {
            if 0 < consumed <= buf.len() {
                spec_feed_violations(buf.skip(consumed as int)) + if spec_undecodable(
                    frame_type,
                    payload,
                ) {
                    1nat
                } else {
                    0nat
                }
            } else {
                0
            }
        },
        StreamStep::Discard { consumed } => {
            if 0 < consumed <= buf.len() {
                spec_feed_violations(buf.skip(consumed as int)) + 1
            } else {
                0
            }
        },
    }
}

/// The frames queued for connection `conn_id`; none if it has no queue.
pub open spec fn spec_queue_of(outbound: Map<u32, Seq<Seq<u8>>>, conn_id: u32) -> Seq<Seq<u8>> {
    if outbound.contains_key(conn_id) {
        outbound[conn_id]
    } else {
        Seq::<Seq<u8>>::empty()
    }
}

/// The bytes buffered for connection `conn_id`; none if it has no buffer.
pub open spec fn spec_buffer_of(buffers: Map<u32, Seq<u8>>, conn_id: u32) -> Seq<u8> {
    if buffers.contains_key(conn_id) {
        buffers[conn_id]
    } else {
        Seq::<u8>::empty()
    }
}

/// The encoded frame that carries the control message `m`.
pub open spec fn spec_control_frame(m: ControlMessageView) -> Seq<u8> {
    spec_encode_frame(RELAY_PROTOCOL_VERSION, FrameType::Control, spec_encode_control(m))
}

/// The outbound queues after a poll: each connection whose window update was
/// due has the frame of that update at the end of its queue.
pub open spec fn spec_outbound_after_poll(
    outbound: Map<u32, Seq<Seq<u8>>>,
    connections: Map<u32, ConnectionInfo>,
    conn_id: u32,
) -> Seq<Seq<u8>> {
    if connections.contains_key(conn_id) && spec_update_due(connections[conn_id]) {
        spec_queue_of(outbound, conn_id).push(
            spec_control_frame(spec_window_update(conn_id, connections[conn_id])),
        )
    } else {
        spec_queue_of(outbound, conn_id)
    }
}

/// The connection ids of a list of polled messages.
pub open spec fn spec_polled_ids(polled: Seq<(u32, ControlMessage)>) -> Seq<u32> {
    polled.map_values(|p: (u32, ControlMessage)| p.0)
}

/// A protocol engine as a mathematical value.
pub struct ProtocolEngineView {
    pub table: ConnectionTableView,
    pub negotiator: NegotiatorView,
    pub outbound: Map<u32, Seq<Seq<u8>>>,
    pub buffers: Map<u32, Seq<u8>>,
    pub violations: u64,
}

/// The protocol engine of the connection-oriented variant.
pub struct ProtocolEngine {
    connection_table: ConnectionTable,
    negotiator: ProtocolNegotiator,
    outbound_frames: HashMap<u32, Vec<Frame>>,
    frame_buffers: HashMap<u32, Vec<u8>>,
    protocol_violations: u64,
}

impl View for ProtocolEngine {
    type V = ProtocolEngineView;

    closed spec fn view(&self) -> ProtocolEngineView {
        ProtocolEngineView {
            table: self.connection_table@,
            negotiator: self.negotiator@,
            outbound: self.outbound_frames@.map_values(|q: Vec<Frame>| spec_frames(q@)),
            buffers: self.frame_buffers@.map_values(|b: Vec<u8>| b@),
            violations: self.protocol_violations,
        }
    }
}

impl ProtocolEngine {
    /// The invariant of the engine: that of its connection table.
    pub open spec fn wf(&self) -> bool {
        self@.table.wf()
    }

    /// An engine with an empty connection table, no queue and no buffer.
    pub fn new(limits: RelayLimits) -> (engine: ProtocolEngine)
        ensures
            engine.wf(),
            engine@.table.connections == Map::<u32, ConnectionInfo>::empty(),
            engine@.table.limits == limits,
            engine@.outbound == Map::<u32, Seq<Seq<u8>>>::empty(),
            engine@.buffers == Map::<u32, Seq<u8>>::empty(),
            engine@.violations == 0,
    {
        let engine = ProtocolEngine {
            connection_table: ConnectionTable::new(limits),
            negotiator: ProtocolNegotiator::new(),
            outbound_frames: HashMap::new(),
            frame_buffers: HashMap::new(),
            protocol_violations: 0,
        };
        proof {
            assert(engine@.outbound =~= Map::<u32, Seq<Seq<u8>>>::empty());
            assert(engine@.buffers =~= Map::<u32, Seq<u8>>::empty());
        }
        engine
    }

    /// The connection table of the engine.
    pub fn connection_table(&self) -> (t: &ConnectionTable)
        ensures
            t@ == self@.table,
    {
        &self.connection_table
    }

    /// The number of protocol violations met on the inbound streams so far.
    pub fn protocol_violations(&self) -> (n: u64)
        ensures
            n == self@.violations,
    {
        self.protocol_violations
    }

    /// Opens connection `conn_id` and moves it to `Open` at once, for callers
    /// that do not wait for the peer. Where the table refuses the open, it
    /// counts the refusal and nothing else changes.
    pub fn open_and_finalize(&mut self, conn_id: u32) -> (ok: bool)
        requires
            old(self).wf(),
        ensures
            final(self).wf(),
            final(self)@.outbound == old(self)@.outbound,
            final(self)@.buffers == old(self)@.buffers,
            final(self)@.negotiator == old(self)@.negotiator,
            final(self)@.violations == old(self)@.violations,
            final(self)@.table == (if ok {
                spec_after_finalize_open(spec_after_open(old(self)@.table, conn_id), conn_id)
            } else {
                spec_after_open(old(self)@.table, conn_id)
            }),
            ok ==> final(self)@.table.connections.contains_key(conn_id)
                && final(self)@.table.connections[conn_id].state == ConnectionState::Open,
            ok == (old(self)@.table.connections.len() < old(self)@.table.limits.max_connections
                && old(self)@.table.inflight_opens < old(self)@.table.limits.max_inflight_opens
                && !old(self)@.table.connections.contains_key(conn_id)),
    {
        match self.connection_table.open_connection(conn_id) {
            Ok(()) => {
                let r = self.connection_table.finalize_open(conn_id);
                r.is_ok()
            },
            Err(_) => false,
        }
    }

    /// Takes in bytes that arrived on connection `conn_id`.
    ///
    /// The bytes are put behind those buffered for the connection, whole
    /// frames are cut off the front and applied to the connection table, and
    /// what is left stays buffered. A frame of a wrong size or type is
    /// discarded and a frame whose payload cannot be read is passed over;
    /// each counts as one protocol violation.
    pub fn on_transport_bytes(&mut self, conn_id: u32, data: &[u8])
        requires
            old(self).wf(),
        ensures
            final(self).wf(),
            ({
                let fed = spec_feed(
                    old(self)@.table,
                    conn_id,
                    spec_buffer_of(old(self)@.buffers, conn_id) + data@,
                );
                &&& final(self)@.table == fed.0
                &&& final(self)@.buffers == old(self)@.buffers.insert(conn_id, fed.1)
            }),
            final(self)@.violations == spec_count_up(
                old(self)@.violations,
                spec_feed_violations(spec_buffer_of(old(self)@.buffers, conn_id) + data@),
            ),
            final(self)@.outbound == old(self)@.outbound,
            final(self)@.negotiator == old(self)@.negotiator,
    {
        broadcast use vstd::std_specs::hash::group_hash_axioms;

        let mut buffer: Vec<u8> = match self.frame_buffers.remove(&conn_id) {
            Some(b) => b,
            None => Vec::new(),
        };
        let ghost others = self.frame_buffers@;
        proof {
            assert(buffer@ =~= spec_buffer_of(old(self)@.buffers, conn_id));
        }
        buffer.extend_from_slice(data);
        let ghost full = buffer@;
        let ghost t0 = old(self)@.table;
        proof {
            assert(full =~= spec_buffer_of(old(self)@.buffers, conn_id) + data@);
        }
        let buffered: usize = buffer.len();
        let mut pos: usize = 0;
        let ghost counted = self.protocol_violations;
        let ghost mut seen: nat = 0;
        proof {
            assert(full.skip(0) =~= full);
        }
        loop
            invariant
                buffer@ == full,
                buffered == full.len(),
                0 <= pos <= full.len(),
                counted == old(self)@.violations,
                self.protocol_violations == spec_count_up(counted, seen),
                spec_feed_violations(full) == seen + spec_feed_violations(full.skip(pos as int)),
                self.wf(),
                self.negotiator == old(self).negotiator,
                self.outbound_frames == old(self).outbound_frames,
                self.frame_buffers@ == others,
                spec_feed(t0, conn_id, full) == spec_feed(
                    self@.table,
                    conn_id,
                    full.skip(pos as int),
                ),
            ensures
                buffer@ == full,
                0 <= pos <= full.len(),
                self.protocol_violations == spec_count_up(counted, spec_feed_violations(full)),
                self.wf(),
                self.negotiator == old(self).negotiator,
                self.outbound_frames == old(self).outbound_frames,
                self.frame_buffers@ == others,
                spec_feed(t0, conn_id, full) == (self@.table, full.skip(pos as int)),
            decreases full.len() - pos,
        {
            let ghost here = full.skip(pos as int);
            proof {
                lemma_stream_step_progress(here);
            }
            let event = next_stream_event(tail_of(buffer.as_slice(), pos));
            proof {
                assert(event@ == spec_stream_step(here));
            }
            match event {
                StreamEvent::NeedMore => {
                    break ;
                },
                StreamEvent::Frame { version, frame_type, payload, consumed } => {
                    proof {
                        assert(here.skip(consumed as int) =~= full.skip(pos + consumed));
                    }
                    let unread = self.process_frame(conn_id, frame_type, payload.as_slice());
                    if unread {
                        proof {
                            seen = seen + 1;
                        }
                        self.protocol_violations = bump(self.protocol_violations);
                    }
                    pos = pos + consumed;
                },
                StreamEvent::Discard { consumed } => {
                    proof {
                        assert(here.skip(consumed as int) =~= full.skip(pos + consumed));
                        seen = seen + 1;
                    }
                    self.protocol_violations = bump(self.protocol_violations);
                    pos = pos + consumed;
                },
            }
        }
        let rest = copy_range(buffer.as_slice(), pos, buffered);
        proof {
            assert(rest@ =~= full.skip(pos as int));
        }
        self.frame_buffers.insert(conn_id, rest);
        proof {
            assert(self@.buffers =~= old(self)@.buffers.insert(conn_id, rest@));
        }
    }

    /// Applies one frame that arrived on connection `conn_id`, and says
    /// whether its payload could not be read.
    fn process_frame(&mut self, conn_id: u32, frame_type: FrameType, payload: &[u8]) -> (unread:
        bool)
        requires
            old(self).wf(),
        ensures
            final(self).wf(),
            unread == spec_undecodable(frame_type, payload@),
            final(self).protocol_violations == old(self).protocol_violations,
            final(self)@.table == spec_apply_frame(
                old(self)@.table,
                conn_id,
                frame_type,
                payload@,
            ),
            final(self).negotiator == old(self).negotiator,
            final(self).protocol_violations == old(self).protocol_violations,
            final(self).outbound_frames == old(self).outbound_frames,
            final(self).frame_buffers == old(self).frame_buffers,
    {
        match frame_type {
            FrameType::Control => {
                match ControlMessage::decode(payload) {
                    Ok(message) => {
                        self.process_control_message(conn_id, message);
                        false
                    },
                    Err(_) => true,
                }
            },
            FrameType::Data => {
                match DataFrame::decode(payload) {
                    Ok(frame) => {
                        self.process_data_frame(frame);
                        false
                    },
                    Err(_) => true,
                }
            },
        }
    }

    /// Applies a control message that arrived on connection `conn_id`.
    fn process_control_message(&mut self, conn_id: u32, message: ControlMessage)
        requires
            old(self).wf(),
        ensures
            final(self).wf(),
            final(self)@.table == spec_apply_control(old(self)@.table, conn_id, message@),
            final(self).negotiator == old(self).negotiator,
            final(self).protocol_violations == old(self).protocol_violations,
            final(self).outbound_frames == old(self).outbound_frames,
            final(self).frame_buffers == old(self).frame_buffers,
    {
        match message {
            ControlMessage::Open { .. } => {
                let _ = self.connection_table.open_connection(conn_id);
            },
            ControlMessage::Close { .. } => {
                let _ = self.connection_table.close_connection(conn_id);
            },
            ControlMessage::WindowUpdate { credits, .. } => {
                let _ = self.connection_table.add_send_credits(conn_id, credits);
            },
            _ => {},
        }
    }

    /// A data frame that arrived: delivering it is left to the relay, so the
    /// engine's state stays as it is.
    fn process_data_frame(&mut self, frame: DataFrame)
        ensures
            *final(self) == *old(self),
    {
    }

    /// Takes the frame queued last for connection `conn_id` off its queue.
    pub fn next_outbound_frame(&mut self, conn_id: u32) -> (frame: Option<Vec<u8>>)
        ensures
            final(self)@.table == old(self)@.table,
            final(self)@.negotiator == old(self)@.negotiator,
            final(self)@.violations == old(self)@.violations,
            final(self)@.buffers == old(self)@.buffers,
            frame is None <==> spec_queue_of(old(self)@.outbound, conn_id).len() == 0,
            frame is None ==> final(self)@.outbound == old(self)@.outbound,
            frame is Some ==> frame->Some_0@ == spec_queue_of(old(self)@.outbound, conn_id).last()
                && final(self)@.outbound == old(self)@.outbound.insert(
                conn_id,
                spec_queue_of(old(self)@.outbound, conn_id).drop_last(),
            ),
    {
        broadcast use vstd::std_specs::hash::group_hash_axioms;

        match self.outbound_frames.remove(&conn_id) {
            None => {
                proof {
                    assert(self@.outbound =~= old(self)@.outbound);
                }
                None
            },
            Some(queue) => {
                let mut queue = queue;
                let ghost before = queue@;
                let frame = queue.pop();
                proof {
                    if before.len() > 0 {
                        lemma_frames_drop_last(before, queue@);
                    }
                }
                self.outbound_frames.insert(conn_id, queue);
                proof {
                    if before.len() > 0 {
                        assert(self@.outbound =~= old(self)@.outbound.insert(
                            conn_id,
                            spec_queue_of(old(self)@.outbound, conn_id).drop_last(),
                        ));
                    } else {
                        assert(queue@ =~= before);
                        assert(self@.outbound =~= old(self)@.outbound);
                    }
                }
                frame
            },
        }
    }

    /// Puts an encoded frame at the end of the queue of connection `conn_id`.
    fn push_outbound(&mut self, conn_id: u32, frame: Frame)
        ensures
            final(self).connection_table == old(self).connection_table,
            final(self).negotiator == old(self).negotiator,
            final(self).protocol_violations == old(self).protocol_violations,
            final(self).frame_buffers == old(self).frame_buffers,
            final(self)@.outbound == old(self)@.outbound.insert(
                conn_id,
                spec_queue_of(old(self)@.outbound, conn_id).push(frame@),
            ),
    {
        broadcast use vstd::std_specs::hash::group_hash_axioms;

        let mut queue: Vec<Frame> = match self.outbound_frames.remove(&conn_id) {
            Some(q) => q,
            None => Vec::new(),
        };
        let ghost before = queue@;
        proof {
            assert(spec_frames(before) =~= spec_queue_of(old(self)@.outbound, conn_id));
        }
        queue.push(frame);
        proof {
            lemma_frames_push(before, queue@, frame);
        }
        self.outbound_frames.insert(conn_id, queue);
        proof {
            assert(self@.outbound =~= old(self)@.outbound.insert(
                conn_id,
                spec_queue_of(old(self)@.outbound, conn_id).push(frame@),
            ));
        }
    }

    /// Queues a control message for connection `conn_id`, framed with the
    /// relay's protocol version. A message too large for one frame is
    /// dropped.
    pub fn queue_control_message(&mut self, conn_id: u32, message: ControlMessage)
        ensures
            final(self)@.table == old(self)@.table,
            final(self)@.negotiator == old(self)@.negotiator,
            final(self)@.violations == old(self)@.violations,
            final(self)@.buffers == old(self)@.buffers,
            spec_encode_control(message@).len() <= MAX_PAYLOAD_LEN ==> final(self)@.outbound
                == old(self)@.outbound.insert(
                conn_id,
                spec_queue_of(old(self)@.outbound, conn_id).push(spec_control_frame(message@)),
            ),
            spec_encode_control(message@).len() > MAX_PAYLOAD_LEN ==> final(self)@.outbound == old(self)@.outbound,
    {
        let payload = message.encode();
        let mut buffer: Vec<u8> = Vec::new();
        match FrameEncoder::encode_frame(
            &mut buffer,
            RELAY_PROTOCOL_VERSION,
            FrameType::Control,
            payload.as_slice(),
        ) {
            Ok(()) => {
                assert(buffer@ =~= spec_control_frame(message@));
                self.push_outbound(conn_id, buffer);
            },
            Err(_) => {},
        }
    }

    /// Queues `data` for connection `conn_id` and takes its length off the
    /// connection's send window.
    ///
    /// Without an open connection and enough credits the call fails with
    /// `InsufficientCredits`; data that does not fit in one frame fails with
    /// `FrameEncodingFailed`. A failure changes nothing.
    pub fn queue_data_frame(&mut self, conn_id: u32, data: &[u8]) -> (r: Result<(), EngineError>)
        requires
            old(self).wf(),
        ensures
            final(self).wf(),
            final(self)@.negotiator == old(self)@.negotiator,
            final(self)@.violations == old(self)@.violations,
            final(self)@.buffers == old(self)@.buffers,
            ({
                let t = old(self)@.table;
                let can_send = data@.len() <= u32::MAX && t.connections.contains_key(conn_id)
                    && t.connections[conn_id].state == ConnectionState::Open
                    && t.connections[conn_id].send_window >= data@.len();
                &&& !can_send ==> r == Err::<(), EngineError>(EngineError::InsufficientCredits)
                    && final(self)@ == old(self)@
                &&& can_send && data@.len() + 4 > MAX_PAYLOAD_LEN ==> r == Err::<(), EngineError>(
                    EngineError::FrameEncodingFailed,
                ) && final(self)@ == old(self)@
                &&& can_send && data@.len() + 4 <= MAX_PAYLOAD_LEN ==> r is Ok && final(self)@.table == spec_after_consume(t, conn_id, data@.len() as u32) && final(self)@.outbound == old(self)@.outbound.insert(
                    conn_id,
                    spec_queue_of(old(self)@.outbound, conn_id).push(
                        spec_encode_frame(
                            RELAY_PROTOCOL_VERSION,
                            FrameType::Data,
                            spec_encode_data(conn_id, data@),
                        ),
                    ),
                )
            }),
    {
        if data.len() > u32::MAX as usize {
            return Err(EngineError::InsufficientCredits);
        }
        let size: u32 = data.len() as u32;
        if !self.connection_table.can_send_data(conn_id, size) {
            return Err(EngineError::InsufficientCredits);
        }
        let frame = DataFrame::new(conn_id, copy_range(data, 0, data.len()));
        proof {
            assert(data@.subrange(0, data@.len() as int) =~= data@);
        }
        let payload = frame.encode();
        let mut buffer: Vec<u8> = Vec::new();
        match FrameEncoder::encode_frame(
            &mut buffer,
            RELAY_PROTOCOL_VERSION,
            FrameType::Data,
            payload.as_slice(),
        ) {
            Ok(()) => {
                assert(buffer@ =~= spec_encode_frame(
                    RELAY_PROTOCOL_VERSION,
                    FrameType::Data,
                    spec_encode_data(conn_id, data@),
                ));
                let _ = self.connection_table.consume_send_credits(conn_id, size);
                self.push_outbound(conn_id, buffer);
                Ok(())
            },
            Err(_) => Err(EngineError::FrameEncodingFailed),
        }
    }

    /// Produces the window updates that are due, grants them, and queues each
    /// on its connection.
    ///
    /// The result pairs each update with its connection id. There is one for
    /// each connection whose window was below a quarter of its initial value
    /// and no other; the order is not fixed.
    pub fn poll_control_frames(&mut self) -> (polled: Vec<(u32, ControlMessage)>)
        requires
            old(self).wf(),
        ensures
            final(self).wf(),
            final(self)@.negotiator == old(self)@.negotiator,
            final(self)@.violations == old(self)@.violations,
            final(self)@.buffers == old(self)@.buffers,
            final(self)@.table == (ConnectionTableView {
                connections: spec_after_poll(old(self)@.table.connections),
                ..old(self)@.table
            }),
            spec_polled_ids(polled@).no_duplicates(),
            forall|k: int|
                0 <= k < polled@.len() ==> {
                    let id = #[trigger] spec_polled_ids(polled@)[k];
                    &&& old(self)@.table.connections.contains_key(id)
                    &&& spec_update_due(old(self)@.table.connections[id])
                    &&& polled@[k].1@ == spec_window_update(
                        id,
                        old(self)@.table.connections[id],
                    )
                },
            forall|id: u32|
                old(self)@.table.connections.contains_key(id) && spec_update_due(
                    old(self)@.table.connections[id],
                ) ==> #[trigger] spec_polled_ids(polled@).contains(id),
            forall|id: u32| #[trigger]
                spec_queue_of(final(self)@.outbound, id) == spec_outbound_after_poll(
                    old(self)@.outbound,
                    old(self)@.table.connections,
                    id,
                ),
    {
        let frames = self.connection_table.poll_control_frames();
        let ghost conns = old(self)@.table.connections;
        let ghost out0 = old(self)@.outbound;
        let ghost ids = crate::connection_table::spec_conn_ids(frames@);
        let mut polled: Vec<(u32, ControlMessage)> = Vec::new();
        let mut i: usize = 0;
        proof {
            assert(spec_polled_ids(polled@) =~= ids.take(0));
        }
        while i < frames.len()
            invariant
                0 <= i <= frames@.len(),
                self@.violations == old(self)@.violations,
                ids == crate::connection_table::spec_conn_ids(frames@),
                ids.no_duplicates(),
                forall|k: int|
                    0 <= k < frames@.len() ==> {
                        let id = #[trigger] ids[k];
                        &&& conns.contains_key(id)
                        &&& spec_update_due(conns[id])
                        &&& frames@[k]@ == spec_window_update(id, conns[id])
                    },
                self@.table == (ConnectionTableView {
                    connections: spec_after_poll(conns),
                    ..old(self)@.table
                }),
                self.wf(),
                self@.negotiator == old(self)@.negotiator,
                self@.buffers == old(self)@.buffers,
                polled@.len() == i,
                spec_polled_ids(polled@) == ids.take(i as int),
                forall|k: int| 0 <= k < i ==> (#[trigger] polled@[k]).1@ == frames@[k]@,
                forall|id: u32| #[trigger]
                    spec_queue_of(self@.outbound, id) == (if ids.take(i as int).contains(id) {
                        spec_queue_of(out0, id).push(
                            spec_control_frame(spec_window_update(id, conns[id])),
                        )
                    } else {
                        spec_queue_of(out0, id)
                    }),
            decreases frames@.len() - i,
        {
            let message = frames[i].duplicate();
            let conn_id: u32 = message.conn_id();
            let ghost before_out = self@.outbound;
            let ghost prev_polled = polled@;
            proof {
                assert(ids[i as int] == conn_id);
                assert(!ids.take(i as int).contains(conn_id)) by {
                    if ids.take(i as int).contains(conn_id) {
                        let j = choose|j: int|
                            0 <= j < ids.take(i as int).len() && ids.take(i as int)[j] == conn_id;
                        assert(ids[j] == ids[i as int]);
                    }
                }
                assert(spec_encode_control(message@).len() == 9);
            }
            self.queue_control_message(conn_id, frames[i].duplicate());
            polled.push((conn_id, message));
            proof {
                let upto = ids.take(i as int + 1);
                let sofar = ids.take(i as int);
                assert(upto =~= sofar.push(conn_id));
                assert(spec_polled_ids(polled@) =~= spec_polled_ids(prev_polled).push(conn_id));
                assert forall|id: u32| #[trigger]
                    spec_queue_of(self@.outbound, id) == (if upto.contains(id) {
                        spec_queue_of(out0, id).push(
                            spec_control_frame(spec_window_update(id, conns[id])),
                        )
                    } else {
                        spec_queue_of(out0, id)
                    }) by {
                    if id == conn_id {
                        assert(upto[i as int] == conn_id);
                    } else {
                        assert(spec_queue_of(self@.outbound, id) == spec_queue_of(before_out, id));
                        if sofar.contains(id) {
                            let j = choose|j: int| 0 <= j < sofar.len() && sofar[j] == id;
                            assert(upto[j] == id);
                        }
                        if upto.contains(id) {
                            let j = choose|j: int| 0 <= j < upto.len() && upto[j] == id;
                            assert(sofar[j] == id);
                        }
                    }
                }
            }
            i += 1;
        }
        proof {
            assert(ids.take(frames@.len() as int) =~= ids);
            assert forall|id: u32| #[trigger]
                spec_queue_of(self@.outbound, id) == spec_outbound_after_poll(
                    out0,
                    conns,
                    id,
                ) by {
                if ids.contains(id) {
                    let j = choose|j: int| 0 <= j < ids.len() && ids[j] == id;
                    assert(conns.contains_key(ids[j]));
                }
            }
            assert forall|k: int| 0 <= k < polled@.len() implies {
                let id = #[trigger] spec_polled_ids(polled@)[k];
                &&& conns.contains_key(id)
                &&& spec_update_due(conns[id])
                &&& polled@[k].1@ == spec_window_update(id, conns[id])
            } by {
                assert(spec_polled_ids(polled@)[k] == ids[k]);
            }
        }
        polled
    }
}

/// The receiver that feeds what arrives on the transport of one connection
/// to a protocol engine.
pub struct ProtocolCallbacks {
    engine: ProtocolEngine,
    conn_id: u32,
}

impl ProtocolCallbacks {
    /// The engine behind the callbacks.
    pub closed spec fn spec_engine(&self) -> ProtocolEngine {
        self.engine
    }

    /// The connection of the callbacks.
    pub closed spec fn spec_conn_id(&self) -> u32 {
        self.conn_id
    }

    /// Callbacks that feed `engine` with what arrives for `conn_id`.
    pub fn new(engine: ProtocolEngine, conn_id: u32) -> (callbacks: ProtocolCallbacks)
        requires
            engine.wf(),
        ensures
            callbacks.spec_valid(),
            callbacks.spec_engine() == engine,
            callbacks.spec_conn_id() == conn_id,
    {
        ProtocolCallbacks { engine, conn_id }
    }

    /// The engine behind the callbacks.
    pub fn engine(&self) -> (engine: &ProtocolEngine)
        ensures
            *engine == self.spec_engine(),
    {
        &self.engine
    }

    /// Gives the engine back.
    pub fn into_engine(self) -> (engine: ProtocolEngine)
        ensures
            engine == self.spec_engine(),
    {
        self.engine
    }
}

impl TransportCallbacks for ProtocolCallbacks {
    open spec fn spec_valid(&self) -> bool {
        self.spec_engine().wf()
    }

    open spec fn spec_took_bytes(&self, data: Seq<u8>, after: &Self) -> bool {
        &&& after.spec_conn_id() == self.spec_conn_id()
        &&& after.spec_engine()@.table == spec_feed(
            self.spec_engine()@.table,
            self.spec_conn_id(),
            spec_buffer_of(self.spec_engine()@.buffers, self.spec_conn_id()) + data,
        ).0
    }

    fn on_bytes_received(&mut self, data: &[u8])
        ensures
            final(self).spec_conn_id() == old(self).spec_conn_id(),
            final(self).spec_engine()@.table == spec_feed(
                old(self).spec_engine()@.table,
                old(self).spec_conn_id(),
                spec_buffer_of(old(self).spec_engine()@.buffers, old(self).spec_conn_id()) + data@,
            ).0,
    {
        self.engine.on_transport_bytes(self.conn_id, data);
    }

    open spec fn spec_took_error(&self, error: TransportError, after: &Self) -> bool {
        *after == *self
    }

    fn on_transport_error(&mut self, error: TransportError) {
    }
}

} // verus!
