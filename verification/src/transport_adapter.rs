//! The interface between the pipeline and a transport: bytes go out through
//! a transport adapter, and bytes that arrive are handed to callbacks.

use vstd::prelude::*;

verus! {

/// Why a transport failed. Every failure is final for the transport it
/// happened on.
#[derive(Debug, Clone, Copy, PartialEq, Eq, Structural)]
pub enum TransportError {
    ConnectionLost,
    WriteBlocked,
    ReadError,
    Timeout,
}

/// The receiver of what arrives on a transport.
pub trait TransportCallbacks {
    /// The invariant of the receiver, which both callbacks keep. A receiver
    /// that states none has none.
    open spec fn spec_valid(&self) -> bool {
        true
    }

    /// What the receiver makes of bytes that arrive: whether `after` is
    /// this receiver once `data` has been handed to it. A receiver that
    /// states nothing allows every outcome.
    open spec fn spec_took_bytes(&self, data: Seq<u8>, after: &Self) -> bool {
        true
    }

    /// Bytes have arrived.
    fn on_bytes_received(&mut self, data: &[u8])
        requires
            old(self).spec_valid(),
        ensures
            final(self).spec_valid(),
            old(self).spec_took_bytes(data@, final(self)),
    ;

    /// What the receiver makes of a failure of the transport: whether
    /// `after` is this receiver once it was told of `error`. A receiver that
    /// states nothing allows every outcome.
    open spec fn spec_took_error(&self, error: TransportError, after: &Self) -> bool {
        true
    }

    /// The transport has failed.
    fn on_transport_error(&mut self, error: TransportError)
        requires
            old(self).spec_valid(),
        ensures
            final(self).spec_valid(),
            old(self).spec_took_error(error, final(self)),
    ;
}

/// What one reading step of a transport has for the receiver.
pub enum ReadEvent {
    /// Nothing has arrived.
    Nothing,
    /// These bytes have arrived.
    Bytes(Seq<u8>),
    /// The transport has failed.
    Failed(TransportError),
}

/// Whether `after` is the receiver `before` once it was told of `event`:
/// untouched if nothing has arrived, else what it makes of the bytes or of
/// the failure.
pub open spec fn spec_received<C: TransportCallbacks>(
    before: &C,
    event: ReadEvent,
    after: &C,
) -> bool {
    match event {
        ReadEvent::Nothing => *after == *before,
        ReadEvent::Bytes(data) => before.spec_took_bytes(data, after),
        ReadEvent::Failed(error) => before.spec_took_error(error, after),
    }
}

/// A transport that carries bytes.
pub trait TransportAdapter {
    /// What was written to the transport so far: the data of each write
    /// that succeeded, in order. A verified transport states its own
    /// account: with the empty account that stands here for want of one, no
    /// write can be shown to succeed.
    open spec fn spec_sent(&self) -> Seq<Seq<u8>> {
        Seq::<Seq<u8>>::empty()
    }

    /// What the transport makes of a write: whether it may answer `r` to a
    /// write of `data` and be `after` then. A transport that states nothing
    /// allows every outcome.
    open spec fn spec_wrote(
        &self,
        data: Seq<u8>,
        after: &Self,
        r: Result<(), TransportError>,
    ) -> bool {
        true
    }

    /// What closing makes of the transport: whether it may be `after` once
    /// it was closed. A transport that states nothing allows every outcome.
    open spec fn spec_closed_as(&self, after: &Self) -> bool {
        true
    }

    /// What a reading step makes of the transport: whether the step may
    /// leave it as `after` and have `event` for the receiver. A transport
    /// that states nothing allows every outcome.
    open spec fn spec_read(&self, after: &Self, event: ReadEvent) -> bool {
        true
    }

    /// Writes `data` to the transport. A write that succeeds is added to
    /// the account; a write that fails leaves it as it was.
    fn send_bytes(&mut self, data: &[u8]) -> (r: Result<(), TransportError>)
        ensures
            old(self).spec_wrote(data@, final(self), r),
            r is Ok ==> final(self).spec_sent() == old(self).spec_sent().push(data@),
            r is Err ==> final(self).spec_sent() == old(self).spec_sent(),
    ;

    /// Closes the transport.
    fn close_transport(&mut self)
        ensures
            old(self).spec_closed_as(final(self)),
            final(self).spec_sent() == old(self).spec_sent(),
    ;

    /// One reading step: what has arrived so far, or the failure of the
    /// transport, is handed to `callbacks`. The owner of the transport
    /// repeats the call for as long as the transport is open.
    fn start_reading<C: TransportCallbacks>(&mut self, callbacks: &mut C)
        requires
            old(callbacks).spec_valid(),
        ensures
            final(callbacks).spec_valid(),
            exists|event: ReadEvent|
                #![trigger old(self).spec_read(final(self), event)]
                old(self).spec_read(final(self), event) && spec_received(
                    old(callbacks),
                    event,
                    final(callbacks),
                ),
            final(self).spec_sent() == old(self).spec_sent(),
    ;
}

/// A transport in memory, for tests: what is sent piles up in an outbound
/// queue, and what is injected is delivered as if it had arrived.
pub struct FakeTransportAdapter {
    outbound_queue: Vec<u8>,
    inbound_queue: Vec<u8>,
    closed: bool,
    writes: Ghost<Seq<Seq<u8>>>,
}

/// A transport in memory as a mathematical value.
pub struct FakeTransportView {
    pub outbound: Seq<u8>,
    pub inbound: Seq<u8>,
    pub closed: bool,
    pub writes: Seq<Seq<u8>>,
}

impl View for FakeTransportAdapter {
    type V = FakeTransportView;

    closed spec fn view(&self) -> FakeTransportView {
        FakeTransportView {
            outbound: self.outbound_queue@,
            inbound: self.inbound_queue@,
            closed: self.closed,
            writes: self.writes@,
        }
    }
}

impl FakeTransportAdapter {
    /// An open transport with empty queues.
    pub fn new() -> (t: FakeTransportAdapter)
        ensures
            t@ == (FakeTransportView {
                outbound: Seq::<u8>::empty(),
                inbound: Seq::<u8>::empty(),
                closed: false,
                writes: Seq::<Seq<u8>>::empty(),
            }),
    {
        FakeTransportAdapter {
            outbound_queue: Vec::new(),
            inbound_queue: Vec::new(),
            closed: false,
            writes: Ghost(Seq::<Seq<u8>>::empty()),
        }
    }

    /// Makes `data` arrive on the transport.
    pub fn inject_bytes(&mut self, data: &[u8])
        ensures
            final(self)@ == (FakeTransportView {
                inbound: old(self)@.inbound + data@,
                ..old(self)@
            }),
    {
        self.inbound_queue.extend_from_slice(data);
        proof {
            assert(self@.inbound =~= old(self)@.inbound + data@);
        }
    }

    /// Takes everything that was sent out of the outbound queue.
    pub fn drain_outbound(&mut self) -> (sent: Vec<u8>)
        ensures
            sent@ == old(self)@.outbound,
            final(self)@ == (FakeTransportView {
                outbound: Seq::<u8>::empty(),
                ..old(self)@
            }),
    {
        let mut sent: Vec<u8> = Vec::new();
        std::mem::swap(&mut sent, &mut self.outbound_queue);
        sent
    }

    /// Whether the transport was closed.
    pub fn is_closed(&self) -> (closed: bool)
        ensures
            closed == self@.closed,
    {
        self.closed
    }

    /// Writes `data` to the outbound queue; a closed transport refuses with
    /// `ConnectionLost` and keeps its queue as it is.
    pub fn send(&mut self, data: &[u8]) -> (r: Result<(), TransportError>)
        ensures
            old(self)@.closed ==> r == Err::<(), TransportError>(TransportError::ConnectionLost)
                && final(self)@ == old(self)@,
            !old(self)@.closed ==> r is Ok && final(self)@ == (FakeTransportView {
                outbound: old(self)@.outbound + data@,
                writes: old(self)@.writes.push(data@),
                ..old(self)@
            }),
    {
        if self.closed {
            return Err(TransportError::ConnectionLost);
        }
        self.outbound_queue.extend_from_slice(data);
        self.writes = Ghost(self.writes@.push(data@));
        proof {
            assert(self@.outbound =~= old(self)@.outbound + data@);
        }
        Ok(())
    }

    /// Closes the transport. The queues stay as they are.
    pub fn close(&mut self)
        ensures
            final(self)@ == (FakeTransportView { closed: true, ..old(self)@ }),
    {
        self.closed = true;
    }

    /// Hands the injected bytes to `callbacks` in one piece and empties the
    /// inbound queue. A closed transport, or one without injected bytes,
    /// delivers nothing and leaves the callbacks as they are.
    pub fn deliver<C: TransportCallbacks>(&mut self, callbacks: &mut C)
        requires
            old(callbacks).spec_valid(),
        ensures
            final(callbacks).spec_valid(),
            old(self)@.closed ==> final(self)@ == old(self)@,
            !old(self)@.closed ==> final(self)@ == (FakeTransportView {
                inbound: Seq::<u8>::empty(),
                ..old(self)@
            }),
            old(self)@.closed || old(self)@.inbound.len() == 0 ==> *final(callbacks) == *old(callbacks),
            !old(self)@.closed && old(self)@.inbound.len() > 0 ==> old(callbacks).spec_took_bytes(
                old(self)@.inbound,
                final(callbacks),
            ),
    {
        if self.closed {
            return ;
        }
        let mut buffer: Vec<u8> = Vec::new();
        std::mem::swap(&mut buffer, &mut self.inbound_queue);
        if buffer.len() > 0 {
            callbacks.on_bytes_received(buffer.as_slice());
        }
        proof {
            assert(self@.inbound =~= Seq::<u8>::empty());
        }
    }
}

impl TransportAdapter for FakeTransportAdapter {
    open spec fn spec_sent(&self) -> Seq<Seq<u8>> {
        self@.writes
    }

    /// A closed transport refuses a write with `ConnectionLost` and stays
    /// as it is; an open one takes the data at the back of its outbound
    /// queue.
    open spec fn spec_wrote(
        &self,
        data: Seq<u8>,
        after: &Self,
        r: Result<(), TransportError>,
    ) -> bool {
        if self@.closed {
            r == Err::<(), TransportError>(TransportError::ConnectionLost) && after@ == self@
        } else {
            r is Ok && after@ == (FakeTransportView {
                outbound: self@.outbound + data,
                writes: self@.writes.push(data),
                ..self@
            })
        }
    }

    /// Closing marks the transport closed; the queues stay as they are.
    open spec fn spec_closed_as(&self, after: &Self) -> bool {
        after@ == (FakeTransportView { closed: true, ..self@ })
    }

    /// An open transport with injected bytes has them for the receiver in
    /// one piece and an empty inbound queue then. A closed transport stays
    /// as it is and has nothing for the receiver, nor has one without
    /// injected bytes.
    open spec fn spec_read(&self, after: &Self, event: ReadEvent) -> bool {
        if self@.closed {
            after@ == self@ && event is Nothing
        } else {
            &&& after@ == (FakeTransportView { inbound: Seq::<u8>::empty(), ..self@ })
            &&& event == (if self@.inbound.len() == 0 {
                ReadEvent::Nothing
            } else {
                ReadEvent::Bytes(self@.inbound)
            })
        }
    }

    fn send_bytes(&mut self, data: &[u8]) -> (r: Result<(), TransportError>) {
        self.send(data)
    }

    fn close_transport(&mut self) {
        self.close();
    }

    fn start_reading<C: TransportCallbacks>(&mut self, callbacks: &mut C) {
        self.deliver(callbacks);
        proof {
            let event = if old(self)@.closed || old(self)@.inbound.len() == 0 {
                ReadEvent::Nothing
            } else {
                ReadEvent::Bytes(old(self)@.inbound)
            };
            assert(old(self).spec_read(self, event) && spec_received(
                old(callbacks),
                event,
                callbacks,
            ));
        }
    }
}

/// A transport together with the receiver of what arrives on it.
pub struct TransportHandle<T: TransportAdapter, C: TransportCallbacks> {
    adapter: T,
    callbacks: C,
}

impl<T: TransportAdapter, C: TransportCallbacks> TransportHandle<T, C> {
    /// The invariant of the handle: that of its callbacks.
    pub closed spec fn wf(&self) -> bool {
        self.callbacks.spec_valid()
    }

    /// A handle on `adapter` that delivers to `callbacks`.
    pub fn new(adapter: T, callbacks: C) -> (handle: TransportHandle<T, C>)
        requires
            callbacks.spec_valid(),
        ensures
            handle.wf(),
            handle.spec_adapter() == adapter,
            handle.spec_callbacks() == callbacks,
    {
        TransportHandle { adapter, callbacks }
    }

    /// The transport of the handle.
    pub closed spec fn spec_adapter(&self) -> T {
        self.adapter
    }

    /// The callbacks of the handle.
    pub closed spec fn spec_callbacks(&self) -> C {
        self.callbacks
    }

    /// What was written to the transport so far.
    pub closed spec fn spec_sent(&self) -> Seq<Seq<u8>> {
        self.adapter.spec_sent()
    }

    /// Writes `data` to the transport and passes the transport's answer on:
    /// answer and transport are what the transport makes of the write. The
    /// callbacks are not touched.
    pub fn send_bytes(&mut self, data: &[u8]) -> (r: Result<(), TransportError>)
        requires
            old(self).wf(),
        ensures
            final(self).wf(),
            old(self).spec_adapter().spec_wrote(data@, &final(self).spec_adapter(), r),
            final(self).spec_callbacks() == old(self).spec_callbacks(),
            r is Ok ==> final(self).spec_sent() == old(self).spec_sent().push(data@),
            r is Err ==> final(self).spec_sent() == old(self).spec_sent(),
    {
        self.adapter.send_bytes(data)
    }

    /// One reading step: the transport is what the step makes of it, and
    /// the callbacks are what they make of what the step has for them.
    pub fn start_reading(&mut self)
        requires
            old(self).wf(),
        ensures
            final(self).wf(),
            exists|event: ReadEvent|
                #![trigger old(self).spec_adapter().spec_read(&final(self).spec_adapter(), event)]
                old(self).spec_adapter().spec_read(&final(self).spec_adapter(), event)
                    && spec_received(
                    &old(self).spec_callbacks(),
                    event,
                    &final(self).spec_callbacks(),
                ),
            final(self).spec_sent() == old(self).spec_sent(),
    {
        self.adapter.start_reading(&mut self.callbacks);
        proof {
            let event = choose|event: ReadEvent|
                #![trigger old(self).adapter.spec_read(&self.adapter, event)]
                old(self).adapter.spec_read(&self.adapter, event) && spec_received(
                    &old(self).callbacks,
                    event,
                    &self.callbacks,
                );
            assert(old(self).spec_adapter().spec_read(&self.spec_adapter(), event)
                && spec_received(&old(self).spec_callbacks(), event, &self.spec_callbacks()));
        }
    }

    /// Closes the transport: it is what closing makes of it. The callbacks
    /// are not touched.
    pub fn close(&mut self)
        requires
            old(self).wf(),
        ensures
            final(self).wf(),
            old(self).spec_adapter().spec_closed_as(&final(self).spec_adapter()),
            final(self).spec_callbacks() == old(self).spec_callbacks(),
            final(self).spec_sent() == old(self).spec_sent(),
    {
        self.adapter.close_transport();
    }

    /// The callbacks of the handle.
    pub fn callbacks(&self) -> (c: &C)
        requires
            self.wf(),
        ensures
            c.spec_valid(),
            *c == self.spec_callbacks(),
    {
        &self.callbacks
    }
}

} // verus!
