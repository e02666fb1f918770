//! The binding pump: one owner of the delay queue, the path rotator and the
//! active transport, which it drives tick by tick.
//!
//! A tick drains the frames that are ready, rotates the path if a rotation
//! is due, writes the ready frames to the transport, and then takes in the
//! frames that came out of the mixing pool. Ready frames are drained before
//! the rotation, so they cross to the new path.

use vstd::prelude::*;
use vstd::multiset::Multiset;
use std::marker::PhantomData;
use std::collections::HashMap;
use vstd::std_specs::iter::IteratorSpec;
use crate::anonymity_protocol::AnonymityProtocolEngine;
use crate::delay::{
    spec_at_least_one, spec_drain_ready, spec_frames_of, spec_took_in, DelayDistribution,
    DelayQueue,
};
use crate::heap::PendingView;
use crate::mixing::{spec_drain_batch, spec_drain_order, spec_rng_after_drain};
use crate::invariants::{AllowsDirectTimingCorrespondence, AllowsRelayLocalLinkability};
use crate::observability::{
    record_error, spec_error_index, spec_monotone, ErrorClass, ObservabilityLevel,
    ObservabilityState, ObservabilityView,
};
use crate::counters::spec_bump;
use crate::path_epoch::{EpochDurationDistribution, PathEpoch, PathEpochView};
use crate::protocol_engine::ProtocolEngine;
use crate::rng::{spec_frames, Frame};
use crate::transport_adapter::{TransportAdapter, TransportError};

verus! {

/// The most frames taken out of the mixing pool in one tick.
pub const MAX_MIX_BATCH: usize = 64;

/// The most frames released from the delay queue in one tick.
pub const MAX_RELEASE_BATCH: usize = 64;

/// Opens the transport of a path.
pub trait EpochTransportFactory<P, T: TransportAdapter> {
    /// What the factory makes of an open: whether it may answer `r` when
    /// it is asked for the transport of `path`, and be `after` then. A
    /// factory that states nothing allows every outcome.
    open spec fn spec_opened(&self, path: &P, r: Result<T, TransportError>, after: &Self) -> bool {
        true
    }

    /// Opens the transport for `path`.
    fn open_transport(&mut self, path: &P) -> (r: Result<T, TransportError>)
        ensures
            old(self).spec_opened(path, r, final(self)),
    ;
}

/// Why a pump stopped.
#[derive(Debug, Clone, Copy, PartialEq, Eq, Structural)]
pub enum PumpFailure {
    /// The transport of a new path could not be opened.
    OpenFailed(TransportError),
    /// A write to the transport failed.
    SendFailed(TransportError),
}

/// What one release step of a pump did.
#[derive(Debug, Clone, Copy, PartialEq, Eq, Structural)]
pub struct TickReport {
    /// The number of frames that were ready.
    pub ready: usize,
    /// The number of frames written to the transport.
    pub sent: usize,
    /// Whether the path was rotated.
    pub rotated: bool,
    /// Why the pump stopped, if it did.
    pub failure: Option<PumpFailure>,
}

/// Whether a release step put the pump on a new transport: the path was
/// rotated and the transport of the new path could be opened.
pub open spec fn spec_new_transport(report: TickReport) -> bool {
    report.rotated && !(report.failure is Some && report.failure->Some_0 is OpenFailed)
}

/// The observability state after `failure`: a failed write counts as one
/// transport error, and nothing else is counted.
pub open spec fn spec_after_failure(
    obs: ObservabilityView,
    failure: Option<PumpFailure>,
) -> ObservabilityView {
    if failure matches Some(PumpFailure::SendFailed(_)) && obs.level
        != ObservabilityLevel::OBS_NONE {
        ObservabilityView {
            errors: obs.errors.update(
                spec_error_index(ErrorClass::TRANSPORT_IO),
                spec_bump(obs.errors[spec_error_index(ErrorClass::TRANSPORT_IO)]),
            ),
            ..obs
        }
    } else {
        obs
    }
}

/// Whether the mixing step of a tick may take the engine from `before` to
/// `after` and hand out `mixed`. A running pump takes a batch of at most
/// `MAX_MIX_BATCH` frames out of the engine's pool; a stopped pump leaves
/// the engine alone and has no frames.
pub open spec fn spec_mix_step(
    running: bool,
    before: &AnonymityProtocolEngine,
    after: &AnonymityProtocolEngine,
    mixed: Seq<Seq<u8>>,
) -> bool {
    if running {
        &&& spec_drain_batch(before@.pool, MAX_MIX_BATCH as nat, after@.pool, mixed)
        &&& spec_drain_order(
            before@.pool,
            MAX_MIX_BATCH as nat,
            before.spec_rng_state(),
            after@.pool,
            mixed,
        )
        &&& after@.inbound == before@.inbound
        &&& after@.violations == before@.violations
        &&& after.spec_rng_state() == spec_rng_after_drain(
            before@.pool,
            MAX_MIX_BATCH as nat,
            before.spec_rng_state(),
        )
    } else {
        &&& after@ == before@
        &&& after.spec_rng_state() == before.spec_rng_state()
        &&& mixed.len() == 0
    }
}

/// The report of a release step in which `ready` frames were ready and
/// `sent` of them were written, given whether the path was rotated, the
/// failure of the open, if it failed, and the failure of a write, if one
/// failed. A failed open is reported before a failed write.
pub open spec fn spec_tick_report(
    ready: usize,
    rotated: bool,
    open_failure: Option<TransportError>,
    sent: usize,
    send_failure: Option<TransportError>,
) -> TickReport {
    TickReport {
        ready,
        sent,
        rotated,
        failure: match open_failure {
            Some(e) => Some(PumpFailure::OpenFailed(e)),
            None => match send_failure {
                Some(e) => Some(PumpFailure::SendFailed(e)),
                None => None,
            },
        },
    }
}

/// Makes the report of a release step from what the step met: the number
/// of ready frames, whether the path was rotated, the answer of the open
/// where it failed, the number of frames written, and the answer of the
/// write that failed, if one did.
pub fn tick_report(
    ready: usize,
    rotated: bool,
    open_failure: Option<TransportError>,
    sent: usize,
    send_failure: Option<TransportError>,
) -> (report: TickReport)
    ensures
        report == spec_tick_report(ready, rotated, open_failure, sent, send_failure),
{
    let failure: Option<PumpFailure> = match open_failure {
        Some(e) => Some(PumpFailure::OpenFailed(e)),
        None => match send_failure {
            Some(e) => Some(PumpFailure::SendFailed(e)),
            None => None,
        },
    };
    TickReport { ready, sent, rotated, failure }
}

/// The path that a rotator is on.
pub open spec fn spec_current_path<P>(epoch: PathEpochView<P>) -> P {
    epoch.paths[epoch.current_index as int]
}

/// The failure of the open in a release step: the answer of the factory
/// where the path was rotated and the open failed.
pub open spec fn spec_open_failure<T>(rotated: bool, opened: Result<T, TransportError>) -> Option<
    TransportError,
> {
    if rotated && opened is Err {
        Some(opened->Err_0)
    } else {
        None
    }
}

/// The transport that a release step writes to: the one that the factory
/// opened where the path was rotated and the open succeeded, else the one
/// that the pump had.
pub open spec fn spec_release_base<T>(had: T, rotated: bool, opened: Result<T, TransportError>) -> T {
    if rotated && opened is Ok {
        opened->Ok_0
    } else {
        had
    }
}

/// Whether `after` is the transport `before` once each of `frames`, in
/// order, was written to it and every write was answered `Ok`.
pub open spec fn spec_wrote_all<T: TransportAdapter>(
    before: T,
    frames: Seq<Seq<u8>>,
    after: T,
) -> bool
    decreases frames.len(),
{
    if frames.len() == 0 {
        after == before
    } else {
        exists|mid: T|
            spec_wrote_all(before, frames.drop_last(), mid) && #[trigger] mid.spec_wrote(
                frames.last(),
                &after,
                Ok(()),
            )
    }
}

/// Whether writing `frames` in order, up to the first write that fails, may
/// take the transport from `before` to `after` with `sent` frames written
/// and the failure `failure`: the first `sent` writes were answered `Ok`,
/// and either that was all, or the write of the frame after them was
/// answered with the failure and nothing was written after it.
pub open spec fn spec_sent_in_order<T: TransportAdapter>(
    before: T,
    frames: Seq<Seq<u8>>,
    sent: nat,
    failure: Option<TransportError>,
    after: T,
) -> bool {
    match failure {
        None => sent == frames.len() && spec_wrote_all(before, frames, after),
        Some(e) => sent < frames.len() && exists|mid: T| #[trigger]
            spec_wrote_all(before, frames.take(sent as int), mid) && mid.spec_wrote(
                frames[sent as int],
                &after,
                Err(e),
            ),
    }
}

/// Writes `frames` to `transport` in order and stops at the first write that
/// fails. Returns the number of frames written and the failure, if any.
pub fn send_in_order<T: TransportAdapter>(transport: &mut T, frames: &Vec<Frame>) -> (r: (
    usize,
    Option<TransportError>,
))
    ensures
        r.0 <= frames@.len(),
        r.1 is None ==> r.0 == frames@.len(),
        r.1 is Some ==> r.0 < frames@.len(),
        spec_sent_in_order(
            *old(transport),
            spec_frames(frames@),
            r.0 as nat,
            r.1,
            *final(transport),
        ),
        final(transport).spec_sent() == old(transport).spec_sent() + spec_frames(frames@).take(
            r.0 as int,
        ),
{
    let mut sent: usize = 0;
    let ghost all = spec_frames(frames@);
    proof {
        assert(old(transport).spec_sent() + all.take(0) =~= old(transport).spec_sent());
        assert(all.take(0).len() == 0);
    }
    while sent < frames.len()
        invariant
            0 <= sent <= frames@.len(),
            all == spec_frames(frames@),
            spec_wrote_all(*old(transport), all.take(sent as int), *transport),
            transport.spec_sent() == old(transport).spec_sent() + all.take(sent as int),
        decreases frames@.len() - sent,
    {
        let ghost here = *transport;
        let answer = transport.send_bytes(frames[sent].as_slice());
        match answer {
            Ok(()) => {
                proof {
                    let longer = all.take(sent + 1);
                    assert(longer =~= all.take(sent as int).push(frames@[sent as int]@));
                    assert(longer.drop_last() =~= all.take(sent as int));
                    assert(longer.last() == frames@[sent as int]@);
                    assert(answer->Ok_0 == ());
                    assert(answer == Ok::<(), TransportError>(()));
                    assert(here.spec_wrote(longer.last(), &*transport, answer));
                    assert(spec_wrote_all(*old(transport), longer.drop_last(), here));
                    assert(spec_wrote_all(*old(transport), longer.drop_last(), here)
                        && here.spec_wrote(longer.last(), &*transport, Ok(())));
                    assert(spec_wrote_all(*old(transport), longer, *transport));
                    assert(transport.spec_sent() =~= old(transport).spec_sent() + longer);
                }
                sent += 1;
            },
            Err(e) => {
                proof {
                    assert(all[sent as int] == frames@[sent as int]@);
                    assert(spec_wrote_all(*old(transport), all.take(sent as int), here)
                        && here.spec_wrote(all[sent as int], &*transport, Err(e)));
                }
                return (sent, Some(e));
            },
        }
    }
    proof {
        assert(all.take(sent as int) =~= all);
    }
    (sent, None)
}

/// The binding pump of the anonymity pipeline.
pub struct AnonymityBindingPump<
    P,
    DD: DelayDistribution,
    ED: EpochDurationDistribution,
    T: TransportAdapter,
    F: EpochTransportFactory<P, T>,
> {
    delay: DelayQueue<DD>,
    path_epoch: PathEpoch<P, ED>,
    factory: F,
    transport: Option<T>,
    running: bool,
}

impl<
    P,
    DD: DelayDistribution,
    ED: EpochDurationDistribution,
    T: TransportAdapter,
    F: EpochTransportFactory<P, T>,
> AnonymityBindingPump<P, DD, ED, T, F> {
    /// The invariant of the pump: those of its queue and rotator, and a
    /// running pump has a transport.
    pub closed spec fn wf(&self) -> bool {
        &&& self.delay.wf()
        &&& self.path_epoch.wf()
        &&& self.running ==> self.transport is Some
    }

    /// The delay queue of the pump.
    pub closed spec fn spec_delay(&self) -> DelayQueue<DD> {
        self.delay
    }

    /// The path rotator of the pump.
    pub closed spec fn spec_path_epoch(&self) -> PathEpoch<P, ED> {
        self.path_epoch
    }

    /// Whether the pump is running.
    pub closed spec fn spec_running(&self) -> bool {
        self.running
    }

    /// The factory that opens the pump's transports.
    pub closed spec fn spec_factory(&self) -> F {
        self.factory
    }

    /// The transport that the pump writes to, if it has one.
    pub closed spec fn spec_transport(&self) -> Option<T> {
        self.transport
    }

    /// What was written to the pump's transport so far; nothing while the
    /// pump has no transport.
    pub open spec fn spec_transport_sent(&self) -> Seq<Seq<u8>> {
        match self.spec_transport() {
            Some(t) => t.spec_sent(),
            None => Seq::<Seq<u8>>::empty(),
        }
    }

    /// Whether starting may take this pump to `after` and say `started`:
    /// the factory is asked for the transport of the current path; the pump
    /// has that transport and has started exactly if the factory opened it.
    pub open spec fn spec_start(&self, after: &Self, started: bool) -> bool {
        exists|opened: Result<T, TransportError>| #[trigger]
            self.spec_factory().spec_opened(
                &spec_current_path(self.spec_path_epoch()@),
                opened,
                &after.spec_factory(),
            ) && started == (opened is Ok) && after.spec_transport() == (match opened {
                Ok(t) => Some(t),
                Err(_) => self.spec_transport(),
            })
    }

    /// Whether the release step of a tick at time `now` may take this pump
    /// to `after` and report `report`.
    ///
    /// A stopped pump stays as it is and reports nothing. Of a running pump,
    /// up to `MAX_RELEASE_BATCH` ready frames leave the delay queue; the
    /// path is rotated exactly if a rotation is due; the frames that were
    /// written are the first of the ready frames, in order, behind what the
    /// transport had before, or on a fresh account if the pump went to the
    /// transport of a new path; and the pump runs on exactly if nothing
    /// failed.
    pub open spec fn spec_release(&self, now: u64, after: &Self, report: TickReport) -> bool {
        &&& after.spec_delay().spec_max_delay() == self.spec_delay().spec_max_delay()
        &&& after.spec_delay().spec_min_delay() == self.spec_delay().spec_min_delay()
        &&& after.spec_path_epoch().spec_max_duration() == self.spec_path_epoch().spec_max_duration()
        &&& !self.spec_running() ==> *after == *self && report == (TickReport {
            ready: 0,
            sent: 0,
            rotated: false,
            failure: None,
        })
        &&& self.spec_running() ==> {
            &&& after.spec_running() == (report.failure is None)
            &&& report.sent <= report.ready <= MAX_RELEASE_BATCH
            &&& report.failure is None ==> report.sent == report.ready
            &&& report.failure is Some && report.failure->Some_0 is SendFailed ==> report.sent
                < report.ready
            &&& report.failure is Some && report.failure->Some_0 is OpenFailed ==> report.rotated
            &&& after.spec_transport() is Some
            &&& self.spec_release_calls(now, after, report)
            &&& exists|ready: Seq<Seq<u8>>, base: Seq<Seq<u8>>|
                #![auto]
                ready.len() == report.ready && spec_drain_ready(
                    self.spec_delay()@,
                    now,
                    MAX_RELEASE_BATCH as nat,
                    after.spec_delay()@,
                    ready,
                ) && after.spec_transport_sent() == base + ready.take(report.sent as int) && (
                !spec_new_transport(report) ==> base == self.spec_transport_sent())
            &&& report.rotated == (now >= self.spec_path_epoch()@.next_rotation)
            &&& after.spec_path_epoch()@.paths == self.spec_path_epoch()@.paths
            &&& !report.rotated ==> after.spec_path_epoch()@ == self.spec_path_epoch()@
            &&& report.rotated && self.spec_path_epoch()@.paths.len() > 1
                ==> after.spec_path_epoch()@.current_index
                != self.spec_path_epoch()@.current_index
        }
    }

    /// Whether the factory and the transport were asked as the release step
    /// of a running pump asks them, and answered as `report` says.
    ///
    /// The factory is asked exactly if the path was rotated, and then for
    /// the transport of the path that the rotator is on. The ready frames
    /// are written in order, up to the first write that fails, to the
    /// transport that the factory opened, or to the one that the pump had
    /// where none was opened. The report is made of the answers: a failed
    /// open is reported with the factory's answer, and else a failed write
    /// with the transport's.
    pub open spec fn spec_release_calls(&self, now: u64, after: &Self, report: TickReport) -> bool {
        exists|
            ready: Seq<Seq<u8>>,
            opened: Result<T, TransportError>,
            send_failure: Option<TransportError>,
        |
            #![trigger spec_sent_in_order(spec_release_base(self.spec_transport()->Some_0, report.rotated, opened), ready, report.sent as nat, send_failure, after.spec_transport()->Some_0)]
            {
                &&& ready.len() == report.ready
                &&& spec_drain_ready(
                    self.spec_delay()@,
                    now,
                    MAX_RELEASE_BATCH as nat,
                    after.spec_delay()@,
                    ready,
                )
                &&& if report.rotated {
                    self.spec_factory().spec_opened(
                        &spec_current_path(after.spec_path_epoch()@),
                        opened,
                        &after.spec_factory(),
                    )
                } else {
                    after.spec_factory() == self.spec_factory()
                }
                &&& spec_sent_in_order(
                    spec_release_base(self.spec_transport()->Some_0, report.rotated, opened),
                    ready,
                    report.sent as nat,
                    send_failure,
                    after.spec_transport()->Some_0,
                )
                &&& report == spec_tick_report(
                    report.ready,
                    report.rotated,
                    spec_open_failure(report.rotated, opened),
                    report.sent,
                    send_failure,
                )
            }
    }

    /// Whether the refill step of a tick at time `now` may take this pump to
    /// `after` when it is given `mixed`.
    ///
    /// A stopped pump stays as it is. A running pump takes each frame into
    /// the delay queue, where it waits for a release time within the
    /// distribution's bounds after `now`; the ready frames, the rotator and
    /// the transport are not touched.
    pub open spec fn spec_refill(&self, now: u64, mixed: Seq<Seq<u8>>, after: &Self) -> bool {
        if self.spec_running() {
            &&& after.spec_running()
            &&& after.spec_path_epoch() == self.spec_path_epoch()
            &&& after.spec_transport_sent() == self.spec_transport_sent()
            &&& after.spec_delay().spec_max_delay() == self.spec_delay().spec_max_delay()
            &&& after.spec_delay().spec_min_delay() == self.spec_delay().spec_min_delay()
            &&& after.spec_delay()@.ready == self.spec_delay()@.ready
            &&& spec_took_in(
                self.spec_delay()@.pending,
                now,
                self.spec_delay().spec_min_delay(),
                self.spec_delay().spec_max_delay(),
                mixed,
                after.spec_delay()@.pending,
            )
        } else {
            *after == *self
        }
    }

    /// A pump over `delay` and `path_epoch` that opens its transports with
    /// `factory`. It does not run until it is started.
    pub fn new(delay: DelayQueue<DD>, path_epoch: PathEpoch<P, ED>, factory: F) -> (pump:
        AnonymityBindingPump<P, DD, ED, T, F>)
        requires
            delay.wf(),
            path_epoch.wf(),
        ensures
            pump.wf(),
            !pump.spec_running(),
            pump.spec_delay() == delay,
            pump.spec_path_epoch() == path_epoch,
    {
        AnonymityBindingPump { delay, path_epoch, factory, transport: None, running: false }
    }

    /// Opens the transport of the current path and starts the pump. If the
    /// transport cannot be opened the pump stays stopped.
    pub fn start(&mut self) -> (started: bool)
        requires
            old(self).wf(),
        ensures
            final(self).wf(),
            final(self).spec_running() == started,
            final(self).spec_delay() == old(self).spec_delay(),
            final(self).spec_path_epoch() == old(self).spec_path_epoch(),
            old(self).spec_start(final(self), started),
    {
        let answer = self.factory.open_transport(self.path_epoch.current_path());
        let ghost opened = answer;
        match answer {
            Ok(t) => {
                self.transport = Some(t);
                self.running = true;
                proof {
                    assert(old(self).spec_factory().spec_opened(
                        &spec_current_path(old(self).spec_path_epoch()@),
                        opened,
                        &self.spec_factory(),
                    ));
                }
                true
            },
            Err(_) => {
                self.running = false;
                proof {
                    assert(old(self).spec_factory().spec_opened(
                        &spec_current_path(old(self).spec_path_epoch()@),
                        opened,
                        &self.spec_factory(),
                    ));
                }
                false
            },
        }
    }

    /// Stops the pump. Frames still in the queue stay there and are not
    /// flushed.
    pub fn stop(&mut self)
        requires
            old(self).wf(),
        ensures
            final(self).wf(),
            !final(self).spec_running(),
            final(self).spec_delay() == old(self).spec_delay(),
            final(self).spec_path_epoch() == old(self).spec_path_epoch(),
    {
        self.running = false;
    }

    /// Whether the pump is running.
    pub fn is_running(&self) -> (running: bool)
        ensures
            running == self.spec_running(),
    {
        self.running
    }

    /// Whether a tick may be made at time `now`: the release times and the
    /// rotation time it can choose fit in 64 bits of nanoseconds.
    pub fn can_tick_at(&self, now: u64) -> (b: bool)
        ensures
            b == (now + spec_at_least_one(self.spec_delay().spec_max_delay()) <= u64::MAX && now
                + spec_at_least_one(self.spec_path_epoch().spec_max_duration()) <= u64::MAX),
    {
        self.delay.can_enqueue_at(now) && self.path_epoch.can_schedule_at(now)
    }

    /// The first half of a tick at time `now`: release.
    ///
    /// The frames that are ready are drained from the delay queue, at most
    /// `MAX_RELEASE_BATCH` of them. Then, if a rotation is due, the path is
    /// rotated and the transport of the new path is opened; if that fails,
    /// the ready frames are written to the old transport as far as it takes
    /// them and the pump stops. Otherwise the ready frames are written to
    /// the transport in order; the first failed write is counted as a
    /// transport error and stops the pump. A stopped pump does nothing.
    pub fn release(&mut self, now: u64, obs: &mut ObservabilityState) -> (report: TickReport)
        requires
            old(self).wf(),
            now + spec_at_least_one(old(self).spec_path_epoch().spec_max_duration()) <= u64::MAX,
        ensures
            final(self).wf(),
            final(obs)@ == spec_after_failure(old(obs)@, report.failure),
            old(self).spec_release(now, final(self), report),
    {
        if !self.running {
            return TickReport { ready: 0, sent: 0, rotated: false, failure: None };
        }
        let ready = self.delay.drain_ready_at(now, MAX_RELEASE_BATCH);
        proof {
            assert(spec_frames(ready@).len() == ready@.len());
        }
        let rotated = self.path_epoch.rotate_if_due(now);
        let mut open_failure: Option<TransportError> = None;
        let ghost mut opened: Result<T, TransportError> = Err(TransportError::Timeout);
        if rotated {
            let answer = self.factory.open_transport(self.path_epoch.current_path());
            proof {
                opened = answer;
            }
            match answer {
                Ok(t) => {
                    match &mut self.transport {
                        Some(previous) => {
                            previous.close_transport();
                        },
                        None => {},
                    }
                    self.transport = Some(t);
                },
                Err(e) => {
                    open_failure = Some(e);
                },
            }
        }
        let ghost base = self.spec_transport_sent();
        let ghost written_to = self.transport->Some_0;
        proof {
            assert(written_to == spec_release_base(
                old(self).spec_transport()->Some_0,
                rotated,
                opened,
            ));
            assert(open_failure == spec_open_failure(rotated, opened));
        }
        let (sent, send_failure) = match &mut self.transport {
            Some(t) => send_in_order(t, &ready),
            None => (0, None),
        };
        let ghost released = spec_frames(ready@);
        let report = tick_report(ready.len(), rotated, open_failure, sent, send_failure);
        let failure = report.failure;
        proof {
            assert(self.spec_transport_sent() == base + released.take(sent as int));
            assert(!spec_new_transport(report) ==> base == old(self).spec_transport_sent());
        }
        match failure {
            Some(PumpFailure::SendFailed(_)) => {
                record_error(obs, ErrorClass::TRANSPORT_IO);
                self.running = false;
            },
            Some(PumpFailure::OpenFailed(_)) => {
                self.running = false;
            },
            None => {},
        }
        proof {
            assert(self.spec_transport_sent() == base + released.take(report.sent as int));
            assert(exists|ready: Seq<Seq<u8>>, base: Seq<Seq<u8>>|
                #![auto]
                ready.len() == report.ready && spec_drain_ready(
                    old(self).spec_delay()@,
                    now,
                    MAX_RELEASE_BATCH as nat,
                    self.spec_delay()@,
                    ready,
                ) && self.spec_transport_sent() == base + ready.take(report.sent as int) && (
                !spec_new_transport(report) ==> base == old(self).spec_transport_sent())) by {
                assert(released.len() == report.ready && spec_drain_ready(
                    old(self).spec_delay()@,
                    now,
                    MAX_RELEASE_BATCH as nat,
                    self.spec_delay()@,
                    released,
                ) && self.spec_transport_sent() == base + released.take(report.sent as int) && (
                !spec_new_transport(report) ==> base == old(self).spec_transport_sent()));
            }
            assert(spec_sent_in_order(
                spec_release_base(old(self).spec_transport()->Some_0, report.rotated, opened),
                released,
                report.sent as nat,
                send_failure,
                self.spec_transport()->Some_0,
            ));
            assert(old(self).spec_release_calls(now, self, report));
        }
        report
    }

    /// The second half of a tick at time `now`: refill. Each frame of
    /// `mixed`, in order, is taken into the delay queue. A stopped pump
    /// drops the frames.
    pub fn refill(&mut self, now: u64, mixed: Vec<Frame>)
        requires
            old(self).wf(),
            now + spec_at_least_one(old(self).spec_delay().spec_max_delay()) <= u64::MAX,
        ensures
            final(self).wf(),
            old(self).spec_refill(now, spec_frames(mixed@), final(self)),
    {
        if !self.running {
            return ;
        }
        let ghost before = self.delay@.pending;
        let ghost min = self.delay.spec_min_delay();
        let ghost max = self.delay.spec_max_delay();
        let ghost all = mixed@;
        let ghost mut entries = Seq::<PendingView>::empty();
        proof {
            vstd::seq_lib::to_multiset_len(entries);
            vstd::multiset::lemma_multiset_empty_len(entries.to_multiset());
            assert(entries.to_multiset() =~= Multiset::<PendingView>::empty());
            assert(spec_frames_of(entries) =~= spec_frames(all).take(0));
            assert(before =~= before.add(entries.to_multiset()));
        }
        for frame in it: mixed
            invariant
                it.seq() == all,
                self.wf(),
                self.running,
                self.path_epoch == old(self).path_epoch,
                self.transport == old(self).transport,
                self.delay.spec_max_delay() == max,
                self.delay.spec_min_delay() == min,
                self.delay@.ready == old(self).delay@.ready,
                now + spec_at_least_one(max) <= u64::MAX,
                spec_frames_of(entries) == spec_frames(all).take(it.index() as int),
                forall|i: int|
                    0 <= i < entries.len() ==> spec_at_least_one(min) <= (
                    #[trigger] entries[i]).ready_at - now <= spec_at_least_one(max),
                self.delay@.pending == before.add(entries.to_multiset()),
        {
            let ghost pending_before = self.delay@.pending;
            self.delay.enqueue_at(now, frame);
            proof {
                let (ready_at, nonce) = choose|ready_at: u64, nonce: u64|
                    #![auto]
                    self.delay@.pending == pending_before.insert(
                        PendingView { ready_at, nonce, frame: frame@ },
                    ) && spec_at_least_one(min) <= ready_at - now <= spec_at_least_one(max);
                let entry = PendingView { ready_at, nonce, frame: frame@ };
                let longer = entries.push(entry);
                vstd::seq_lib::to_multiset_build(entries, entry);
                assert(self.delay@.pending =~= before.add(longer.to_multiset()));
                assert(spec_frames_of(longer) =~= spec_frames_of(entries).push(frame@));
                assert(spec_frames(all).take(it.index() + 1) =~= spec_frames(all).take(
                    it.index() as int,
                ).push(frame@));
                entries = longer;
            }
        }
        proof {
            assert(spec_frames(all).take(all.len() as int) =~= spec_frames(all));
            assert(spec_frames_of(entries) == spec_frames(all));
        }
    }

    /// A whole tick at time `now` for an owner that also holds the protocol
    /// engine: release, then the frames that the mixing pool hands out, at
    /// most `MAX_MIX_BATCH`, are taken into the delay queue.
    pub fn tick(
        &mut self,
        now: u64,
        engine: &mut AnonymityProtocolEngine,
        obs: &mut ObservabilityState,
    ) -> (report: TickReport)
        requires
            old(self).wf(),
            now + spec_at_least_one(old(self).spec_path_epoch().spec_max_duration()) <= u64::MAX,
            now + spec_at_least_one(old(self).spec_delay().spec_max_delay()) <= u64::MAX,
        ensures
            final(self).wf(),
            final(obs)@ == spec_after_failure(old(obs)@, report.failure),
            exists|mid: Self, mixed: Seq<Seq<u8>>|
                #![trigger old(self).spec_release(now, &mid, report), mid.spec_refill(now, mixed, final(self))]
                {
                    &&& old(self).spec_release(now, &mid, report)
                    &&& spec_mix_step(mid.spec_running(), old(engine), final(engine), mixed)
                    &&& mid.spec_refill(now, mixed, final(self))
                },
            final(self).spec_running() == (old(self).spec_running() && report.failure is None),
            report.sent <= report.ready <= MAX_RELEASE_BATCH,
            !old(self).spec_running() ==> final(engine)@ == old(engine)@,
    {
        let report = self.release(now, obs);
        let ghost mid = *self;
        let ghost mut handed = Seq::<Seq<u8>>::empty();
        if self.running {
            let mixed = engine.drain_batch(MAX_MIX_BATCH);
            proof {
                handed = spec_frames(mixed@);
            }
            self.refill(now, mixed);
        }
        proof {
            assert(old(self).spec_release(now, &mid, report) && spec_mix_step(
                mid.spec_running(),
                old(engine),
                engine,
                handed,
            ) && mid.spec_refill(now, handed, self));
        }
        report
    }
}

/// The pump of the connection-oriented variant: it forwards the frames of
/// each connection to that connection's transport at once, in the order in
/// which the engine hands them out, which is last queued first, and so
/// offers none of the anonymity guarantees.
pub struct BindingPump<
    Phase: AllowsDirectTimingCorrespondence + AllowsRelayLocalLinkability,
    T: TransportAdapter,
> {
    transports: HashMap<u32, T>,
    running: bool,
    _phase: PhantomData<Phase>,
}

impl<
    Phase: AllowsDirectTimingCorrespondence + AllowsRelayLocalLinkability,
    T: TransportAdapter,
> BindingPump<Phase, T> {
    /// The transport of each connection that has one.
    pub closed spec fn spec_transports(&self) -> Map<u32, T> {
        self.transports@
    }

    /// The connections that have a transport.
    pub open spec fn spec_connections(&self) -> Set<u32> {
        self.spec_transports().dom()
    }

    /// Whether the pump is running.
    pub closed spec fn spec_running(&self) -> bool {
        self.running
    }

    /// What was written to the transport of connection `conn_id` so far;
    /// nothing for a connection without transport.
    pub open spec fn spec_sent_of(&self, conn_id: u32) -> Seq<Seq<u8>> {
        if self.spec_transports().contains_key(conn_id) {
            self.spec_transports()[conn_id].spec_sent()
        } else {
            Seq::<Seq<u8>>::empty()
        }
    }

    /// Whether writing `frames` to the transport of connection `conn_id`
    /// may take a running pump that has that transport to `after` with
    /// `sent` frames written: the frames are written in order up to the
    /// first write that fails; if none fails the connection keeps its
    /// transport, as the writes left it, and else the connection loses it.
    /// The transports of the other connections are not touched.
    pub open spec fn spec_send_frames(
        &self,
        conn_id: u32,
        frames: Seq<Seq<u8>>,
        after: &Self,
        sent: usize,
    ) -> bool {
        exists|failure: Option<TransportError>, written: T|
            #![trigger spec_sent_in_order(self.spec_transports()[conn_id], frames, sent as nat, failure, written)]
            {
                &&& spec_sent_in_order(
                    self.spec_transports()[conn_id],
                    frames,
                    sent as nat,
                    failure,
                    written,
                )
                &&& after.spec_transports() == if failure is None {
                    self.spec_transports().insert(conn_id, written)
                } else {
                    self.spec_transports().remove(conn_id)
                }
            }
    }

    /// A pump without transports. It does not run until it is started.
    pub fn new() -> (pump: BindingPump<Phase, T>)
        ensures
            !pump.spec_running(),
            pump.spec_transports() == Map::<u32, T>::empty(),
            pump.spec_connections() == Set::<u32>::empty(),
    {
        let pump = BindingPump { transports: HashMap::new(), running: false, _phase: PhantomData };
        proof {
            assert(pump.spec_transports() =~= Map::<u32, T>::empty());
            assert(pump.spec_connections() =~= Set::<u32>::empty());
        }
        pump
    }

    /// Gives connection `conn_id` the transport `transport`, in place of the
    /// one it had, if any.
    pub fn add_transport(&mut self, conn_id: u32, transport: T)
        ensures
            final(self).spec_running() == old(self).spec_running(),
            final(self).spec_transports() == old(self).spec_transports().insert(conn_id, transport),
            final(self).spec_connections() == old(self).spec_connections().insert(conn_id),
    {
        broadcast use vstd::std_specs::hash::group_hash_axioms;

        self.transports.insert(conn_id, transport);
        proof {
            assert(self.spec_connections() =~= old(self).spec_connections().insert(conn_id));
        }
    }

    /// Starts the pump.
    pub fn start(&mut self)
        ensures
            final(self).spec_running(),
            final(self).spec_transports() == old(self).spec_transports(),
    {
        self.running = true;
    }

    /// Stops the pump.
    pub fn stop(&mut self)
        ensures
            !final(self).spec_running(),
            final(self).spec_transports() == old(self).spec_transports(),
    {
        self.running = false;
    }

    /// Whether the pump is running.
    pub fn is_running(&self) -> (running: bool)
        ensures
            running == self.spec_running(),
    {
        self.running
    }

    /// Whether connection `conn_id` has a transport.
    pub fn has_transport(&self, conn_id: u32) -> (b: bool)
        ensures
            b == self.spec_connections().contains(conn_id),
    {
        broadcast use vstd::std_specs::hash::group_hash_axioms;

        self.transports.contains_key(&conn_id)
    }

    /// Takes all frames queued for connection `conn_id` out of the engine.
    /// A stopped pump, or a connection without transport, takes nothing.
    pub fn take_frames(&self, conn_id: u32, engine: &mut ProtocolEngine) -> (frames: Vec<Frame>)
        ensures
            final(engine)@.table == old(engine)@.table,
            final(engine)@.buffers == old(engine)@.buffers,
            final(engine)@.negotiator == old(engine)@.negotiator,
            final(engine)@.violations == old(engine)@.violations,
            !self.spec_running() || !self.spec_connections().contains(conn_id) ==> frames@.len()
                == 0 && final(engine)@ == old(engine)@,
            self.spec_running() && self.spec_connections().contains(conn_id) ==> spec_frames(
                frames@,
            ) == crate::protocol_engine::spec_queue_of(old(engine)@.outbound, conn_id).reverse()
                && crate::protocol_engine::spec_queue_of(final(engine)@.outbound, conn_id).len()
                == 0,
    {
        broadcast use vstd::std_specs::hash::group_hash_axioms;

        let mut frames: Vec<Frame> = Vec::new();
        if !self.running || !self.transports.contains_key(&conn_id) {
            return frames;
        }
        let ghost queue = crate::protocol_engine::spec_queue_of(old(engine)@.outbound, conn_id);
        proof {
            assert(queue.take(queue.len() as int) =~= queue);
            assert(spec_frames(frames@) =~= queue.skip(queue.len() as int).reverse());
        }
        loop
            invariant
                engine@.table == old(engine)@.table,
                engine@.buffers == old(engine)@.buffers,
                engine@.negotiator == old(engine)@.negotiator,
                engine@.violations == old(engine)@.violations,
                frames@.len() <= queue.len(),
                crate::protocol_engine::spec_queue_of(engine@.outbound, conn_id) == queue.take(
                    queue.len() - frames@.len(),
                ),
                spec_frames(frames@) == queue.skip(queue.len() - frames@.len()).reverse(),
            ensures
                engine@.table == old(engine)@.table,
                engine@.buffers == old(engine)@.buffers,
                engine@.negotiator == old(engine)@.negotiator,
                engine@.violations == old(engine)@.violations,
                spec_frames(frames@) == queue.reverse(),
                crate::protocol_engine::spec_queue_of(engine@.outbound, conn_id).len() == 0,
            decreases crate::protocol_engine::spec_queue_of(engine@.outbound, conn_id).len(),
        {
            let ghost left = queue.len() - frames@.len();
            let ghost before = frames@;
            match engine.next_outbound_frame(conn_id) {
                Some(frame) => {
                    frames.push(frame);
                    proof {
                        crate::rng::lemma_frames_push(before, frames@, frame);
                        assert(queue.take(left).drop_last() =~= queue.take(left - 1));
                        assert(frame@ == queue[left - 1]);
                        assert(queue.skip(left - 1).reverse() =~= queue.skip(left).reverse().push(
                            queue[left - 1],
                        ));
                    }
                },
                None => {
                    proof {
                        assert(left == 0);
                        assert(queue.skip(0) =~= queue);
                    }
                    break ;
                },
            }
        }
        frames
    }

    /// Writes `frames` to the transport of connection `conn_id`, in order.
    ///
    /// The first failed write is counted as a transport error, and the
    /// connection loses its transport. Returns the number of frames
    /// written. A stopped pump, or a connection without transport, writes
    /// nothing.
    pub fn send_frames(&mut self, conn_id: u32, frames: Vec<Frame>, obs: &mut ObservabilityState) -> (sent:
        usize)
        ensures
            final(self).spec_running() == old(self).spec_running(),
            spec_monotone(old(obs)@, final(obs)@),
            sent <= frames@.len(),
            !old(self).spec_running() || !old(self).spec_connections().contains(conn_id) ==> sent
                == 0 && final(obs)@ == old(obs)@ && final(self).spec_transports() == old(self).spec_transports(),
            old(self).spec_running() && old(self).spec_connections().contains(conn_id) ==> {
                &&& old(self).spec_send_frames(conn_id, spec_frames(frames@), final(self), sent)
                &&& (final(self).spec_connections() == old(self).spec_connections() || final(self).spec_connections() == old(self).spec_connections().remove(conn_id))
                &&& final(self).spec_connections().contains(conn_id) ==> sent == frames@.len()
                    && final(obs)@ == old(obs)@ && final(self).spec_sent_of(conn_id) == old(self).spec_sent_of(conn_id) + spec_frames(frames@)
                &&& !final(self).spec_connections().contains(conn_id) ==> sent < frames@.len()
                    && final(obs)@ == spec_after_failure(
                    old(obs)@,
                    Some(PumpFailure::SendFailed(TransportError::ConnectionLost)),
                )
            },
    {
        broadcast use vstd::std_specs::hash::group_hash_axioms;

        if !self.running || !self.transports.contains_key(&conn_id) {
            return 0;
        }
        let mut transport = self.transports.remove(&conn_id).unwrap();
        let ghost had = transport;
        let (sent, failure) = send_in_order(&mut transport, &frames);
        let ghost written = transport;
        match failure {
            None => {
                proof {
                    assert(spec_frames(frames@).take(sent as int) =~= spec_frames(frames@));
                }
                self.transports.insert(conn_id, transport);
                proof {
                    assert(self.spec_connections() =~= old(self).spec_connections());
                    assert(self.spec_transports() =~= old(self).spec_transports().insert(
                        conn_id,
                        written,
                    ));
                }
            },
            Some(_) => {
                record_error(obs, ErrorClass::TRANSPORT_IO);
                proof {
                    assert(self.spec_connections() =~= old(self).spec_connections().remove(
                        conn_id,
                    ));
                    assert(self.spec_transports() =~= old(self).spec_transports().remove(conn_id));
                }
            },
        }
        proof {
            assert(spec_sent_in_order(
                old(self).spec_transports()[conn_id],
                spec_frames(frames@),
                sent as nat,
                failure,
                written,
            ));
        }
        sent
    }

    /// Forwards the queued frames of connection `conn_id`: all frames queued
    /// for the connection are taken from the engine and written to the
    /// connection's transport. Returns the number of frames written.
    pub fn pump_connection(
        &mut self,
        conn_id: u32,
        engine: &mut ProtocolEngine,
        obs: &mut ObservabilityState,
    ) -> (sent: usize)
        ensures
            final(self).spec_running() == old(self).spec_running(),
            spec_monotone(old(obs)@, final(obs)@),
            final(engine)@.table == old(engine)@.table,
            final(engine)@.buffers == old(engine)@.buffers,
            final(engine)@.negotiator == old(engine)@.negotiator,
            final(engine)@.violations == old(engine)@.violations,
            !old(self).spec_running() || !old(self).spec_connections().contains(conn_id) ==> sent
                == 0 && final(engine)@ == old(engine)@ && final(obs)@ == old(obs)@ && final(self).spec_transports() == old(self).spec_transports(),
            old(self).spec_running() && old(self).spec_connections().contains(conn_id) ==> {
                &&& old(self).spec_send_frames(
                    conn_id,
                    crate::protocol_engine::spec_queue_of(old(engine)@.outbound, conn_id).reverse(),
                    final(self),
                    sent,
                )
                &&& crate::protocol_engine::spec_queue_of(final(engine)@.outbound, conn_id).len()
                    == 0
                &&& sent <= crate::protocol_engine::spec_queue_of(
                    old(engine)@.outbound,
                    conn_id,
                ).len()
                &&& final(self).spec_connections().contains(conn_id) ==> sent
                    == crate::protocol_engine::spec_queue_of(old(engine)@.outbound, conn_id).len()
                    && final(obs)@ == old(obs)@ && final(self).spec_sent_of(conn_id) == old(self).spec_sent_of(conn_id) + crate::protocol_engine::spec_queue_of(
                    old(engine)@.outbound,
                    conn_id,
                ).reverse()
                &&& !final(self).spec_connections().contains(conn_id) ==> final(obs)@
                    == spec_after_failure(
                    old(obs)@,
                    Some(PumpFailure::SendFailed(TransportError::ConnectionLost)),
                )
            },
    {
        let frames = self.take_frames(conn_id, engine);
        proof {
            assert(spec_frames(frames@).len() == frames@.len());
        }
        self.send_frames(conn_id, frames, obs)
    }
}

/// The binding pump in its earlier order: the path is rotated before the
/// ready frames are drained, so a frame leaves on the path of the tick that
/// releases it, and nothing is flushed when a new path cannot be opened.
pub struct Phase9BindingPump<
    P,
    DD: DelayDistribution,
    ED: EpochDurationDistribution,
    T: TransportAdapter,
    F: EpochTransportFactory<P, T>,
> {
    delay: DelayQueue<DD>,
    path_epoch: PathEpoch<P, ED>,
    factory: F,
    transport: Option<T>,
    running: bool,
}

impl<
    P,
    DD: DelayDistribution,
    ED: EpochDurationDistribution,
    T: TransportAdapter,
    F: EpochTransportFactory<P, T>,
> Phase9BindingPump<P, DD, ED, T, F> {
    /// The invariant of the pump: those of its queue and rotator, and a
    /// running pump has a transport.
    pub closed spec fn wf(&self) -> bool {
        &&& self.delay.wf()
        &&& self.path_epoch.wf()
        &&& self.running ==> self.transport is Some
    }

    /// The delay queue of the pump.
    pub closed spec fn spec_delay(&self) -> DelayQueue<DD> {
        self.delay
    }

    /// The path rotator of the pump.
    pub closed spec fn spec_path_epoch(&self) -> PathEpoch<P, ED> {
        self.path_epoch
    }

    /// Whether the pump is running.
    pub closed spec fn spec_running(&self) -> bool {
        self.running
    }

    /// The factory that opens the pump's transports.
    pub closed spec fn spec_factory(&self) -> F {
        self.factory
    }

    /// The transport that the pump writes to, if it has one.
    pub closed spec fn spec_transport(&self) -> Option<T> {
        self.transport
    }

    /// What was written to the pump's transport so far; nothing while the
    /// pump has no transport.
    pub open spec fn spec_transport_sent(&self) -> Seq<Seq<u8>> {
        match self.spec_transport() {
            Some(t) => t.spec_sent(),
            None => Seq::<Seq<u8>>::empty(),
        }
    }

    /// Whether starting may take this pump to `after` and say `started`:
    /// the factory is asked for the transport of the current path; the pump
    /// has that transport and has started exactly if the factory opened it.
    pub open spec fn spec_start(&self, after: &Self, started: bool) -> bool {
        exists|opened: Result<T, TransportError>| #[trigger]
            self.spec_factory().spec_opened(
                &spec_current_path(self.spec_path_epoch()@),
                opened,
                &after.spec_factory(),
            ) && started == (opened is Ok) && after.spec_transport() == (match opened {
                Ok(t) => Some(t),
                Err(_) => self.spec_transport(),
            })
    }

    /// A pump over `delay` and `path_epoch` that opens its transports with
    /// `factory`. It does not run until it is started.
    pub fn new(delay: DelayQueue<DD>, path_epoch: PathEpoch<P, ED>, factory: F) -> (pump:
        Phase9BindingPump<P, DD, ED, T, F>)
        requires
            delay.wf(),
            path_epoch.wf(),
        ensures
            pump.wf(),
            !pump.spec_running(),
            pump.spec_delay() == delay,
            pump.spec_path_epoch() == path_epoch,
    {
        Phase9BindingPump { delay, path_epoch, factory, transport: None, running: false }
    }

    /// Opens the transport of the current path and starts the pump. If the
    /// transport cannot be opened the pump stays stopped.
    pub fn start(&mut self) -> (started: bool)
        requires
            old(self).wf(),
        ensures
            final(self).wf(),
            final(self).spec_running() == started,
            final(self).spec_delay() == old(self).spec_delay(),
            final(self).spec_path_epoch() == old(self).spec_path_epoch(),
            old(self).spec_start(final(self), started),
    {
        let answer = self.factory.open_transport(self.path_epoch.current_path());
        let ghost opened = answer;
        match answer {
            Ok(t) => {
                self.transport = Some(t);
                self.running = true;
                proof {
                    assert(old(self).spec_factory().spec_opened(
                        &spec_current_path(old(self).spec_path_epoch()@),
                        opened,
                        &self.spec_factory(),
                    ));
                }
                true
            },
            Err(_) => {
                self.running = false;
                proof {
                    assert(old(self).spec_factory().spec_opened(
                        &spec_current_path(old(self).spec_path_epoch()@),
                        opened,
                        &self.spec_factory(),
                    ));
                }
                false
            },
        }
    }

    /// Stops the pump.
    pub fn stop(&mut self)
        requires
            old(self).wf(),
        ensures
            final(self).wf(),
            !final(self).spec_running(),
            final(self).spec_delay() == old(self).spec_delay(),
            final(self).spec_path_epoch() == old(self).spec_path_epoch(),
    {
        self.running = false;
    }

    /// Whether the pump is running.
    pub fn is_running(&self) -> (running: bool)
        ensures
            running == self.spec_running(),
    {
        self.running
    }

    /// Whether a tick may be made at time `now`: the release times and the
    /// rotation time it can choose fit in 64 bits of nanoseconds.
    pub fn can_tick_at(&self, now: u64) -> (b: bool)
        ensures
            b == (now + spec_at_least_one(self.spec_delay().spec_max_delay()) <= u64::MAX && now
                + spec_at_least_one(self.spec_path_epoch().spec_max_duration()) <= u64::MAX),
    {
        self.delay.can_enqueue_at(now) && self.path_epoch.can_schedule_at(now)
    }

    /// Whether the factory and the transport were asked as the release step
    /// of a running pump asks them, and answered as `report` says.
    ///
    /// The factory is asked exactly if the path was rotated, and then for
    /// the transport of the path that the rotator is on. If it fails, its
    /// answer is reported, and queue and transport stay as they were.
    /// Otherwise the ready frames are drained and written in order, up to
    /// the first write that fails, to the transport that the factory
    /// opened, or to the one that the pump had where none was opened; a
    /// failed write is reported with the transport's answer.
    pub open spec fn spec_release_calls(&self, now: u64, after: &Self, report: TickReport) -> bool {
        exists|opened: Result<T, TransportError>|
            #![trigger spec_open_failure(report.rotated, opened)]
            {
                &&& if report.rotated {
                    self.spec_factory().spec_opened(
                        &spec_current_path(after.spec_path_epoch()@),
                        opened,
                        &after.spec_factory(),
                    )
                } else {
                    after.spec_factory() == self.spec_factory()
                }
                &&& match spec_open_failure(report.rotated, opened) {
                    Some(e) => report == spec_tick_report(0, true, Some(e), 0, None)
                        && after.spec_transport() == self.spec_transport() && after.spec_delay()
                        == self.spec_delay(),
                    None => exists|ready: Seq<Seq<u8>>, send_failure: Option<TransportError>|
                        #![trigger spec_sent_in_order(spec_release_base(self.spec_transport()->Some_0, report.rotated, opened), ready, report.sent as nat, send_failure, after.spec_transport()->Some_0)]
                        {
                            &&& ready.len() == report.ready
                            &&& spec_drain_ready(
                                self.spec_delay()@,
                                now,
                                MAX_RELEASE_BATCH as nat,
                                after.spec_delay()@,
                                ready,
                            )
                            &&& spec_sent_in_order(
                                spec_release_base(
                                    self.spec_transport()->Some_0,
                                    report.rotated,
                                    opened,
                                ),
                                ready,
                                report.sent as nat,
                                send_failure,
                                after.spec_transport()->Some_0,
                            )
                            &&& report == spec_tick_report(
                                report.ready,
                                report.rotated,
                                None,
                                report.sent,
                                send_failure,
                            )
                        },
                }
            }
    }

    /// The first half of a tick at time `now`: the path is rotated if a
    /// rotation is due; if the transport of the new path cannot be opened
    /// the pump stops with the delay queue as it was. Otherwise the frames
    /// that are ready are drained and written to the transport in order,
    /// and the first failed write stops the pump. A stopped pump does
    /// nothing.
    pub fn release(&mut self, now: u64) -> (report: TickReport)
        requires
            old(self).wf(),
            now + spec_at_least_one(old(self).spec_path_epoch().spec_max_duration()) <= u64::MAX,
        ensures
            final(self).wf(),
            !old(self).spec_running() ==> *final(self) == *old(self) && report == (TickReport {
                ready: 0,
                sent: 0,
                rotated: false,
                failure: None,
            }),
            old(self).spec_running() ==> {
                &&& final(self).spec_running() == (report.failure is None)
                &&& report.sent <= report.ready <= MAX_RELEASE_BATCH
                &&& report.failure is None ==> report.sent == report.ready
                &&& report.failure is Some && report.failure->Some_0 is SendFailed
                    ==> report.sent < report.ready
                &&& report.failure is Some && report.failure->Some_0 is OpenFailed
                    ==> report.rotated
                &&& final(self).spec_transport() is Some
                &&& old(self).spec_release_calls(now, final(self), report)
                &&& report.rotated == (now >= old(self).spec_path_epoch()@.next_rotation)
                &&& final(self).spec_path_epoch()@.paths == old(self).spec_path_epoch()@.paths
                &&& report.rotated && old(self).spec_path_epoch()@.paths.len() > 1 ==> final(self).spec_path_epoch()@.current_index != old(self).spec_path_epoch()@.current_index
                &&& report.failure is Some && report.failure->Some_0 is OpenFailed ==> final(self).spec_delay()@ == old(self).spec_delay()@
                &&& !(report.failure is Some && report.failure->Some_0 is OpenFailed)
                    ==> exists|ready: Seq<Seq<u8>>, base: Seq<Seq<u8>>|
                    #![auto]
                    ready.len() == report.ready && spec_drain_ready(
                        old(self).spec_delay()@,
                        now,
                        MAX_RELEASE_BATCH as nat,
                        final(self).spec_delay()@,
                        ready,
                    ) && final(self).spec_transport_sent() == base + ready.take(
                        report.sent as int,
                    ) && (!report.rotated ==> base == old(self).spec_transport_sent())
            },
            final(self).spec_delay().spec_max_delay() == old(self).spec_delay().spec_max_delay(),
            final(self).spec_delay().spec_min_delay() == old(self).spec_delay().spec_min_delay(),
    {
        if !self.running {
            return TickReport { ready: 0, sent: 0, rotated: false, failure: None };
        }
        let rotated = self.path_epoch.rotate_if_due(now);
        let ghost mut opened: Result<T, TransportError> = Err(TransportError::Timeout);
        if rotated {
            let answer = self.factory.open_transport(self.path_epoch.current_path());
            proof {
                opened = answer;
            }
            match answer {
                Ok(t) => {
                    self.transport = Some(t);
                },
                Err(e) => {
                    self.running = false;
                    let report = tick_report(0, rotated, Some(e), 0, None);
                    proof {
                        assert(spec_open_failure(report.rotated, opened) == Some(e));
                        assert(old(self).spec_release_calls(now, self, report));
                    }
                    return report;
                },
            }
        }
        let ready = self.delay.drain_ready_at(now, MAX_RELEASE_BATCH);
        proof {
            assert(spec_frames(ready@).len() == ready@.len());
        }
        let ghost base = self.spec_transport_sent();
        let ghost released = spec_frames(ready@);
        let (sent, send_failure) = match &mut self.transport {
            Some(t) => send_in_order(t, &ready),
            None => (0, None),
        };
        if send_failure.is_some() {
            self.running = false;
        }
        let report = tick_report(ready.len(), rotated, None, sent, send_failure);
        proof {
            assert(spec_open_failure(report.rotated, opened) is None);
            assert(spec_sent_in_order(
                spec_release_base(old(self).spec_transport()->Some_0, report.rotated, opened),
                released,
                report.sent as nat,
                send_failure,
                self.spec_transport()->Some_0,
            ));
            assert(old(self).spec_release_calls(now, self, report));
            assert(exists|ready: Seq<Seq<u8>>, base: Seq<Seq<u8>>|
                #![auto]
                ready.len() == report.ready && spec_drain_ready(
                    old(self).spec_delay()@,
                    now,
                    MAX_RELEASE_BATCH as nat,
                    self.spec_delay()@,
                    ready,
                ) && self.spec_transport_sent() == base + ready.take(report.sent as int) && (
                !report.rotated ==> base == old(self).spec_transport_sent())) by {
                assert(released.len() == report.ready && spec_drain_ready(
                    old(self).spec_delay()@,
                    now,
                    MAX_RELEASE_BATCH as nat,
                    self.spec_delay()@,
                    released,
                ) && self.spec_transport_sent() == base + released.take(report.sent as int) && (
                !report.rotated ==> base == old(self).spec_transport_sent()));
            }
        }
        report
    }

    /// The second half of a tick at time `now`: each frame of `mixed`, in
    /// order, is taken into the delay queue, where it waits for a release
    /// time within the distribution's bounds after `now`. A stopped pump
    /// drops the frames.
    pub fn refill(&mut self, now: u64, mixed: Vec<Frame>)
        requires
            old(self).wf(),
            now + spec_at_least_one(old(self).spec_delay().spec_max_delay()) <= u64::MAX,
        ensures
            final(self).wf(),
            final(self).spec_running() == old(self).spec_running(),
            final(self).spec_path_epoch() == old(self).spec_path_epoch(),
            final(self).spec_transport_sent() == old(self).spec_transport_sent(),
            final(self).spec_delay().spec_max_delay() == old(self).spec_delay().spec_max_delay(),
            final(self).spec_delay().spec_min_delay() == old(self).spec_delay().spec_min_delay(),
            final(self).spec_delay()@.ready == old(self).spec_delay()@.ready,
            !old(self).spec_running() ==> *final(self) == *old(self),
            old(self).spec_running() ==> spec_took_in(
                old(self).spec_delay()@.pending,
                now,
                old(self).spec_delay().spec_min_delay(),
                old(self).spec_delay().spec_max_delay(),
                spec_frames(mixed@),
                final(self).spec_delay()@.pending,
            ),
    {
        if !self.running {
            return ;
        }
        let ghost before = self.delay@.pending;
        let ghost min = self.delay.spec_min_delay();
        let ghost max = self.delay.spec_max_delay();
        let ghost all = mixed@;
        let ghost mut entries = Seq::<PendingView>::empty();
        proof {
            vstd::seq_lib::to_multiset_len(entries);
            vstd::multiset::lemma_multiset_empty_len(entries.to_multiset());
            assert(entries.to_multiset() =~= Multiset::<PendingView>::empty());
            assert(spec_frames_of(entries) =~= spec_frames(all).take(0));
            assert(before =~= before.add(entries.to_multiset()));
        }
        for frame in it: mixed
            invariant
                it.seq() == all,
                self.wf(),
                self.running,
                self.path_epoch == old(self).path_epoch,
                self.transport == old(self).transport,
                self.delay.spec_max_delay() == max,
                self.delay.spec_min_delay() == min,
                self.delay@.ready == old(self).delay@.ready,
                now + spec_at_least_one(max) <= u64::MAX,
                spec_frames_of(entries) == spec_frames(all).take(it.index() as int),
                forall|i: int|
                    0 <= i < entries.len() ==> spec_at_least_one(min) <= (
                    #[trigger] entries[i]).ready_at - now <= spec_at_least_one(max),
                self.delay@.pending == before.add(entries.to_multiset()),
        {
            let ghost pending_before = self.delay@.pending;
            self.delay.enqueue_at(now, frame);
            proof {
                let (ready_at, nonce) = choose|ready_at: u64, nonce: u64|
                    #![auto]
                    self.delay@.pending == pending_before.insert(
                        PendingView { ready_at, nonce, frame: frame@ },
                    ) && spec_at_least_one(min) <= ready_at - now <= spec_at_least_one(max);
                let entry = PendingView { ready_at, nonce, frame: frame@ };
                let longer = entries.push(entry);
                vstd::seq_lib::to_multiset_build(entries, entry);
                assert(self.delay@.pending =~= before.add(longer.to_multiset()));
                assert(spec_frames_of(longer) =~= spec_frames_of(entries).push(frame@));
                assert(spec_frames(all).take(it.index() + 1) =~= spec_frames(all).take(
                    it.index() as int,
                ).push(frame@));
                entries = longer;
            }
        }
        proof {
            assert(spec_frames(all).take(all.len() as int) =~= spec_frames(all));
            assert(spec_frames_of(entries) == spec_frames(all));
        }
    }
}

} // verus!
