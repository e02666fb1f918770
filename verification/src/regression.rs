//! The regression harness: a simulated workload through the mixing pool and
//! the delay queue on a simulated clock, with the tick at which each frame
//! went in and the tick at which it came out.
//!
//! The harness is deterministic: the same workload gives the same trace.

use vstd::prelude::*;
use vstd::multiset::Multiset;
use vstd::std_specs::iter::IteratorSpec;
use crate::delay::{
    spec_at_least_one, spec_drain_ready, spec_entry_at, spec_frames_of, spec_release_order,
    spec_split_at, spec_took_in, spec_uniform_sample, DelayDistribution, DelayQueue,
    DelayQueueView, UniformDelay,
};
use crate::heap::PendingView;
use crate::mixing::{
    spec_drain_batch, spec_drain_order, spec_rng_after_drain, MixingPool, MixingPoolView,
};
use crate::rng::{
    spec_frames, spec_splitmix_next_state, spec_splitmix_output, Frame, RandomSource,
};

verus! {

/// The number of ticks during which frames go in.
pub const INGRESS_WINDOW_TICKS: u64 = 5000;

/// The smallest delay, in milliseconds.
pub const MIN_DELAY_MS: u64 = 1000;

/// The largest delay, in milliseconds.
pub const MAX_DELAY_MS: u64 = 200000;

/// The most frames taken out of the mixing pool in one tick.
pub const SIM_MIX_BATCH: usize = 1024;

/// The most frames released from the delay queue in one tick.
pub const SIM_RELEASE_BATCH: usize = 4096;

/// The nanoseconds of one tick: a tick is a millisecond.
pub const NS_PER_TICK: u64 = 1000000;

/// The seed of the mixing pool.
pub const MIXING_SEED: u64 = 0xA11CE5EED;

/// The seed of the delay queue.
pub const DELAY_SEED: u64 = 0xD1A1A7E;

/// Why a simulation gave no trace.
#[derive(Debug, Clone, Copy, PartialEq, Eq, Structural)]
pub enum SimulationError {
    /// The workload gives no user a whole frame per tick.
    NoFramesPerTick,
    /// Not every frame had come out when the simulation ended.
    FramesMissing,
    /// A frame came out that did not go in.
    UnknownFrame,
    /// A frame came out sooner than the smallest delay allows.
    ReleasedTooSoon,
}

/// The ticks of a simulated workload: frame `i + 1` went in at
/// `ingress_ticks[i]` and came out at `egress_ticks[i]`.
#[derive(Debug, Clone, PartialEq, Eq)]
pub struct SimulationTrace {
    pub ingress_ticks: Vec<u64>,
    pub egress_ticks: Vec<u64>,
}

/// The number of frames each user sends per tick, if the workload gives
/// every user at least one.
pub open spec fn spec_frames_per_user_per_tick(users: nat, total_frames: nat) -> Option<nat> {
    if users == 0 || total_frames / (users * INGRESS_WINDOW_TICKS as nat) == 0 {
        None
    } else {
        Some(total_frames / (users * INGRESS_WINDOW_TICKS as nat))
    }
}

/// Whether a trace accounts for a workload of `total_frames` frames: every
/// frame went in during the ingress window and came out, no sooner than the
/// smallest delay after it went in and before the simulation ended.
pub open spec fn spec_trace_complete(trace: SimulationTrace, total_frames: nat) -> bool {
    &&& trace.ingress_ticks@.len() == total_frames
    &&& trace.egress_ticks@.len() == total_frames
    &&& forall|i: int|
        0 <= i < total_frames ==> (#[trigger] trace.ingress_ticks@[i]) < INGRESS_WINDOW_TICKS
    &&& forall|i: int|
        0 <= i < total_frames ==> trace.ingress_ticks@[i] + MIN_DELAY_MS <= (
        #[trigger] trace.egress_ticks@[i]) <= INGRESS_WINDOW_TICKS + MAX_DELAY_MS + 1
}

/// The eight bytes that carry `v` in big-endian order.
pub open spec fn spec_be64_bytes(v: u64) -> Seq<u8> {
    Seq::new(8, |i: int| crate::rng::spec_be64_byte(v, i))
}

/// The frame that carries the number `id`: its eight bytes in big-endian
/// order.
pub fn id_frame(id: u64) -> (frame: Frame)
    ensures
        frame@ == spec_be64_bytes(id),
{
    let mut frame: Frame = Vec::new();
    let mut i: usize = 0;
    while i < 8
        invariant
            0 <= i <= 8,
            frame@.len() == i,
            forall|k: int| 0 <= k < i ==> frame@[k] == crate::rng::spec_be64_byte(id, k),
        decreases 8 - i,
    {
        frame.push(crate::rng::be64_byte(id, i));
        i += 1;
    }
    assert(frame@ =~= spec_be64_bytes(id));
    frame
}

/// The value of the first eight bytes of a frame, read in big-endian order.
pub open spec fn spec_frame_id(frame: Seq<u8>) -> int
    recommends
        frame.len() >= 8,
{
    frame[0] as int * 0x100_0000_0000_0000 + frame[1] as int * 0x1_0000_0000_0000 + frame[2] as int
        * 0x100_0000_0000 + frame[3] as int * 0x1_0000_0000 + frame[4] as int * 0x100_0000
        + frame[5] as int * 0x1_0000 + frame[6] as int * 0x100 + frame[7] as int
}

/// The number that a frame carries in its first eight bytes; `None` for a
/// shorter frame.
pub fn frame_id(frame: &Frame) -> (id: Option<u64>)
    ensures
        id is Some <==> frame@.len() >= 8,
        id is Some ==> id->Some_0 == spec_frame_id(frame@),
{
    if frame.len() < 8 {
        return None;
    }
    let high: u64 = (frame[0] as u64) * 0x100_0000 + (frame[1] as u64) * 0x1_0000 + (
    frame[2] as u64) * 0x100 + (frame[3] as u64);
    let low: u64 = (frame[4] as u64) * 0x100_0000 + (frame[5] as u64) * 0x1_0000 + (
    frame[6] as u64) * 0x100 + (frame[7] as u64);
    Some(high * 0x1_0000_0000 + low)
}

/// The simulation after a tick, as a mathematical value: the mixing pool
/// and the delay queue with the states of their generators, and the frames
/// that were released in the tick.
pub struct SimulationStep {
    pub pool: MixingPoolView,
    pub pool_state: u64,
    pub queue: DelayQueueView,
    pub queue_state: u64,
    pub released: Seq<Seq<u8>>,
}

/// The simulation before its first tick: pool and queue are empty, and
/// their generators are started from the two seeds.
pub open spec fn spec_simulation_start() -> SimulationStep {
    SimulationStep {
        pool: MixingPoolView { current: Seq::empty(), next: Seq::empty() },
        pool_state: MIXING_SEED,
        queue: DelayQueueView { pending: Multiset::empty(), ready: Seq::empty() },
        queue_state: DELAY_SEED,
        released: Seq::empty(),
    }
}

/// The frames that go in at tick `tick` when `per_tick` frames go in per
/// tick: the frames with the next `per_tick` numbers, in order, while the
/// ingress window lasts, and none after it.
pub open spec fn spec_frames_of_tick(per_tick: nat, tick: nat) -> Seq<Seq<u8>> {
    if tick < INGRESS_WINDOW_TICKS {
        Seq::new(per_tick, |k: int| spec_be64_bytes((per_tick * tick + 1 + k) as u64))
    } else {
        Seq::empty()
    }
}

/// The pending entries and the state of the generator after a queue with
/// the simulation's delays took in `frames` at time `now`, one after the
/// other: for each frame the generator gives the delay with one draw and
/// the nonce with the next.
pub open spec fn spec_sim_taken_in(
    pending: Multiset<PendingView>,
    state: u64,
    now: u64,
    frames: Seq<Seq<u8>>,
) -> (Multiset<PendingView>, u64)
    decreases frames.len(),
{
    if frames.len() == 0 {
        (pending, state)
    } else {
        let before = spec_sim_taken_in(pending, state, now, frames.drop_last());
        let ns = spec_uniform_sample(
            (MIN_DELAY_MS * NS_PER_TICK) as u64,
            (MAX_DELAY_MS * NS_PER_TICK) as u64,
            spec_splitmix_output(before.1),
        );
        let mid = spec_splitmix_next_state(before.1);
        (
            before.0.insert(spec_entry_at(now, ns, spec_splitmix_output(mid), frames.last())),
            spec_splitmix_next_state(mid),
        )
    }
}

/// Whether tick `tick` may take the simulation from `pre` to `post`: the
/// frames of the tick go into the mixing pool, a batch is drained from the
/// pool and taken into the delay queue, and the frames that are ready are
/// released, each step as the pool and the queue make it with their
/// generators.
pub open spec fn spec_simulation_step(
    per_tick: nat,
    tick: nat,
    pre: SimulationStep,
    post: SimulationStep,
) -> bool {
    let now = (tick * NS_PER_TICK) as u64;
    let pool_in = MixingPoolView {
        current: pre.pool.current,
        next: pre.pool.next + spec_frames_of_tick(per_tick, tick),
    };
    exists|mixed: Seq<Seq<u8>>|
        #![trigger spec_drain_batch(pool_in, SIM_MIX_BATCH as nat, post.pool, mixed)]
        {
            let taken = spec_sim_taken_in(pre.queue.pending, pre.queue_state, now, mixed);
            let mid = DelayQueueView { pending: taken.0, ready: pre.queue.ready };
            &&& spec_drain_batch(pool_in, SIM_MIX_BATCH as nat, post.pool, mixed)
            &&& spec_drain_order(
                pool_in,
                SIM_MIX_BATCH as nat,
                Some(pre.pool_state),
                post.pool,
                mixed,
            )
            &&& Some(post.pool_state) == spec_rng_after_drain(
                pool_in,
                SIM_MIX_BATCH as nat,
                Some(pre.pool_state),
            )
            &&& spec_drain_ready(mid, now, SIM_RELEASE_BATCH as nat, post.queue, post.released)
            &&& spec_release_order(
                mid,
                now,
                SIM_RELEASE_BATCH as nat,
                Some(taken.1),
                post.queue,
                post.released,
            )
            &&& post.queue_state == spec_splitmix_next_state(taken.1)
        }
}

/// Whether `run` is a run of the simulation from its start: every entry is
/// the simulation after the tick of its index.
pub open spec fn spec_simulation_run(per_tick: nat, run: Seq<SimulationStep>) -> bool {
    forall|t: int|
        0 <= t < run.len() ==> spec_simulation_step(
            per_tick,
            t as nat,
            if t == 0 {
                spec_simulation_start()
            } else {
                run[t - 1]
            },
            #[trigger] run[t],
        )
}

/// Whether a trace is that of a run of a workload that sends `per_tick`
/// frames per tick: frame `i + 1` went in at tick `i / per_tick`, and it
/// came out at a tick of the run in which the delay queue released it.
pub open spec fn spec_trace_of_run(trace: SimulationTrace, per_tick: nat) -> bool {
    &&& forall|i: int|
        0 <= i < trace.ingress_ticks@.len() ==> (#[trigger] trace.ingress_ticks@[i]) == i
            / per_tick as int
    &&& exists|run: Seq<SimulationStep>|
        #![trigger spec_simulation_run(per_tick, run)]
        {
            &&& spec_simulation_run(per_tick, run)
            &&& forall|i: int|
                0 <= i < trace.egress_ticks@.len() ==> (#[trigger] trace.egress_ticks@[i])
                    < run.len() && run[trace.egress_ticks@[i] as int].released.contains(
                    spec_be64_bytes((i + 1) as u64),
                )
        }
}

/// Whether a workload is sure to be simulated to the end: every user sends
/// at least one frame per tick, the frames fill the ingress window exactly,
/// and the frames of one tick fit in one batch of the mixing pool.
pub open spec fn spec_workload_fits(users: nat, total_frames: nat) -> bool {
    match spec_frames_per_user_per_tick(users, total_frames) {
        Some(f) => total_frames == f * users * (INGRESS_WINDOW_TICKS as nat) && f * users
            <= SIM_MIX_BATCH as nat,
        None => false,
    }
}

/// Whether a frame carries the number of one of the first `known` frames.
spec fn spec_carries(frame: Seq<u8>, known: int) -> bool {
    1 <= spec_frame_id(frame) <= known && frame == spec_be64_bytes(spec_frame_id(frame) as u64)
}

/// Whether a pending entry holds one of the first `known` frames and is
/// released within the bounds of the delay after that frame went in.
spec fn spec_entry_ok(e: PendingView, known: int, ingress: Seq<u64>) -> bool {
    let went_in = ingress[spec_frame_id(e.frame) - 1] as int;
    &&& spec_carries(e.frame, known)
    &&& (went_in + MIN_DELAY_MS) * NS_PER_TICK <= e.ready_at <= (went_in + MAX_DELAY_MS)
        * NS_PER_TICK
}

/// Whether a ready frame is one of the first `known` frames and went in at
/// least the smallest delay before `tick`.
spec fn spec_ready_ok(frame: Seq<u8>, known: int, ingress: Seq<u64>, tick: int) -> bool {
    spec_carries(frame, known) && ingress[spec_frame_id(frame) - 1] + MIN_DELAY_MS <= tick
}

/// Whether the frame with the number `id` waits in the queue, pending or
/// ready.
spec fn spec_waits(q: DelayQueueView, id: int) -> bool {
    q.ready.contains(spec_be64_bytes(id as u64)) || exists|e: PendingView| #[trigger]
        q.pending.contains(e) && e.frame == spec_be64_bytes(id as u64)
}

/// What holds of the delay queue while a fitting workload is simulated:
/// what waits in it are frames that went in, each with a release time within
/// the bounds, and every frame that went in and has not come out waits in
/// it.
spec fn spec_queue_ok(
    q: DelayQueueView,
    known: int,
    ingress: Seq<u64>,
    delivered: Seq<bool>,
    tick: int,
) -> bool {
    &&& 0 <= known <= ingress.len()
    &&& ingress.len() == delivered.len()
    &&& forall|e: PendingView| #[trigger] q.pending.contains(e) ==> spec_entry_ok(e, known, ingress)
    &&& forall|i: int|
        0 <= i < q.ready.len() ==> spec_ready_ok(#[trigger] q.ready[i], known, ingress, tick)
    &&& forall|id: int| 1 <= id <= known && !delivered[id - 1] ==> #[trigger] spec_waits(q, id)
}

/// The frames with the numbers `known + 1` to `sent`, in order.
spec fn spec_fresh(known: int, sent: int) -> Seq<Seq<u8>> {
    Seq::new((sent - known) as nat, |k: int| spec_be64_bytes((known + 1 + k) as u64))
}

/// The most frames that can still wait when the ready frames ran out at
/// the end of tick `tick - 1`: all before the latest release time of the
/// first frames has come, then one tick's frames fewer with every tick.
spec fn spec_backlog_bound(per_tick: int, tick: int) -> int {
    if tick < MAX_DELAY_MS {
        per_tick * INGRESS_WINDOW_TICKS
    } else {
        per_tick * (INGRESS_WINDOW_TICKS + MAX_DELAY_MS - tick)
    }
}

/// A number is read back from the frame that carries it.
proof fn lemma_id_round_trip(v: u64)
    ensures
        spec_be64_bytes(v).len() == 8,
        spec_frame_id(spec_be64_bytes(v)) == v,
{
    let f = spec_be64_bytes(v);
    let x = v as int;
    let q1 = x / 0x100;
    let q2 = x / 0x1_0000;
    let q3 = x / 0x100_0000;
    let q4 = x / 0x1_0000_0000;
    let q5 = x / 0x100_0000_0000;
    let q6 = x / 0x1_0000_0000_0000;
    let q7 = x / 0x100_0000_0000_0000;
    assert(q1 == q2 * 256 + q1 % 256);
    assert(q2 == q3 * 256 + q2 % 256);
    assert(q3 == q4 * 256 + q3 % 256);
    assert(q4 == q5 * 256 + q4 % 256);
    assert(q5 == q6 * 256 + q5 % 256);
    assert(q6 == q7 * 256 + q6 % 256);
    assert(q7 < 256);
    assert(f[7] == (x % 256) as u8);
    assert(f[6] == (q1 % 256) as u8);
    assert(f[5] == (q2 % 256) as u8);
    assert(f[4] == (q3 % 256) as u8);
    assert(f[3] == (q4 % 256) as u8);
    assert(f[2] == (q5 % 256) as u8);
    assert(f[1] == (q6 % 256) as u8);
    assert(f[0] == (q7 % 256) as u8);
}

/// The queue stays in order when the frames of one tick are taken in.
proof fn lemma_sim_took_in(
    q0: DelayQueueView,
    q1: DelayQueueView,
    known: int,
    sent: int,
    ingress: Seq<u64>,
    delivered: Seq<bool>,
    tick: int,
    mixed: Seq<Seq<u8>>,
)
    requires
        spec_queue_ok(q0, known, ingress, delivered, tick),
        known <= sent <= ingress.len(),
        sent <= u64::MAX,
        0 <= tick <= INGRESS_WINDOW_TICKS + MAX_DELAY_MS + 1,
        q1.ready == q0.ready,
        spec_took_in(
            q0.pending,
            (tick * NS_PER_TICK) as u64,
            (MIN_DELAY_MS * NS_PER_TICK) as u64,
            (MAX_DELAY_MS * NS_PER_TICK) as u64,
            mixed,
            q1.pending,
        ),
        mixed.to_multiset() == spec_fresh(known, sent).to_multiset(),
        forall|i: int| known <= i < sent ==> ingress[i] == tick,
    ensures
        spec_queue_ok(q1, sent, ingress, delivered, tick),
        q1.pending.len() == q0.pending.len() + (sent - known),
{
    broadcast use vstd::seq_lib::group_to_multiset_ensures;

    let fresh = spec_fresh(known, sent);
    let now = (tick * NS_PER_TICK) as u64;
    let min = (MIN_DELAY_MS * NS_PER_TICK) as u64;
    let max = (MAX_DELAY_MS * NS_PER_TICK) as u64;
    let entries = choose|entries: Seq<PendingView>|
        #![trigger spec_frames_of(entries)]
        {
            &&& spec_frames_of(entries) == mixed
            &&& forall|i: int|
                0 <= i < entries.len() ==> spec_at_least_one(min) <= (
                #[trigger] entries[i]).ready_at - now <= spec_at_least_one(max)
            &&& q1.pending == q0.pending.add(entries.to_multiset())
        };
    vstd::seq_lib::to_multiset_len(mixed);
    vstd::seq_lib::to_multiset_len(fresh);
    vstd::seq_lib::to_multiset_len(entries);
    assert(entries.len() == mixed.len());
    assert(mixed.len() == fresh.len());
    assert forall|e: PendingView| #[trigger] q1.pending.contains(e) implies spec_entry_ok(
        e,
        sent,
        ingress,
    ) by {
        if q0.pending.contains(e) {
            assert(spec_entry_ok(e, known, ingress));
        } else {
            assert(entries.to_multiset().count(e) > 0);
            assert(entries.contains(e));
            let j = choose|j: int| 0 <= j < entries.len() && entries[j] == e;
            assert(mixed[j] == e.frame);
            assert(mixed.contains(e.frame));
            assert(fresh.to_multiset().count(e.frame) > 0);
            assert(fresh.contains(e.frame));
            let k = choose|k: int| 0 <= k < fresh.len() && fresh[k] == e.frame;
            lemma_id_round_trip((known + 1 + k) as u64);
            assert(ingress[known + k] == tick);
            assert(spec_at_least_one(min) <= entries[j].ready_at - now <= spec_at_least_one(max));
        }
    }
    assert forall|i: int| 0 <= i < q1.ready.len() implies spec_ready_ok(
        #[trigger] q1.ready[i],
        sent,
        ingress,
        tick,
    ) by {
        assert(spec_ready_ok(q0.ready[i], known, ingress, tick));
    }
    assert forall|id: int| 1 <= id <= sent && !delivered[id - 1] implies #[trigger] spec_waits(
        q1,
        id,
    ) by {
        if id <= known {
            assert(spec_waits(q0, id));
            if !q0.ready.contains(spec_be64_bytes(id as u64)) {
                let e = choose|e: PendingView| #[trigger]
                    q0.pending.contains(e) && e.frame == spec_be64_bytes(id as u64);
                assert(q1.pending.contains(e));
            }
        } else {
            let f = spec_be64_bytes(id as u64);
            assert(fresh[id - known - 1] == f);
            assert(fresh.contains(f));
            assert(mixed.to_multiset().count(f) > 0);
            assert(mixed.contains(f));
            let j = choose|j: int| 0 <= j < mixed.len() && mixed[j] == f;
            assert(entries[j].frame == f);
            assert(entries.contains(entries[j]));
            assert(entries.to_multiset().count(entries[j]) > 0);
            assert(q1.pending.contains(entries[j]));
        }
    }
}

/// The queue stays in order when the frames that are due become ready:
/// with the frames that are handed out put back in front of the ready
/// frames, every frame still waits, and no pending frame is due.
proof fn lemma_sim_released(
    q1: DelayQueueView,
    post: DelayQueueView,
    out: Seq<Seq<u8>>,
    known: int,
    ingress: Seq<u64>,
    delivered: Seq<bool>,
    tick: int,
)
    requires
        spec_queue_ok(q1, known, ingress, delivered, tick),
        0 <= tick <= INGRESS_WINDOW_TICKS + MAX_DELAY_MS + 1,
        known <= u64::MAX,
        spec_drain_ready(q1, (tick * NS_PER_TICK) as u64, SIM_RELEASE_BATCH as nat, post, out),
    ensures
        spec_queue_ok(
            DelayQueueView { pending: post.pending, ready: out + post.ready },
            known,
            ingress,
            delivered,
            tick,
        ),
        post.pending.len() + out.len() + post.ready.len() == q1.pending.len() + q1.ready.len(),
        forall|e: PendingView| #[trigger]
            post.pending.contains(e) ==> e.ready_at > tick * NS_PER_TICK,
        post.ready.len() > 0 ==> out.len() == SIM_RELEASE_BATCH,
{
    broadcast use vstd::seq_lib::group_to_multiset_ensures;

    let now = (tick * NS_PER_TICK) as u64;
    let all = out + post.ready;
    let mid = DelayQueueView { pending: post.pending, ready: all };
    let k = q1.ready.len() as int;
    let due = choose|due: Seq<PendingView>|
        #![auto]
        spec_split_at(q1.pending, now, due, post.pending) && all.skip(k).to_multiset()
            == spec_frames_of(due).to_multiset();
    let arrived = all.skip(k);
    vstd::seq_lib::to_multiset_len(arrived);
    vstd::seq_lib::to_multiset_len(spec_frames_of(due));
    vstd::seq_lib::to_multiset_len(due);
    assert(arrived.len() == spec_frames_of(due).len());
    assert forall|e: PendingView| #[trigger] mid.pending.contains(e) implies spec_entry_ok(
        e,
        known,
        ingress,
    ) by {
        assert(q1.pending.contains(e));
    }
    assert forall|i: int| 0 <= i < mid.ready.len() implies spec_ready_ok(
        #[trigger] mid.ready[i],
        known,
        ingress,
        tick,
    ) by {
        if i < k {
            assert(all.take(k)[i] == q1.ready[i]);
            assert(spec_ready_ok(q1.ready[i], known, ingress, tick));
        } else {
            assert(arrived[i - k] == all[i]);
            assert(arrived.contains(all[i]));
            assert(spec_frames_of(due).to_multiset().count(all[i]) > 0);
            assert(spec_frames_of(due).contains(all[i]));
            let j = choose|j: int|
                0 <= j < spec_frames_of(due).len() && spec_frames_of(due)[j] == all[i];
            assert(due[j].frame == all[i]);
            assert(due.contains(due[j]));
            assert(due.to_multiset().count(due[j]) > 0);
            assert(q1.pending.contains(due[j]));
            assert(spec_entry_ok(due[j], known, ingress));
            assert(due[j].ready_at <= now);
        }
    }
    assert forall|id: int| 1 <= id <= known && !delivered[id - 1] implies #[trigger] spec_waits(
        mid,
        id,
    ) by {
        let f = spec_be64_bytes(id as u64);
        assert(spec_waits(q1, id));
        if q1.ready.contains(f) {
            let i = choose|i: int| 0 <= i < q1.ready.len() && q1.ready[i] == f;
            assert(all.take(k)[i] == f);
            assert(mid.ready[i] == f);
            assert(mid.ready.contains(f));
        } else {
            let e = choose|e: PendingView| #[trigger] q1.pending.contains(e) && e.frame == f;
            if post.pending.contains(e) {
                assert(mid.pending.contains(e));
            } else {
                assert(due.to_multiset().count(e) > 0);
                assert(due.contains(e));
                let j = choose|j: int| 0 <= j < due.len() && due[j] == e;
                assert(spec_frames_of(due)[j] == f);
                assert(spec_frames_of(due).contains(f));
                assert(arrived.to_multiset().count(f) > 0);
                assert(arrived.contains(f));
                let i = choose|i: int| 0 <= i < arrived.len() && arrived[i] == f;
                assert(mid.ready[k + i] == f);
                assert(mid.ready.contains(f));
            }
        }
    }
    assert(q1.pending.len() == post.pending.len() + due.to_multiset().len());
}

/// When no frame is ready and no pending frame is due at the end of a
/// tick, every frame whose latest release time has come has come out.
proof fn lemma_sim_early_frames_are_out(
    q: DelayQueueView,
    known: int,
    ingress: Seq<u64>,
    delivered: Seq<bool>,
    tick: int,
    per_tick: int,
    upto: int,
)
    requires
        spec_queue_ok(q, known, ingress, delivered, tick),
        q.ready.len() == 0,
        forall|e: PendingView| #[trigger] q.pending.contains(e) ==> e.ready_at > tick * NS_PER_TICK,
        per_tick > 0,
        forall|i: int| 0 <= i < known ==> per_tick * (#[trigger] ingress[i]) <= i,
        0 <= upto <= known,
        upto <= per_tick * (tick - MAX_DELAY_MS + 1),
        known <= u64::MAX,
    ensures
        forall|i: int| 0 <= i < upto ==> #[trigger] delivered[i],
        spec_count_true(delivered) >= upto,
{
    assert forall|i: int| 0 <= i < upto implies #[trigger] delivered[i] by {
        if !delivered[i] {
            let id = i + 1;
            assert(spec_waits(q, id));
            let e = choose|e: PendingView| #[trigger]
                q.pending.contains(e) && e.frame == spec_be64_bytes(id as u64);
            lemma_id_round_trip(id as u64);
            assert(spec_entry_ok(e, known, ingress));
            let went_in = ingress[i] as int;
            assert(went_in <= tick - MAX_DELAY_MS) by (nonlinear_arith)
                requires
                    per_tick > 0,
                    per_tick * went_in <= i,
                    i < per_tick * (tick - MAX_DELAY_MS + 1),
            ;
            assert(false);
        }
    }
    lemma_count_true_prefix(delivered, upto);
}

/// A list whose first `k` entries are `true` has at least `k` `true`
/// entries.
proof fn lemma_count_true_prefix(flags: Seq<bool>, k: int)
    requires
        0 <= k <= flags.len(),
        forall|i: int| 0 <= i < k ==> #[trigger] flags[i],
    ensures
        spec_count_true(flags) >= k,
    decreases flags.len(),
{
    if flags.len() > 0 {
        let shorter = flags.drop_last();
        if k == flags.len() {
            assert forall|i: int| 0 <= i < k - 1 implies #[trigger] shorter[i] by {
                assert(shorter[i] == flags[i]);
            }
            lemma_count_true_prefix(shorter, k - 1);
        } else {
            assert forall|i: int| 0 <= i < k implies #[trigger] shorter[i] by {
                assert(shorter[i] == flags[i]);
            }
            lemma_count_true_prefix(shorter, k);
        }
    }
}

/// Takes each frame of `mixed`, in order, into `queue` at time `now`.
fn take_in(queue: &mut DelayQueue<UniformDelay>, now: u64, mixed: Vec<Frame>)
    requires
        old(queue).wf(),
        now + spec_at_least_one(old(queue).spec_max_delay()) <= u64::MAX,
        old(queue).spec_rng_state() is Some,
        old(queue).spec_distribution().spec_min_ns() == MIN_DELAY_MS * NS_PER_TICK,
        old(queue).spec_distribution().spec_max_ns() == MAX_DELAY_MS * NS_PER_TICK,
    ensures
        final(queue).wf(),
        final(queue).spec_distribution() == old(queue).spec_distribution(),
        (final(queue)@.pending, final(queue).spec_rng_state()->Some_0) == spec_sim_taken_in(
            old(queue)@.pending,
            old(queue).spec_rng_state()->Some_0,
            now,
            spec_frames(mixed@),
        ),
        final(queue).spec_rng_state() is Some,
        final(queue).spec_max_delay() == old(queue).spec_max_delay(),
        final(queue).spec_min_delay() == old(queue).spec_min_delay(),
        final(queue)@.ready == old(queue)@.ready,
        spec_took_in(
            old(queue)@.pending,
            now,
            old(queue).spec_min_delay(),
            old(queue).spec_max_delay(),
            spec_frames(mixed@),
            final(queue)@.pending,
        ),
{
    let ghost before = queue@.pending;
    let ghost min = queue.spec_min_delay();
    let ghost max = queue.spec_max_delay();
    let ghost all = mixed@;
    let ghost state0 = queue.spec_rng_state()->Some_0;
    let ghost mut entries = Seq::<PendingView>::empty();
    proof {
        vstd::seq_lib::to_multiset_len(entries);
        vstd::multiset::lemma_multiset_empty_len(entries.to_multiset());
        assert(entries.to_multiset() =~= Multiset::<PendingView>::empty());
        assert(spec_frames_of(entries) =~= spec_frames(all).take(0));
        assert(before =~= before.add(entries.to_multiset()));
        assert(spec_frames(all).take(0).len() == 0);
    }
    for frame in it: mixed
        invariant
            it.seq() == all,
            queue.spec_rng_state() is Some,
            queue.spec_distribution() == old(queue).spec_distribution(),
            queue.spec_distribution().spec_min_ns() == MIN_DELAY_MS * NS_PER_TICK,
            queue.spec_distribution().spec_max_ns() == MAX_DELAY_MS * NS_PER_TICK,
            (queue@.pending, queue.spec_rng_state()->Some_0) == spec_sim_taken_in(
                before,
                state0,
                now,
                spec_frames(all).take(it.index() as int),
            ),
            queue.wf(),
            queue.spec_max_delay() == max,
            queue.spec_min_delay() == min,
            queue@.ready == old(queue)@.ready,
            now + spec_at_least_one(max) <= u64::MAX,
            spec_frames_of(entries) == spec_frames(all).take(it.index() as int),
            forall|i: int|
                0 <= i < entries.len() ==> spec_at_least_one(min) <= (
                #[trigger] entries[i]).ready_at - now <= spec_at_least_one(max),
            queue@.pending == before.add(entries.to_multiset()),
    {
        let ghost pending_before = queue@.pending;
        let ghost was = *queue;
        queue.enqueue_at(now, frame);
        proof {
            assert(was.spec_enqueue_at(now, frame@, &*queue));
            let (ns, mid, drawn) = choose|ns: u64, mid: Option<u64>, nonce: u64|
                #![trigger was.spec_distribution().spec_draws(was.spec_rng_state(), ns, mid, &queue.spec_distribution()), spec_entry_at(now, ns, nonce, frame@)]
                {
                    &&& was.spec_distribution().spec_draws(
                        was.spec_rng_state(),
                        ns,
                        mid,
                        &queue.spec_distribution(),
                    )
                    &&& queue@.pending == was@.pending.insert(
                        spec_entry_at(now, ns, nonce, frame@),
                    )
                    &&& mid is Some ==> nonce == spec_splitmix_output(mid->Some_0)
                        && queue.spec_rng_state() == Some(spec_splitmix_next_state(mid->Some_0))
                };
            let so_far = spec_frames(all).take(it.index() as int);
            let more = spec_frames(all).take(it.index() + 1);
            assert(more =~= so_far.push(frame@));
            assert(more.drop_last() =~= so_far);
            assert(more.last() == frame@);
            assert((queue@.pending, queue.spec_rng_state()->Some_0) == spec_sim_taken_in(
                before,
                state0,
                now,
                more,
            ));
            let (ready_at, nonce) = choose|ready_at: u64, nonce: u64|
                #![auto]
                queue@.pending == pending_before.insert(
                    PendingView { ready_at, nonce, frame: frame@ },
                ) && spec_at_least_one(min) <= ready_at - now <= spec_at_least_one(max);
            let entry = PendingView { ready_at, nonce, frame: frame@ };
            let longer = entries.push(entry);
            vstd::seq_lib::to_multiset_build(entries, entry);
            assert(queue@.pending =~= before.add(longer.to_multiset()));
            assert(spec_frames_of(longer) =~= spec_frames_of(entries).push(frame@));
            assert(spec_frames(all).take(it.index() + 1) =~= spec_frames(all).take(
                it.index() as int,
            ).push(frame@));
            entries = longer;
        }
    }
    proof {
        assert(spec_frames(all).take(all.len() as int) =~= spec_frames(all));
        assert(spec_frames_of(entries) == spec_frames(all));
    }
}

/// A tick of the simulation is a step of a run: what the pool and the queue
/// state of their drains and of the frames they take in is what a step asks
/// for.
proof fn lemma_sim_step(
    per_tick: nat,
    tick: nat,
    pre: SimulationStep,
    post: SimulationStep,
    pool_in: MixingPoolView,
    mixed: Seq<Seq<u8>>,
    taken: DelayQueueView,
    taken_state: u64,
)
    requires
        pool_in == (MixingPoolView {
            current: pre.pool.current,
            next: pre.pool.next + spec_frames_of_tick(per_tick, tick),
        }),
        spec_drain_batch(pool_in, SIM_MIX_BATCH as nat, post.pool, mixed),
        spec_drain_order(pool_in, SIM_MIX_BATCH as nat, Some(pre.pool_state), post.pool, mixed),
        Some(post.pool_state) == spec_rng_after_drain(
            pool_in,
            SIM_MIX_BATCH as nat,
            Some(pre.pool_state),
        ),
        (taken.pending, taken_state) == spec_sim_taken_in(
            pre.queue.pending,
            pre.queue_state,
            (tick * NS_PER_TICK) as u64,
            mixed,
        ),
        taken.ready == pre.queue.ready,
        spec_drain_ready(
            taken,
            (tick * NS_PER_TICK) as u64,
            SIM_RELEASE_BATCH as nat,
            post.queue,
            post.released,
        ),
        spec_release_order(
            taken,
            (tick * NS_PER_TICK) as u64,
            SIM_RELEASE_BATCH as nat,
            Some(taken_state),
            post.queue,
            post.released,
        ),
        post.queue_state == spec_splitmix_next_state(taken_state),
    ensures
        spec_simulation_step(per_tick, tick, pre, post),
{
    let now = (tick * NS_PER_TICK) as u64;
    let mid = DelayQueueView {
        pending: spec_sim_taken_in(pre.queue.pending, pre.queue_state, now, mixed).0,
        ready: pre.queue.ready,
    };
    assert(mid == taken);
}

/// A run that is longer by the tick that follows it is a run.
proof fn lemma_run_goes_on(per_tick: nat, run: Seq<SimulationStep>, step: SimulationStep)
    requires
        spec_simulation_run(per_tick, run),
        spec_simulation_step(
            per_tick,
            run.len(),
            if run.len() == 0 {
                spec_simulation_start()
            } else {
                run.last()
            },
            step,
        ),
    ensures
        spec_simulation_run(per_tick, run.push(step)),
{
    let longer = run.push(step);
    assert forall|t: int| 0 <= t < longer.len() implies spec_simulation_step(
        per_tick,
        t as nat,
        if t == 0 {
            spec_simulation_start()
        } else {
            longer[t - 1]
        },
        #[trigger] longer[t],
    ) by {
        if t < run.len() {
            assert(longer[t] == run[t]);
            assert(spec_simulation_step(
                per_tick,
                t as nat,
                if t == 0 {
                    spec_simulation_start()
                } else {
                    run[t - 1]
                },
                run[t],
            ));
        }
    }
}

/// The queue stays in order when frames are handed out and marked as
/// delivered: what is left of the ready frames still holds every frame that
/// has not come out.
proof fn lemma_sim_handed_out(
    post: DelayQueueView,
    out: Seq<Seq<u8>>,
    known: int,
    ingress: Seq<u64>,
    before: Seq<bool>,
    delivered: Seq<bool>,
    tick: int,
)
    requires
        spec_queue_ok(
            DelayQueueView { pending: post.pending, ready: out + post.ready },
            known,
            ingress,
            before,
            tick,
        ),
        known <= u64::MAX,
        delivered.len() == before.len(),
        forall|i: int| 0 <= i < before.len() && before[i] ==> #[trigger] delivered[i],
        forall|i: int|
            0 <= i < out.len() ==> 1 <= spec_frame_id(#[trigger] out[i]) <= delivered.len()
                && delivered[spec_frame_id(out[i]) - 1],
    ensures
        spec_queue_ok(post, known, ingress, delivered, tick),
{
    let all = out + post.ready;
    let mid = DelayQueueView { pending: post.pending, ready: all };
    assert forall|e: PendingView| #[trigger] post.pending.contains(e) implies spec_entry_ok(
        e,
        known,
        ingress,
    ) by {
        assert(mid.pending.contains(e));
    }
    assert forall|i: int| 0 <= i < post.ready.len() implies spec_ready_ok(
        #[trigger] post.ready[i],
        known,
        ingress,
        tick,
    ) by {
        assert(mid.ready[out.len() + i] == post.ready[i]);
        assert(spec_ready_ok(mid.ready[out.len() + i], known, ingress, tick));
    }
    assert forall|id: int| 1 <= id <= known && !delivered[id - 1] implies #[trigger] spec_waits(
        post,
        id,
    ) by {
        let f = spec_be64_bytes(id as u64);
        assert(!before[id - 1]);
        assert(spec_waits(mid, id));
        if mid.ready.contains(f) {
            let i = choose|i: int| 0 <= i < mid.ready.len() && mid.ready[i] == f;
            lemma_id_round_trip(id as u64);
            if i < out.len() {
                assert(out[i] == f);
                assert(delivered[spec_frame_id(out[i]) - 1]);
                assert(false);
            } else {
                assert(post.ready[i - out.len()] == f);
                assert(post.ready.contains(f));
            }
        } else {
            let e = choose|e: PendingView| #[trigger]
                mid.pending.contains(e) && e.frame == f;
            assert(post.pending.contains(e));
        }
    }
}

/// While frames are ready at the end of every tick, a full batch leaves
/// with every tick, and so the ready frames run out before the simulation
/// ends.
proof fn lemma_backlog_clears(per_tick: int, waiting: int, busy_from: int)
    requires
        0 < per_tick <= SIM_MIX_BATCH,
        0 <= busy_from <= INGRESS_WINDOW_TICKS + MAX_DELAY_MS - 1,
        waiting + SIM_RELEASE_BATCH * (INGRESS_WINDOW_TICKS + MAX_DELAY_MS + 2 - busy_from)
            <= spec_backlog_bound(per_tick, busy_from),
    ensures
        waiting <= 0,
{
    if busy_from < MAX_DELAY_MS {
        assert(per_tick * 5000 <= 1024 * 5000) by (nonlinear_arith)
            requires
                0 < per_tick <= 1024,
        ;
    } else {
        let left = 205000 - busy_from;
        assert(per_tick * left <= 1024 * left) by (nonlinear_arith)
            requires
                0 < per_tick <= 1024,
                left >= 0,
        ;
    }
}

/// When the ready frames ran out at the end of tick `tick`, the frames that
/// still wait are within the bound for the tick after.
proof fn lemma_backlog_bound_holds(per_tick: int, total: int, out_so_far: int, tick: int)
    requires
        0 < per_tick,
        total == per_tick * INGRESS_WINDOW_TICKS,
        0 <= out_so_far,
        0 <= tick < INGRESS_WINDOW_TICKS + MAX_DELAY_MS - 1,
        tick >= MAX_DELAY_MS - 1 ==> out_so_far >= per_tick * (tick - MAX_DELAY_MS + 1),
    ensures
        total - out_so_far <= spec_backlog_bound(per_tick, tick + 1),
{
    if tick + 1 >= MAX_DELAY_MS {
        assert(per_tick * 5000 - per_tick * (tick - 199999) == per_tick * (205000 - (tick + 1)))
            by (nonlinear_arith);
    }
}

/// Simulates a workload of `total_frames` frames from `users` users.
///
/// During the ingress window every user sends the same number of frames per
/// tick; each tick the mixing pool is drained into the delay queue, whose
/// delays are uniform between `MIN_DELAY_MS` and `MAX_DELAY_MS`, and the
/// ready frames are released. A trace is returned only if it accounts for
/// every frame, and a workload that fits is sure of its trace: the delays
/// are bounded, so every frame is due when the window and the largest delay
/// have passed, and more frames can be released per tick than go in.
#[verifier::rlimit(30)]
pub fn run_simulation(users: usize, total_frames: usize) -> (r: Result<
    SimulationTrace,
    SimulationError,
>)
    ensures
        r == Err::<SimulationTrace, SimulationError>(SimulationError::NoFramesPerTick)
            <==> spec_frames_per_user_per_tick(users as nat, total_frames as nat) is None,
        spec_workload_fits(users as nat, total_frames as nat) ==> r is Ok && spec_trace_of_run(
            r->Ok_0,
            spec_frames_per_user_per_tick(users as nat, total_frames as nat)->Some_0 * users as nat,
        ),
        r is Ok ==> spec_trace_complete(r->Ok_0, total_frames as nat),
{
    if users == 0 || users > usize::MAX / 5000 {
        proof {
            if users > 0 {
                assert(total_frames as nat / (users as nat * 5000) == 0) by (nonlinear_arith)
                    requires
                        users as nat * 5000 > total_frames as nat,
                        users > 0,
                ;
            }
        }
        return Err(SimulationError::NoFramesPerTick);
    }
    let frames_per_user_per_tick: usize = total_frames / (users * 5000);
    if frames_per_user_per_tick == 0 {
        return Err(SimulationError::NoFramesPerTick);
    }
    let ghost fits = spec_workload_fits(users as nat, total_frames as nat);
    proof {
        assert(spec_frames_per_user_per_tick(users as nat, total_frames as nat) == Some(
            frames_per_user_per_tick as nat,
        ));
        assert(frames_per_user_per_tick * users * 5000 <= total_frames) by (nonlinear_arith)
            requires
                frames_per_user_per_tick == total_frames as int / (users * 5000),
                users > 0,
        ;
        assert(frames_per_user_per_tick * users <= frames_per_user_per_tick * users * 5000)
            by (nonlinear_arith)
            requires
                frames_per_user_per_tick >= 0,
                users >= 0,
        ;
        assert(frames_per_user_per_tick * users > 0) by (nonlinear_arith)
            requires
                frames_per_user_per_tick > 0,
                users > 0,
        ;
    }
    let per_tick: usize = frames_per_user_per_tick * users;
    let mut mixing = MixingPool::with_rng(RandomSource::seeded(MIXING_SEED));
    let delay = match UniformDelay::new(
        (MIN_DELAY_MS * NS_PER_TICK) as u128,
        (MAX_DELAY_MS * NS_PER_TICK) as u128,
    ) {
        Ok(d) => d,
        Err(_) => {
            return Err(SimulationError::FramesMissing);
        },
    };
    let mut delay_queue = DelayQueue::with_rng(delay, RandomSource::seeded(DELAY_SEED));
    let end_tick: u64 = INGRESS_WINDOW_TICKS + MAX_DELAY_MS + 1;

    let mut ingress: Vec<u64> = Vec::new();
    let mut egress: Vec<u64> = Vec::new();
    let mut delivered: Vec<bool> = Vec::new();
    let mut k: usize = 0;
    while k < total_frames
        invariant
            0 <= k <= total_frames,
            ingress@.len() == k,
            egress@.len() == k,
            delivered@.len() == k,
            forall|i: int| 0 <= i < k ==> !(#[trigger] delivered@[i]),
            forall|i: int| 0 <= i < k ==> (#[trigger] ingress@[i]) == 0,
            spec_count_true(delivered@) == 0,
        decreases total_frames - k,
    {
        let ghost before = delivered@;
        ingress.push(0);
        egress.push(0);
        delivered.push(false);
        proof {
            assert(delivered@.drop_last() =~= before);
        }
        k += 1;
    }
    let mut sent: usize = 0;
    let mut drained: usize = 0;
    let mut tick: u64 = 0;
    let ghost mut releases: int = 0;
    let ghost mut busy_from: int = 0;
    let ghost mut run: Seq<SimulationStep> = Seq::empty();
    let ghost mut here: SimulationStep = spec_simulation_start();
    proof {
        assert(delay_queue@.pending.len() == 0);
        assert(mixing@.current =~= Seq::<Seq<u8>>::empty());
        assert(mixing@.next =~= Seq::<Seq<u8>>::empty());
        assert(delay_queue@.ready =~= Seq::<Seq<u8>>::empty());
        assert(mixing@ == here.pool);
        assert(delay_queue@ == here.queue);
    }
    while tick <= end_tick
        invariant_except_break
            fits ==> {
                &&& tick <= end_tick
                &&& run.len() == tick
                &&& here == (if run.len() == 0 {
                    spec_simulation_start()
                } else {
                    run.last()
                })
                &&& here.pool == mixing@
                &&& Some(here.pool_state) == mixing.spec_rng_state()
                &&& here.queue == delay_queue@
                &&& Some(here.queue_state) == delay_queue.spec_rng_state()
                &&& total_frames == per_tick * INGRESS_WINDOW_TICKS
                &&& per_tick <= SIM_MIX_BATCH
                &&& mixing@.current.len() == 0
                &&& mixing@.next.len() == 0
                &&& tick < INGRESS_WINDOW_TICKS ==> sent == per_tick * tick
                &&& tick >= INGRESS_WINDOW_TICKS ==> sent == total_frames
                &&& forall|i: int| 0 <= i < sent ==> per_tick * (#[trigger] ingress@[i]) <= i
                &&& spec_queue_ok(delay_queue@, sent as int, ingress@, delivered@, tick as int)
                &&& delay_queue@.pending.len() + delay_queue@.ready.len() + releases == sent
                &&& drained <= releases
                &&& delay_queue@.ready.len() == 0 ==> tick <= INGRESS_WINDOW_TICKS + MAX_DELAY_MS
                    - 1 && total_frames - releases <= spec_backlog_bound(
                    per_tick as int,
                    tick as int,
                )
                &&& delay_queue@.ready.len() > 0 ==> 0 <= busy_from < tick && busy_from
                    <= INGRESS_WINDOW_TICKS + MAX_DELAY_MS - 1 && total_frames - releases
                    + SIM_RELEASE_BATCH * (tick - busy_from) <= spec_backlog_bound(
                    per_tick as int,
                    busy_from,
                )
            },
        invariant
            0 <= tick <= end_tick + 1,
            end_tick == INGRESS_WINDOW_TICKS + MAX_DELAY_MS + 1,
            users > 0,
            per_tick > 0,
            delay_queue.wf(),
            delay_queue.spec_max_delay() == MAX_DELAY_MS * NS_PER_TICK,
            delay_queue.spec_min_delay() == MIN_DELAY_MS * NS_PER_TICK,
            ingress@.len() == total_frames,
            egress@.len() == total_frames,
            delivered@.len() == total_frames,
            0 <= sent <= total_frames,
            0 <= drained <= total_frames,
            forall|i: int| 0 <= i < total_frames ==> (#[trigger] ingress@[i]) < INGRESS_WINDOW_TICKS,
            forall|i: int|
                0 <= i < total_frames && delivered@[i] ==> ingress@[i] + MIN_DELAY_MS <= (
                #[trigger] egress@[i]) <= end_tick,
            spec_count_true(delivered@) == drained,
            forall|i: int| sent <= i < total_frames ==> !(#[trigger] delivered@[i]),
            spec_frames_per_user_per_tick(users as nat, total_frames as nat) is Some,
            fits == spec_workload_fits(users as nat, total_frames as nat),
            mixing.spec_rng_state() is Some,
            delay_queue.spec_rng_state() is Some,
            delay_queue.spec_distribution().spec_min_ns() == MIN_DELAY_MS * NS_PER_TICK,
            delay_queue.spec_distribution().spec_max_ns() == MAX_DELAY_MS * NS_PER_TICK,
            fits ==> spec_simulation_run(per_tick as nat, run),
            fits ==> forall|i: int|
                0 <= i < total_frames && delivered@[i] ==> (#[trigger] egress@[i]) < run.len()
                    && run[egress@[i] as int].released.contains(spec_be64_bytes((i + 1) as u64)),
            fits ==> forall|i: int|
                0 <= i < sent ==> per_tick * (#[trigger] ingress@[i]) <= i < per_tick * (ingress@[i]
                    + 1),
        ensures
            fits ==> sent == total_frames && drained == total_frames,
        decreases end_tick + 1 - tick,
    {
        let now: u64 = tick * NS_PER_TICK;
        let ghost known = sent as int;
        let ghost was_busy = delay_queue@.ready.len() > 0;
        proof {
            if fits && tick < INGRESS_WINDOW_TICKS {
                assert(per_tick * tick + per_tick <= per_tick * 5000) by (nonlinear_arith)
                    requires
                        per_tick > 0,
                        0 <= tick < 5000,
                ;
            }
            assert(spec_fresh(known, known) =~= Seq::<Seq<u8>>::empty());
            if fits && tick < INGRESS_WINDOW_TICKS {
                assert(per_tick * tick + per_tick == per_tick * (tick + 1)) by (nonlinear_arith);
            }
        }
        let ghost pool_state = mixing.spec_rng_state();
        if tick < INGRESS_WINDOW_TICKS && sent < total_frames {
            let mut round: usize = 0;
            while round < per_tick && sent < total_frames
                invariant
                    tick < INGRESS_WINDOW_TICKS,
                    per_tick > 0,
                    0 <= round <= per_tick,
                    ingress@.len() == total_frames,
                    egress@.len() == total_frames,
                    delivered@.len() == total_frames,
                    end_tick == INGRESS_WINDOW_TICKS + MAX_DELAY_MS + 1,
                    0 <= sent <= total_frames,
                    known <= sent,
                    forall|i: int|
                        0 <= i < total_frames ==> (#[trigger] ingress@[i]) < INGRESS_WINDOW_TICKS,
                    forall|i: int|
                        0 <= i < total_frames && delivered@[i] ==> ingress@[i] + MIN_DELAY_MS <= (
                        #[trigger] egress@[i]) <= end_tick,
                    forall|i: int| sent <= i < total_frames ==> !(#[trigger] delivered@[i]),
                    mixing.spec_rng_state() == pool_state,
                    fits ==> forall|i: int|
                        0 <= i < sent ==> per_tick * (#[trigger] ingress@[i]) <= i < per_tick * (
                        ingress@[i] + 1),
                    fits ==> {
                        &&& sent == known + round
                        &&& known == per_tick * tick
                        &&& known + per_tick == per_tick * (tick + 1)
                        &&& known + per_tick <= total_frames
                        &&& mixing@.current.len() == 0
                        &&& mixing@.next == spec_fresh(known, sent as int)
                        &&& forall|i: int| known <= i < sent ==> (#[trigger] ingress@[i]) == tick
                        &&& forall|i: int|
                            0 <= i < sent ==> per_tick * (#[trigger] ingress@[i]) <= i
                        &&& spec_queue_ok(
                            delay_queue@,
                            known,
                            ingress@,
                            delivered@,
                            tick as int,
                        )
                    },
                decreases per_tick - round,
            {
                let id: u64 = (sent + 1) as u64;
                let ghost ingress_before = ingress@;
                let ghost next_before = mixing@.next;
                ingress[sent] = tick;
                mixing.enqueue(id_frame(id));
                proof {
                    if fits {
                        assert(mixing@.next =~= spec_fresh(known, sent + 1));
                        assert forall|e: PendingView| #[trigger]
                            delay_queue@.pending.contains(e) implies spec_entry_ok(
                            e,
                            known,
                            ingress@,
                        ) by {
                            assert(spec_entry_ok(e, known, ingress_before));
                        }
                        assert forall|i: int| 0 <= i < delay_queue@.ready.len() implies spec_ready_ok(
                            #[trigger] delay_queue@.ready[i],
                            known,
                            ingress@,
                            tick as int,
                        ) by {
                            assert(spec_ready_ok(
                                delay_queue@.ready[i],
                                known,
                                ingress_before,
                                tick as int,
                            ));
                        }
                    }
                }
                sent += 1;
                round += 1;
            }
        }
        let ghost pool_before = mixing@;
        proof {
            if fits {
                let went_in = spec_frames_of_tick(per_tick as nat, tick as nat);
                if tick < INGRESS_WINDOW_TICKS {
                    assert(went_in =~= spec_fresh(known, sent as int));
                } else {
                    assert(went_in =~= spec_fresh(known, sent as int));
                }
                assert(pool_before =~= (MixingPoolView {
                    current: here.pool.current,
                    next: here.pool.next + went_in,
                })) by {
                    assert(here.pool.next + went_in =~= went_in);
                    assert(pool_before.current =~= here.pool.current);
                }
            }
        }
        let mixed = mixing.drain_batch(SIM_MIX_BATCH);
        let ghost mixed_frames = spec_frames(mixed@);
        let ghost q0 = delay_queue@;
        let ghost queue_state = delay_queue.spec_rng_state()->Some_0;
        proof {
            if fits {
                let fresh = spec_fresh(known, sent as int);
                assert(pool_before.current.len() == 0);
                assert(pool_before.next == fresh);
                if fresh.len() > 0 {
                    assert(mixing@.current =~= Seq::<Seq<u8>>::empty());
                    assert(mixing@.current + mixed_frames.reverse() =~= mixed_frames.reverse());
                    mixed_frames.lemma_reverse_to_multiset();
                } else {
                    assert(mixed_frames =~= fresh);
                }
                assert(mixed_frames.to_multiset() == fresh.to_multiset());
            }
        }
        take_in(&mut delay_queue, now, mixed);
        let ghost q1 = delay_queue@;
        proof {
            if fits {
                lemma_sim_took_in(
                    q0,
                    q1,
                    known,
                    sent as int,
                    ingress@,
                    delivered@,
                    tick as int,
                    mixed_frames,
                );
            }
        }
        let ghost taken_state = delay_queue.spec_rng_state()->Some_0;
        let released = delay_queue.drain_ready_at(now, SIM_RELEASE_BATCH);
        let ghost post = delay_queue@;
        let ghost out = spec_frames(released@);
        let ghost before = delivered@;
        let ghost step = SimulationStep {
            pool: mixing@,
            pool_state: mixing.spec_rng_state()->Some_0,
            queue: post,
            queue_state: delay_queue.spec_rng_state()->Some_0,
            released: out,
        };
        proof {
            if fits {
                let pool_in = MixingPoolView {
                    current: here.pool.current,
                    next: here.pool.next + spec_frames_of_tick(per_tick as nat, tick as nat),
                };
                assert(pool_in == pool_before);
                assert(now == (tick as nat * NS_PER_TICK) as u64);
                lemma_sim_step(
                    per_tick as nat,
                    tick as nat,
                    here,
                    step,
                    pool_before,
                    mixed_frames,
                    q1,
                    taken_state,
                );
                lemma_run_goes_on(per_tick as nat, run, step);
            }
        }
        proof {
            if fits {
                lemma_sim_released(q1, post, out, sent as int, ingress@, before, tick as int);
                let mid = DelayQueueView { pending: post.pending, ready: out + post.ready };
                assert forall|i: int| 0 <= i < out.len() implies spec_ready_ok(
                    #[trigger] out[i],
                    sent as int,
                    ingress@,
                    tick as int,
                ) by {
                    assert(mid.ready[i] == out[i]);
                    assert(spec_ready_ok(mid.ready[i], sent as int, ingress@, tick as int));
                }
            }
        }
        let mut j: usize = 0;
        while j < released.len()
            invariant
                0 <= j <= released@.len(),
                tick <= end_tick,
                ingress@.len() == total_frames,
                egress@.len() == total_frames,
                delivered@.len() == total_frames,
                before.len() == total_frames,
                0 <= drained <= total_frames,
                forall|i: int|
                    0 <= i < total_frames ==> (#[trigger] ingress@[i]) < INGRESS_WINDOW_TICKS,
                forall|i: int|
                    0 <= i < total_frames && delivered@[i] ==> ingress@[i] + MIN_DELAY_MS <= (
                    #[trigger] egress@[i]) <= end_tick,
                spec_count_true(delivered@) == drained,
                0 <= sent <= total_frames,
                end_tick == INGRESS_WINDOW_TICKS + MAX_DELAY_MS + 1,
                forall|i: int| sent <= i < total_frames ==> !(#[trigger] delivered@[i]),
                spec_frames_per_user_per_tick(users as nat, total_frames as nat) is Some,
                fits == spec_workload_fits(users as nat, total_frames as nat),
                out == spec_frames(released@),
                forall|i: int| 0 <= i < total_frames && before[i] ==> #[trigger] delivered@[i],
                fits ==> {
                    &&& forall|i: int|
                        0 <= i < out.len() ==> spec_ready_ok(
                            #[trigger] out[i],
                            sent as int,
                            ingress@,
                            tick as int,
                        )
                    &&& forall|i: int|
                        0 <= i < j ==> 1 <= spec_frame_id(#[trigger] out[i]) <= total_frames
                            && delivered@[spec_frame_id(out[i]) - 1]
                    &&& drained <= releases + j
                    &&& run.len() == tick
                    &&& forall|i: int|
                        0 <= i < total_frames && delivered@[i] ==> ((#[trigger] egress@[i])
                            < run.len() && run[egress@[i] as int].released.contains(
                            spec_be64_bytes((i + 1) as u64),
                        )) || (egress@[i] == tick && out.contains(
                            spec_be64_bytes((i + 1) as u64),
                        ))
                },
            decreases released@.len() - j,
        {
            proof {
                if fits {
                    assert(out[j as int] == released@[j as int]@);
                    assert(spec_ready_ok(out[j as int], sent as int, ingress@, tick as int));
                    assert(spec_carries(out[j as int], sent as int));
                    lemma_id_round_trip(spec_frame_id(out[j as int]) as u64);
                    assert(released@[j as int]@.len() == 8);
                }
            }
            let id: u64 = match frame_id(&released[j]) {
                Some(id) => id,
                None => {
                    return Err(SimulationError::UnknownFrame);
                },
            };
            if id == 0 || id > total_frames as u64 {
                return Err(SimulationError::UnknownFrame);
            }
            let index: usize = (id - 1) as usize;
            if index >= sent {
                return Err(SimulationError::UnknownFrame);
            }
            if tick < ingress[index] + MIN_DELAY_MS {
                return Err(SimulationError::ReleasedTooSoon);
            }
            if !delivered[index] {
                proof {
                    lemma_count_true_set(delivered@, index as int);
                    lemma_count_true_bound(delivered@.update(index as int, true));
                }
                delivered[index] = true;
                drained += 1;
            }
            egress[index] = tick;
            proof {
                if fits {
                    assert(out[j as int] == spec_be64_bytes((index + 1) as u64));
                    assert(out.contains(spec_be64_bytes((index + 1) as u64)));
                }
            }
            j += 1;
        }
        proof {
            if fits {
                let longer = run.push(step);
                assert forall|i: int| 0 <= i < total_frames && delivered@[i] implies (
                #[trigger] egress@[i]) < longer.len() && longer[egress@[i] as int].released.contains(
                    spec_be64_bytes((i + 1) as u64),
                ) by {
                    if egress@[i] < run.len() && run[egress@[i] as int].released.contains(
                        spec_be64_bytes((i + 1) as u64),
                    ) {
                        assert(longer[egress@[i] as int] == run[egress@[i] as int]);
                    } else {
                        assert(longer[tick as int] == step);
                    }
                }
                run = longer;
                here = step;
            }
        }
        proof {
            if fits {
                lemma_sim_handed_out(post, out, sent as int, ingress@, before, delivered@, tick as int);
                releases = releases + out.len();
                let waiting = post.ready.len() as int;
                if waiting == 0 {
                    if tick >= MAX_DELAY_MS - 1 {
                        let reach = per_tick * (tick - MAX_DELAY_MS + 1);
                        let upto = if reach <= sent {
                            reach
                        } else {
                            sent as int
                        };
                        assert(reach >= 0) by (nonlinear_arith)
                            requires
                                reach == per_tick * (tick - MAX_DELAY_MS + 1),
                                per_tick > 0,
                                tick >= MAX_DELAY_MS - 1,
                        ;
                        lemma_sim_early_frames_are_out(
                            post,
                            sent as int,
                            ingress@,
                            delivered@,
                            tick as int,
                            per_tick as int,
                            upto,
                        );
                        if tick >= INGRESS_WINDOW_TICKS + MAX_DELAY_MS - 1 {
                            assert(reach >= per_tick * 5000) by (nonlinear_arith)
                                requires
                                    reach == per_tick * (tick - 200000 + 1),
                                    per_tick > 0,
                                    tick >= 204999,
                            ;
                            assert(drained == total_frames);
                        } else {
                            assert(reach <= per_tick * 5000) by (nonlinear_arith)
                                requires
                                    reach == per_tick * (tick - 200000 + 1),
                                    per_tick > 0,
                                    tick < 204999,
                            ;
                        }
                    }
                    if tick < INGRESS_WINDOW_TICKS + MAX_DELAY_MS - 1 {
                        lemma_backlog_bound_holds(
                            per_tick as int,
                            total_frames as int,
                            releases,
                            tick as int,
                        );
                    }
                } else {
                    if !was_busy {
                        busy_from = tick as int;
                    }
                    if tick == end_tick {
                        lemma_backlog_clears(per_tick as int, waiting, busy_from);
                    }
                }
            }
        }
        if sent == total_frames && drained == total_frames {
            break ;
        }
        proof {
            if fits && tick + 1 < INGRESS_WINDOW_TICKS {
                assert(per_tick * (tick + 1) == per_tick * tick + per_tick) by (nonlinear_arith);
            }
            if fits && tick + 1 == INGRESS_WINDOW_TICKS {
                assert(per_tick * (tick + 1) == per_tick * tick + per_tick) by (nonlinear_arith);
            }
        }
        tick += 1;
    }
    if sent != total_frames || drained != total_frames {
        return Err(SimulationError::FramesMissing);
    }
    proof {
        lemma_count_true_all(delivered@);
        if fits {
            assert forall|i: int| 0 <= i < total_frames implies (#[trigger] ingress@[i]) == i / (
            per_tick as int) by {
                let at = ingress@[i] as int;
                assert(i / (per_tick as int) == at) by (nonlinear_arith)
                    requires
                        per_tick > 0,
                        per_tick * at <= i < per_tick * (at + 1),
                ;
            }
            assert(spec_simulation_run(per_tick as nat, run) && forall|i: int|
                0 <= i < total_frames ==> (#[trigger] egress@[i]) < run.len()
                    && run[egress@[i] as int].released.contains(spec_be64_bytes((i + 1) as u64)));
        }
    }
    Ok(SimulationTrace { ingress_ticks: ingress, egress_ticks: egress })
}

/// The number of `true` entries of a list.
pub open spec fn spec_count_true(flags: Seq<bool>) -> nat
    decreases flags.len(),
{
    if flags.len() == 0 {
        0
    } else {
        spec_count_true(flags.drop_last()) + if flags.last() {
            1nat
        } else {
            0nat
        }
    }
}

/// A list has no more `true` entries than entries.
pub proof fn lemma_count_true_bound(flags: Seq<bool>)
    ensures
        spec_count_true(flags) <= flags.len(),
    decreases flags.len(),
{
    if flags.len() > 0 {
        lemma_count_true_bound(flags.drop_last());
    }
}

/// Setting a `false` entry to `true` adds one to the count.
pub proof fn lemma_count_true_set(flags: Seq<bool>, index: int)
    requires
        0 <= index < flags.len(),
        !flags[index],
    ensures
        spec_count_true(flags.update(index, true)) == spec_count_true(flags) + 1,
    decreases flags.len(),
{
    let updated = flags.update(index, true);
    if index == flags.len() - 1 {
        assert(updated.drop_last() =~= flags.drop_last());
    } else {
        assert(updated.drop_last() =~= flags.drop_last().update(index, true));
        lemma_count_true_set(flags.drop_last(), index);
    }
}

/// A list with as many `true` entries as entries holds `true` only.
pub proof fn lemma_count_true_all(flags: Seq<bool>)
    requires
        spec_count_true(flags) == flags.len(),
    ensures
        forall|i: int| 0 <= i < flags.len() ==> #[trigger] flags[i],
    decreases flags.len(),
{
    if flags.len() > 0 {
        lemma_count_true_bound(flags.drop_last());
        lemma_count_true_all(flags.drop_last());
        assert forall|i: int| 0 <= i < flags.len() implies #[trigger] flags[i] by {
            if i < flags.len() - 1 {
                assert(flags.drop_last()[i] == flags[i]);
            }
        }
    }
}

} // verus!
