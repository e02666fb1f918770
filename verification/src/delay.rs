//! The delay queue: every frame is held back for a random time within the
//! bounds of a delay distribution, and frames that become ready together are
//! released in shuffled order.

use vstd::prelude::*;
use vstd::multiset::Multiset;
use std::collections::VecDeque;
use vstd::std_specs::iter::IteratorSpec;
use crate::heap::{PendingFrame, PendingHeap, PendingView};
use crate::heap::spec_key_le;
use crate::rng::{
    lemma_frames_push, spec_frames, spec_seeded_shuffle, spec_splitmix_next_state,
    spec_splitmix_output, Frame, RandomSource,
};

verus! {

/// Why the bounds of a uniform distribution were refused.
#[derive(Debug, Clone, Copy, PartialEq, Eq, Structural)]
pub enum DistributionError {
    /// The lower bound is zero.
    ZeroMin,
    /// The upper bound is below the lower bound.
    MaxBelowMin,
    /// The lower bound does not fit in 64 bits of nanoseconds.
    MinTooLarge,
    /// The upper bound does not fit in 64 bits of nanoseconds.
    MaxTooLarge,
}

/// A time span of at least one nanosecond: zero counts as one.
pub open spec fn spec_at_least_one(ns: u64) -> u64 {
    if ns == 0 {
        1
    } else {
        ns
    }
}

/// A distribution of delays, in nanoseconds.
pub trait DelayDistribution {
    /// The smallest delay the distribution yields. A distribution that
    /// states no bound may yield any delay.
    open spec fn spec_min_delay(&self) -> u64 {
        0
    }

    /// The largest delay the distribution yields. A distribution that
    /// states no bound may yield any delay.
    open spec fn spec_max_delay(&self) -> u64 {
        u64::MAX
    }

    /// The largest delay the distribution yields.
    fn max_delay(&self) -> (ns: u64)
        ensures
            ns == self.spec_max_delay(),
    ;

    /// What a draw makes of the generator and of the distribution: whether
    /// a draw from a generator in `state` may yield `ns`, leave the
    /// generator in `after_state` and the distribution as `after`. `None`
    /// stands for the operating system's generator, which has no state. A
    /// distribution that states nothing allows every outcome.
    open spec fn spec_draws(
        &self,
        state: Option<u64>,
        ns: u64,
        after_state: Option<u64>,
        after: &Self,
    ) -> bool {
        true
    }

    /// Draws a delay from `rng`. The bounds of the distribution stay as they
    /// are, and the generator stays of its kind.
    fn sample_delay(&mut self, rng: &mut RandomSource) -> (ns: u64)
        ensures
            old(self).spec_draws(old(rng).spec_state(), ns, final(rng).spec_state(), final(self)),
            old(self).spec_min_delay() <= ns <= old(self).spec_max_delay(),
            final(self).spec_min_delay() == old(self).spec_min_delay(),
            final(self).spec_max_delay() == old(self).spec_max_delay(),
            final(rng).spec_state() is None <==> old(rng).spec_state() is None,
    ;
}

/// Checks the bounds of a uniform distribution, given in nanoseconds, and
/// brings them to 64 bits.
pub fn check_uniform_bounds(min_ns: u128, max_ns: u128) -> (r: Result<(u64, u64), DistributionError>)
    ensures
        min_ns == 0 ==> r == Err::<(u64, u64), DistributionError>(DistributionError::ZeroMin),
        min_ns > 0 && max_ns < min_ns ==> r == Err::<(u64, u64), DistributionError>(
            DistributionError::MaxBelowMin,
        ),
        0 < min_ns <= max_ns && min_ns > u64::MAX ==> r == Err::<(u64, u64), DistributionError>(
            DistributionError::MinTooLarge,
        ),
        0 < min_ns <= max_ns && min_ns <= u64::MAX && max_ns > u64::MAX ==> r == Err::<
            (u64, u64),
            DistributionError,
        >(DistributionError::MaxTooLarge),
        0 < min_ns <= max_ns <= u64::MAX ==> r == Ok::<(u64, u64), DistributionError>(
            (min_ns as u64, max_ns as u64),
        ),
{
    if min_ns == 0 {
        return Err(DistributionError::ZeroMin);
    }
    if max_ns < min_ns {
        return Err(DistributionError::MaxBelowMin);
    }
    if min_ns > u64::MAX as u128 {
        return Err(DistributionError::MinTooLarge);
    }
    if max_ns > u64::MAX as u128 {
        return Err(DistributionError::MaxTooLarge);
    }
    Ok((min_ns as u64, max_ns as u64))
}

/// The value a uniform distribution over `[min_ns, max_ns]` makes of the
/// random draw `draw`.
pub open spec fn spec_uniform_sample(min_ns: u64, max_ns: u64, draw: u64) -> u64 {
    if max_ns <= min_ns {
        min_ns
    } else {
        (min_ns + draw % ((max_ns - min_ns + 1) as u64)) as u64
    }
}

/// Maps the random draw `draw` into `[min_ns, max_ns]`: the lower bound plus
/// the draw modulo the number of values in the range.
pub fn uniform_sample(min_ns: u64, max_ns: u64, draw: u64) -> (ns: u64)
    requires
        0 < min_ns <= max_ns,
    ensures
        ns == spec_uniform_sample(min_ns, max_ns, draw),
        min_ns <= ns <= max_ns,
{
    let span: u64 = max_ns - min_ns;
    if span == 0 {
        min_ns
    } else {
        let offset: u64 = draw % (span + 1);
        min_ns + offset
    }
}

/// Delays drawn uniformly from `[min, max]`, both bounds included.
#[derive(Debug, Clone, Copy)]
pub struct UniformDelay {
    min_ns: u64,
    max_ns: u64,
}

impl UniformDelay {
    #[verifier::type_invariant]
    spec fn bounds_ordered(self) -> bool {
        0 < self.min_ns <= self.max_ns
    }

    /// The lower bound, in nanoseconds.
    pub closed spec fn spec_min_ns(&self) -> u64 {
        self.min_ns
    }

    /// The upper bound, in nanoseconds.
    pub closed spec fn spec_max_ns(&self) -> u64 {
        self.max_ns
    }

    /// A uniform distribution over `[min_ns, max_ns]` nanoseconds.
    ///
    /// The lower bound must be positive, the upper bound at least the lower,
    /// and both must fit in 64 bits.
    pub fn new(min_ns: u128, max_ns: u128) -> (r: Result<UniformDelay, DistributionError>)
        ensures
            min_ns == 0 ==> r is Err && r->Err_0 == DistributionError::ZeroMin,
            min_ns > 0 && max_ns < min_ns ==> r is Err && r->Err_0
                == DistributionError::MaxBelowMin,
            0 < min_ns <= max_ns && min_ns > u64::MAX ==> r is Err && r->Err_0
                == DistributionError::MinTooLarge,
            0 < min_ns <= max_ns && min_ns <= u64::MAX && max_ns > u64::MAX ==> r is Err
                && r->Err_0 == DistributionError::MaxTooLarge,
            0 < min_ns <= max_ns <= u64::MAX ==> r is Ok && r->Ok_0.spec_min_ns() == min_ns
                && r->Ok_0.spec_max_ns() == max_ns,
    {
        match check_uniform_bounds(min_ns, max_ns) {
            Ok((lo, hi)) => Ok(UniformDelay { min_ns: lo, max_ns: hi }),
            Err(e) => Err(e),
        }
    }

    /// The lower bound, in nanoseconds.
    pub fn min_ns(&self) -> (ns: u64)
        ensures
            ns == self.spec_min_ns(),
            ns > 0,
    {
        proof {
            use_type_invariant(self);
        }
        self.min_ns
    }

    /// The upper bound, in nanoseconds.
    pub fn max_ns(&self) -> (ns: u64)
        ensures
            ns == self.spec_max_ns(),
            ns >= self.spec_min_ns(),
    {
        proof {
            use_type_invariant(self);
        }
        self.max_ns
    }
}

impl DelayDistribution for UniformDelay {
    open spec fn spec_min_delay(&self) -> u64 {
        self.spec_min_ns()
    }

    open spec fn spec_max_delay(&self) -> u64 {
        self.spec_max_ns()
    }

    fn max_delay(&self) -> (ns: u64) {
        self.max_ns
    }

    /// The distribution stays as it is. The delay is the lower bound plus
    /// one draw modulo the number of values between the bounds, so with a
    /// deterministic generator it is known.
    open spec fn spec_draws(
        &self,
        state: Option<u64>,
        ns: u64,
        after_state: Option<u64>,
        after: &Self,
    ) -> bool {
        &&& *after == *self
        &&& match state {
            Some(s) => ns == spec_uniform_sample(
                self.spec_min_ns(),
                self.spec_max_ns(),
                spec_splitmix_output(s),
            ) && after_state == Some(spec_splitmix_next_state(s)),
            None => after_state is None,
        }
    }

    fn sample_delay(&mut self, rng: &mut RandomSource) -> (ns: u64) {
        proof {
            use_type_invariant(&*self);
        }
        let draw: u64 = rng.next_u64();
        uniform_sample(self.min_ns, self.max_ns, draw)
    }
}

/// A delay queue as a mathematical value: the frames that wait for their
/// release time, and the frames that are ready, first to leave first.
pub struct DelayQueueView {
    pub pending: Multiset<PendingView>,
    pub ready: Seq<Seq<u8>>,
}

/// The frames of a list of pending entries.
pub open spec fn spec_frames_of(due: Seq<PendingView>) -> Seq<Seq<u8>> {
    due.map_values(|e: PendingView| e.frame)
}

/// Whether the entries `due` are exactly those that are taken out of
/// `pending` at time `now`, leaving `rest`: every entry of `due` is ready,
/// no entry of `rest` is, and together they are `pending`.
pub open spec fn spec_split_at(
    pending: Multiset<PendingView>,
    now: u64,
    due: Seq<PendingView>,
    rest: Multiset<PendingView>,
) -> bool {
    &&& pending == rest.add(due.to_multiset())
    &&& forall|i: int| 0 <= i < due.len() ==> (#[trigger] due[i]).ready_at <= now
    &&& forall|e: PendingView| #[trigger] rest.contains(e) ==> e.ready_at > now
}

/// Whether draining up to `max` frames at time `now` may take the queue from
/// `pre` to `post` and hand out `out`.
///
/// With `max == 0` nothing happens. Otherwise every entry whose release time
/// has come leaves the pending set; the frames of those entries are put
/// behind the ready frames in some order; and the first `max` ready frames,
/// or all if there are fewer, are handed out.
pub open spec fn spec_drain_ready(
    pre: DelayQueueView,
    now: u64,
    max: nat,
    post: DelayQueueView,
    out: Seq<Seq<u8>>,
) -> bool {
    if max == 0 {
        post == pre && out.len() == 0
    } else {
        let all = out + post.ready;
        &&& pre.ready.len() <= all.len()
        &&& all.take(pre.ready.len() as int) == pre.ready
        &&& out.len() == if max <= all.len() {
            max
        } else {
            all.len()
        }
        &&& exists|due: Seq<PendingView>|
            #![auto]
            spec_split_at(pre.pending, now, due, post.pending) && all.skip(
                pre.ready.len() as int,
            ).to_multiset() == spec_frames_of(due).to_multiset()
    }
}

/// Whether taking in `frames` at time `now` may take the pending entries
/// from `pre` to `post`: for each frame one entry is added that holds it,
/// and whose release time lies at least `min` and at most `max` after `now`,
/// zero counting as one nanosecond.
pub open spec fn spec_took_in(
    pre: Multiset<PendingView>,
    now: u64,
    min: u64,
    max: u64,
    frames: Seq<Seq<u8>>,
    post: Multiset<PendingView>,
) -> bool {
    exists|entries: Seq<PendingView>|
        #![trigger spec_frames_of(entries)]
        {
            &&& spec_frames_of(entries) == frames
            &&& forall|i: int|
                0 <= i < entries.len() ==> spec_at_least_one(min) <= (
                #[trigger] entries[i]).ready_at - now <= spec_at_least_one(max)
            &&& post == pre.add(entries.to_multiset())
        }
}

/// Whether entries stand in the order in which they leave the pending set:
/// earlier release time first, smaller nonce first among equal release
/// times.
pub open spec fn spec_in_release_order(due: Seq<PendingView>) -> bool {
    forall|i: int, j: int| 0 <= i < j < due.len() ==> spec_key_le(#[trigger] due[i], #[trigger] due[j])
}

/// Whether a drain that takes the queue from `pre` to `post` and hands out
/// `out` follows a deterministic generator in `state`: the frames that have
/// become due, taken in their order of release, join the ready frames in
/// the order that the generator's draw gives as a seed. Of the operating
/// system's generator, for which `None` stands, nothing is asked.
pub open spec fn spec_release_order(
    pre: DelayQueueView,
    now: u64,
    max: nat,
    state: Option<u64>,
    post: DelayQueueView,
    out: Seq<Seq<u8>>,
) -> bool {
    max > 0 && state is Some ==> exists|due: Seq<PendingView>|
        #![trigger spec_frames_of(due)]
        {
            &&& spec_split_at(pre.pending, now, due, post.pending)
            &&& spec_in_release_order(due)
            &&& pre.ready + spec_seeded_shuffle(
                spec_frames_of(due),
                spec_splitmix_output(state->Some_0),
            ) == out + post.ready
        }
}

/// The entry of a frame that was taken in at time `now` with the delay `ns`
/// and the nonce `nonce`: it is released that delay after `now`, zero
/// counting as one nanosecond.
pub open spec fn spec_entry_at(now: u64, ns: u64, nonce: u64, frame: Seq<u8>) -> PendingView {
    PendingView { ready_at: (now + spec_at_least_one(ns)) as u64, nonce, frame }
}

/// The state of a generator once a queue has drained up to `max` frames. A
/// drain that asks for frames shuffles the batch that has become due, also
/// where that batch is empty, which takes one draw of a deterministic
/// generator. `None` stands for the operating system's generator, which has
/// no state.
pub open spec fn spec_rng_after_release(max: nat, state: Option<u64>) -> Option<u64> {
    if max == 0 {
        state
    } else {
        match state {
            Some(s) => Some(spec_splitmix_next_state(s)),
            None => None,
        }
    }
}

/// The delay queue.
pub struct DelayQueue<D: DelayDistribution> {
    distribution: D,
    rng: RandomSource,
    pending: PendingHeap,
    ready: VecDeque<Frame>,
}

impl<D: DelayDistribution> View for DelayQueue<D> {
    type V = DelayQueueView;

    closed spec fn view(&self) -> DelayQueueView {
        DelayQueueView { pending: self.pending.spec_contents(), ready: spec_frames(self.ready@) }
    }
}

impl<D: DelayDistribution> DelayQueue<D> {
    /// The invariant of the queue.
    pub closed spec fn wf(&self) -> bool {
        self.pending.wf()
    }

    /// The smallest delay of the queue's distribution.
    pub closed spec fn spec_min_delay(&self) -> u64 {
        self.distribution.spec_min_delay()
    }

    /// The largest delay of the queue's distribution.
    pub closed spec fn spec_max_delay(&self) -> u64 {
        self.distribution.spec_max_delay()
    }

    /// The state of the generator that the queue draws from: that of a
    /// deterministic generator, `None` for the operating system's.
    pub closed spec fn spec_rng_state(&self) -> Option<u64> {
        self.rng.spec_state()
    }

    /// The distribution that the queue draws its delays from.
    pub closed spec fn spec_distribution(&self) -> D {
        self.distribution
    }

    /// Whether taking in `frame` at time `now` may take this queue to
    /// `after`.
    ///
    /// A delay is drawn from the distribution, and the frame is released
    /// that delay after `now`, zero counting as one nanosecond. Then the
    /// generator is asked for the nonce of the entry. With a deterministic
    /// generator the nonce is the draw that follows those of the
    /// distribution.
    pub open spec fn spec_enqueue_at(&self, now: u64, frame: Seq<u8>, after: &Self) -> bool {
        exists|ns: u64, mid: Option<u64>, nonce: u64|
            #![trigger self.spec_distribution().spec_draws(self.spec_rng_state(), ns, mid, &after.spec_distribution()), spec_entry_at(now, ns, nonce, frame)]
            {
                &&& self.spec_distribution().spec_draws(
                    self.spec_rng_state(),
                    ns,
                    mid,
                    &after.spec_distribution(),
                )
                &&& after@.pending == self@.pending.insert(spec_entry_at(now, ns, nonce, frame))
                &&& mid is Some ==> nonce == spec_splitmix_output(mid->Some_0)
                    && after.spec_rng_state() == Some(spec_splitmix_next_state(mid->Some_0))
            }
    }

    /// An empty queue that draws from the operating system's generator.
    pub fn new(distribution: D) -> (q: DelayQueue<D>)
        ensures
            q.wf(),
            q@.pending == Multiset::<PendingView>::empty(),
            q@.ready.len() == 0,
            q.spec_min_delay() == distribution.spec_min_delay(),
            q.spec_max_delay() == distribution.spec_max_delay(),
            q.spec_rng_state() is None,
            q.spec_distribution() == distribution,
    {
        DelayQueue::with_rng(distribution, RandomSource::os())
    }

    /// An empty queue that draws from `rng`.
    pub fn with_rng(distribution: D, rng: RandomSource) -> (q: DelayQueue<D>)
        ensures
            q.wf(),
            q@.pending == Multiset::<PendingView>::empty(),
            q@.ready.len() == 0,
            q.spec_min_delay() == distribution.spec_min_delay(),
            q.spec_max_delay() == distribution.spec_max_delay(),
            q.spec_rng_state() == rng.spec_state(),
            q.spec_distribution() == distribution,
    {
        DelayQueue { distribution, rng, pending: PendingHeap::new(), ready: VecDeque::new() }
    }

    /// The largest delay of the queue's distribution, in nanoseconds.
    pub fn max_delay(&self) -> (ns: u64)
        ensures
            ns == self.spec_max_delay(),
    {
        self.distribution.max_delay()
    }

    /// The number of frames that wait for their release time.
    pub fn pending_len(&self) -> (n: usize)
        ensures
            n == self@.pending.len(),
    {
        self.pending.len()
    }

    /// The number of frames that are ready and not yet handed out.
    pub fn ready_len(&self) -> (n: usize)
        ensures
            n == self@.ready.len(),
    {
        self.ready.len()
    }

    /// Whether `enqueue_at` may be called at time `now`: the latest release
    /// time it can choose fits in 64 bits of nanoseconds.
    pub fn can_enqueue_at(&self, now: u64) -> (b: bool)
        ensures
            b == (now + spec_at_least_one(self.spec_max_delay()) <= u64::MAX),
    {
        let max: u64 = self.distribution.max_delay();
        let hi: u64 = if max == 0 {
            1
        } else {
            max
        };
        now <= u64::MAX - hi
    }

    /// Takes in `frame` at time `now`.
    ///
    /// A delay is drawn from the distribution, zero counting as one
    /// nanosecond, and the frame waits until `now` plus that delay. So the
    /// frame's release time lies at least the smallest and at most the
    /// largest delay of the distribution after `now`. A random nonce decides
    /// the order among frames with the same release time.
    pub fn enqueue_at(&mut self, now: u64, frame: Frame)
        requires
            old(self).wf(),
            now + spec_at_least_one(old(self).spec_max_delay()) <= u64::MAX,
        ensures
            final(self).wf(),
            final(self).spec_min_delay() == old(self).spec_min_delay(),
            final(self).spec_max_delay() == old(self).spec_max_delay(),
            final(self)@.ready == old(self)@.ready,
            final(self).spec_rng_state() is None <==> old(self).spec_rng_state() is None,
            old(self).spec_enqueue_at(now, frame@, final(self)),
            exists|ready_at: u64, nonce: u64|
                #![auto]
                final(self)@.pending == old(self)@.pending.insert(
                    PendingView { ready_at, nonce, frame: frame@ },
                ) && spec_at_least_one(old(self).spec_min_delay()) <= ready_at - now
                    <= spec_at_least_one(old(self).spec_max_delay()),
    {
        let sampled: u64 = self.distribution.sample_delay(&mut self.rng);
        let ghost mid = self.rng.spec_state();
        let delay: u64 = if sampled == 0 {
            1
        } else {
            sampled
        };
        let ready_at: u64 = now + delay;
        let nonce: u64 = self.rng.next_u64();
        let entry = PendingFrame { ready_at, nonce, frame };
        self.pending.push(entry);
        proof {
            assert(self@.pending == old(self)@.pending.insert(
                PendingView { ready_at, nonce, frame: frame@ },
            ));
            assert(old(self).spec_distribution().spec_draws(
                old(self).spec_rng_state(),
                sampled,
                mid,
                &self.spec_distribution(),
            ) && self@.pending == old(self)@.pending.insert(
                spec_entry_at(now, sampled, nonce, frame@),
            ));
        }
    }

    /// Hands out up to `max_frames` frames that are ready at time `now`.
    ///
    /// Every pending frame whose release time is not after `now` becomes
    /// ready; those frames are shuffled before they join the ready frames.
    /// With `max_frames == 0` nothing happens.
    pub fn drain_ready_at(&mut self, now: u64, max_frames: usize) -> (drained: Vec<Frame>)
        requires
            old(self).wf(),
        ensures
            final(self).wf(),
            final(self).spec_min_delay() == old(self).spec_min_delay(),
            final(self).spec_max_delay() == old(self).spec_max_delay(),
            spec_drain_ready(old(self)@, now, max_frames as nat, final(self)@, spec_frames(drained@)),
            final(self).spec_rng_state() == spec_rng_after_release(
                max_frames as nat,
                old(self).spec_rng_state(),
            ),
            final(self).spec_distribution() == old(self).spec_distribution(),
            spec_release_order(
                old(self)@,
                now,
                max_frames as nat,
                old(self).spec_rng_state(),
                final(self)@,
                spec_frames(drained@),
            ),
    {
        let mut drained: Vec<Frame> = Vec::new();
        if max_frames == 0 {
            assert(spec_frames(drained@) =~= Seq::<Seq<u8>>::empty());
            return drained;
        }
        let due_entries = self.collect_ready(now);
        let ghost due = due_entries@;
        let ghost all = self@.ready;
        proof {
            if old(self).spec_rng_state() is Some {
                assert(spec_split_at(old(self)@.pending, now, due, self@.pending)
                    && spec_in_release_order(due) && old(self)@.ready + spec_seeded_shuffle(
                    spec_frames_of(due),
                    spec_splitmix_output(old(self).spec_rng_state()->Some_0),
                ) == all);
            }
        }
        assert(spec_frames(drained@) + self@.ready =~= all);
        while drained.len() < max_frames && self.ready.len() > 0
            invariant
                self.wf(),
                self.spec_min_delay() == old(self).spec_min_delay(),
                self.spec_max_delay() == old(self).spec_max_delay(),
                self.spec_rng_state() == spec_rng_after_release(
                    max_frames as nat,
                    old(self).spec_rng_state(),
                ),
                self.spec_distribution() == old(self).spec_distribution(),
                spec_split_at(old(self)@.pending, now, due, self@.pending),
                spec_frames(drained@) + self@.ready == all,
                drained@.len() <= max_frames,
            decreases self.ready@.len(),
        {
            let ghost ready_before = self.ready@;
            let ghost drained_before = drained@;
            let frame = self.ready.pop_front().unwrap();
            drained.push(frame);
            proof {
                lemma_frames_push(drained_before, drained@, frame);
                assert(spec_frames(self.ready@) =~= spec_frames(ready_before).skip(1));
                assert(spec_frames(drained@) + self@.ready =~= spec_frames(drained_before)
                    + spec_frames(ready_before));
            }
        }
        proof {
            let out = spec_frames(drained@);
            assert(out.len() == drained@.len());
            assert(all.len() == out.len() + self@.ready.len());
        }
        drained
    }

    /// Moves every pending frame whose release time has come to the ready
    /// frames, shuffled. Returns the entries that were moved.
    fn collect_ready(&mut self, now: u64) -> (due: Ghost<Seq<PendingView>>)
        requires
            old(self).wf(),
        ensures
            final(self).wf(),
            final(self).spec_min_delay() == old(self).spec_min_delay(),
            final(self).spec_max_delay() == old(self).spec_max_delay(),
            final(self).spec_rng_state() == spec_rng_after_release(1, old(self).spec_rng_state()),
            final(self).spec_distribution() == old(self).spec_distribution(),
            spec_split_at(old(self)@.pending, now, due@, final(self)@.pending),
            old(self)@.ready.len() <= final(self)@.ready.len(),
            final(self)@.ready.take(old(self)@.ready.len() as int) == old(self)@.ready,
            final(self)@.ready.skip(old(self)@.ready.len() as int).to_multiset() == spec_frames_of(
                due@,
            ).to_multiset(),
            spec_in_release_order(due@),
            old(self).spec_rng_state() is Some ==> final(self)@.ready == old(self)@.ready
                + spec_seeded_shuffle(
                spec_frames_of(due@),
                spec_splitmix_output(old(self).spec_rng_state()->Some_0),
            ),
    {
        broadcast use vstd::seq_lib::to_multiset_build;

        let mut batch: Vec<Frame> = Vec::new();
        let ghost mut due: Seq<PendingView> = Seq::empty();
        let ghost before = self@.pending;
        proof {
            vstd::seq_lib::to_multiset_len(due);
            vstd::multiset::lemma_multiset_empty_len(due.to_multiset());
            assert(due.to_multiset() =~= Multiset::<PendingView>::empty());
            assert(before =~= self@.pending.add(due.to_multiset()));
            assert(spec_frames(batch@) =~= spec_frames_of(due));
        }
        loop
            invariant
                self.wf(),
                self.ready == old(self).ready,
                self.rng == old(self).rng,
                self.distribution == old(self).distribution,
                self.spec_min_delay() == old(self).spec_min_delay(),
                self.spec_max_delay() == old(self).spec_max_delay(),
                before == old(self)@.pending,
                before == self@.pending.add(due.to_multiset()),
                forall|i: int| 0 <= i < due.len() ==> (#[trigger] due[i]).ready_at <= now,
                spec_frames(batch@) == spec_frames_of(due),
                spec_in_release_order(due),
                forall|i: int, w: PendingView|
                    0 <= i < due.len() && #[trigger] self@.pending.contains(w) ==> spec_key_le(
                        #[trigger] due[i],
                        w,
                    ),
            ensures
                self.wf(),
                self.ready == old(self).ready,
                self.rng == old(self).rng,
                self.distribution == old(self).distribution,
                self.spec_min_delay() == old(self).spec_min_delay(),
                self.spec_max_delay() == old(self).spec_max_delay(),
                spec_split_at(before, now, due, self@.pending),
                spec_frames(batch@) == spec_frames_of(due),
                spec_in_release_order(due),
            decreases self@.pending.len(),
        {
            match self.pending.peek_ready_at() {
                None => {
                    break ;
                },
                Some(t) => {
                    if t > now {
                        break ;
                    }
                },
            }
            let ghost pending_before = self@.pending;
            let ghost batch_before = batch@;
            let entry = self.pending.pop_min().unwrap();
            let ghost e = entry@;
            proof {
                assert(e.ready_at <= now) by {
                    let w = choose|w: PendingView| #[trigger]
                        pending_before.contains(w) && w.ready_at <= now;
                    assert(w.ready_at >= e.ready_at);
                }
            }
            batch.push(entry.frame);
            proof {
                lemma_frames_push(batch_before, batch@, entry.frame);
                let due2 = due.push(e);
                vstd::seq_lib::to_multiset_build(due, e);
                assert(due2.to_multiset() =~= due.to_multiset().insert(e));
                assert(before =~= self@.pending.add(due2.to_multiset()));
                assert(spec_frames_of(due2) =~= spec_frames_of(due).push(e.frame));
                assert(pending_before.contains(e));
                assert forall|i: int, w: PendingView|
                    0 <= i < due2.len() && #[trigger] self@.pending.contains(
                        w,
                    ) implies spec_key_le(#[trigger] due2[i], w) by {
                    assert(pending_before.contains(w));
                    if i < due.len() {
                        assert(spec_key_le(due[i], w));
                    }
                }
                assert forall|i: int, j: int| 0 <= i < j < due2.len() implies spec_key_le(
                    #[trigger] due2[i],
                    #[trigger] due2[j],
                ) by {
                    if j < due.len() {
                        assert(spec_key_le(due[i], due[j]));
                    } else {
                        assert(spec_key_le(due[i], e));
                    }
                }
                due = due2;
                assert(self@.pending.len() < pending_before.len());
            }
        }
        let ghost unshuffled = spec_frames(batch@);
        self.rng.shuffle(&mut batch);
        let ghost shuffled = spec_frames(batch@);
        let ghost ready0 = spec_frames(self.ready@);
        let ghost batch_seq = batch@;
        assert(ready0 + shuffled.take(0) =~= ready0);
        for frame in it: batch
            invariant
                it.seq() == batch_seq,
                spec_frames(batch_seq) == shuffled,
                spec_in_release_order(due),
                self.spec_rng_state() == spec_rng_after_release(1, old(self).spec_rng_state()),
                self.distribution == old(self).distribution,
                self.wf(),
                self.spec_min_delay() == old(self).spec_min_delay(),
                self.spec_max_delay() == old(self).spec_max_delay(),
                spec_split_at(before, now, due, self@.pending),
                spec_frames(self.ready@) == ready0 + shuffled.take(it.index() as int),
        {
            let ghost prev = self.ready@;
            self.ready.push_back(frame);
            proof {
                lemma_frames_push(prev, self.ready@, frame);
                assert(shuffled.take(it.index() + 1) =~= shuffled.take(it.index() as int).push(
                    frame@,
                ));
                assert(spec_frames(self.ready@) =~= ready0 + shuffled.take(it.index() + 1));
            }
        }
        proof {
            assert(shuffled.take(shuffled.len() as int) =~= shuffled);
            assert(self@.ready.take(ready0.len() as int) =~= ready0);
            assert(self@.ready.skip(ready0.len() as int) =~= shuffled);
            assert(self@.ready =~= ready0 + shuffled);
        }
        Ghost(due)
    }
}

/// Delay bounds of a uniform distribution: a frame that `enqueue_at` takes
/// in at time `now` is released no sooner than the lower bound and no later
/// than the upper bound after `now`, because zero is never drawn.
pub proof fn lemma_uniform_delay_bounds(min_ns: u64, max_ns: u64, draw: u64)
    requires
        0 < min_ns <= max_ns,
    ensures
        min_ns <= spec_uniform_sample(min_ns, max_ns, draw) <= max_ns,
        spec_at_least_one(spec_uniform_sample(min_ns, max_ns, draw)) == spec_uniform_sample(
            min_ns,
            max_ns,
            draw,
        ),
{
}

} // verus!
