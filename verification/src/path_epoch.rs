//! The path-epoch rotator: which of several transport paths is in use, and
//! when the next switch is due.
//!
//! The rotator is passive data. Its owner asks whether a rotation is due, and
//! if so lets the rotator pick the next path and schedule the switch after.

use vstd::prelude::*;
use crate::delay::{
    check_uniform_bounds, spec_at_least_one, spec_uniform_sample, uniform_sample,
    DistributionError,
};
use crate::rng::{
    spec_splitmix_next_state, spec_splitmix_output, spec_state_after_draw, RandomSource,
};

verus! {

/// A distribution of epoch durations, in nanoseconds.
pub trait EpochDurationDistribution {
    /// The shortest epoch the distribution yields. A distribution that
    /// states no bound may yield any duration.
    open spec fn spec_min_duration(&self) -> u64 {
        0
    }

    /// The longest epoch the distribution yields. A distribution that
    /// states no bound may yield any duration.
    open spec fn spec_max_duration(&self) -> u64 {
        u64::MAX
    }

    /// The longest epoch the distribution yields.
    fn max_duration(&self) -> (ns: u64)
        ensures
            ns == self.spec_max_duration(),
    ;

    /// What a draw makes of the generator and of the distribution: whether
    /// a draw from a generator in `state` may yield `ns`, leave the
    /// generator in `after_state` and the distribution as `after`. `None`
    /// stands for the operating system's generator, which has no state. A
    /// distribution that states nothing allows every outcome.
    open spec fn spec_draws(
        &self,
        state: Option<u64>,
        ns: u64,
        after_state: Option<u64>,
        after: &Self,
    ) -> bool {
        true
    }

    /// Draws a duration from `rng`. The bounds of the distribution stay as
    /// they are, and the generator stays of its kind.
    fn sample_duration(&mut self, rng: &mut RandomSource) -> (ns: u64)
        ensures
            old(self).spec_draws(old(rng).spec_state(), ns, final(rng).spec_state(), final(self)),
            old(self).spec_min_duration() <= ns <= old(self).spec_max_duration(),
            final(self).spec_min_duration() == old(self).spec_min_duration(),
            final(self).spec_max_duration() == old(self).spec_max_duration(),
            final(rng).spec_state() is None <==> old(rng).spec_state() is None,
    ;
}

/// Epoch durations drawn uniformly from `[min, max]`, both bounds included.
#[derive(Debug, Clone, Copy)]
pub struct UniformEpochDuration {
    min_ns: u64,
    max_ns: u64,
}

impl UniformEpochDuration {
    #[verifier::type_invariant]
    spec fn bounds_ordered(self) -> bool {
        0 < self.min_ns <= self.max_ns
    }

    /// The lower bound, in nanoseconds.
    pub closed spec fn spec_min_ns(&self) -> u64 {
        self.min_ns
    }

    /// The upper bound, in nanoseconds.
    pub closed spec fn spec_max_ns(&self) -> u64 {
        self.max_ns
    }

    /// A uniform distribution over `[min_ns, max_ns]` nanoseconds.
    ///
    /// The lower bound must be positive, the upper bound at least the lower,
    /// and both must fit in 64 bits.
    pub fn new(min_ns: u128, max_ns: u128) -> (r: Result<UniformEpochDuration, DistributionError>)
        ensures
            min_ns == 0 ==> r is Err && r->Err_0 == DistributionError::ZeroMin,
            min_ns > 0 && max_ns < min_ns ==> r is Err && r->Err_0
                == DistributionError::MaxBelowMin,
            0 < min_ns <= max_ns && min_ns > u64::MAX ==> r is Err && r->Err_0
                == DistributionError::MinTooLarge,
            0 < min_ns <= max_ns && min_ns <= u64::MAX && max_ns > u64::MAX ==> r is Err
                && r->Err_0 == DistributionError::MaxTooLarge,
            0 < min_ns <= max_ns <= u64::MAX ==> r is Ok && r->Ok_0.spec_min_ns() == min_ns
                && r->Ok_0.spec_max_ns() == max_ns,
    {
        match check_uniform_bounds(min_ns, max_ns) {
            Ok((lo, hi)) => Ok(UniformEpochDuration { min_ns: lo, max_ns: hi }),
            Err(e) => Err(e),
        }
    }
}

impl EpochDurationDistribution for UniformEpochDuration {
    open spec fn spec_min_duration(&self) -> u64 {
        self.spec_min_ns()
    }

    open spec fn spec_max_duration(&self) -> u64 {
        self.spec_max_ns()
    }

    fn max_duration(&self) -> (ns: u64) {
        self.max_ns
    }

    /// The distribution stays as it is. The duration is the lower bound
    /// plus one draw modulo the number of values between the bounds, so
    /// with a deterministic generator it is known.
    open spec fn spec_draws(
        &self,
        state: Option<u64>,
        ns: u64,
        after_state: Option<u64>,
        after: &Self,
    ) -> bool {
        &&& *after == *self
        &&& match state {
            Some(s) => ns == spec_uniform_sample(
                self.spec_min_ns(),
                self.spec_max_ns(),
                spec_splitmix_output(s),
            ) && after_state == Some(spec_splitmix_next_state(s)),
            None => after_state is None,
        }
    }

    fn sample_duration(&mut self, rng: &mut RandomSource) -> (ns: u64) {
        proof {
            use_type_invariant(&*self);
        }
        let draw: u64 = rng.next_u64();
        uniform_sample(self.min_ns, self.max_ns, draw)
    }
}

/// Why a rotator could not be made.
#[derive(Debug, Clone, Copy, PartialEq, Eq, Structural)]
pub enum PathEpochError {
    /// The list of paths is empty.
    EmptyPaths,
}

/// The index that the random draw `draw` picks among `n` paths.
pub open spec fn spec_pick_index(n: nat, draw: u64) -> nat
    recommends
        n > 0,
{
    (draw as nat) % n
}

/// The index of the next path: the one that `draw` picks, moved on by one,
/// wrapping round, if it is the current one. With a single path there is
/// nothing to choose.
pub open spec fn spec_next_index(current: nat, n: nat, draw: u64) -> nat
    recommends
        n > 0,
        current < n,
{
    if n == 1 {
        0
    } else if spec_pick_index(n, draw) == current {
        (current + 1) % n
    } else {
        spec_pick_index(n, draw)
    }
}

/// The index that the random draw `draw` picks among `n` paths.
pub fn pick_index(n: usize, draw: u64) -> (idx: usize)
    requires
        n > 0,
    ensures
        idx == spec_pick_index(n as nat, draw),
        idx < n,
{
    (draw % (n as u64)) as usize
}

/// The index of the path to rotate to, given the current index, the number
/// of paths and a random draw.
pub fn select_index(current: usize, n: usize, draw: u64) -> (idx: usize)
    requires
        n > 0,
        current < n,
    ensures
        idx == spec_next_index(current as nat, n as nat, draw),
        idx < n,
        n > 1 ==> idx != current,
{
    if n == 1 {
        return 0;
    }
    let picked: usize = pick_index(n, draw);
    if picked == current {
        if current + 1 == n {
            assert((current + 1) as nat % (n as nat) == 0) by (nonlinear_arith)
                requires
                    current + 1 == n,
                    n > 0,
            ;
            0
        } else {
            assert((current + 1) as nat % (n as nat) == current + 1) by (nonlinear_arith)
                requires
                    current + 1 < n,
            ;
            current + 1
        }
    } else {
        picked
    }
}

/// The path indices of a run of rotations that starts at `start` and uses the
/// random draws `draws` one after the other: the start, then one index for
/// each draw.
pub open spec fn spec_rotation_indices(start: nat, n: nat, draws: Seq<u64>) -> Seq<nat>
    decreases draws.len(),
{
    if draws.len() == 0 {
        seq![start]
    } else {
        seq![start] + spec_rotation_indices(
            spec_next_index(start, n, draws[0]),
            n,
            draws.drop_first(),
        )
    }
}

/// Path diversity: with two paths or more, whatever the random draws are, no
/// rotation ends on the path it started from, so consecutive path indices of
/// a run of rotations are always distinct, and each is a valid index.
pub proof fn lemma_path_diversity(start: nat, n: nat, draws: Seq<u64>)
    requires
        n >= 2,
        start < n,
    ensures
        spec_rotation_indices(start, n, draws).len() == draws.len() + 1,
        forall|k: int|
            0 <= k <= draws.len() ==> #[trigger] spec_rotation_indices(start, n, draws)[k] < n,
        forall|k: int|
            0 <= k < draws.len() ==> #[trigger] spec_rotation_indices(start, n, draws)[k]
                != spec_rotation_indices(start, n, draws)[k + 1],
    decreases draws.len(),
{
    if draws.len() > 0 {
        let next = spec_next_index(start, n, draws[0]);
        assert(next < n && next != start) by {
            lemma_next_index_differs(start, n, draws[0]);
        }
        let tail = spec_rotation_indices(next, n, draws.drop_first());
        lemma_path_diversity(next, n, draws.drop_first());
        let all = spec_rotation_indices(start, n, draws);
        assert(all =~= seq![start] + tail);
        assert forall|k: int| 0 <= k < draws.len() implies #[trigger] all[k] != all[k + 1] by {
            if k == 0 {
                assert(all[1] == tail[0]);
            } else {
                assert(all[k] == tail[k - 1]);
                assert(all[k + 1] == tail[k]);
            }
        }
        assert forall|k: int| 0 <= k <= draws.len() implies #[trigger] all[k] < n by {
            if k > 0 {
                assert(all[k] == tail[k - 1]);
            }
        }
    }
}

/// One rotation never stays on the current path when there are two or more.
pub proof fn lemma_next_index_differs(current: nat, n: nat, draw: u64)
    requires
        n >= 2,
        current < n,
    ensures
        spec_next_index(current, n, draw) < n,
        spec_next_index(current, n, draw) != current,
{
    if spec_pick_index(n, draw) == current {
        if current + 1 == n {
            assert((current + 1) % n == 0) by (nonlinear_arith)
                requires
                    current + 1 == n,
                    n > 0,
            ;
        } else {
            assert((current + 1) % n == current + 1) by (nonlinear_arith)
                requires
                    current + 1 < n,
            ;
        }
    } else {
        assert((draw as nat) % n < n) by (nonlinear_arith)
            requires
                n > 0,
        ;
    }
}

/// A path-epoch rotator as a mathematical value.
pub struct PathEpochView<P> {
    pub paths: Seq<P>,
    pub current_index: usize,
    pub next_rotation: u64,
    pub epoch_nonce: u64,
}

/// Whether a rotation may take a rotator from `pre` to `post`: the paths
/// stay, the new index names a path, and with two paths or more it is
/// another index than before.
pub open spec fn spec_rotation_step<P>(pre: PathEpochView<P>, post: PathEpochView<P>) -> bool {
    &&& post.paths == pre.paths
    &&& post.current_index < post.paths.len()
    &&& pre.paths.len() > 1 ==> post.current_index != pre.current_index
}

/// No consecutive duplicates: over a run of rotations, however long, of a
/// rotator with two paths or more, every rotation ends on another index
/// than the one before, and so, where no path is listed twice, on another
/// path.
pub proof fn lemma_rotations_change_path<P>(run: Seq<PathEpochView<P>>)
    requires
        run.len() > 0,
        run[0].paths.len() >= 2,
        run[0].current_index < run[0].paths.len(),
        forall|k: int| 0 <= k < run.len() - 1 ==> spec_rotation_step(#[trigger] run[k], run[k + 1]),
    ensures
        forall|k: int|
            0 <= k < run.len() - 1 ==> (#[trigger] run[k]).current_index != run[k
                + 1].current_index,
        run[0].paths.no_duplicates() ==> forall|k: int|
            0 <= k < run.len() - 1 ==> (#[trigger] run[k]).paths[run[k].current_index as int]
                != run[k + 1].paths[run[k + 1].current_index as int],
    decreases run.len(),
{
    if run.len() > 1 {
        let rest = run.skip(1);
        assert(spec_rotation_step(run[0], run[1]));
        assert forall|k: int| 0 <= k < rest.len() - 1 implies spec_rotation_step(
            #[trigger] rest[k],
            rest[k + 1],
        ) by {
            assert(spec_rotation_step(run[k + 1], run[k + 2]));
        }
        lemma_rotations_change_path(rest);
        assert forall|k: int| 0 <= k < run.len() - 1 implies (#[trigger] run[k]).current_index
            != run[k + 1].current_index by {
            if k > 0 {
                assert(rest[k - 1].current_index != rest[k].current_index);
            }
        }
        if run[0].paths.no_duplicates() {
            assert forall|k: int| 0 <= k < run.len() - 1 implies (#[trigger] run[k]).paths[run[k].current_index as int]
                != run[k + 1].paths[run[k + 1].current_index as int] by {
                if k > 0 {
                    assert(rest[k - 1].paths[rest[k - 1].current_index as int] != rest[k].paths[rest[k].current_index as int]);
                }
            }
        }
    }
}

/// The state of a generator after the next path was picked among `paths`
/// paths: the pick takes one draw, and none where there is one path only.
pub open spec fn spec_state_after_pick(paths: nat, state: Option<u64>) -> Option<u64> {
    if paths > 1 {
        spec_state_after_draw(state)
    } else {
        state
    }
}

/// The path-epoch rotator over paths of type `P`.
pub struct PathEpoch<P, D: EpochDurationDistribution> {
    paths: Vec<P>,
    distribution: D,
    rng: RandomSource,
    current_index: usize,
    next_rotation: u64,
    epoch_nonce: u64,
}

impl<P, D: EpochDurationDistribution> View for PathEpoch<P, D> {
    type V = PathEpochView<P>;

    closed spec fn view(&self) -> PathEpochView<P> {
        PathEpochView {
            paths: self.paths@,
            current_index: self.current_index,
            next_rotation: self.next_rotation,
            epoch_nonce: self.epoch_nonce,
        }
    }
}

impl<P, D: EpochDurationDistribution> PathEpoch<P, D> {
    /// The invariant of the rotator: there is a path, and the current index
    /// names one.
    pub open spec fn wf(&self) -> bool {
        self@.paths.len() > 0 && self@.current_index < self@.paths.len()
    }

    /// The shortest epoch of the rotator's distribution.
    pub closed spec fn spec_min_duration(&self) -> u64 {
        self.distribution.spec_min_duration()
    }

    /// The longest epoch of the rotator's distribution.
    pub closed spec fn spec_max_duration(&self) -> u64 {
        self.distribution.spec_max_duration()
    }

    /// The state of the rotator's generator if it is deterministic; `None`
    /// for the operating system's generator.
    pub closed spec fn spec_rng_state(&self) -> Option<u64> {
        self.rng.spec_state()
    }

    /// The distribution that the rotator draws its epoch durations from.
    pub closed spec fn spec_distribution(&self) -> D {
        self.distribution
    }

    /// Whether the rotator `after` has its next rotation scheduled at time
    /// `now` by a draw of `distribution` from a generator in `from`: the
    /// rotation is due the drawn duration after `now`, zero counting as one
    /// nanosecond, and the draw left generator and distribution as `after`
    /// has them.
    pub open spec fn spec_scheduled(distribution: D, from: Option<u64>, now: u64, after: &Self) -> bool {
        exists|ns: u64| #[trigger]
            distribution.spec_draws(from, ns, after.spec_rng_state(), &after.spec_distribution())
                && after@.next_rotation == now + spec_at_least_one(ns)
    }

    /// A rotator over `paths` that starts at time `now` on a path chosen by
    /// the operating system's generator.
    pub fn new(paths: Vec<P>, distribution: D, now: u64) -> (r: Result<
        PathEpoch<P, D>,
        PathEpochError,
    >)
        requires
            now + spec_at_least_one(distribution.spec_max_duration()) <= u64::MAX,
        ensures
            paths@.len() == 0 ==> r is Err && r->Err_0 == PathEpochError::EmptyPaths,
            paths@.len() > 0 ==> r is Ok && r->Ok_0.wf() && r->Ok_0@.paths == paths@
                && r->Ok_0.spec_min_duration() == distribution.spec_min_duration()
                && r->Ok_0.spec_max_duration() == distribution.spec_max_duration()
                && spec_at_least_one(distribution.spec_min_duration()) <= r->Ok_0@.next_rotation
                - now <= spec_at_least_one(distribution.spec_max_duration()),
            r is Ok ==> r->Ok_0.spec_rng_state() is None,
    {
        PathEpoch::with_rng(paths, distribution, RandomSource::os(), now)
    }

    /// A rotator over `paths` that starts at time `now` and draws from `rng`.
    ///
    /// The first path is chosen at random, and the first rotation is due one
    /// epoch duration, at least a nanosecond, after `now`. An empty list of
    /// paths is refused.
    pub fn with_rng(paths: Vec<P>, distribution: D, rng: RandomSource, now: u64) -> (r: Result<
        PathEpoch<P, D>,
        PathEpochError,
    >)
        requires
            now + spec_at_least_one(distribution.spec_max_duration()) <= u64::MAX,
        ensures
            paths@.len() > 0 && rng.spec_state() is Some ==> r is Ok && r->Ok_0@.current_index
                == spec_pick_index(paths@.len(), spec_splitmix_output(rng.spec_state()->Some_0)),
            r is Ok ==> (r->Ok_0.spec_rng_state() is None <==> rng.spec_state() is None),
            r is Ok ==> exists|ns: u64, mid: Option<u64>| #[trigger]
                distribution.spec_draws(
                    spec_state_after_draw(rng.spec_state()),
                    ns,
                    mid,
                    &r->Ok_0.spec_distribution(),
                ) && r->Ok_0@.next_rotation == now + spec_at_least_one(ns) && (mid is Some
                    ==> r->Ok_0@.epoch_nonce == spec_splitmix_output(mid->Some_0)
                    && r->Ok_0.spec_rng_state() == Some(spec_splitmix_next_state(mid->Some_0))),
            paths@.len() == 0 ==> r is Err && r->Err_0 == PathEpochError::EmptyPaths,
            paths@.len() > 0 ==> r is Ok && r->Ok_0.wf() && r->Ok_0@.paths == paths@
                && r->Ok_0.spec_min_duration() == distribution.spec_min_duration()
                && r->Ok_0.spec_max_duration() == distribution.spec_max_duration()
                && spec_at_least_one(distribution.spec_min_duration()) <= r->Ok_0@.next_rotation
                - now <= spec_at_least_one(distribution.spec_max_duration()),
    {
        let mut distribution = distribution;
        let mut rng = rng;
        if paths.len() == 0 {
            return Err(PathEpochError::EmptyPaths);
        }
        let ghost given = distribution;
        let ghost start = rng.spec_state();
        let draw: u64 = rng.next_u64();
        let current_index: usize = pick_index(paths.len(), draw);
        let sampled: u64 = distribution.sample_duration(&mut rng);
        let ghost mid = rng.spec_state();
        let duration: u64 = if sampled == 0 {
            1
        } else {
            sampled
        };
        let next_rotation: u64 = now + duration;
        let epoch_nonce: u64 = rng.next_u64();
        let epoch = PathEpoch { paths, distribution, rng, current_index, next_rotation, epoch_nonce };
        proof {
            assert(given.spec_draws(
                spec_state_after_draw(start),
                sampled,
                mid,
                &epoch.spec_distribution(),
            ));
        }
        Ok(epoch)
    }

    /// The path in use.
    pub fn current_path(&self) -> (p: &P)
        requires
            self.wf(),
        ensures
            *p == self@.paths[self@.current_index as int],
    {
        &self.paths[self.current_index]
    }

    /// The index of the path in use.
    pub fn current_index(&self) -> (i: usize)
        ensures
            i == self@.current_index,
    {
        self.current_index
    }

    /// The number of paths.
    pub fn path_count(&self) -> (n: usize)
        ensures
            n == self@.paths.len(),
    {
        self.paths.len()
    }

    /// The path at `index`.
    pub fn path_at(&self, index: usize) -> (p: &P)
        requires
            index < self@.paths.len(),
        ensures
            *p == self@.paths[index as int],
    {
        &self.paths[index]
    }

    /// The nonce of the current epoch.
    pub fn epoch_nonce(&self) -> (nonce: u64)
        ensures
            nonce == self@.epoch_nonce,
    {
        self.epoch_nonce
    }

    /// The time at which the next rotation is due.
    pub fn next_rotation(&self) -> (t: u64)
        ensures
            t == self@.next_rotation,
    {
        self.next_rotation
    }

    /// The longest epoch of the rotator's distribution, in nanoseconds.
    pub fn max_duration(&self) -> (ns: u64)
        ensures
            ns == self.spec_max_duration(),
    {
        self.distribution.max_duration()
    }

    /// Whether a rotation can be scheduled at time `now`: the latest time it
    /// can fall on fits in 64 bits of nanoseconds.
    pub fn can_schedule_at(&self, now: u64) -> (b: bool)
        ensures
            b == (now + spec_at_least_one(self.spec_max_duration()) <= u64::MAX),
    {
        let max: u64 = self.distribution.max_duration();
        let hi: u64 = if max == 0 {
            1
        } else {
            max
        };
        now <= u64::MAX - hi
    }

    /// Whether a rotation is due at time `now`.
    pub fn is_due(&self, now: u64) -> (due: bool)
        ensures
            due == (now >= self@.next_rotation),
    {
        now >= self.next_rotation
    }

    /// Picks the index of the path to rotate to. With two paths or more it
    /// differs from the current index. The rotator's state stays as it is.
    pub fn next_index(&mut self) -> (idx: usize)
        requires
            old(self).wf(),
        ensures
            final(self)@ == old(self)@,
            final(self).spec_distribution() == old(self).spec_distribution(),
            final(self).spec_rng_state() == spec_state_after_pick(
                old(self)@.paths.len(),
                old(self).spec_rng_state(),
            ),
            final(self).spec_min_duration() == old(self).spec_min_duration(),
            final(self).spec_max_duration() == old(self).spec_max_duration(),
            idx < old(self)@.paths.len(),
            old(self)@.paths.len() > 1 ==> idx != old(self)@.current_index,
            old(self)@.paths.len() == 1 ==> idx == 0 && final(self).spec_rng_state() == old(self).spec_rng_state(),
            old(self)@.paths.len() > 1 && old(self).spec_rng_state() is Some ==> idx
                == spec_next_index(
                old(self)@.current_index as nat,
                old(self)@.paths.len(),
                spec_splitmix_output(old(self).spec_rng_state()->Some_0),
            ) && final(self).spec_rng_state() == Some(
                spec_splitmix_next_state(old(self).spec_rng_state()->Some_0),
            ),
    {
        self.select_next_index()
    }

    /// Sets the next rotation to one epoch duration, at least a nanosecond,
    /// after `now`.
    pub fn schedule_next_rotation(&mut self, now: u64)
        requires
            now + spec_at_least_one(old(self).spec_max_duration()) <= u64::MAX,
        ensures
            final(self)@ == (PathEpochView {
                next_rotation: final(self)@.next_rotation,
                ..old(self)@
            }),
            final(self).spec_min_duration() == old(self).spec_min_duration(),
            final(self).spec_max_duration() == old(self).spec_max_duration(),
            spec_at_least_one(old(self).spec_min_duration()) <= final(self)@.next_rotation - now
                <= spec_at_least_one(old(self).spec_max_duration()),
            Self::spec_scheduled(
                old(self).spec_distribution(),
                old(self).spec_rng_state(),
                now,
                final(self),
            ),
    {
        let sampled: u64 = self.distribution.sample_duration(&mut self.rng);
        let duration: u64 = if sampled == 0 {
            1
        } else {
            sampled
        };
        self.next_rotation = now + duration;
        proof {
            assert(old(self).spec_distribution().spec_draws(
                old(self).spec_rng_state(),
                sampled,
                self.spec_rng_state(),
                &self.spec_distribution(),
            ));
        }
    }

    /// Makes `next_index` the current path, draws a new epoch nonce and
    /// schedules the rotation after.
    pub fn commit_rotation(&mut self, next_index: usize, now: u64)
        requires
            old(self).wf(),
            next_index < old(self)@.paths.len(),
            now + spec_at_least_one(old(self).spec_max_duration()) <= u64::MAX,
        ensures
            final(self).wf(),
            final(self)@.paths == old(self)@.paths,
            final(self)@.current_index == next_index,
            final(self).spec_min_duration() == old(self).spec_min_duration(),
            final(self).spec_max_duration() == old(self).spec_max_duration(),
            spec_at_least_one(old(self).spec_min_duration()) <= final(self)@.next_rotation - now
                <= spec_at_least_one(old(self).spec_max_duration()),
            old(self).spec_rng_state() is Some ==> final(self)@.epoch_nonce
                == spec_splitmix_output(old(self).spec_rng_state()->Some_0),
            Self::spec_scheduled(
                old(self).spec_distribution(),
                spec_state_after_draw(old(self).spec_rng_state()),
                now,
                final(self),
            ),
    {
        self.current_index = next_index;
        self.epoch_nonce = self.rng.next_u64();
        self.schedule_next_rotation(now);
    }

    /// Rotates if a rotation is due at time `now`, and says whether it did.
    ///
    /// Before its time nothing changes. Otherwise the rotator moves to
    /// another path, to the same one only if there is no other, and the
    /// rotation after is scheduled.
    pub fn rotate_if_due(&mut self, now: u64) -> (rotated: bool)
        requires
            old(self).wf(),
            now >= old(self)@.next_rotation ==> now + spec_at_least_one(
                old(self).spec_max_duration(),
            ) <= u64::MAX,
        ensures
            final(self).wf(),
            final(self).spec_min_duration() == old(self).spec_min_duration(),
            final(self).spec_max_duration() == old(self).spec_max_duration(),
            rotated == (now >= old(self)@.next_rotation),
            !rotated ==> final(self)@ == old(self)@,
            final(self)@.paths == old(self)@.paths,
            rotated && old(self)@.paths.len() > 1 ==> final(self)@.current_index != old(self)@.current_index,
            rotated && old(self)@.paths.len() == 1 ==> final(self)@.current_index == 0,
            rotated ==> spec_rotation_step(old(self)@, final(self)@),
            rotated ==> spec_at_least_one(old(self).spec_min_duration()) <= final(self)@.next_rotation - now <= spec_at_least_one(old(self).spec_max_duration()),
            !rotated ==> final(self).spec_rng_state() == old(self).spec_rng_state() && final(self).spec_distribution() == old(self).spec_distribution(),
            rotated && old(self)@.paths.len() > 1 && old(self).spec_rng_state() is Some ==> final(self)@.current_index == spec_next_index(
                old(self)@.current_index as nat,
                old(self)@.paths.len(),
                spec_splitmix_output(old(self).spec_rng_state()->Some_0),
            ),
            rotated && old(self).spec_rng_state() is Some ==> final(self)@.epoch_nonce
                == spec_splitmix_output(
                spec_state_after_pick(
                    old(self)@.paths.len(),
                    old(self).spec_rng_state(),
                )->Some_0,
            ),
            rotated ==> Self::spec_scheduled(
                old(self).spec_distribution(),
                spec_state_after_draw(
                    spec_state_after_pick(old(self)@.paths.len(), old(self).spec_rng_state()),
                ),
                now,
                final(self),
            ),
    {
        if !self.is_due(now) {
            return false;
        }
        let next_index: usize = self.select_next_index();
        self.commit_rotation(next_index, now);
        true
    }

    fn select_next_index(&mut self) -> (idx: usize)
        requires
            old(self).wf(),
        ensures
            final(self)@ == old(self)@,
            final(self).spec_distribution() == old(self).spec_distribution(),
            final(self).spec_rng_state() == spec_state_after_pick(
                old(self)@.paths.len(),
                old(self).spec_rng_state(),
            ),
            final(self).spec_min_duration() == old(self).spec_min_duration(),
            final(self).spec_max_duration() == old(self).spec_max_duration(),
            idx < old(self)@.paths.len(),
            old(self)@.paths.len() > 1 ==> idx != old(self)@.current_index,
            old(self)@.paths.len() == 1 ==> idx == 0 && final(self).spec_rng_state() == old(self).spec_rng_state(),
            old(self)@.paths.len() > 1 && old(self).spec_rng_state() is Some ==> idx
                == spec_next_index(
                old(self)@.current_index as nat,
                old(self)@.paths.len(),
                spec_splitmix_output(old(self).spec_rng_state()->Some_0),
            ) && final(self).spec_rng_state() == Some(
                spec_splitmix_next_state(old(self).spec_rng_state()->Some_0),
            ),
    {
        if self.paths.len() == 1 {
            return 0;
        }
        let draw: u64 = self.rng.next_u64();
        select_index(self.current_index, self.paths.len(), draw)
    }
}

/// Epoch bounds of a uniform distribution: a draw lies within the bounds and
/// is never zero.
pub proof fn lemma_uniform_epoch_bounds(min_ns: u64, max_ns: u64, draw: u64)
    requires
        0 < min_ns <= max_ns,
    ensures
        min_ns <= spec_uniform_sample(min_ns, max_ns, draw) <= max_ns,
        spec_uniform_sample(min_ns, max_ns, draw) > 0,
{
}

} // verus!
