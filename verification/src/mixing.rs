//! The mixing pool: frames wait in the next epoch until the current epoch has
//! been drained, then the whole cohort is shuffled and becomes current.

use vstd::prelude::*;
use crate::rng::{
    lemma_frames_drop_last, lemma_frames_push, spec_frames, spec_seeded_shuffle,
    spec_splitmix_next_state, spec_splitmix_output, Frame, RandomSource,
};

verus! {

/// A mixing pool as a mathematical value: the frames of the current epoch and
/// those of the next, each frame by its bytes.
pub struct MixingPoolView {
    pub current: Seq<Seq<u8>>,
    pub next: Seq<Seq<u8>>,
}

/// The pool after `frame` was enqueued: the frame is last in the next epoch.
pub open spec fn spec_enqueue(pre: MixingPoolView, frame: Seq<u8>) -> MixingPoolView {
    MixingPoolView { current: pre.current, next: pre.next.push(frame) }
}

/// Whether draining up to `max` frames may take the pool from `pre` to `post`
/// and hand out `out`.
///
/// With `max == 0` nothing happens. If the current epoch is empty at the
/// start and the next epoch holds frames, the next epoch becomes current in
/// some order and the next epoch is empty then; epochs change at no other
/// moment. After that, frames leave from the back of the current epoch, up
/// to `max` of them, in the order in which they leave.
pub open spec fn spec_drain_batch(
    pre: MixingPoolView,
    max: nat,
    post: MixingPoolView,
    out: Seq<Seq<u8>>,
) -> bool {
    let c = pre.current;
    let n = pre.next;
    if max == 0 {
        post == pre && out.len() == 0
    } else if c.len() > 0 || n.len() == 0 {
        let taken = if max <= c.len() {
            max
        } else {
            c.len()
        };
        &&& out == c.subrange(c.len() - taken, c.len() as int).reverse()
        &&& post.current == c.take(c.len() - taken)
        &&& post.next == n
    } else {
        let taken = if max <= n.len() {
            max
        } else {
            n.len()
        };
        &&& out.len() == taken
        &&& post.next == Seq::<Seq<u8>>::empty()
        &&& post.current.len() == n.len() - taken
        &&& (post.current + out.reverse()).to_multiset() == n.to_multiset()
    }
}

/// Whether a drain of up to `max` frames from `pre` begins with a change of
/// epochs: something is wanted, the current epoch is empty and the next one
/// holds frames.
pub open spec fn spec_swaps(pre: MixingPoolView, max: nat) -> bool {
    max > 0 && pre.current.len() == 0 && pre.next.len() > 0
}

/// The state of a generator once a pool that was `pre` has drained up to
/// `max` frames. The pool shuffles once, which takes one draw of a
/// deterministic generator, exactly when the drain begins with a change of
/// epochs. `None` stands for the operating system's generator, which has no
/// state.
pub open spec fn spec_rng_after_drain(pre: MixingPoolView, max: nat, state: Option<u64>) -> Option<
    u64,
> {
    if spec_swaps(pre, max) {
        match state {
            Some(s) => Some(spec_splitmix_next_state(s)),
            None => None,
        }
    } else {
        state
    }
}

/// Whether a drain that takes the pool from `pre` to `post` and hands out
/// `out` follows a deterministic generator in `state`: where the drain
/// begins with a change of epochs, the order in which the next epoch becomes
/// current is the one that the generator's draw gives as a seed. Of the
/// operating system's generator, for which `None` stands, nothing is asked.
pub open spec fn spec_drain_order(
    pre: MixingPoolView,
    max: nat,
    state: Option<u64>,
    post: MixingPoolView,
    out: Seq<Seq<u8>>,
) -> bool {
    spec_swaps(pre, max) && state is Some ==> post.current + out.reverse() == spec_seeded_shuffle(
        pre.next,
        spec_splitmix_output(state->Some_0),
    )
}

/// The two-epoch mixing pool.
pub struct MixingPool {
    current_epoch: Vec<Frame>,
    next_epoch: Vec<Frame>,
    rng: RandomSource,
}

impl View for MixingPool {
    type V = MixingPoolView;

    closed spec fn view(&self) -> MixingPoolView {
        MixingPoolView {
            current: spec_frames(self.current_epoch@),
            next: spec_frames(self.next_epoch@),
        }
    }
}

impl MixingPool {
    /// The state of the generator that the pool shuffles with: that of a
    /// deterministic generator, `None` for the operating system's.
    pub closed spec fn spec_rng_state(&self) -> Option<u64> {
        self.rng.spec_state()
    }

    /// An empty pool that shuffles with the operating system's generator.
    pub fn new() -> (pool: MixingPool)
        ensures
            pool@.current.len() == 0,
            pool@.next.len() == 0,
            pool.spec_rng_state() is None,
    {
        MixingPool::with_rng(RandomSource::os())
    }

    /// An empty pool that shuffles with `rng`.
    pub fn with_rng(rng: RandomSource) -> (pool: MixingPool)
        ensures
            pool@.current.len() == 0,
            pool@.next.len() == 0,
            pool.spec_rng_state() == rng.spec_state(),
    {
        MixingPool { current_epoch: Vec::new(), next_epoch: Vec::new(), rng }
    }

    /// Puts `frame` into the next epoch. The current epoch and the generator
    /// are not touched.
    pub fn enqueue(&mut self, frame: Frame)
        ensures
            final(self)@ == spec_enqueue(old(self)@, frame@),
            final(self).spec_rng_state() == old(self).spec_rng_state(),
    {
        let ghost before = self.next_epoch@;
        self.next_epoch.push(frame);
        proof {
            lemma_frames_push(before, self.next_epoch@, frame);
        }
    }

    /// The number of frames in the current epoch.
    pub fn current_len(&self) -> (n: usize)
        ensures
            n == self@.current.len(),
    {
        self.current_epoch.len()
    }

    /// The number of frames that wait in the next epoch.
    pub fn pending_len(&self) -> (n: usize)
        ensures
            n == self@.next.len(),
    {
        self.next_epoch.len()
    }

    /// Hands out up to `max_frames` frames.
    ///
    /// If the current epoch is empty, the next epoch becomes current and is
    /// shuffled. Then frames are popped from the back of the current epoch.
    /// Epochs change at the start of a call only: a call never hands out
    /// frames of two epochs. With `max_frames == 0` nothing happens.
    pub fn drain_batch(&mut self, max_frames: usize) -> (drained: Vec<Frame>)
        ensures
            spec_drain_batch(old(self)@, max_frames as nat, final(self)@, spec_frames(drained@)),
            final(self).spec_rng_state() == spec_rng_after_drain(
                old(self)@,
                max_frames as nat,
                old(self).spec_rng_state(),
            ),
            spec_drain_order(
                old(self)@,
                max_frames as nat,
                old(self).spec_rng_state(),
                final(self)@,
                spec_frames(drained@),
            ),
    {
        let mut drained: Vec<Frame> = Vec::new();
        assert(spec_frames(drained@) =~= Seq::<Seq<u8>>::empty());
        if max_frames == 0 {
            return drained;
        }
        if self.current_epoch.len() == 0 {
            self.rotate_epoch();
        }
        let ghost shuffled = self@.current;
        self.take_from_current(&mut drained, max_frames);
        proof {
            let out = spec_frames(drained@);
            let tail = shuffled.subrange(shuffled.len() - out.len(), shuffled.len() as int);
            assert(out =~= tail.reverse());
            assert(tail.reverse().reverse() =~= tail);
            assert(self@.current + tail =~= shuffled);
        }
        drained
    }

    /// Pops frames from the back of the current epoch onto `drained` until
    /// `drained` holds `max_frames` frames or the epoch is empty.
    fn take_from_current(&mut self, drained: &mut Vec<Frame>, max_frames: usize)
        requires
            old(drained)@.len() <= max_frames,
        ensures
            ({
                let c = old(self)@.current;
                let room = max_frames - old(drained)@.len();
                let taken = if room <= c.len() {
                    room
                } else {
                    c.len() as int
                };
                &&& final(self)@.next == old(self)@.next
                &&& final(self).spec_rng_state() == old(self).spec_rng_state()
                &&& final(self)@.current == c.take(c.len() - taken)
                &&& spec_frames(final(drained)@) == spec_frames(old(drained)@) + c.subrange(
                    c.len() - taken,
                    c.len() as int,
                ).reverse()
                &&& final(drained)@.len() == old(drained)@.len() + taken
            }),
    {
        let ghost c = self@.current;
        let ghost d0 = spec_frames(drained@);
        let ghost len0 = drained@.len();
        proof {
            assert(c.take(c.len() as int) =~= c);
            assert(d0 + c.subrange(c.len() as int, c.len() as int).reverse() =~= d0);
        }
        while drained.len() < max_frames && self.current_epoch.len() > 0
            invariant
                self@.next == old(self)@.next,
                self.spec_rng_state() == old(self).spec_rng_state(),
                len0 <= drained@.len() <= max_frames,
                drained@.len() - len0 <= c.len(),
                self@.current == c.take(c.len() - (drained@.len() - len0)),
                spec_frames(drained@) == d0 + c.subrange(
                    c.len() - (drained@.len() - len0),
                    c.len() as int,
                ).reverse(),
            decreases self@.current.len(),
        {
            let ghost k = drained@.len() - len0;
            let ghost cur_before = self.current_epoch@;
            let ghost drained_before = drained@;
            let frame = self.current_epoch.pop().unwrap();
            proof {
                lemma_frames_drop_last(cur_before, self.current_epoch@);
            }
            drained.push(frame);
            proof {
                lemma_frames_push(drained_before, drained@, frame);
                assert(self@.current =~= c.take(c.len() - (k + 1)));
                assert(frame@ == c[c.len() - k - 1]);
                assert(c.subrange(c.len() - (k + 1), c.len() as int).reverse() =~= c.subrange(
                    c.len() - k,
                    c.len() as int,
                ).reverse().push(c[c.len() - k - 1]));
                assert(spec_frames(drained@) =~= d0 + c.subrange(
                    c.len() - (k + 1),
                    c.len() as int,
                ).reverse());
            }
        }
    }

    /// Makes the next epoch current and shuffles it. Nothing happens while the
    /// next epoch is empty.
    fn rotate_epoch(&mut self)
        requires
            old(self)@.current.len() == 0,
        ensures
            old(self)@.next.len() == 0 ==> final(self)@ == old(self)@ && final(self).spec_rng_state() == old(self).spec_rng_state(),
            old(self)@.next.len() > 0 ==> final(self).spec_rng_state() == (match old(self).spec_rng_state() {
                Some(s) => Some(spec_splitmix_next_state(s)),
                None => None,
            }),
            old(self)@.next.len() > 0 && old(self).spec_rng_state() is Some ==> final(self)@.current == spec_seeded_shuffle(
                old(self)@.next,
                spec_splitmix_output(old(self).spec_rng_state()->Some_0),
            ),
            old(self)@.next.len() > 0 ==> final(self)@.next == Seq::<Seq<u8>>::empty()
                && final(self)@.current.len() == old(self)@.next.len()
                && final(self)@.current.to_multiset() == old(self)@.next.to_multiset(),
    {
        if self.next_epoch.len() == 0 {
            return ;
        }
        std::mem::swap(&mut self.current_epoch, &mut self.next_epoch);
        self.rng.shuffle(&mut self.current_epoch);
        proof {
            assert(self@.next =~= Seq::<Seq<u8>>::empty());
        }
    }
}

/// Epoch containment: a frame that is enqueued while the current epoch holds
/// frames does not leave with the next drain, however many frames are asked
/// for. The drain hands out frames of the current epoch only, from its back,
/// and the new frame waits in the next epoch.
pub proof fn lemma_epoch_containment(
    pre: MixingPoolView,
    frame: Seq<u8>,
    max: nat,
    post: MixingPoolView,
    out: Seq<Seq<u8>>,
)
    requires
        pre.current.len() > 0,
        spec_drain_batch(spec_enqueue(pre, frame), max, post, out),
    ensures
        out.len() <= pre.current.len(),
        forall|i: int| 0 <= i < out.len() ==> out[i] == pre.current[pre.current.len() - 1 - i],
        post.next == pre.next.push(frame),
{
}

/// A drain takes frames of one epoch only: if it begins with a change of
/// epochs, every frame it hands out was in the next epoch before, and
/// otherwise every frame was in the current epoch.
pub proof fn lemma_drain_stays_in_one_epoch(
    pre: MixingPoolView,
    max: nat,
    post: MixingPoolView,
    out: Seq<Seq<u8>>,
)
    requires
        spec_drain_batch(pre, max, post, out),
    ensures
        forall|i: int|
            0 <= i < out.len() ==> if spec_swaps(pre, max) {
                pre.next.contains(#[trigger] out[i])
            } else {
                pre.current.contains(out[i])
            },
{
    broadcast use vstd::seq_lib::group_to_multiset_ensures;

    if spec_swaps(pre, max) {
        let whole = post.current + out.reverse();
        assert forall|i: int| 0 <= i < out.len() implies pre.next.contains(#[trigger] out[i]) by {
            let j = post.current.len() + (out.len() - 1 - i);
            assert(whole[j] == out[i]);
            assert(whole.contains(out[i]));
            assert(whole.to_multiset().count(out[i]) > 0);
            assert(pre.next.to_multiset().count(out[i]) > 0);
        }
    } else if max > 0 {
        let c = pre.current;
        assert forall|i: int| 0 <= i < out.len() implies c.contains(#[trigger] out[i]) by {
            assert(out[i] == c[c.len() - 1 - i]);
        }
    }
}

/// Every frame is accounted for: the frames handed out together with the
/// frames still in the pool are the frames that were in the pool before, each
/// as often as before.
pub proof fn lemma_drain_conserves_frames(
    pre: MixingPoolView,
    max: nat,
    post: MixingPoolView,
    out: Seq<Seq<u8>>,
)
    requires
        spec_drain_batch(pre, max, post, out),
    ensures
        (post.current + post.next + out).to_multiset() == (pre.current + pre.next).to_multiset(),
{
    broadcast use vstd::seq_lib::group_to_multiset_ensures;

    let c = pre.current;
    let n = pre.next;
    if max == 0 {
        assert(post.current + post.next + out =~= c + n);
    } else if c.len() > 0 || n.len() == 0 {
        let taken = if max <= c.len() {
            max as int
        } else {
            c.len() as int
        };
        let tail = c.subrange(c.len() - taken, c.len() as int);
        vstd::seq_lib::lemma_multiset_commutative(post.current + post.next, out);
        vstd::seq_lib::lemma_multiset_commutative(post.current, post.next);
        vstd::seq_lib::lemma_multiset_commutative(post.current, tail);
        vstd::seq_lib::lemma_multiset_commutative(c, n);
        assert(post.current + tail =~= c);
        tail.lemma_reverse_to_multiset();
    } else {
        assert(post.current + post.next =~= post.current);
        assert(c + n =~= n);
        vstd::seq_lib::lemma_multiset_commutative(post.current, out);
        vstd::seq_lib::lemma_multiset_commutative(post.current, out.reverse());
        out.lemma_reverse_to_multiset();
    }
}

/// A deterministic generator fixes the drain: two drains of up to `max`
/// frames from pools that hold the same frames, with generators in the same
/// state, hand out the same frames in the same order and leave the same
/// pool.
pub proof fn lemma_seeded_drains_agree(
    pre: MixingPoolView,
    max: nat,
    state: u64,
    post_a: MixingPoolView,
    out_a: Seq<Seq<u8>>,
    post_b: MixingPoolView,
    out_b: Seq<Seq<u8>>,
)
    requires
        spec_drain_batch(pre, max, post_a, out_a),
        spec_drain_order(pre, max, Some(state), post_a, out_a),
        spec_drain_batch(pre, max, post_b, out_b),
        spec_drain_order(pre, max, Some(state), post_b, out_b),
    ensures
        out_a == out_b,
        post_a == post_b,
{
    if spec_swaps(pre, max) {
        let whole = spec_seeded_shuffle(pre.next, spec_splitmix_output(state));
        let kept = post_a.current.len() as int;
        assert(post_b.current.len() == kept);
        assert(post_a.current =~= whole.take(kept)) by {
            assert((post_a.current + out_a.reverse()).take(kept) =~= post_a.current);
        }
        assert(post_b.current =~= whole.take(kept)) by {
            assert((post_b.current + out_b.reverse()).take(kept) =~= post_b.current);
        }
        assert(out_a.reverse() =~= whole.skip(kept)) by {
            assert((post_a.current + out_a.reverse()).skip(kept) =~= out_a.reverse());
        }
        assert(out_b.reverse() =~= whole.skip(kept)) by {
            assert((post_b.current + out_b.reverse()).skip(kept) =~= out_b.reverse());
        }
        assert(out_a =~= out_a.reverse().reverse());
        assert(out_b =~= out_b.reverse().reverse());
        assert(post_a.next =~= post_b.next);
    } else if max > 0 {
        assert(post_a.current =~= post_b.current);
        assert(out_a =~= out_b);
    }
}

impl Default for MixingPool {
    /// An empty pool that shuffles with the operating system's generator.
    fn default() -> (pool: MixingPool)
        ensures
            pool@.current.len() == 0,
            pool@.next.len() == 0,
            pool.spec_rng_state() is None,
    {
        MixingPool::new()
    }
}

} // verus!
