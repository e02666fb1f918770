//! The source of randomness that each stage of the pipeline owns.
//!
//! Randomness comes from the `rand` crate. Nothing is known of a draw before
//! it is made, so every function that draws is verified for all outcomes.

use vstd::prelude::*;
use rand::rngs::{OsRng, StdRng};
use rand::seq::SliceRandom;
use rand::{RngCore, SeedableRng};

verus! {

/// A frame: an opaque sequence of bytes.
pub type Frame = Vec<u8>;

/// The bytes of each frame of a list.
pub open spec fn spec_frames(frames: Seq<Frame>) -> Seq<Seq<u8>> {
    Seq::new(frames.len(), |i: int| frames[i]@)
}

/// The bytes of a list of frames after one more frame was pushed.
pub proof fn lemma_frames_push(before: Seq<Frame>, after: Seq<Frame>, frame: Frame)
    requires
        after == before.push(frame),
    ensures
        spec_frames(after) == spec_frames(before).push(frame@),
{
    assert(spec_frames(after) =~= spec_frames(before).push(frame@));
}

/// The bytes of a list of frames after its last frame was popped.
pub proof fn lemma_frames_drop_last(before: Seq<Frame>, after: Seq<Frame>)
    requires
        before.len() > 0,
        after == before.drop_last(),
    ensures
        spec_frames(after) == spec_frames(before).drop_last(),
        spec_frames(before).last() == before.last()@,
{
    assert(spec_frames(after) =~= spec_frames(before).drop_last());
}

/// The increment of the splitmix64 generator.
pub const SPLITMIX_GAMMA: u64 = 0x9E3779B97F4A7C15;

/// The first multiplier of the splitmix64 generator.
pub const SPLITMIX_MUL_1: u64 = 0xBF58476D1CE4E5B9;

/// The second multiplier of the splitmix64 generator.
pub const SPLITMIX_MUL_2: u64 = 0x94D049BB133111EB;

/// The state of a splitmix64 generator after one draw.
pub open spec fn spec_splitmix_next_state(state: u64) -> u64 {
    state.wrapping_add(SPLITMIX_GAMMA)
}

/// The value that a splitmix64 generator in state `state` draws next.
pub open spec fn spec_splitmix_output(state: u64) -> u64 {
    let z = spec_splitmix_next_state(state);
    let z = (z ^ (z >> 30)).wrapping_mul(SPLITMIX_MUL_1);
    let z = (z ^ (z >> 27)).wrapping_mul(SPLITMIX_MUL_2);
    z ^ (z >> 31)
}

/// The state of a splitmix64 generator after `n` draws.
pub open spec fn spec_splitmix_state_after(state: u64, n: nat) -> u64
    decreases n,
{
    if n == 0 {
        state
    } else {
        spec_splitmix_next_state(spec_splitmix_state_after(state, (n - 1) as nat))
    }
}

/// A splitmix64 generator: the same seed gives the same draws, so
/// simulations and tests can be repeated.
#[derive(Debug, Clone, Copy, PartialEq, Eq, Structural)]
pub struct DeterministicRng {
    pub state: u64,
}

impl DeterministicRng {
    /// A generator that starts from `seed`.
    pub fn new(seed: u64) -> (rng: DeterministicRng)
        ensures
            rng.state == seed,
    {
        DeterministicRng { state: seed }
    }

    /// Draws 64 bits.
    pub fn next_splitmix(&mut self) -> (v: u64)
        ensures
            v == spec_splitmix_output(old(self).state),
            final(self).state == spec_splitmix_next_state(old(self).state),
    {
        let mut z: u64 = self.state.wrapping_add(SPLITMIX_GAMMA);
        self.state = z;
        z = (z ^ (z >> 30)).wrapping_mul(SPLITMIX_MUL_1);
        z = (z ^ (z >> 27)).wrapping_mul(SPLITMIX_MUL_2);
        z ^ (z >> 31)
    }

    /// Draws 64 bits.
    pub fn next_u64(&mut self) -> (v: u64)
        ensures
            v == spec_splitmix_output(old(self).state),
            final(self).state == spec_splitmix_next_state(old(self).state),
    {
        self.next_splitmix()
    }

    /// Draws 32 bits: the low half of a draw of 64 bits.
    pub fn next_u32(&mut self) -> (v: u32)
        ensures
            v == spec_splitmix_output(old(self).state) % 0x1_0000_0000,
            final(self).state == spec_splitmix_next_state(old(self).state),
    {
        let wide: u64 = self.next_splitmix();
        (wide % 0x1_0000_0000) as u32
    }

    /// Fills `dest` with random bytes: eight bytes from each draw, highest
    /// byte first, and from the last draw as many as are still wanted.
    pub fn fill_bytes(&mut self, dest: &mut Vec<u8>)
        ensures
            final(dest)@.len() == old(dest)@.len(),
            final(self).state == spec_splitmix_state_after(
                old(self).state,
                ((old(dest)@.len() + 7) / 8) as nat,
            ),
            forall|i: int|
                0 <= i < final(dest)@.len() ==> #[trigger] final(dest)@[i] == spec_be64_byte(
                    spec_splitmix_output(spec_splitmix_state_after(old(self).state, (i / 8) as nat)),
                    i % 8,
                ),
    {
        let n: usize = dest.len();
        let mut i: usize = 0;
        let ghost start = self.state;
        while i < n
            invariant
                0 <= i <= n,
                i % 8 == 0 || i == n,
                dest@.len() == n,
                n == old(dest)@.len(),
                start == old(self).state,
                self.state == spec_splitmix_state_after(start, ((i + 7) / 8) as nat),
                forall|k: int|
                    0 <= k < i ==> #[trigger] dest@[k] == spec_be64_byte(
                        spec_splitmix_output(spec_splitmix_state_after(start, (k / 8) as nat)),
                        k % 8,
                    ),
            decreases n - i,
        {
            let ghost draws = (i / 8) as nat;
            proof {
                lemma_state_after_step(start, draws);
            }
            let value: u64 = self.next_u64();
            let take: usize = if n - i < 8 {
                n - i
            } else {
                8
            };
            let mut j: usize = 0;
            while j < take
                invariant
                    0 <= j <= take <= 8,
                    i % 8 == 0,
                    i + take <= n,
                    dest@.len() == n,
                    value == spec_splitmix_output(spec_splitmix_state_after(start, draws)),
                    draws == i / 8,
                    forall|k: int|
                        0 <= k < i + j ==> #[trigger] dest@[k] == spec_be64_byte(
                            spec_splitmix_output(spec_splitmix_state_after(start, (k / 8) as nat)),
                            k % 8,
                        ),
                decreases take - j,
            {
                let byte: u8 = be64_byte(value, j);
                dest[i + j] = byte;
                j += 1;
            }
            i = i + take;
        }
    }
}

/// One draw more moves the state one step on.
pub proof fn lemma_state_after_step(state: u64, n: nat)
    ensures
        spec_splitmix_state_after(state, n + 1) == spec_splitmix_next_state(
            spec_splitmix_state_after(state, n),
        ),
{
}

/// The state of a generator after one draw. `None` stands for the operating
/// system's generator, which has no state.
pub open spec fn spec_state_after_draw(state: Option<u64>) -> Option<u64> {
    match state {
        Some(s) => Some(spec_splitmix_next_state(s)),
        None => None,
    }
}

/// Byte `index` of `value`, counted from the highest.
pub open spec fn spec_be64_byte(value: u64, index: int) -> u8 {
    ((value as int / spec_pow256(7 - index)) % 256) as u8
}

/// 256 to the power `e`, for exponents up to seven.
pub open spec fn spec_pow256(e: int) -> int {
    if e <= 0 {
        1
    } else if e == 1 {
        0x100
    } else if e == 2 {
        0x1_0000
    } else if e == 3 {
        0x100_0000
    } else if e == 4 {
        0x1_0000_0000
    } else if e == 5 {
        0x100_0000_0000
    } else if e == 6 {
        0x1_0000_0000_0000
    } else {
        0x100_0000_0000_0000
    }
}

/// Byte `index` of `value`, counted from the highest.
pub fn be64_byte(value: u64, index: usize) -> (byte: u8)
    requires
        index < 8,
    ensures
        byte == spec_be64_byte(value, index as int),
{
    let divisor: u64 = if index == 7 {
        1
    } else if index == 6 {
        0x100
    } else if index == 5 {
        0x1_0000
    } else if index == 4 {
        0x100_0000
    } else if index == 3 {
        0x1_0000_0000
    } else if index == 2 {
        0x100_0000_0000
    } else if index == 1 {
        0x1_0000_0000_0000
    } else {
        0x100_0000_0000_0000
    };
    ((value / divisor) % 256) as u8
}

/// A source of randomness: the operating system's generator, or a
/// deterministic generator that repeats its draws from run to run.
pub enum RandomSource {
    /// The operating system's cryptographically secure generator.
    Os,
    /// A deterministic generator.
    Deterministic(DeterministicRng),
}

/// `next_u64` of `rand`'s `OsRng`: 64 bits from the operating system. Nothing
/// is promised of the value. The call aborts if the operating system cannot
/// deliver randomness.
#[verifier::external_body]
fn os_next_u64() -> u64 {
    OsRng.next_u64()
}

/// `shuffle` of `rand`'s `SliceRandom`, drawing from `OsRng`: the frames are
/// rearranged in place by swaps, so the same frames are there afterwards,
/// each as often as before. Nothing is promised of their order. The call
/// aborts if the operating system cannot deliver randomness.
#[verifier::external_body]
fn os_shuffle(frames: &mut Vec<Frame>)
    ensures
        spec_frames(final(frames)@).to_multiset() == spec_frames(old(frames)@).to_multiset(),
        spec_frames(final(frames)@).len() == spec_frames(old(frames)@).len(),
{
    frames.shuffle(&mut OsRng);
}

/// What `shuffle` of `rand`'s `SliceRandom` makes of a list of frames when
/// it draws from a `StdRng` that `seed_from_u64` started from `seed`.
pub uninterp spec fn spec_seeded_shuffle(frames: Seq<Seq<u8>>, seed: u64) -> Seq<Seq<u8>>;

/// `shuffle` of `rand`'s `SliceRandom`, drawing from a `StdRng` that
/// `seed_from_u64` started from `seed`: the frames are rearranged in place
/// by swaps, so the same frames are there afterwards, each as often as
/// before. The order depends on the frames and the seed alone and is known
/// by its name only.
#[verifier::external_body]
fn seeded_shuffle(frames: &mut Vec<Frame>, seed: u64)
    ensures
        spec_frames(final(frames)@) == spec_seeded_shuffle(spec_frames(old(frames)@), seed),
        spec_frames(final(frames)@).to_multiset() == spec_frames(old(frames)@).to_multiset(),
        spec_frames(final(frames)@).len() == spec_frames(old(frames)@).len(),
{
    frames.shuffle(&mut StdRng::seed_from_u64(seed));
}

impl RandomSource {
    /// The state of the deterministic generator; `None` for the operating
    /// system's generator.
    pub open spec fn spec_state(&self) -> Option<u64> {
        match *self {
            RandomSource::Os => None,
            RandomSource::Deterministic(rng) => Some(rng.state),
        }
    }

    /// The operating system's generator: the source for production use.
    pub fn os() -> (r: RandomSource)
        ensures
            r.spec_state() is None,
    {
        RandomSource::Os
    }

    /// A deterministic generator started from `seed`, for simulations and
    /// tests.
    pub fn seeded(seed: u64) -> (r: RandomSource)
        ensures
            r.spec_state() == Some(seed),
    {
        RandomSource::Deterministic(DeterministicRng::new(seed))
    }

    /// Draws 64 random bits. Of a draw from the operating system nothing is
    /// known; a deterministic generator draws what splitmix64 says.
    pub fn next_u64(&mut self) -> (v: u64)
        ensures
            old(self).spec_state() is None ==> final(self).spec_state() is None,
            old(self).spec_state() is Some ==> v == spec_splitmix_output(
                old(self).spec_state()->Some_0,
            ) && final(self).spec_state() == Some(
                spec_splitmix_next_state(old(self).spec_state()->Some_0),
            ),
    {
        match self {
            RandomSource::Os => os_next_u64(),
            RandomSource::Deterministic(rng) => rng.next_u64(),
        }
    }

    /// Rearranges `frames` at random: afterwards the same frames are there,
    /// each as often as before. A deterministic generator makes one draw
    /// for it, and the order is the one that this draw gives as a seed; of
    /// the order that the operating system's generator gives nothing is
    /// known.
    pub fn shuffle(&mut self, frames: &mut Vec<Frame>)
        ensures
            old(self).spec_state() is None ==> final(self).spec_state() is None,
            old(self).spec_state() is Some ==> final(self).spec_state() == Some(
                spec_splitmix_next_state(old(self).spec_state()->Some_0),
            ) && spec_frames(final(frames)@) == spec_seeded_shuffle(
                spec_frames(old(frames)@),
                spec_splitmix_output(old(self).spec_state()->Some_0),
            ),
            spec_frames(final(frames)@).to_multiset() == spec_frames(old(frames)@).to_multiset(),
            spec_frames(final(frames)@).len() == spec_frames(old(frames)@).len(),
    {
        match self {
            RandomSource::Os => os_shuffle(frames),
            RandomSource::Deterministic(rng) => {
                let seed: u64 = rng.next_u64();
                seeded_shuffle(frames, seed);
            },
        }
    }
}

} // verus!
