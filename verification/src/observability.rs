//! The observability core: counters, coarse byte-length histograms and a
//! health state. It records no identifier, no address, no time and no
//! payload byte.

use vstd::prelude::*;
use vstd::arithmetic::power2::{lemma2_to64, lemma_pow2_unfold, pow2};
use crate::counters::{bump, spec_bump};

verus! {

/// The number of error classes.
pub const ERROR_CLASS_COUNT: usize = 4;

/// The number of byte-length buckets of a histogram.
pub const BYTE_BUCKETS: usize = 21;

/// How much is observed: nothing, counters and health, or those together
/// with snapshots.
#[allow(non_camel_case_types)]
#[derive(Debug, Clone, Copy, PartialEq, Eq, Structural)]
pub enum ObservabilityLevel {
    OBS_NONE,
    OBS_SAFE,
    OBS_DEV,
}

/// The classes of error that are counted.
#[allow(non_camel_case_types)]
#[derive(Debug, Clone, Copy, PartialEq, Eq, Structural)]
pub enum ErrorClass {
    PROTOCOL_VIOLATION,
    TRANSPORT_IO,
    RESOURCE_LIMIT,
    INTERNAL_ASSERT,
}

/// The health of the process.
#[derive(Debug, Clone, Copy, PartialEq, Eq, Structural)]
pub enum HealthState {
    OK,
    DEGRADED,
    FAULTED,
}

/// The place of an error class among the error counters.
pub open spec fn spec_error_index(class: ErrorClass) -> int {
    match class {
        ErrorClass::PROTOCOL_VIOLATION => 0,
        ErrorClass::TRANSPORT_IO => 1,
        ErrorClass::RESOURCE_LIMIT => 2,
        ErrorClass::INTERNAL_ASSERT => 3,
    }
}

/// The byte that stands for a health state.
pub open spec fn spec_health_byte(state: HealthState) -> u8 {
    match state {
        HealthState::OK => 0u8,
        HealthState::DEGRADED => 1u8,
        HealthState::FAULTED => 2u8,
    }
}

/// The health state that a byte stands for. A byte that stands for none is
/// an impossible state and reads as `FAULTED`.
pub open spec fn spec_health_of(byte: u8) -> HealthState {
    if byte == 0 {
        HealthState::OK
    } else if byte == 1 {
        HealthState::DEGRADED
    } else {
        HealthState::FAULTED
    }
}

/// The bucket of a byte length: bucket 0 for length zero, and for a positive
/// length the bucket `i` with `2^(i-1) <= length < 2^i`, the last bucket
/// taking every greater length too.
pub open spec fn spec_bucket_index(byte_len: nat) -> nat
    decreases byte_len,
{
    if byte_len == 0 {
        0
    } else {
        let below = spec_bucket_index(byte_len / 2);
        if below + 1 < BYTE_BUCKETS {
            below + 1
        } else {
            (BYTE_BUCKETS - 1) as nat
        }
    }
}

/// The bounds of each bucket: bucket 0 holds length zero only; bucket `i`
/// below the last holds the lengths from `2^(i-1)` up to but not including
/// `2^i`; the last bucket holds the lengths from `2^19` on.
pub proof fn lemma_bucket_bounds(byte_len: nat)
    ensures
        spec_bucket_index(byte_len) < BYTE_BUCKETS,
        spec_bucket_index(byte_len) == 0 <==> byte_len == 0,
        0 < spec_bucket_index(byte_len) < BYTE_BUCKETS - 1 ==> pow2(
            (spec_bucket_index(byte_len) - 1) as nat,
        ) <= byte_len < pow2(spec_bucket_index(byte_len)),
        spec_bucket_index(byte_len) == BYTE_BUCKETS - 1 <==> byte_len >= pow2(19),
    decreases byte_len,
{
    lemma2_to64();
    if byte_len > 0 {
        let half = byte_len / 2;
        lemma_bucket_bounds(half);
        let below = spec_bucket_index(half);
        if below == 0 {
            assert(byte_len == 1);
        } else if below < BYTE_BUCKETS - 1 {
            lemma_pow2_unfold(below);
            lemma_pow2_unfold(below + 1);
            assert(pow2(below) == 2 * pow2((below - 1) as nat));
            assert(pow2(below + 1) == 2 * pow2(below));
            if below + 1 == BYTE_BUCKETS - 1 {
                assert(pow2(19) == 524288);
            } else {
                assert(pow2(19) == 524288);
                lemma_pow2_upper(below + 1);
            }
        } else {
            assert(pow2(19) == 524288);
            assert(pow2(18) == 262144);
        }
    }
}

/// A power of two with an exponent of at most 19 is at most `2^19`.
proof fn lemma_pow2_upper(e: nat)
    requires
        e <= 19,
    ensures
        pow2(e) <= pow2(19),
{
    if e < 19 {
        vstd::arithmetic::power2::lemma_pow2_strictly_increases(e, 19);
    }
}

/// The bucket of a byte length.
pub fn coarse_bucket_index(byte_len: usize) -> (idx: usize)
    ensures
        idx == spec_bucket_index(byte_len as nat),
        idx < BYTE_BUCKETS,
{
    let mut v: usize = byte_len;
    let mut idx: usize = 0;
    while v > 0 && idx + 1 < BYTE_BUCKETS
        invariant
            idx < BYTE_BUCKETS,
            spec_bucket_index(byte_len as nat) == (if spec_bucket_index(v as nat) + idx
                < BYTE_BUCKETS {
                (spec_bucket_index(v as nat) + idx) as nat
            } else {
                (BYTE_BUCKETS - 1) as nat
            }),
        decreases v,
    {
        proof {
            lemma_bucket_bounds(v as nat);
            lemma_bucket_bounds((v / 2) as nat);
        }
        v = v / 2;
        idx = idx + 1;
    }
    proof {
        lemma_bucket_bounds(v as nat);
    }
    idx
}

/// The observability state as a mathematical value.
pub struct ObservabilityView {
    pub level: ObservabilityLevel,
    pub health: HealthState,
    pub connections_opened: u64,
    pub connections_closed: u64,
    pub frames_sent: u64,
    pub frames_received: u64,
    pub bytes_sent: Seq<u64>,
    pub bytes_received: Seq<u64>,
    pub errors: Seq<u64>,
}

/// Whether no counter of `after` is below its value in `before`.
pub open spec fn spec_monotone(before: ObservabilityView, after: ObservabilityView) -> bool {
    &&& before.connections_opened <= after.connections_opened
    &&& before.connections_closed <= after.connections_closed
    &&& before.frames_sent <= after.frames_sent
    &&& before.frames_received <= after.frames_received
    &&& before.bytes_sent.len() == after.bytes_sent.len()
    &&& before.bytes_received.len() == after.bytes_received.len()
    &&& before.errors.len() == after.errors.len()
    &&& forall|i: int| 0 <= i < before.bytes_sent.len() ==> before.bytes_sent[i] <= #[trigger]
        after.bytes_sent[i]
    &&& forall|i: int|
        0 <= i < before.bytes_received.len() ==> before.bytes_received[i] <= #[trigger]
        after.bytes_received[i]
    &&& forall|i: int| 0 <= i < before.errors.len() ==> before.errors[i] <= #[trigger]
        after.errors[i]
}

/// The counters, histograms and health state of a process.
pub struct ObservabilityState {
    level: ObservabilityLevel,
    health: HealthState,
    total_connections_opened: u64,
    total_connections_closed: u64,
    frames_sent: u64,
    frames_received: u64,
    bytes_sent_coarse: [u64; 21],
    bytes_received_coarse: [u64; 21],
    error_counts: [u64; 4],
}

impl View for ObservabilityState {
    type V = ObservabilityView;

    closed spec fn view(&self) -> ObservabilityView {
        ObservabilityView {
            level: self.level,
            health: self.health,
            connections_opened: self.total_connections_opened,
            connections_closed: self.total_connections_closed,
            frames_sent: self.frames_sent,
            frames_received: self.frames_received,
            bytes_sent: self.bytes_sent_coarse@,
            bytes_received: self.bytes_received_coarse@,
            errors: self.error_counts@,
        }
    }
}

/// What is exported of the observability state.
#[derive(Debug, Clone)]
pub struct ObservabilitySnapshot {
    pub total_connections_opened: u64,
    pub total_connections_closed: u64,
    pub frames_sent: u64,
    pub frames_received: u64,
    pub bytes_sent_coarse: [u64; 21],
    pub bytes_received_coarse: [u64; 21],
    pub error_class_counts: [u64; 4],
}

impl ErrorClass {
    /// The place of this error class among the error counters.
    pub fn index(self) -> (i: usize)
        ensures
            i == spec_error_index(self),
            i < ERROR_CLASS_COUNT,
    {
        match self {
            ErrorClass::PROTOCOL_VIOLATION => 0,
            ErrorClass::TRANSPORT_IO => 1,
            ErrorClass::RESOURCE_LIMIT => 2,
            ErrorClass::INTERNAL_ASSERT => 3,
        }
    }
}

impl HealthState {
    /// The byte that stands for this health state.
    pub fn to_byte(self) -> (b: u8)
        ensures
            b == spec_health_byte(self),
            spec_health_of(b) == self,
    {
        match self {
            HealthState::OK => 0,
            HealthState::DEGRADED => 1,
            HealthState::FAULTED => 2,
        }
    }

    /// The health state that `byte` stands for, and whether the byte stands
    /// for one at all; a byte that does not reads as `FAULTED`.
    pub fn from_byte(byte: u8) -> (r: (HealthState, bool))
        ensures
            r.0 == spec_health_of(byte),
            r.1 == (byte <= 2),
    {
        if byte == 0 {
            (HealthState::OK, true)
        } else if byte == 1 {
            (HealthState::DEGRADED, true)
        } else if byte == 2 {
            (HealthState::FAULTED, true)
        } else {
            (HealthState::FAULTED, false)
        }
    }
}

impl ObservabilityState {
    /// A state at the given level with every counter at zero and health `OK`.
    pub fn new(level: ObservabilityLevel) -> (state: ObservabilityState)
        ensures
            state@ == (ObservabilityView {
                level,
                health: HealthState::OK,
                connections_opened: 0,
                connections_closed: 0,
                frames_sent: 0,
                frames_received: 0,
                bytes_sent: Seq::new(BYTE_BUCKETS as nat, |i: int| 0u64),
                bytes_received: Seq::new(BYTE_BUCKETS as nat, |i: int| 0u64),
                errors: Seq::new(ERROR_CLASS_COUNT as nat, |i: int| 0u64),
            }),
    {
        let state = ObservabilityState {
            level,
            health: HealthState::OK,
            total_connections_opened: 0,
            total_connections_closed: 0,
            frames_sent: 0,
            frames_received: 0,
            bytes_sent_coarse: [0u64; 21],
            bytes_received_coarse: [0u64; 21],
            error_counts: [0u64; 4],
        };
        proof {
            assert(state@.bytes_sent =~= Seq::new(BYTE_BUCKETS as nat, |i: int| 0u64));
            assert(state@.bytes_received =~= Seq::new(BYTE_BUCKETS as nat, |i: int| 0u64));
            assert(state@.errors =~= Seq::new(ERROR_CLASS_COUNT as nat, |i: int| 0u64));
        }
        state
    }

    /// The level of this state.
    pub fn level(&self) -> (level: ObservabilityLevel)
        ensures
            level == self@.level,
    {
        self.level
    }

    /// The invariant of the state: the histograms and the error counters have
    /// their fixed sizes.
    pub open spec fn wf(&self) -> bool {
        &&& self@.bytes_sent.len() == BYTE_BUCKETS
        &&& self@.bytes_received.len() == BYTE_BUCKETS
        &&& self@.errors.len() == ERROR_CLASS_COUNT
    }

    /// The sizes of the histograms and of the error counters are fixed.
    pub proof fn lemma_sizes(&self)
        ensures
            self.wf(),
    {
    }
}

/// Counts an error of class `class`. At level `OBS_NONE` nothing is recorded.
pub fn record_error(state: &mut ObservabilityState, class: ErrorClass)
    ensures
        spec_monotone(old(state)@, final(state)@),
        old(state)@.level == ObservabilityLevel::OBS_NONE ==> final(state)@ == old(state)@,
        old(state)@.level != ObservabilityLevel::OBS_NONE ==> final(state)@ == (ObservabilityView {
            errors: old(state)@.errors.update(
                spec_error_index(class),
                spec_bump(old(state)@.errors[spec_error_index(class)]),
            ),
            ..old(state)@
        }),
{
    if state.level == ObservabilityLevel::OBS_NONE {
        return ;
    }
    let idx: usize = class.index();
    let next: u64 = bump(state.error_counts[idx]);
    state.error_counts[idx] = next;
}

/// Sets the health state. At level `OBS_NONE` nothing is recorded.
pub fn set_health(state: &mut ObservabilityState, health: HealthState)
    ensures
        spec_monotone(old(state)@, final(state)@),
        old(state)@.level == ObservabilityLevel::OBS_NONE ==> final(state)@ == old(state)@,
        old(state)@.level != ObservabilityLevel::OBS_NONE ==> final(state)@ == (ObservabilityView {
            health,
            ..old(state)@
        }),
{
    if state.level == ObservabilityLevel::OBS_NONE {
        return ;
    }
    state.health = health;
}

/// Sets the health state from a stored byte. A byte that stands for no
/// health state is an impossible state: health becomes `FAULTED` and an
/// `INTERNAL_ASSERT` error is counted. At level `OBS_NONE` nothing is
/// recorded.
pub fn set_health_from_byte(state: &mut ObservabilityState, byte: u8)
    ensures
        spec_monotone(old(state)@, final(state)@),
        old(state)@.level == ObservabilityLevel::OBS_NONE ==> final(state)@ == old(state)@,
        old(state)@.level != ObservabilityLevel::OBS_NONE && byte <= 2 ==> final(state)@ == (
        ObservabilityView { health: spec_health_of(byte), ..old(state)@ }),
        old(state)@.level != ObservabilityLevel::OBS_NONE && byte > 2 ==> final(state)@ == (
        ObservabilityView {
            health: HealthState::FAULTED,
            errors: old(state)@.errors.update(
                spec_error_index(ErrorClass::INTERNAL_ASSERT),
                spec_bump(old(state)@.errors[spec_error_index(ErrorClass::INTERNAL_ASSERT)]),
            ),
            ..old(state)@
        }),
{
    let (health, valid) = HealthState::from_byte(byte);
    set_health(state, health);
    if !valid {
        record_error(state, ErrorClass::INTERNAL_ASSERT);
    }
}

/// The health state.
pub fn get_health(state: &ObservabilityState) -> (health: HealthState)
    ensures
        health == state@.health,
{
    state.health
}

/// Counts a connection that was opened. At level `OBS_NONE` nothing is
/// recorded.
pub fn record_connection_opened(state: &mut ObservabilityState)
    ensures
        spec_monotone(old(state)@, final(state)@),
        old(state)@.level == ObservabilityLevel::OBS_NONE ==> final(state)@ == old(state)@,
        old(state)@.level != ObservabilityLevel::OBS_NONE ==> final(state)@ == (ObservabilityView {
            connections_opened: spec_bump(old(state)@.connections_opened),
            ..old(state)@
        }),
{
    if state.level == ObservabilityLevel::OBS_NONE {
        return ;
    }
    state.total_connections_opened = bump(state.total_connections_opened);
}

/// Counts a connection that was closed. At level `OBS_NONE` nothing is
/// recorded.
pub fn record_connection_closed(state: &mut ObservabilityState)
    ensures
        spec_monotone(old(state)@, final(state)@),
        old(state)@.level == ObservabilityLevel::OBS_NONE ==> final(state)@ == old(state)@,
        old(state)@.level != ObservabilityLevel::OBS_NONE ==> final(state)@ == (ObservabilityView {
            connections_closed: spec_bump(old(state)@.connections_closed),
            ..old(state)@
        }),
{
    if state.level == ObservabilityLevel::OBS_NONE {
        return ;
    }
    state.total_connections_closed = bump(state.total_connections_closed);
}

/// Counts a frame that was sent. At level `OBS_NONE` nothing is recorded.
pub fn record_frame_sent(state: &mut ObservabilityState)
    ensures
        spec_monotone(old(state)@, final(state)@),
        old(state)@.level == ObservabilityLevel::OBS_NONE ==> final(state)@ == old(state)@,
        old(state)@.level != ObservabilityLevel::OBS_NONE ==> final(state)@ == (ObservabilityView {
            frames_sent: spec_bump(old(state)@.frames_sent),
            ..old(state)@
        }),
{
    if state.level == ObservabilityLevel::OBS_NONE {
        return ;
    }
    state.frames_sent = bump(state.frames_sent);
}

/// Counts a frame that was received. At level `OBS_NONE` nothing is
/// recorded.
pub fn record_frame_received(state: &mut ObservabilityState)
    ensures
        spec_monotone(old(state)@, final(state)@),
        old(state)@.level == ObservabilityLevel::OBS_NONE ==> final(state)@ == old(state)@,
        old(state)@.level != ObservabilityLevel::OBS_NONE ==> final(state)@ == (ObservabilityView {
            frames_received: spec_bump(old(state)@.frames_received),
            ..old(state)@
        }),
{
    if state.level == ObservabilityLevel::OBS_NONE {
        return ;
    }
    state.frames_received = bump(state.frames_received);
}

/// Counts a write of `byte_len` bytes in the bucket of that length. Only the
/// bucket is kept, not the length. At level `OBS_NONE` nothing is recorded.
pub fn record_bytes_sent_coarse(state: &mut ObservabilityState, byte_len: usize)
    ensures
        spec_monotone(old(state)@, final(state)@),
        old(state)@.level == ObservabilityLevel::OBS_NONE ==> final(state)@ == old(state)@,
        old(state)@.level != ObservabilityLevel::OBS_NONE ==> final(state)@ == (ObservabilityView {
            bytes_sent: old(state)@.bytes_sent.update(
                spec_bucket_index(byte_len as nat) as int,
                spec_bump(old(state)@.bytes_sent[spec_bucket_index(byte_len as nat) as int]),
            ),
            ..old(state)@
        }),
{
    if state.level == ObservabilityLevel::OBS_NONE {
        return ;
    }
    let idx: usize = coarse_bucket_index(byte_len);
    let next: u64 = bump(state.bytes_sent_coarse[idx]);
    state.bytes_sent_coarse[idx] = next;
}

/// Counts a read of `byte_len` bytes in the bucket of that length. Only the
/// bucket is kept, not the length. At level `OBS_NONE` nothing is recorded.
pub fn record_bytes_received_coarse(state: &mut ObservabilityState, byte_len: usize)
    ensures
        spec_monotone(old(state)@, final(state)@),
        old(state)@.level == ObservabilityLevel::OBS_NONE ==> final(state)@ == old(state)@,
        old(state)@.level != ObservabilityLevel::OBS_NONE ==> final(state)@ == (ObservabilityView {
            bytes_received: old(state)@.bytes_received.update(
                spec_bucket_index(byte_len as nat) as int,
                spec_bump(old(state)@.bytes_received[spec_bucket_index(byte_len as nat) as int]),
            ),
            ..old(state)@
        }),
{
    if state.level == ObservabilityLevel::OBS_NONE {
        return ;
    }
    let idx: usize = coarse_bucket_index(byte_len);
    let next: u64 = bump(state.bytes_received_coarse[idx]);
    state.bytes_received_coarse[idx] = next;
}

/// Exports the counters. Snapshots exist at level `OBS_DEV` only.
pub fn snapshot(state: &ObservabilityState) -> (snap: Option<ObservabilitySnapshot>)
    ensures
        snap is Some <==> state@.level == ObservabilityLevel::OBS_DEV,
        snap is Some ==> {
            let s = snap->Some_0;
            &&& s.total_connections_opened == state@.connections_opened
            &&& s.total_connections_closed == state@.connections_closed
            &&& s.frames_sent == state@.frames_sent
            &&& s.frames_received == state@.frames_received
            &&& s.bytes_sent_coarse@ == state@.bytes_sent
            &&& s.bytes_received_coarse@ == state@.bytes_received
            &&& s.error_class_counts@ == state@.errors
        },
{
    if state.level != ObservabilityLevel::OBS_DEV {
        return None;
    }
    Some(
        ObservabilitySnapshot {
            total_connections_opened: state.total_connections_opened,
            total_connections_closed: state.total_connections_closed,
            frames_sent: state.frames_sent,
            frames_received: state.frames_received,
            bytes_sent_coarse: state.bytes_sent_coarse,
            bytes_received_coarse: state.bytes_received_coarse,
            error_class_counts: state.error_counts,
        },
    )
}

} // verus!
