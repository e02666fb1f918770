//! Traffic shaping: writes are padded up to a few fixed sizes, unless a
//! burst of writes is under way.

use vstd::prelude::*;
use crate::counters::{bump, spec_bump};

verus! {

/// Whether traffic shaping is part of the default build.
pub const PHASE_5_ENABLED: bool = false;

/// The sizes that writes are padded up to.
pub const BUCKET_SMALL: usize = 512;

/// The sizes that writes are padded up to.
pub const BUCKET_MEDIUM: usize = 1024;

/// The sizes that writes are padded up to.
pub const BUCKET_LARGE: usize = 1440;

/// The most padding a write gets.
pub const MAX_PADDING: usize = 64;

/// Writes closer together than this, in nanoseconds, form a burst.
pub const BURST_WINDOW_NS: u64 = 2000000;

/// From this many writes in a burst on, padding is suppressed.
pub const SUSTAINED_THRESHOLD: u32 = 5;

/// What traffic shaping knows of a connection.
#[derive(Debug, Clone, Copy, PartialEq, Eq, Structural)]
pub struct ConnectionState {
    pub last_write: Option<u64>,
    pub burst_count: u32,
    pub smoothing_enabled: bool,
}

/// What traffic shaping has done so far.
#[derive(Debug, Clone, Copy, PartialEq, Eq, Structural)]
pub struct TrafficShapingMetrics {
    pub total_writes: u64,
    pub bucketed_writes: u64,
    pub padding_bytes_added: u64,
    pub padding_suppressed: u64,
    pub burst_suppressions: u64,
}

/// The size a write of `len` bytes could be padded up to: the smallest of
/// the fixed sizes that holds it with at most `MAX_PADDING` bytes of
/// padding, if there is one.
pub open spec fn spec_bucket_for(len: nat) -> Option<nat> {
    if len <= BUCKET_SMALL && BUCKET_SMALL - len <= MAX_PADDING {
        Some(BUCKET_SMALL as nat)
    } else if len <= BUCKET_MEDIUM && BUCKET_MEDIUM - len <= MAX_PADDING {
        Some(BUCKET_MEDIUM as nat)
    } else if len <= BUCKET_LARGE && BUCKET_LARGE - len <= MAX_PADDING {
        Some(BUCKET_LARGE as nat)
    } else {
        None
    }
}

/// The time between two writes; zero if the clock went backwards.
pub open spec fn spec_elapsed(last: u64, now: u64) -> nat {
    if now >= last {
        (now - last) as nat
    } else {
        0
    }
}

/// The state of a connection after a write of `len` bytes at time `now`.
///
/// A write larger than the largest size only sets the time of the last
/// write. Otherwise a write within the burst window of the last one counts
/// into the burst, and from `SUSTAINED_THRESHOLD` on smoothing is off; a
/// write after the window, or a first write, ends the burst and switches
/// smoothing on.
pub open spec fn spec_state_after(state: ConnectionState, len: nat, now: u64) -> ConnectionState {
    if len > BUCKET_LARGE {
        ConnectionState { last_write: Some(now), ..state }
    } else {
        match state.last_write {
            Some(last) => {
                if spec_elapsed(last, now) < BURST_WINDOW_NS {
                    let count = if state.burst_count < u32::MAX {
                        (state.burst_count + 1) as u32
                    } else {
                        state.burst_count
                    };
                    ConnectionState {
                        last_write: Some(now),
                        burst_count: count,
                        smoothing_enabled: if count >= SUSTAINED_THRESHOLD {
                            false
                        } else {
                            state.smoothing_enabled
                        },
                    }
                } else {
                    ConnectionState {
                        last_write: Some(now),
                        burst_count: 0,
                        smoothing_enabled: true,
                    }
                }
            },
            None => ConnectionState {
                last_write: Some(now),
                burst_count: state.burst_count,
                smoothing_enabled: true,
            },
        }
    }
}

/// Whether the write of `len` bytes at time `now` is one at which a burst
/// suppresses padding.
pub open spec fn spec_burst_suppressed(state: ConnectionState, len: nat, now: u64) -> bool {
    len <= BUCKET_LARGE && state.last_write is Some && spec_elapsed(
        state.last_write->Some_0,
        now,
    ) < BURST_WINDOW_NS && spec_state_after(state, len, now).burst_count >= SUSTAINED_THRESHOLD
}

/// The number of padding bytes a write of `len` bytes at time `now` gets:
/// up to the fixed size that holds it, if smoothing is on or no burst is
/// under way after the write; none otherwise.
pub open spec fn spec_padding(state: ConnectionState, len: nat, now: u64) -> nat {
    let after = spec_state_after(state, len, now);
    match spec_bucket_for(len) {
        Some(bucket) => {
            if len <= BUCKET_LARGE && (after.smoothing_enabled || after.burst_count == 0) {
                (bucket - len) as nat
            } else {
                0
            }
        },
        None => 0,
    }
}

/// Whether padding was due for a write and was suppressed.
pub open spec fn spec_padding_suppressed(state: ConnectionState, len: nat, now: u64) -> bool {
    let after = spec_state_after(state, len, now);
    len <= BUCKET_LARGE && spec_bucket_for(len) is Some && !(after.smoothing_enabled
        || after.burst_count == 0)
}

/// The metrics after a write of `len` bytes at time `now`.
pub open spec fn spec_metrics_after(
    metrics: TrafficShapingMetrics,
    state: ConnectionState,
    len: nat,
    now: u64,
) -> TrafficShapingMetrics {
    let padded = len <= BUCKET_LARGE && spec_bucket_for(len) is Some && !spec_padding_suppressed(
        state,
        len,
        now,
    );
    TrafficShapingMetrics {
        total_writes: spec_bump(metrics.total_writes),
        bucketed_writes: if padded {
            spec_bump(metrics.bucketed_writes)
        } else {
            metrics.bucketed_writes
        },
        padding_bytes_added: if padded && metrics.padding_bytes_added + spec_padding(
            state,
            len,
            now,
        ) <= u64::MAX {
            (metrics.padding_bytes_added + spec_padding(state, len, now)) as u64
        } else if padded {
            u64::MAX
        } else {
            metrics.padding_bytes_added
        },
        padding_suppressed: if spec_padding_suppressed(state, len, now) {
            spec_bump(metrics.padding_suppressed)
        } else {
            metrics.padding_suppressed
        },
        burst_suppressions: if spec_burst_suppressed(state, len, now) {
            spec_bump(metrics.burst_suppressions)
        } else {
            metrics.burst_suppressions
        },
    }
}

impl ConnectionState {
    /// The state of a connection that has not written yet.
    pub fn new() -> (state: ConnectionState)
        ensures
            state == (ConnectionState {
                last_write: None,
                burst_count: 0,
                smoothing_enabled: false,
            }),
    {
        ConnectionState { last_write: None, burst_count: 0, smoothing_enabled: false }
    }
}

impl TrafficShapingMetrics {
    /// Metrics with every counter at zero.
    pub fn new() -> (m: TrafficShapingMetrics)
        ensures
            m == (TrafficShapingMetrics {
                total_writes: 0,
                bucketed_writes: 0,
                padding_bytes_added: 0,
                padding_suppressed: 0,
                burst_suppressions: 0,
            }),
    {
        TrafficShapingMetrics {
            total_writes: 0,
            bucketed_writes: 0,
            padding_bytes_added: 0,
            padding_suppressed: 0,
            burst_suppressions: 0,
        }
    }
}

/// Prepares traffic shaping. There is nothing to prepare.
pub fn initialize_traffic_shaping() {
}

/// The size a write of `len` bytes could be padded up to.
pub fn bucket_for(len: usize) -> (bucket: Option<usize>)
    ensures
        bucket is Some <==> spec_bucket_for(len as nat) is Some,
        bucket is Some ==> bucket->Some_0 == spec_bucket_for(len as nat)->Some_0 && len
            <= bucket->Some_0 <= len + MAX_PADDING,
{
    if len <= BUCKET_SMALL && BUCKET_SMALL - len <= MAX_PADDING {
        Some(BUCKET_SMALL)
    } else if len <= BUCKET_MEDIUM && BUCKET_MEDIUM - len <= MAX_PADDING {
        Some(BUCKET_MEDIUM)
    } else if len <= BUCKET_LARGE && BUCKET_LARGE - len <= MAX_PADDING {
        Some(BUCKET_LARGE)
    } else {
        None
    }
}

/// Shapes a write of `data` at time `now`, in nanoseconds on a monotonic
/// clock: the result is `data`, followed by as many zero bytes as
/// `spec_padding` says. The state of the connection and the metrics are
/// brought up to date.
pub fn shape_outbound_data(
    data: &[u8],
    state: &mut ConnectionState,
    now: u64,
    metrics: &mut TrafficShapingMetrics,
) -> (shaped: Vec<u8>)
    ensures
        *final(state) == spec_state_after(*old(state), data@.len(), now),
        *final(metrics) == spec_metrics_after(*old(metrics), *old(state), data@.len(), now),
        shaped@ == data@ + Seq::new(
            spec_padding(*old(state), data@.len(), now),
            |i: int| 0u8,
        ),
{
    metrics.total_writes = bump(metrics.total_writes);
    let data_len: usize = data.len();
    let mut shaped: Vec<u8> = Vec::new();
    shaped.extend_from_slice(data);
    proof {
        assert(shaped@ =~= data@);
    }
    if data_len > BUCKET_LARGE {
        state.last_write = Some(now);
        proof {
            assert(shaped@ =~= data@ + Seq::new(0, |i: int| 0u8));
        }
        return shaped;
    }
    let mut burst_suppression_activated = false;
    match state.last_write {
        Some(last) => {
            let elapsed: u64 = if now >= last {
                now - last
            } else {
                0
            };
            if elapsed < BURST_WINDOW_NS {
                if state.burst_count < u32::MAX {
                    state.burst_count = state.burst_count + 1;
                }
                if state.burst_count >= SUSTAINED_THRESHOLD {
                    state.smoothing_enabled = false;
                    burst_suppression_activated = true;
                }
            } else {
                state.burst_count = 0;
                state.smoothing_enabled = true;
            }
        },
        None => {
            state.smoothing_enabled = true;
        },
    }
    if burst_suppression_activated {
        metrics.burst_suppressions = bump(metrics.burst_suppressions);
    }
    state.last_write = Some(now);
    match bucket_for(data_len) {
        Some(bucket) => {
            if state.smoothing_enabled || state.burst_count == 0 {
                let padding: usize = bucket - data_len;
                metrics.bucketed_writes = bump(metrics.bucketed_writes);
                metrics.padding_bytes_added = if metrics.padding_bytes_added <= u64::MAX
                    - padding as u64 {
                    metrics.padding_bytes_added + padding as u64
                } else {
                    u64::MAX
                };
                let mut k: usize = 0;
                while k < padding
                    invariant
                        0 <= k <= padding,
                        data_len + padding <= BUCKET_LARGE,
                        shaped@ == data@ + Seq::new(k as nat, |i: int| 0u8),
                    decreases padding - k,
                {
                    shaped.push(0);
                    k += 1;
                    assert(shaped@ =~= data@ + Seq::new(k as nat, |i: int| 0u8));
                }
            } else {
                metrics.padding_suppressed = bump(metrics.padding_suppressed);
                proof {
                    assert(shaped@ =~= data@ + Seq::new(0, |i: int| 0u8));
                }
            }
        },
        None => {
            proof {
                assert(shaped@ =~= data@ + Seq::new(0, |i: int| 0u8));
            }
        },
    }
    shaped
}

/// The metrics as they stand.
pub fn get_metrics(metrics: &TrafficShapingMetrics) -> (copy: TrafficShapingMetrics)
    ensures
        copy == *metrics,
{
    *metrics
}

impl Default for ConnectionState {
    /// The state of a connection that has not written yet.
    fn default() -> (state: ConnectionState)
        ensures
            state == (ConnectionState {
                last_write: None,
                burst_count: 0,
                smoothing_enabled: false,
            }),
    {
        ConnectionState::new()
    }
}

} // verus!
