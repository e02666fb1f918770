//! The connection table: per-connection state, credit windows and relay limits.

use vstd::prelude::*;
use std::collections::HashMap;
use vstd::std_specs::iter::IteratorSpec;
use crate::control::{spec_message_conn_id, ControlMessage, ControlMessageView};
use crate::counters::{bump, spec_bump};

verus! {

/// The window a new connection starts with unless another default was set.
pub const DEFAULT_WINDOW_SIZE: u32 = 65536;

/// The life of a connection: `Init`, then `Open`, then `Closing`, then `Closed`.
#[derive(Debug, Clone, Copy, PartialEq, Eq, Structural)]
pub enum ConnectionState {
    Init,
    Open,
    Closing,
    Closed,
}

/// The limits a relay enforces.
#[derive(Debug, Clone, Copy, PartialEq, Eq, Structural)]
pub struct RelayLimits {
    pub max_connections: usize,
    pub max_inflight_opens: usize,
    pub max_buffered_bytes: usize,
}

/// How often each limit was hit. The counters never go down.
#[derive(Debug, Clone, Copy, PartialEq, Eq, Structural)]
pub struct RelayMetrics {
    pub connections_rejected: u64,
    pub opens_rejected: u64,
    pub buffer_limit_breached: u64,
}

/// What the table holds of one connection.
#[derive(Debug, Clone, Copy, PartialEq, Eq, Structural)]
pub struct ConnectionInfo {
    pub state: ConnectionState,
    pub buffered_bytes: usize,
    pub send_window: u32,
    pub initial_window_size: u32,
}

/// Why the table refused an operation.
#[derive(Debug, Clone, Copy, PartialEq, Eq, Structural)]
pub enum TableError {
    MaxConnectionsExceeded,
    MaxInflightOpensExceeded,
    ConnectionExists,
    ConnectionNotFound,
    NotInInitState,
    InvalidStateForClose,
    NotInClosingState,
    InsufficientCredits,
    BufferLimitExceeded,
}

/// A connection table as a mathematical value.
pub struct ConnectionTableView {
    pub connections: Map<u32, ConnectionInfo>,
    pub inflight_opens: usize,
    pub limits: RelayLimits,
    pub metrics: RelayMetrics,
    pub default_window_size: u32,
}

/// The flow-control bound of one connection: the send window is at most twice
/// the initial window.
pub open spec fn spec_window_bounded(info: ConnectionInfo) -> bool {
    info.send_window <= 2 * info.initial_window_size
}

/// Whether a connection's window has fallen below a quarter of its initial
/// value, so that a window update is due.
pub open spec fn spec_update_due(info: ConnectionInfo) -> bool {
    info.send_window < info.initial_window_size / 4
}

/// The window after `credits` were added: the sum, capped at twice the initial
/// window and at the largest `u32`.
pub open spec fn spec_window_after_credit(info: ConnectionInfo, credits: u32) -> u32 {
    let sum = info.send_window + credits;
    let cap = 2 * info.initial_window_size;
    let capped = if sum <= cap {
        sum
    } else {
        cap
    };
    if capped <= u32::MAX {
        capped as u32
    } else {
        u32::MAX
    }
}

/// A connection whose window was put back to its initial value.
pub open spec fn spec_restored(info: ConnectionInfo) -> ConnectionInfo {
    ConnectionInfo { send_window: info.initial_window_size, ..info }
}

/// The window update that is due for connection `id`.
pub open spec fn spec_window_update(id: u32, info: ConnectionInfo) -> ControlMessageView {
    ControlMessageView::WindowUpdate {
        conn_id: id,
        credits: (info.initial_window_size - info.send_window) as u32,
    }
}

/// The connections after a poll: each one whose update was due has its window
/// put back to the initial value.
pub open spec fn spec_after_poll(connections: Map<u32, ConnectionInfo>) -> Map<
    u32,
    ConnectionInfo,
> {
    Map::new(
        |id: u32| connections.contains_key(id),
        |id: u32|
            if spec_update_due(connections[id]) {
                spec_restored(connections[id])
            } else {
                connections[id]
            },
    )
}

/// The connection ids of a list of control messages.
pub open spec fn spec_conn_ids(frames: Seq<ControlMessage>) -> Seq<u32> {
    frames.map_values(|m: ControlMessage| spec_message_conn_id(m@))
}

/// The table after `finalize_open(conn_id)`: a connection in `Init` is
/// `Open` then and one open fewer is in flight; else nothing changes.
pub open spec fn spec_after_finalize_open(t: ConnectionTableView, conn_id: u32) -> ConnectionTableView {
    if t.connections.contains_key(conn_id) && t.connections[conn_id].state
        == ConnectionState::Init {
        ConnectionTableView {
            connections: t.connections.insert(
                conn_id,
                ConnectionInfo { state: ConnectionState::Open, ..t.connections[conn_id] },
            ),
            inflight_opens: if t.inflight_opens > 0 {
                (t.inflight_opens - 1) as usize
            } else {
                0
            },
            ..t
        }
    } else {
        t
    }
}

/// The table after `open_connection(conn_id)`.
pub open spec fn spec_after_open(t: ConnectionTableView, conn_id: u32) -> ConnectionTableView {
    if t.connections.len() >= t.limits.max_connections {
        ConnectionTableView {
            metrics: RelayMetrics {
                connections_rejected: spec_bump(t.metrics.connections_rejected),
                ..t.metrics
            },
            ..t
        }
    } else if t.inflight_opens >= t.limits.max_inflight_opens {
        ConnectionTableView {
            metrics: RelayMetrics {
                opens_rejected: spec_bump(t.metrics.opens_rejected),
                ..t.metrics
            },
            ..t
        }
    } else if t.connections.contains_key(conn_id) {
        t
    } else {
        ConnectionTableView {
            connections: t.connections.insert(
                conn_id,
                ConnectionInfo {
                    state: ConnectionState::Init,
                    buffered_bytes: 0,
                    send_window: t.default_window_size,
                    initial_window_size: t.default_window_size,
                },
            ),
            inflight_opens: (t.inflight_opens + 1) as usize,
            ..t
        }
    }
}

/// The table after `close_connection(conn_id)`.
pub open spec fn spec_after_close(t: ConnectionTableView, conn_id: u32) -> ConnectionTableView {
    if t.connections.contains_key(conn_id) && t.connections[conn_id].state
        == ConnectionState::Open {
        ConnectionTableView {
            connections: t.connections.insert(
                conn_id,
                ConnectionInfo { state: ConnectionState::Closing, ..t.connections[conn_id] },
            ),
            ..t
        }
    } else {
        t
    }
}

/// The table after `add_send_credits(conn_id, credits)`.
pub open spec fn spec_after_credit(
    t: ConnectionTableView,
    conn_id: u32,
    credits: u32,
) -> ConnectionTableView {
    if t.connections.contains_key(conn_id) {
        ConnectionTableView {
            connections: t.connections.insert(
                conn_id,
                ConnectionInfo {
                    send_window: spec_window_after_credit(t.connections[conn_id], credits),
                    ..t.connections[conn_id]
                },
            ),
            ..t
        }
    } else {
        t
    }
}

/// The table after `consume_send_credits(conn_id, data_size)`.
pub open spec fn spec_after_consume(
    t: ConnectionTableView,
    conn_id: u32,
    data_size: u32,
) -> ConnectionTableView {
    if t.connections.contains_key(conn_id) && t.connections[conn_id].send_window >= data_size {
        ConnectionTableView {
            connections: t.connections.insert(
                conn_id,
                ConnectionInfo {
                    send_window: (t.connections[conn_id].send_window - data_size) as u32,
                    ..t.connections[conn_id]
                },
            ),
            ..t
        }
    } else {
        t
    }
}

/// The table of all connections of a relay.
pub struct ConnectionTable {
    connections: HashMap<u32, ConnectionInfo>,
    inflight_opens: usize,
    limits: RelayLimits,
    metrics: RelayMetrics,
    default_window_size: u32,
}

impl View for ConnectionTable {
    type V = ConnectionTableView;

    closed spec fn view(&self) -> ConnectionTableView {
        ConnectionTableView {
            connections: self.connections@,
            inflight_opens: self.inflight_opens,
            limits: self.limits,
            metrics: self.metrics,
            default_window_size: self.default_window_size,
        }
    }
}

impl ConnectionTableView {
    /// The invariant of a table: finitely many connections, each within its
    /// flow-control bound and within the buffer limit.
    pub open spec fn wf(self) -> bool {
        &&& self.connections.dom().finite()
        &&& forall|id: u32| #[trigger]
            self.connections.contains_key(id) ==> spec_window_bounded(self.connections[id])
                && self.connections[id].buffered_bytes <= self.limits.max_buffered_bytes
    }
}

impl ConnectionTable {
    /// The invariant of a table, which every operation keeps.
    pub open spec fn wf(&self) -> bool {
        self@.wf()
    }

    /// An empty table with the given limits and the default window.
    pub fn new(limits: RelayLimits) -> (t: ConnectionTable)
        ensures
            t.wf(),
            t@ == (ConnectionTableView {
                connections: Map::<u32, ConnectionInfo>::empty(),
                inflight_opens: 0,
                limits,
                metrics: RelayMetrics {
                    connections_rejected: 0,
                    opens_rejected: 0,
                    buffer_limit_breached: 0,
                },
                default_window_size: DEFAULT_WINDOW_SIZE,
            }),
    {
        ConnectionTable {
            connections: HashMap::new(),
            inflight_opens: 0,
            limits,
            metrics: RelayMetrics {
                connections_rejected: 0,
                opens_rejected: 0,
                buffer_limit_breached: 0,
            },
            default_window_size: DEFAULT_WINDOW_SIZE,
        }
    }

    /// Sets the window that connections opened from now on start with.
    pub fn set_default_window_size(&mut self, size: u32)
        requires
            old(self).wf(),
        ensures
            final(self).wf(),
            final(self)@ == (ConnectionTableView { default_window_size: size, ..old(self)@ }),
    {
        self.default_window_size = size;
    }

    fn lookup(&self, conn_id: u32) -> (r: Option<ConnectionInfo>)
        ensures
            r is Some <==> self@.connections.contains_key(conn_id),
            r is Some ==> r->Some_0 == self@.connections[conn_id],
    {
        broadcast use vstd::std_specs::hash::group_hash_axioms;

        match self.connections.get(&conn_id) {
            Some(info) => Some(*info),
            None => None,
        }
    }

    fn store(&mut self, conn_id: u32, info: ConnectionInfo)
        ensures
            final(self)@ == (ConnectionTableView {
                connections: old(self)@.connections.insert(conn_id, info),
                ..old(self)@
            }),
    {
        broadcast use vstd::std_specs::hash::group_hash_axioms;

        self.connections.insert(conn_id, info);
    }

    /// Registers connection `conn_id` in state `Init` with the default window.
    ///
    /// The limits are checked first and each breach is counted: a full table
    /// gives `MaxConnectionsExceeded`, too many opens in flight give
    /// `MaxInflightOpensExceeded`. An id that is already in the table gives
    /// `ConnectionExists`. No refusal touches the connections.
    pub fn open_connection(&mut self, conn_id: u32) -> (r: Result<(), TableError>)
        requires
            old(self).wf(),
        ensures
            final(self).wf(),
            final(self)@ == spec_after_open(old(self)@, conn_id),
            old(self)@.connections.len() >= old(self)@.limits.max_connections ==> r == Err::<
                (),
                TableError,
            >(TableError::MaxConnectionsExceeded) && final(self)@ == (ConnectionTableView {
                metrics: RelayMetrics {
                    connections_rejected: spec_bump(old(self)@.metrics.connections_rejected),
                    ..old(self)@.metrics
                },
                ..old(self)@
            }),
            old(self)@.connections.len() < old(self)@.limits.max_connections && old(self)@.inflight_opens >= old(self)@.limits.max_inflight_opens ==> r == Err::<
                (),
                TableError,
            >(TableError::MaxInflightOpensExceeded) && final(self)@ == (ConnectionTableView {
                metrics: RelayMetrics {
                    opens_rejected: spec_bump(old(self)@.metrics.opens_rejected),
                    ..old(self)@.metrics
                },
                ..old(self)@
            }),
            old(self)@.connections.len() < old(self)@.limits.max_connections && old(self)@.inflight_opens < old(self)@.limits.max_inflight_opens && old(self)@.connections.contains_key(conn_id) ==> r == Err::<(), TableError>(
                TableError::ConnectionExists,
            ) && final(self)@ == old(self)@,
            old(self)@.connections.len() < old(self)@.limits.max_connections && old(self)@.inflight_opens < old(self)@.limits.max_inflight_opens && !old(self)@.connections.contains_key(conn_id) ==> r is Ok && final(self)@ == (
            ConnectionTableView {
                connections: old(self)@.connections.insert(
                    conn_id,
                    ConnectionInfo {
                        state: ConnectionState::Init,
                        buffered_bytes: 0,
                        send_window: old(self)@.default_window_size,
                        initial_window_size: old(self)@.default_window_size,
                    },
                ),
                inflight_opens: (old(self)@.inflight_opens + 1) as usize,
                ..old(self)@
            }),
    {
        broadcast use vstd::std_specs::hash::group_hash_axioms;

        if self.connections.len() >= self.limits.max_connections {
            self.metrics.connections_rejected = bump(self.metrics.connections_rejected);
            return Err(TableError::MaxConnectionsExceeded);
        }
        if self.inflight_opens >= self.limits.max_inflight_opens {
            self.metrics.opens_rejected = bump(self.metrics.opens_rejected);
            return Err(TableError::MaxInflightOpensExceeded);
        }
        match self.lookup(conn_id) {
            Some(_) => Err(TableError::ConnectionExists),
            None => {
                let info = ConnectionInfo {
                    state: ConnectionState::Init,
                    buffered_bytes: 0,
                    send_window: self.default_window_size,
                    initial_window_size: self.default_window_size,
                };
                self.store(conn_id, info);
                self.inflight_opens = self.inflight_opens + 1;
                Ok(())
            },
        }
    }

    /// Moves connection `conn_id` from `Init` to `Open`; one open fewer is
    /// then in flight.
    pub fn finalize_open(&mut self, conn_id: u32) -> (r: Result<(), TableError>)
        requires
            old(self).wf(),
        ensures
            final(self).wf(),
            final(self)@ == spec_after_finalize_open(old(self)@, conn_id),
            !old(self)@.connections.contains_key(conn_id) ==> r == Err::<(), TableError>(
                TableError::ConnectionNotFound,
            ) && final(self)@ == old(self)@,
            old(self)@.connections.contains_key(conn_id) && old(self)@.connections[conn_id].state
                != ConnectionState::Init ==> r == Err::<(), TableError>(
                TableError::NotInInitState,
            ) && final(self)@ == old(self)@,
            old(self)@.connections.contains_key(conn_id) && old(self)@.connections[conn_id].state
                == ConnectionState::Init ==> r is Ok && final(self)@ == (ConnectionTableView {
                connections: old(self)@.connections.insert(
                    conn_id,
                    ConnectionInfo {
                        state: ConnectionState::Open,
                        ..old(self)@.connections[conn_id]
                    },
                ),
                inflight_opens: if old(self)@.inflight_opens > 0 {
                    (old(self)@.inflight_opens - 1) as usize
                } else {
                    0
                },
                ..old(self)@
            }),
    {
        match self.lookup(conn_id) {
            None => Err(TableError::ConnectionNotFound),
            Some(info) => {
                if info.state != ConnectionState::Init {
                    return Err(TableError::NotInInitState);
                }
                self.store(conn_id, ConnectionInfo { state: ConnectionState::Open, ..info });
                if self.inflight_opens > 0 {
                    self.inflight_opens = self.inflight_opens - 1;
                }
                Ok(())
            },
        }
    }

    /// Whether `data_size` bytes may be sent on connection `conn_id`: the
    /// connection is `Open` and its send window holds at least that much.
    pub fn can_send_data(&self, conn_id: u32, data_size: u32) -> (b: bool)
        ensures
            b == (self@.connections.contains_key(conn_id) && self@.connections[conn_id].state
                == ConnectionState::Open && self@.connections[conn_id].send_window >= data_size),
    {
        match self.lookup(conn_id) {
            Some(info) => info.state == ConnectionState::Open && info.send_window >= data_size,
            None => false,
        }
    }

    /// Whether connection `conn_id` is in the table and `Open`.
    pub fn is_open(&self, conn_id: u32) -> (b: bool)
        ensures
            b == (self@.connections.contains_key(conn_id) && self@.connections[conn_id].state
                == ConnectionState::Open),
    {
        match self.lookup(conn_id) {
            Some(info) => info.state == ConnectionState::Open,
            None => false,
        }
    }

    /// Takes `data_size` credits from the send window of `conn_id`.
    ///
    /// A window that holds fewer credits is left as it is and the call fails
    /// with `InsufficientCredits`.
    pub fn consume_send_credits(&mut self, conn_id: u32, data_size: u32) -> (r: Result<
        (),
        TableError,
    >)
        requires
            old(self).wf(),
        ensures
            final(self).wf(),
            final(self)@ == spec_after_consume(old(self)@, conn_id, data_size),
            !old(self)@.connections.contains_key(conn_id) ==> r == Err::<(), TableError>(
                TableError::ConnectionNotFound,
            ) && final(self)@ == old(self)@,
            old(self)@.connections.contains_key(conn_id) && old(self)@.connections[conn_id].send_window < data_size ==> r == Err::<(), TableError>(
                TableError::InsufficientCredits,
            ) && final(self)@ == old(self)@,
            old(self)@.connections.contains_key(conn_id) && old(self)@.connections[conn_id].send_window >= data_size ==> r is Ok && final(self)@ == (
            ConnectionTableView {
                connections: old(self)@.connections.insert(
                    conn_id,
                    ConnectionInfo {
                        send_window: (old(self)@.connections[conn_id].send_window
                            - data_size) as u32,
                        ..old(self)@.connections[conn_id]
                    },
                ),
                ..old(self)@
            }),
    {
        match self.lookup(conn_id) {
            None => Err(TableError::ConnectionNotFound),
            Some(info) => {
                if info.send_window < data_size {
                    return Err(TableError::InsufficientCredits);
                }
                self.store(
                    conn_id,
                    ConnectionInfo { send_window: info.send_window - data_size, ..info },
                );
                Ok(())
            },
        }
    }

    /// Adds `credits` to the send window of `conn_id`, capped at twice the
    /// initial window.
    pub fn add_send_credits(&mut self, conn_id: u32, credits: u32) -> (r: Result<(), TableError>)
        requires
            old(self).wf(),
        ensures
            final(self).wf(),
            final(self)@ == spec_after_credit(old(self)@, conn_id, credits),
            !old(self)@.connections.contains_key(conn_id) ==> r == Err::<(), TableError>(
                TableError::ConnectionNotFound,
            ) && final(self)@ == old(self)@,
            old(self)@.connections.contains_key(conn_id) ==> r is Ok && final(self)@ == (
            ConnectionTableView {
                connections: old(self)@.connections.insert(
                    conn_id,
                    ConnectionInfo {
                        send_window: spec_window_after_credit(
                            old(self)@.connections[conn_id],
                            credits,
                        ),
                        ..old(self)@.connections[conn_id]
                    },
                ),
                ..old(self)@
            }),
    {
        match self.lookup(conn_id) {
            None => Err(TableError::ConnectionNotFound),
            Some(info) => {
                let sum: u64 = info.send_window as u64 + credits as u64;
                let cap: u64 = 2 * (info.initial_window_size as u64);
                let capped: u64 = if sum <= cap {
                    sum
                } else {
                    cap
                };
                let new_window: u32 = if capped <= u32::MAX as u64 {
                    capped as u32
                } else {
                    u32::MAX
                };
                self.store(conn_id, ConnectionInfo { send_window: new_window, ..info });
                Ok(())
            },
        }
    }

    /// The send window of `conn_id`, if the connection is in the table.
    pub fn get_send_window(&self, conn_id: u32) -> (w: Option<u32>)
        ensures
            w is Some <==> self@.connections.contains_key(conn_id),
            w is Some ==> w->Some_0 == self@.connections[conn_id].send_window,
    {
        match self.lookup(conn_id) {
            Some(info) => Some(info.send_window),
            None => None,
        }
    }

    /// Whether a window update is due for `conn_id`: the connection is in the
    /// table and its window is below a quarter of the initial window.
    pub fn should_send_window_update(&self, conn_id: u32) -> (b: bool)
        ensures
            b == (self@.connections.contains_key(conn_id) && spec_update_due(
                self@.connections[conn_id],
            )),
    {
        match self.lookup(conn_id) {
            Some(info) => info.send_window < info.initial_window_size / 4,
            None => false,
        }
    }

    /// The credits that put the window of `conn_id` back to its initial value,
    /// if a window update is due.
    pub fn calculate_window_update(&self, conn_id: u32) -> (c: Option<u32>)
        ensures
            c is Some <==> self@.connections.contains_key(conn_id) && spec_update_due(
                self@.connections[conn_id],
            ),
            c is Some ==> c->Some_0 == self@.connections[conn_id].initial_window_size
                - self@.connections[conn_id].send_window,
    {
        match self.lookup(conn_id) {
            Some(info) => {
                if info.send_window < info.initial_window_size / 4 {
                    Some(info.initial_window_size - info.send_window)
                } else {
                    None
                }
            },
            None => None,
        }
    }

    /// Moves connection `conn_id` from `Open` to `Closing`.
    pub fn close_connection(&mut self, conn_id: u32) -> (r: Result<(), TableError>)
        requires
            old(self).wf(),
        ensures
            final(self).wf(),
            final(self)@ == spec_after_close(old(self)@, conn_id),
            !old(self)@.connections.contains_key(conn_id) ==> r == Err::<(), TableError>(
                TableError::ConnectionNotFound,
            ) && final(self)@ == old(self)@,
            old(self)@.connections.contains_key(conn_id) && old(self)@.connections[conn_id].state
                != ConnectionState::Open ==> r == Err::<(), TableError>(
                TableError::InvalidStateForClose,
            ) && final(self)@ == old(self)@,
            old(self)@.connections.contains_key(conn_id) && old(self)@.connections[conn_id].state
                == ConnectionState::Open ==> r is Ok && final(self)@ == (ConnectionTableView {
                connections: old(self)@.connections.insert(
                    conn_id,
                    ConnectionInfo {
                        state: ConnectionState::Closing,
                        ..old(self)@.connections[conn_id]
                    },
                ),
                ..old(self)@
            }),
    {
        match self.lookup(conn_id) {
            None => Err(TableError::ConnectionNotFound),
            Some(info) => {
                if info.state != ConnectionState::Open {
                    return Err(TableError::InvalidStateForClose);
                }
                self.store(conn_id, ConnectionInfo { state: ConnectionState::Closing, ..info });
                Ok(())
            },
        }
    }

    /// Completes the close of connection `conn_id`: a connection in `Closing`
    /// is closed and leaves the table. In any other state the call is refused
    /// and changes nothing.
    pub fn finalize_close(&mut self, conn_id: u32) -> (r: Result<(), TableError>)
        requires
            old(self).wf(),
        ensures
            final(self).wf(),
            !old(self)@.connections.contains_key(conn_id) ==> r == Err::<(), TableError>(
                TableError::ConnectionNotFound,
            ) && final(self)@ == old(self)@,
            old(self)@.connections.contains_key(conn_id) && old(self)@.connections[conn_id].state
                != ConnectionState::Closing ==> r == Err::<(), TableError>(
                TableError::NotInClosingState,
            ) && final(self)@ == old(self)@,
            old(self)@.connections.contains_key(conn_id) && old(self)@.connections[conn_id].state
                == ConnectionState::Closing ==> r is Ok && final(self)@ == (ConnectionTableView {
                connections: old(self)@.connections.remove(conn_id),
                ..old(self)@
            }),
    {
        broadcast use vstd::std_specs::hash::group_hash_axioms;

        match self.lookup(conn_id) {
            None => Err(TableError::ConnectionNotFound),
            Some(info) => {
                if info.state != ConnectionState::Closing {
                    return Err(TableError::NotInClosingState);
                }
                self.connections.remove(&conn_id);
                Ok(())
            },
        }
    }

    /// Counts `bytes` more as buffered for `conn_id`.
    ///
    /// If that would pass the buffer limit, the breach is counted, nothing is
    /// added and the call fails with `BufferLimitExceeded`.
    pub fn add_buffered_bytes(&mut self, conn_id: u32, bytes: usize) -> (r: Result<(), TableError>)
        requires
            old(self).wf(),
        ensures
            final(self).wf(),
            !old(self)@.connections.contains_key(conn_id) ==> r == Err::<(), TableError>(
                TableError::ConnectionNotFound,
            ) && final(self)@ == old(self)@,
            old(self)@.connections.contains_key(conn_id) && old(self)@.connections[conn_id].buffered_bytes + bytes > old(self)@.limits.max_buffered_bytes
                ==> r == Err::<(), TableError>(TableError::BufferLimitExceeded) && final(self)@
                == (ConnectionTableView {
                metrics: RelayMetrics {
                    buffer_limit_breached: spec_bump(old(self)@.metrics.buffer_limit_breached),
                    ..old(self)@.metrics
                },
                ..old(self)@
            }),
            old(self)@.connections.contains_key(conn_id) && old(self)@.connections[conn_id].buffered_bytes + bytes <= old(self)@.limits.max_buffered_bytes
                ==> r is Ok && final(self)@ == (ConnectionTableView {
                connections: old(self)@.connections.insert(
                    conn_id,
                    ConnectionInfo {
                        buffered_bytes: (old(self)@.connections[conn_id].buffered_bytes
                            + bytes) as usize,
                        ..old(self)@.connections[conn_id]
                    },
                ),
                ..old(self)@
            }),
    {
        match self.lookup(conn_id) {
            None => Err(TableError::ConnectionNotFound),
            Some(info) => {
                if bytes > self.limits.max_buffered_bytes - info.buffered_bytes {
                    self.metrics.buffer_limit_breached = bump(self.metrics.buffer_limit_breached);
                    return Err(TableError::BufferLimitExceeded);
                }
                self.store(
                    conn_id,
                    ConnectionInfo { buffered_bytes: info.buffered_bytes + bytes, ..info },
                );
                Ok(())
            },
        }
    }

    /// Counts `bytes` fewer as buffered for `conn_id`, down to zero at most. An
    /// id that is not in the table changes nothing.
    pub fn remove_buffered_bytes(&mut self, conn_id: u32, bytes: usize)
        requires
            old(self).wf(),
        ensures
            final(self).wf(),
            !old(self)@.connections.contains_key(conn_id) ==> final(self)@ == old(self)@,
            old(self)@.connections.contains_key(conn_id) ==> final(self)@ == (
            ConnectionTableView {
                connections: old(self)@.connections.insert(
                    conn_id,
                    ConnectionInfo {
                        buffered_bytes: if old(self)@.connections[conn_id].buffered_bytes >= bytes {
                            (old(self)@.connections[conn_id].buffered_bytes - bytes) as usize
                        } else {
                            0
                        },
                        ..old(self)@.connections[conn_id]
                    },
                ),
                ..old(self)@
            }),
    {
        match self.lookup(conn_id) {
            None => {},
            Some(info) => {
                let left: usize = if info.buffered_bytes >= bytes {
                    info.buffered_bytes - bytes
                } else {
                    0
                };
                self.store(conn_id, ConnectionInfo { buffered_bytes: left, ..info });
            },
        }
    }

    /// The state of `conn_id`, if the connection is in the table.
    pub fn get_state(&self, conn_id: u32) -> (s: Option<ConnectionState>)
        ensures
            s is Some <==> self@.connections.contains_key(conn_id),
            s is Some ==> s->Some_0 == self@.connections[conn_id].state,
    {
        match self.lookup(conn_id) {
            Some(info) => Some(info.state),
            None => None,
        }
    }

    /// The number of connections in the table.
    pub fn active_count(&self) -> (n: usize)
        ensures
            n == self@.connections.len(),
    {
        broadcast use vstd::std_specs::hash::group_hash_axioms;

        self.connections.len()
    }

    /// The number of connections that were opened and not yet finalized.
    pub fn inflight_opens(&self) -> (n: usize)
        ensures
            n == self@.inflight_opens,
    {
        self.inflight_opens
    }

    /// How often each limit was hit so far.
    pub fn metrics(&self) -> (m: &RelayMetrics)
        ensures
            *m == self@.metrics,
    {
        &self.metrics
    }

    /// The ids of all connections, each once, in no particular order.
    pub fn connection_ids(&self) -> (ids: Vec<u32>)
        ensures
            ids@.no_duplicates(),
            ids@.to_set() == self@.connections.dom(),
    {
        broadcast use vstd::std_specs::hash::group_hash_axioms;

        let mut ids: Vec<u32> = Vec::new();
        for id in it: self.connections.keys()
            invariant
                ids@ == it.seq().take(it.index() as int).unref(),
                it.seq() == self.connections.keys().remaining(),
            ensures
                ids@ == self.connections.keys().remaining().unref(),
        {
            ids.push(*id);
            assert(ids@ =~= it.seq().take(it.index() + 1).unref());
        }
        ids
    }

    /// Produces the window updates that are due and grants them at once.
    ///
    /// The result holds one `WindowUpdate` for each connection whose window
    /// was below a quarter of its initial value, with the credits that bring
    /// it back to the initial value, and no other message; the order is not
    /// fixed. Those windows are back at their initial value afterwards, so a
    /// second poll yields nothing for them.
    pub fn poll_control_frames(&mut self) -> (frames: Vec<ControlMessage>)
        requires
            old(self).wf(),
        ensures
            final(self).wf(),
            final(self)@ == (ConnectionTableView {
                connections: spec_after_poll(old(self)@.connections),
                ..old(self)@
            }),
            spec_conn_ids(frames@).no_duplicates(),
            forall|k: int|
                0 <= k < frames@.len() ==> {
                    let id = #[trigger] spec_conn_ids(frames@)[k];
                    &&& old(self)@.connections.contains_key(id)
                    &&& spec_update_due(old(self)@.connections[id])
                    &&& frames@[k]@ == spec_window_update(id, old(self)@.connections[id])
                },
            forall|id: u32|
                old(self)@.connections.contains_key(id) && spec_update_due(
                    old(self)@.connections[id],
                ) ==> #[trigger] spec_conn_ids(frames@).contains(id),
    {
        let ids = self.connection_ids();
        let mut frames: Vec<ControlMessage> = Vec::new();
        let ghost before = self@.connections;
        let mut i: usize = 0;
        while i < ids.len()
            invariant
                0 <= i <= ids@.len(),
                ids@.no_duplicates(),
                ids@.to_set() == before.dom(),
                before == old(self)@.connections,
                old(self).wf(),
                self@ == (ConnectionTableView { connections: self@.connections, ..old(self)@ }),
                self@.connections.dom() == before.dom(),
                forall|j: int|
                    0 <= j < ids@.len() ==> #[trigger] self@.connections[ids@[j]] == (if j < i
                        && spec_update_due(before[ids@[j]]) {
                        spec_restored(before[ids@[j]])
                    } else {
                        before[ids@[j]]
                    }),
                spec_conn_ids(frames@).no_duplicates(),
                forall|k: int|
                    0 <= k < frames@.len() ==> {
                        let id = #[trigger] spec_conn_ids(frames@)[k];
                        &&& ids@.take(i as int).contains(id)
                        &&& spec_update_due(before[id])
                        &&& frames@[k]@ == spec_window_update(id, before[id])
                    },
                forall|j: int|
                    0 <= j < i && spec_update_due(before[#[trigger] ids@[j]]) ==> spec_conn_ids(
                        frames@,
                    ).contains(ids@[j]),
            decreases ids@.len() - i,
        {
            let id: u32 = ids[i];
            proof {
                assert(ids@.to_set().contains(ids@[i as int]));
                assert(forall|k: int|
                    0 <= k < frames@.len() ==> #[trigger] spec_conn_ids(frames@)[k] != id) by {
                    assert forall|k: int| 0 <= k < frames@.len() implies #[trigger] spec_conn_ids(
                        frames@,
                    )[k] != id by {
                        let c = spec_conn_ids(frames@)[k];
                        assert(ids@.take(i as int).contains(c));
                        let j = choose|j: int|
                            0 <= j < ids@.take(i as int).len() && ids@.take(i as int)[j] == c;
                        assert(ids@[j] == c);
                    }
                }
            }
            match self.lookup(id) {
                None => {},
                Some(info) => {
                    if info.send_window < info.initial_window_size / 4 {
                        let credits: u32 = info.initial_window_size - info.send_window;
                        let ghost prev_frames = frames@;
                        frames.push(ControlMessage::WindowUpdate { conn_id: id, credits });
                        self.store(
                            id,
                            ConnectionInfo { send_window: info.initial_window_size, ..info },
                        );
                        proof {
                            assert(self@.connections.dom() =~= before.dom());
                            assert(spec_conn_ids(frames@) =~= spec_conn_ids(prev_frames).push(id));
                            assert forall|j: int| 0 <= j < i && spec_update_due(
                                before[#[trigger] ids@[j]],
                            ) implies spec_conn_ids(frames@).contains(ids@[j]) by {
                                let k = choose|k: int|
                                    0 <= k < spec_conn_ids(prev_frames).len() && spec_conn_ids(
                                        prev_frames,
                                    )[k] == ids@[j];
                                assert(spec_conn_ids(frames@)[k] == ids@[j]);
                            }
                            assert(spec_conn_ids(frames@)[frames@.len() - 1] == id);
                        }
                    }
                },
            }
            proof {
                assert(ids@.take(i as int + 1) =~= ids@.take(i as int).push(id));
                assert forall|k: int| 0 <= k < frames@.len() implies ids@.take(
                    i as int + 1,
                ).contains(#[trigger] spec_conn_ids(frames@)[k]) by {
                    let c = spec_conn_ids(frames@)[k];
                    if c == id {
                        assert(ids@.take(i as int + 1)[i as int] == id);
                    } else {
                        assert(ids@.take(i as int).contains(c));
                        let j = choose|j: int|
                            0 <= j < ids@.take(i as int).len() && ids@.take(i as int)[j] == c;
                        assert(ids@.take(i as int + 1)[j] == c);
                    }
                }
            }
            i += 1;
        }
        proof {
            assert(self@.connections =~= spec_after_poll(before)) by {
                assert forall|id: u32| before.contains_key(id) implies #[trigger]
                    self@.connections[id] == spec_after_poll(before)[id] by {
                    assert(ids@.to_set().contains(id));
                    let j = choose|j: int| 0 <= j < ids@.len() && ids@[j] == id;
                    assert(self@.connections[ids@[j]] == spec_after_poll(before)[id]);
                }
            }
            assert forall|id: u32|
                before.contains_key(id) && spec_update_due(before[id]) implies #[trigger]
                spec_conn_ids(frames@).contains(id) by {
                assert(ids@.to_set().contains(id));
                let j = choose|j: int| 0 <= j < ids@.len() && ids@[j] == id;
                assert(spec_update_due(before[ids@[j]]));
            }
            assert forall|k: int| 0 <= k < frames@.len() implies before.contains_key(
                #[trigger] spec_conn_ids(frames@)[k],
            ) by {
                let c = spec_conn_ids(frames@)[k];
                assert(ids@.take(i as int).contains(c));
                let j = choose|j: int|
                    0 <= j < ids@.take(i as int).len() && ids@.take(i as int)[j] == c;
                assert(ids@.to_set().contains(ids@[j]));
            }
        }
        frames
    }
}

/// The flow-control bound: in a well-formed table the send window of every
/// connection lies between zero and twice its initial window.
pub proof fn lemma_send_window_bounded(table: ConnectionTableView, conn_id: u32)
    requires
        table.wf(),
        table.connections.contains_key(conn_id),
    ensures
        0 <= table.connections[conn_id].send_window <= 2
            * table.connections[conn_id].initial_window_size,
{
}

/// After a poll no window update is due any more.
pub proof fn lemma_poll_settles(connections: Map<u32, ConnectionInfo>, conn_id: u32)
    requires
        connections.contains_key(conn_id),
    ensures
        !spec_update_due(spec_after_poll(connections)[conn_id]),
{
}

impl Default for RelayMetrics {
    /// Metrics with every counter at zero.
    fn default() -> (m: RelayMetrics)
        ensures
            m == (RelayMetrics {
                connections_rejected: 0,
                opens_rejected: 0,
                buffer_limit_breached: 0,
            }),
    {
        RelayMetrics { connections_rejected: 0, opens_rejected: 0, buffer_limit_breached: 0 }
    }
}

} // verus!
