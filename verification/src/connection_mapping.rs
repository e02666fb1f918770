//! The mapping between browser sockets and logical connections. Each new
//! connection gets a socket id and a logical id that no other ever had.

use vstd::prelude::*;
use std::collections::HashMap;
use vstd::std_specs::iter::IteratorSpec;
use crate::transport_adapter::TransportAdapter;

verus! {

/// The name of a browser socket.
#[derive(Debug, Clone, Copy, PartialEq, Eq, Hash, Structural)]
pub struct BrowserSocketId(pub usize);

/// The name of a logical connection.
#[derive(Debug, Clone, Copy, PartialEq, Eq, Hash, Structural)]
pub struct LogicalConnectionId(pub u32);

/// Why no mapping could be made.
#[derive(Debug, Clone, Copy, PartialEq, Eq, Structural)]
pub enum MappingError {
    /// Every id has been handed out.
    IdsExhausted,
}

/// A mapping as a mathematical value.
pub struct ConnectionMappingView {
    pub socket_to_logical: Map<usize, u32>,
    pub logical_to_socket: Map<u32, usize>,
    pub with_transport: Set<u32>,
    pub next_socket_id: usize,
    pub next_logical_id: u32,
}

/// The mapping between browser sockets and logical connections, with the
/// transport of each logical connection.
pub struct ConnectionMapping<T: TransportAdapter> {
    socket_to_logical: HashMap<usize, u32>,
    logical_to_socket: HashMap<u32, usize>,
    logical_to_transport: HashMap<u32, T>,
    next_socket_id: usize,
    next_logical_id: u32,
}

impl<T: TransportAdapter> View for ConnectionMapping<T> {
    type V = ConnectionMappingView;

    closed spec fn view(&self) -> ConnectionMappingView {
        ConnectionMappingView {
            socket_to_logical: self.socket_to_logical@,
            logical_to_socket: self.logical_to_socket@,
            with_transport: self.logical_to_transport@.dom(),
            next_socket_id: self.next_socket_id,
            next_logical_id: self.next_logical_id,
        }
    }
}

impl<T: TransportAdapter> ConnectionMapping<T> {
    /// An empty mapping. The first ids are 1.
    pub fn new() -> (m: ConnectionMapping<T>)
        ensures
            m@ == (ConnectionMappingView {
                socket_to_logical: Map::<usize, u32>::empty(),
                logical_to_socket: Map::<u32, usize>::empty(),
                with_transport: Set::<u32>::empty(),
                next_socket_id: 1,
                next_logical_id: 1,
            }),
    {
        let m = ConnectionMapping {
            socket_to_logical: HashMap::new(),
            logical_to_socket: HashMap::new(),
            logical_to_transport: HashMap::new(),
            next_socket_id: 1,
            next_logical_id: 1,
        };
        proof {
            assert(m@.with_transport =~= Set::<u32>::empty());
        }
        m
    }

    /// Maps a new browser socket to a new logical connection that is
    /// carried by `transport`, and returns the two ids.
    pub fn create_mapping(&mut self, transport: T) -> (r: Result<
        (BrowserSocketId, LogicalConnectionId),
        MappingError,
    >)
        ensures
            old(self)@.next_socket_id == usize::MAX || old(self)@.next_logical_id == u32::MAX
                ==> r is Err && final(self)@ == old(self)@,
            old(self)@.next_socket_id < usize::MAX && old(self)@.next_logical_id < u32::MAX ==> r
                == Ok::<(BrowserSocketId, LogicalConnectionId), MappingError>(
                (
                    BrowserSocketId(old(self)@.next_socket_id),
                    LogicalConnectionId(old(self)@.next_logical_id),
                ),
            ) && final(self)@ == (ConnectionMappingView {
                socket_to_logical: old(self)@.socket_to_logical.insert(
                    old(self)@.next_socket_id,
                    old(self)@.next_logical_id,
                ),
                logical_to_socket: old(self)@.logical_to_socket.insert(
                    old(self)@.next_logical_id,
                    old(self)@.next_socket_id,
                ),
                with_transport: old(self)@.with_transport.insert(old(self)@.next_logical_id),
                next_socket_id: (old(self)@.next_socket_id + 1) as usize,
                next_logical_id: (old(self)@.next_logical_id + 1) as u32,
            }),
    {
        broadcast use vstd::std_specs::hash::group_hash_axioms;

        if self.next_socket_id == usize::MAX || self.next_logical_id == u32::MAX {
            return Err(MappingError::IdsExhausted);
        }
        let socket_id: usize = self.next_socket_id;
        self.next_socket_id = self.next_socket_id + 1;
        let logical_id: u32 = self.next_logical_id;
        self.next_logical_id = self.next_logical_id + 1;
        self.socket_to_logical.insert(socket_id, logical_id);
        self.logical_to_socket.insert(logical_id, socket_id);
        self.logical_to_transport.insert(logical_id, transport);
        proof {
            assert(self@.with_transport =~= old(self)@.with_transport.insert(logical_id));
        }
        Ok((BrowserSocketId(socket_id), LogicalConnectionId(logical_id)))
    }

    /// The logical connection of a browser socket.
    pub fn get_logical_id(&self, socket_id: BrowserSocketId) -> (id: Option<LogicalConnectionId>)
        ensures
            id is Some <==> self@.socket_to_logical.contains_key(socket_id.0),
            id is Some ==> id->Some_0.0 == self@.socket_to_logical[socket_id.0],
    {
        broadcast use vstd::std_specs::hash::group_hash_axioms;

        match self.socket_to_logical.get(&socket_id.0) {
            Some(logical) => Some(LogicalConnectionId(*logical)),
            None => None,
        }
    }

    /// The browser socket of a logical connection.
    pub fn get_socket_id(&self, logical_id: LogicalConnectionId) -> (id: Option<BrowserSocketId>)
        ensures
            id is Some <==> self@.logical_to_socket.contains_key(logical_id.0),
            id is Some ==> id->Some_0.0 == self@.logical_to_socket[logical_id.0],
    {
        broadcast use vstd::std_specs::hash::group_hash_axioms;

        match self.logical_to_socket.get(&logical_id.0) {
            Some(socket) => Some(BrowserSocketId(*socket)),
            None => None,
        }
    }

    /// A browser socket was closed: the socket is forgotten, but its logical
    /// connection stays until the protocol closes it.
    pub fn on_browser_socket_closed(&mut self, socket_id: BrowserSocketId)
        ensures
            final(self)@ == (ConnectionMappingView {
                socket_to_logical: old(self)@.socket_to_logical.remove(socket_id.0),
                ..old(self)@
            }),
    {
        broadcast use vstd::std_specs::hash::group_hash_axioms;

        self.socket_to_logical.remove(&socket_id.0);
    }

    /// The protocol closed a logical connection: the connection, its socket
    /// and its transport are forgotten.
    pub fn protocol_close_connection(&mut self, logical_id: LogicalConnectionId)
        ensures
            final(self)@ == (ConnectionMappingView {
                socket_to_logical: if old(self)@.logical_to_socket.contains_key(logical_id.0) {
                    old(self)@.socket_to_logical.remove(
                        old(self)@.logical_to_socket[logical_id.0],
                    )
                } else {
                    old(self)@.socket_to_logical
                },
                logical_to_socket: old(self)@.logical_to_socket.remove(logical_id.0),
                with_transport: old(self)@.with_transport.remove(logical_id.0),
                ..old(self)@
            }),
    {
        broadcast use vstd::std_specs::hash::group_hash_axioms;

        match self.logical_to_socket.remove(&logical_id.0) {
            Some(socket_id) => {
                self.socket_to_logical.remove(&socket_id);
            },
            None => {},
        }
        self.logical_to_transport.remove(&logical_id.0);
        proof {
            assert(self@.with_transport =~= old(self)@.with_transport.remove(logical_id.0));
        }
    }

    /// The browser sockets that are mapped, each once, with their logical
    /// connections, in no particular order.
    pub fn get_active_mappings(&self) -> (pairs: Vec<(BrowserSocketId, LogicalConnectionId)>)
        ensures
            pairs@.len() == self@.socket_to_logical.dom().len(),
            forall|i: int|
                0 <= i < pairs@.len() ==> self@.socket_to_logical.contains_key(
                    (#[trigger] pairs@[i]).0.0,
                ) && self@.socket_to_logical[pairs@[i].0.0] == pairs@[i].1.0,
            forall|s: usize|
                self@.socket_to_logical.contains_key(s) ==> exists|i: int|
                    0 <= i < pairs@.len() && (#[trigger] pairs@[i]).0.0 == s,
            forall|i: int, j: int|
                0 <= i < j < pairs@.len() ==> (#[trigger] pairs@[i]).0.0 != (
                #[trigger] pairs@[j]).0.0,
    {
        broadcast use vstd::std_specs::hash::group_hash_axioms;

        let mut keys: Vec<usize> = Vec::new();
        for k in it: self.socket_to_logical.keys()
            invariant
                keys@ == it.seq().take(it.index() as int).unref(),
                it.seq() == self.socket_to_logical.keys().remaining(),
            ensures
                keys@ == self.socket_to_logical.keys().remaining().unref(),
        {
            keys.push(*k);
            assert(keys@ =~= it.seq().take(it.index() + 1).unref());
        }
        let mut pairs: Vec<(BrowserSocketId, LogicalConnectionId)> = Vec::new();
        let mut i: usize = 0;
        while i < keys.len()
            invariant
                0 <= i <= keys@.len(),
                keys@.no_duplicates(),
                keys@.to_set() == self@.socket_to_logical.dom(),
                keys@.len() == self@.socket_to_logical.dom().len(),
                pairs@.len() == i,
                forall|j: int|
                    0 <= j < i ==> (#[trigger] pairs@[j]).0.0 == keys@[j]
                        && self@.socket_to_logical.contains_key(keys@[j])
                        && self@.socket_to_logical[keys@[j]] == pairs@[j].1.0,
            decreases keys@.len() - i,
        {
            proof {
                assert(keys@.to_set().contains(keys@[i as int]));
            }
            let logical: u32 = *self.socket_to_logical.get(&keys[i]).unwrap();
            pairs.push((BrowserSocketId(keys[i]), LogicalConnectionId(logical)));
            i += 1;
        }
        proof {
            assert forall|s: usize| self@.socket_to_logical.contains_key(s) implies exists|i: int|
                0 <= i < pairs@.len() && (#[trigger] pairs@[i]).0.0 == s by {
                assert(keys@.to_set().contains(s));
                let j = choose|j: int| 0 <= j < keys@.len() && keys@[j] == s;
                assert(pairs@[j].0.0 == s);
            }
        }
        pairs
    }
}

/// The owner of the mapping.
pub struct ConnectionManager<T: TransportAdapter> {
    mapping: ConnectionMapping<T>,
}

impl<T: TransportAdapter> ConnectionManager<T> {
    /// The mapping of the manager.
    pub closed spec fn spec_mapping(&self) -> ConnectionMappingView {
        self.mapping@
    }

    /// A manager with an empty mapping.
    pub fn new() -> (m: ConnectionManager<T>)
        ensures
            m.spec_mapping().socket_to_logical == Map::<usize, u32>::empty(),
            m.spec_mapping().logical_to_socket == Map::<u32, usize>::empty(),
            m.spec_mapping().next_socket_id == 1,
            m.spec_mapping().next_logical_id == 1,
    {
        ConnectionManager { mapping: ConnectionMapping::new() }
    }

    /// Maps a new browser connection that is carried by `transport`.
    pub fn handle_new_browser_connection(&mut self, transport: T) -> (r: Result<
        (BrowserSocketId, LogicalConnectionId),
        MappingError,
    >)
        ensures
            r is Ok <==> old(self).spec_mapping().next_socket_id < usize::MAX && old(self).spec_mapping().next_logical_id < u32::MAX,
            r is Ok ==> r->Ok_0.0.0 == old(self).spec_mapping().next_socket_id && r->Ok_0.1.0
                == old(self).spec_mapping().next_logical_id && final(self).spec_mapping().socket_to_logical == old(self).spec_mapping().socket_to_logical.insert(
                r->Ok_0.0.0,
                r->Ok_0.1.0,
            ),
            r is Err ==> final(self).spec_mapping() == old(self).spec_mapping(),
    {
        self.mapping.create_mapping(transport)
    }

    /// A browser socket was closed.
    pub fn notify_browser_socket_closed(&mut self, socket_id: BrowserSocketId)
        ensures
            final(self).spec_mapping() == (ConnectionMappingView {
                socket_to_logical: old(self).spec_mapping().socket_to_logical.remove(socket_id.0),
                ..old(self).spec_mapping()
            }),
    {
        self.mapping.on_browser_socket_closed(socket_id);
    }

    /// Closes a logical connection.
    pub fn close_logical_connection(&mut self, logical_id: LogicalConnectionId)
        ensures
            final(self).spec_mapping().logical_to_socket == old(self).spec_mapping().logical_to_socket.remove(logical_id.0),
            !final(self).spec_mapping().with_transport.contains(logical_id.0),
    {
        self.mapping.protocol_close_connection(logical_id);
    }
}

} // verus!
