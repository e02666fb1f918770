//! An anonymity-preserving forwarding pipeline.
//!
//! Payloads are wrapped in length-prefixed frames, wait in an epoch-batching
//! mixing pool, are held back by a randomized delay queue, and leave on a
//! transport whose path is rotated from time to time, so that the moment and
//! the order in which frames leave say nothing of the moment and the order
//! in which they arrived.
//!
//! Every function of this crate carries a contract that Verus proves. The
//! few calls into other crates and into unspecified parts of the standard
//! library are made through small wrappers whose contracts are stated next
//! to them: the random draws and shuffles of `rand` in [`rng`], the exchange
//! of two elements of a vector in [`heap`], and the Unicode-aware string
//! functions in [`text`] and [`proxy_request`]. The crate reads no clock,
//! opens no socket and starts no thread: time is a parameter, in
//! nanoseconds on the caller's monotonic clock, and transports are values
//! of the caller.

// Bytes and text.
pub mod wire;
pub mod counters;
pub mod text;

// Framing and the relay protocol.
pub mod frame;
pub mod control;
pub mod negotiation;
pub mod connection_table;
pub mod stream;

// The anonymity pipeline.
pub mod rng;
pub mod mixing;
pub mod heap;
pub mod delay;
pub mod path_epoch;
pub mod anonymity_protocol;
pub mod protocol_engine;
pub mod transport_adapter;
pub mod invariants;
pub mod binding;
pub mod regression;

// Observability.
pub mod observability;
pub mod guard;

// The proxy edge.
pub mod content_policy;
pub mod easylist;
pub mod proxy_policy;
pub mod proxy_request;
pub mod traffic_shaping;
pub mod connection_mapping;
pub mod control_channel;

// The threat model and the layered transport design.
pub mod trust_boundaries;
pub mod threat_model;
pub mod threat_invariants;
pub mod attack_surfaces;
pub mod prohibited_capabilities;
pub mod control_plane;
pub mod data_plane;
pub mod key_management;
pub mod zone_interfaces;
pub mod crypto_transport_design;

// Configuration and the tunnel session.
pub mod config;
pub mod client;
pub mod transport;
pub mod dns;
pub mod session;
pub mod tunnel_stats;
