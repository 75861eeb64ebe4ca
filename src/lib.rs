//! Endpoint lifecycle and delivery engine of a multi-endpoint socket harness.
//!
//! The library holds the decisions: registries of live endpoints keyed by
//! address, the per-endpoint receive state machines (sequence numbers,
//! duplicate detection, peer tracking), the send paths and the payload
//! encoding. Sockets, threads and the event transport are supplied by the
//! caller through plain values and closures.
pub mod error;
pub mod payload;
pub mod registry;
pub mod tcp_client;
pub mod tcp_server;
pub mod udp_client;
pub mod udp_server;
pub mod worker;
