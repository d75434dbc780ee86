//! A single node of a message-passing test harness workload: an in-memory
//! key-value store driven by read, write and compare-and-swap requests, with
//! verified request handling and reply encoding. The transport that carries
//! the messages lives outside this crate; the node is a pure state machine
//! from inbound events to outbound replies.

pub mod laws;
pub mod node;
pub mod store;
pub mod value;
