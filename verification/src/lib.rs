//! Durable booking broker: idempotent submission handling, a persistent job
//! state machine with bounded retries and exponential backoff, and a
//! notification outbox, together with the wire types exchanged with clients.

pub mod config;
pub mod forwarder;
pub mod handler;
pub mod json;
pub mod laws;
pub mod msg;
pub mod netstate;
pub mod notifier;
pub mod outbox;
pub mod p2p;
pub mod storage;
pub mod strutil;
pub mod time;
pub mod types;
