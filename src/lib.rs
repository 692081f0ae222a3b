//! Event sidecar core: typed upstream events, a deduplicating event log,
//! per-source processing, API-version agreement, the outbound event stream
//! server with its replay ring, and the client session state machine.

pub mod event;
pub mod log;
pub mod processor;
pub mod rendezvous;
pub mod server;
pub mod session;
pub mod supervisor;
