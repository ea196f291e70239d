//! Verified core of an operator CLI that manages audit accounts and
//! notification settings on a remote backup-audit service.
//!
//! The library covers the pieces with real engineering risk: deriving the
//! loopback port from a configured redirect URL, the single-shot loopback
//! listener's request handling, extraction of the authorization code from the
//! browser callback, the persisted bearer-credential record with its expiry
//! policy, and the sign-in flow's state machine.  Network and file I/O stay
//! outside; the library works on plain values handed in by its caller.

pub mod audit;
pub mod callback;
pub mod codec;
pub mod errors;
pub mod flow;
pub mod listener;
pub mod models;
pub mod redirect;
pub mod time;
pub mod token;
