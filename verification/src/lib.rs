//! Multi-account credential management for a game launcher: a persistent
//! credential store with a single-active-account invariant, an offline
//! identity factory, and a device-code login flow state machine.

pub mod clock;
pub mod credentials;
pub mod errors;
pub mod flow;
pub mod ids;
pub mod laws;
pub mod offline;
pub mod store;
