//! Typed failures of the credential subsystem. No operation here panics on
//! an expected failure: every one is surfaced as a value of this enum.

use vstd::prelude::*;

verus! {

/// Why an operation was refused.
#[derive(Debug, PartialEq, Eq)]
pub enum AuthError {
    /// The operation named an account identifier absent from the store.
    NotFound(u128),
    /// The login flow's expiry timestamp has passed; a fresh flow is needed.
    FlowExpired,
    /// The login flow was already consumed by an earlier finish call.
    FlowConsumed,
    /// The identity provider rejected the exchange, with its reason.
    FlowRejected(String),
}

} // verus!
