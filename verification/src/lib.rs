//! A verified passkey authentication core: the two two-phase WebAuthn
//! ceremonies (registration and authentication), the single-use
//! challenge-state store that bridges a ceremony's two requests, a
//! transactional credential store, and the request-scoped execution
//! context that owns one transaction per request and commits or rolls it
//! back by the request's outcome.
//!
//! The cryptographic verification itself is an external collaborator
//! (`webauthn-rs`), consumed through the trusted boundary in [`crypto`];
//! everything it produces is treated as opaque and round-tripped
//! unchanged. Everything else — ceremony ordering, single-use consumption
//! of challenge state, constraint checking, counter-update bookkeeping,
//! and transaction finalization — is verified against the models in
//! [`store`] and [`context`]; [`laws`] states and proves the properties
//! that span several calls.

use vstd::prelude::*;

pub mod context;
pub mod crypto;
pub mod engine;
pub mod errors;
pub mod guard;
pub mod laws;
pub mod session;
pub mod store;

verus! {

} // verus!
