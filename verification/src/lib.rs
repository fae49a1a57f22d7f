//! Lifecycle tracking for cross-chain bridge transfer requests.
//!
//! Each requester owns at most one live request at a time.  A request is
//! created by its requester, advanced by a single fixed operator through
//! `Doing` to exactly one of `Done` or `Error`, and superseded only when the
//! same requester starts a new request after reaching a terminal status.

pub mod amount;
pub mod bridge;
pub mod codec;
pub mod laws;
pub mod errors;
pub mod ident;
pub mod model;
pub mod store;
