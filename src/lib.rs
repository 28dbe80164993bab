//! A real-time broadcast relay: a tagged wire protocol, a registry of live
//! clients, and the per-connection lifecycle that joins, relays and leaves.
use vstd::prelude::*;

pub mod client;
pub mod format;
pub mod messages;
pub mod post;
pub mod text;
pub mod websocket;

verus! {

} // verus!
