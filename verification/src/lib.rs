//! Server-side core of a real-time state synchronisation service.
//!
//! Peers connect, are given an identity, report their state, and are
//! periodically told the latest state of every other peer. This crate holds
//! the identities, the two shared containers, the per-connection session
//! state machine and the fan-out rules; transport, encoding and scheduling
//! are left to the caller.

pub mod broadcast;
pub mod identity;
pub mod message;
pub mod registry;
pub mod session;
pub mod store;
pub mod system;

pub use broadcast::{broadcast, update_for, update_round};
pub use identity::{IdAllocator, UserId};
pub use message::{ClientMessage, ClientState, Delivery, RemoteState, ServerMessage, Vec2};
pub use registry::Registry;
pub use session::{handle_user_message, parse_user_message, Inbound, Phase, Session};
pub use store::StateStore;
