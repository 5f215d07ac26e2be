//! Real-time presence, delivery, and authorization hub for a paired-user
//! messaging system.
//!
//! The hub decides, from a friendship relationship graph, whether a sender
//! may reach a receiver, persists the durable record of a message, and
//! best-effort-delivers live notifications and signaling payloads to the
//! receiver's active connection.

pub mod auth;
pub mod codes;
pub mod errors;
pub mod events;
pub mod friendship;
pub mod ids;
pub mod registry;
pub mod router;
pub mod session;
pub mod store;
