//! Session orchestration and media-delivery core of a live timeline
//! broadcast server.
//!
//! The crate holds the decisions of the server: the bounded sample bridge,
//! the per-session negotiation state machine, the session registry, and the
//! serialized control loop that owns the shared timeline and the render
//! slots. Rendering, transport and the HTTP endpoint are performed by the
//! embedding program, which feeds their outcomes back as plain values.

pub mod bridge;
pub mod connection;
pub mod connection_pool;
pub mod encoding;
pub mod error;
pub mod media;
pub mod preview;
pub mod project;
pub mod signaling;
pub mod timeline;
pub mod timeline_manager;
