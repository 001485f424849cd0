//! Client-side core of a chat-room session: the wire codec for the JSON
//! envelope, the session-state reducer that folds inbound events into the
//! roster and message history, and the typing-indicator timer manager.
//!
//! Transport, rendering and process bootstrap are outside collaborators; this
//! crate only computes, from plain values to plain values.

pub mod codec;
pub mod session;
pub mod timers;
pub mod chat;
