//! Core of an interactive command-line chat client that talks to several
//! chat-completion backends ("providers") through one unified interface.
//!
//! The crate covers the provider registry (model resolution and listing),
//! the conversation history, the streaming-completion increment protocol,
//! and the chat-session state machine.  Terminal, network and editor I/O
//! are left to the surrounding binary, which drives the state machine by
//! feeding it events and performing the actions it returns.

pub mod conversation;
pub mod registry;
pub mod session;
pub mod stream;
