//! A verified conversational session core for a chat-completion client.
//!
//! The library keeps an ordered conversation history, builds wire-format
//! requests from it, incrementally decodes an event-delimited streaming
//! response into ordered text fragments, and orchestrates blocking calls,
//! streaming calls and scoped side-task overrides of the history.  All
//! logic is verified; the network, the terminal and the file system stay
//! with the embedding application, reached only through the `Transport`
//! and `FragmentSink` traits.

pub mod client;
pub mod commands;
pub mod config;
pub mod decoder;
pub mod models;
pub mod session;
pub mod shell;
pub mod text;
