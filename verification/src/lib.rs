//! A verified client core for the Universal Chess Interface (UCI) protocol.
//!
//! A UCI engine is a subprocess that talks over unframed, line-oriented
//! text streams.  The hard part of a client is synchronization: the stream
//! has no message framing, yet callers want request/response semantics.
//! This crate verifies that core: command formatting, line classification,
//! and the "drain until marker" barrier, all stated over an explicit
//! [`transport::Transport`] that records every operation.  Binding the core
//! to a real subprocess is left to an unverified shell around this library.

pub mod commands;
pub mod engine;
pub mod error;
pub mod protocol;
pub mod text;
pub mod transport;

pub use crate::engine::Engine;
pub use crate::engine::SearchBudget;
pub use crate::error::EngineError;
pub use crate::transport::Transport;
pub use crate::transport::TransportEvent;
