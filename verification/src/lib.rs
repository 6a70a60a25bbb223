//! Session multiplexing and terminal streaming logic for an SSH desktop
//! backend: the decisions, parsers and state machines, with their contracts.

pub mod bytes;
pub mod commands;
pub mod error;
pub mod number;
pub mod pty_session;
pub mod scan;
pub mod session_manager;
pub mod ssh;
mod table;
pub mod text;
pub mod websocket_server;
