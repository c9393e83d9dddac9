//! A single-connection mail submission session: a command parser, a session
//! state machine and a body reader that undoes dot-stuffing, each with a
//! verified contract.

pub mod body;
pub mod command;
pub mod session;
pub mod text;
