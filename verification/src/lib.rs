//! The logic of an assist panel: a session with a coding agent that talks to the
//! editor over the Agent Client Protocol.
//!
//! Everything here decides and computes; a host performs. The host owns the editor,
//! its buffers and the connection, hands in what it observed as plain values, and
//! carries out the [`effect::Effect`]s that come back.

pub mod answers;
pub mod changes;
pub mod command;
pub mod connection;
pub mod editor;
pub mod effect;
pub mod files;
pub mod layout;
pub mod laws;
pub mod lines;
pub mod model;
pub mod panel;
pub mod permission;
pub mod proposal;
pub mod review;
pub mod session;
pub mod talk;
pub mod text;
pub mod update;
