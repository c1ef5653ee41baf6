//! Keeps the user roster of a Vaultwarden server in step with an LDAP
//! directory: every directory user whose mail address the server does not
//! know yet is invited.
//!
//! The crate performs no input or output. Each operation that needs the
//! network is split in two: a function that says what to send, and a function
//! that takes what came back. [`sync::Supervisor`] strings them together as a
//! state machine whose driver performs the actions and reports the events.

pub mod model;
pub mod text;
pub mod http;
pub mod vw_admin;
pub mod config;
pub mod directory;
pub mod report;
pub mod roster;
pub mod plan;
pub mod sync;
