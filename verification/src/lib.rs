//! Privilege separation for changing the host's wall-clock time.
//!
//! An unprivileged front-end parses what the user asks for and hands a single
//! Unix timestamp to a small privileged helper. This crate holds the rules of
//! both programs: which capabilities each one keeps, how a command line and a
//! date are read, which argument crosses the process boundary, and which port
//! the local listener uses.

pub mod capabilities;
pub mod clock;
pub mod codes;
pub mod command;
pub mod decimal;
pub mod port;
pub mod server;
pub mod setter;
pub mod text;
