//! The ways to talk to a server.
pub mod http;
