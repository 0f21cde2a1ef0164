//! Talking to a hosted server.
pub mod headers;
pub mod laws;
pub mod sse;
