//! Signing in to a server through a browser.
pub mod detect;
pub mod flow;
pub mod laws;
pub mod pkce;
pub mod tokens;
