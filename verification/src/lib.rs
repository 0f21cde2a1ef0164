//! A client for servers that speak the Model Context Protocol.
//!
//! This library holds the decisions of such a client: which catalog to ask and
//! what its rows become, how a server is installed, connected, supervised and
//! signed in to, how its event streams and challenges are read, and which
//! errors come of it. Each is a function from plain values to plain values
//! whose contract is proved.
//!
//! What talks to a database, a socket or a subprocess is a host. An operation
//! that needs one is a sequence of steps: each step says what it wants done,
//! and the host's answer leads to the next, so that a host holds no rule of its
//! own.
//!
//! - [`registry::supervisor`] keeps installed servers connected.
//! - [`registry::ops`] installs, configures, connects and calls them.
//! - [`registry::sources`] asks the catalogs.
//! - [`registry::oauth`] signs in.
//! - [`transport::http`] reads event streams, challenges and statuses.
//! - [`tinybus_module`] is what a loadable module offers a host.
//! - [`error`] and [`endpoint`] say what went wrong without saying a secret.
//! - [`outside`] is all that is taken on trust.
pub mod bus;
pub mod endpoint;
pub mod env;
pub mod error;
pub mod json;
pub mod order;
pub mod outside;
pub mod registry;
pub mod text;
pub mod tinybus_module;
pub mod transport;
