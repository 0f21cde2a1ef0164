//! What the loadable module offers a host, and what a host gives it.
pub mod config;
pub mod manifest;
pub mod service;
