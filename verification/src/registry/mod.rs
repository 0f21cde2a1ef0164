//! The servers a user installs at runtime.
//!
//! A user browses the upstream catalogs, installs what they want, and the
//! choice is remembered across restarts. What is here is everything that
//! follows from a choice outliving the process: the installs and their
//! credentials, signing in, and a supervisor for what got connected.
pub mod oauth;
pub mod ops;
pub mod sources;
pub mod supervisor;
