//! Everything a host can ask of the registry.
//!
//! Each operation alternates decisions, which are made here, with work on the
//! store, the catalogs and the live sessions, which a host does. An operation
//! begins by saying what it wants done first; each answer says what is wanted
//! next, until the operation is done and hands back its result.
pub mod browsing;
pub mod connecting;
pub mod credentials;
pub mod enabling;
pub mod host;
pub mod install;
pub mod install_laws;
pub mod installing;
pub mod naming;
pub mod record_laws;
pub mod tools;
pub mod types;
