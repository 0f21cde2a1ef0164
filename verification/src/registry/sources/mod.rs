//! The upstream catalogs.
pub mod official;
pub mod types;
