//! The official registry's rows, and what they become.
//!
//! The registry's schema moves, so reading it is permissive: what is absent or
//! of another kind than expected counts as not given. The one thing that must
//! be loud is a row without its envelope, because it would otherwise read as a
//! page of blank cards.
pub mod convert;
pub mod cursors;
pub mod laws;
pub mod paging;
pub mod types;
