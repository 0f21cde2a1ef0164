//! Keeping installed servers connected.
//!
//! A transport can go away silently while its session still looks fine, and a
//! user's next tool call is the wrong place to find that out. The supervisor
//! walks the installs, probes what is connected, and reconnects what dropped,
//! waiting longer after each failure in a row.
pub mod backoff;
pub mod laws;
pub mod model;
pub mod report;
pub mod types;
