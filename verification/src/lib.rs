//! Core of a small presence-tracking service: an expiring key-value store
//! with coordinated bulk invalidation, an identity-resolution layer, and a
//! scrub-on-drop wrapper for secret-bearing strings.
//!
//! HTTP routing, configuration loading and the outbound identity-provider
//! calls are collaborators that live outside this crate; they hand plain
//! values in and take plain values back.
use vstd::prelude::*;

pub mod api;
pub mod config;
pub mod oidc;
pub mod state;
pub mod store;
pub mod types;
pub mod util;

verus! {

/// Entries of both stores stay visible for this many seconds past their most
/// recent write; the deadline is renewed on every overwrite (sliding TTL).
pub const TTL_SECONDS: i64 = 6 * 3600;

/// Command-line options of the service binary.
pub struct Args {
    /// Path to the configuration file.
    pub config: String,
    /// Do not lock the process address space into memory.
    pub no_mlock: bool,
}

} // verus!
