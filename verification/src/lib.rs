//! A versioned, per-platform artifact distribution library: a version
//! registry paired with a blob store behind a coordinator that keeps the
//! two consistent, a typed client that drives uploads and downloads, and
//! the update state machine an application embeds to fetch and install
//! newer builds of itself.

use vstd::prelude::*;

pub mod client;
pub mod keys;
pub mod laws;
pub mod listing;
pub mod models;
pub mod store;
pub mod platform;
pub mod registry;
pub mod server;
pub mod strutil;
pub mod updater;
pub mod version;

verus! {

} // verus!
