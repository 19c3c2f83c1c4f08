//! An event-driven automation engine: collectors observe external sources and
//! produce events, strategies turn events into actions, and executors carry
//! actions out. The crate verifies the engine's dispatch rules, the adapters
//! that bridge component-specific types onto the shared event/action bus, and
//! the incremental frame parser and reconnect policy of the streaming
//! ingestion client.

use vstd::prelude::*;

pub mod backoff;
pub mod collectors;
pub mod engine;
pub mod executors;
pub mod frames;
pub mod mevshare;
pub mod session;
pub mod strategy;

verus! {

/// Command-line options accepted by the binary built around this library.
pub struct Args {
    /// Optional flag for future extensions.
    pub dry_run: bool,
}

} // verus!
