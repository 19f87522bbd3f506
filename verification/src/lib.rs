//! Core of a Bitcoin address index: a row codec for three fixed-width key
//! families, a write batch with a sort contract, block visitors for the
//! standard and the silent-payments pass, two sync state machines over an
//! in-memory store and chain view, and a bounded query path.
use vstd::prelude::*;

pub mod batch;
pub mod chain;
pub mod daemon;
pub mod index;
pub mod laws;
pub mod metrics;
pub mod rows;
pub mod signals;
pub mod sp;
pub mod store;
pub mod types;
pub mod visitor;
pub mod wrappers;

verus! {

/// Errors reported by the indexing core.
///
/// The first two are recoverable conditions that the caller may retry or
/// relax; the rest signal violated trust invariants (malformed data from the
/// trusted daemon, or a row the store should not hold) and should abort the
/// indexing attempt loudly.
#[derive(Clone, Copy, Debug, PartialEq, Eq, Structural)]
pub enum IndexError {
    /// Cancellation was requested; `height` is the last safely-completed
    /// height (everything up to and including it stayed persisted).
    Interrupted { height: u32 },
    /// A bounded query matched more rows than the configured limit.
    TooManyResults { limit: usize },
    /// The block source did not produce a requested block.
    MissingBlock { height: u32 },
    /// A persisted progress bookmark does not resolve to a chain position.
    BadTip,
    /// A spent previous output could not be resolved through the daemon.
    MissingPrevout { height: u32 },
    /// The input classifier rejected data from the trusted chain.
    ClassifyFailed { height: u32 },
    /// Tweak aggregation failed on recovered candidate keys.
    TweakFailed { height: u32 },
}

impl IndexError {
    /// True for the error tier that signals a violated trust invariant.
    pub open spec fn spec_is_fatal(self) -> bool {
        match self {
            IndexError::Interrupted { .. } => false,
            IndexError::TooManyResults { .. } => false,
            _ => true,
        }
    }

    /// Exec mirror of `spec_is_fatal`.
    pub fn is_fatal(&self) -> (r: bool)
        ensures
            r == self.spec_is_fatal(),
    {
        match self {
            IndexError::Interrupted { .. } => false,
            IndexError::TooManyResults { .. } => false,
            _ => true,
        }
    }
}

} // verus!
