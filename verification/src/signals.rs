//! The cooperative cancellation signal, polled once per chunk boundary.
use vstd::prelude::*;

verus! {

/// The shutdown flag the surrounding process raises.
pub struct ExitFlag {
    pub stop: bool,
}

impl ExitFlag {
    /// A flag with shutdown not requested.
    pub fn new() -> (r: ExitFlag)
        ensures
            !r.stop,
    {
        ExitFlag { stop: false }
    }

    /// True when shutdown has been requested.
    pub fn poll(&self) -> (r: bool)
        ensures
            r == self.stop,
    {
        self.stop
    }
}

} // verus!
