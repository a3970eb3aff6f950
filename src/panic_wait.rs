//! The one-shot guard that keeps a failure report from re-entering itself.
use vstd::prelude::*;

verus! {

/// Whether a fatal failure is already being reported.
pub struct PanicGuard {
    in_progress: bool,
}

impl PanicGuard {
    pub closed spec fn active(&self) -> bool {
        self.in_progress
    }

    pub fn new() -> (r: Self)
        ensures
            !r.active(),
    {
        PanicGuard { in_progress: false }
    }

    /// Marks a report as in progress. Returns `true` for the first report;
    /// `false` when one was already under way, in which case the caller
    /// halts without reporting again.
    pub fn panic_prevent_reenter(&mut self) -> (first: bool)
        ensures
            first == !old(self).active(),
            final(self).active(),
    {
        if !self.in_progress {
            self.in_progress = true;
            return true;
        }
        false
    }
}

} // verus!
