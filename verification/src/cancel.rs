//! The cancellation flag observed by the capture loop.
//!
//! Any control source — a timer, a global hotkey, an interactive prompt —
//! requests a stop by setting this single boolean; setting it again is a
//! harmless no-op, and nothing ever clears it. The application shares the
//! flag across threads through an atomic with release/acquire ordering and
//! hands the observed value into the loop's decision functions; the
//! contracts here state the flag's sequential behaviour: it starts unset
//! and latches once set.

use vstd::prelude::*;

verus! {

/// A stop request: initially unset, set idempotently, never cleared.
pub struct CancellationSignal {
    stopped: bool,
}

impl CancellationSignal {
    /// Whether a stop has been requested.
    pub closed spec fn spec_is_stopped(&self) -> bool {
        self.stopped
    }

    /// A fresh signal; no stop has been requested yet.
    pub fn new() -> (signal: CancellationSignal)
        ensures
            !signal.spec_is_stopped(),
    {
        CancellationSignal { stopped: false }
    }

    /// Request a stop. Idempotent: the flag is set afterwards no matter
    /// how often or in what order control sources call this.
    pub fn signal_stop(&mut self)
        ensures
            final(self).spec_is_stopped(),
    {
        self.stopped = true;
    }

    /// Read the flag without blocking.
    pub fn is_stopped(&self) -> (stopped: bool)
        ensures
            stopped == self.spec_is_stopped(),
    {
        self.stopped
    }
}

} // verus!
