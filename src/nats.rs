//! Publishing on the transport never gives up: each failed attempt is
//! logged and retried.
use vstd::prelude::*;

verus! {

/// How loudly a failed publish is reported.
#[derive(Debug, Clone, Copy, PartialEq, Eq)]
pub enum Severity {
    Warning,
    Error,
}

/// Consecutive failures of one publish.
pub struct PublishRetry {
    pub failures: u32,
}

impl PublishRetry {
    pub fn new() -> (r: Self)
        ensures
            r.failures == 0,
    {
        PublishRetry { failures: 0 }
    }

    /// Records one more failed attempt, which is then retried, and says how
    /// to report it: a warning for each of the first four, an error from
    /// the fifth on.
    pub fn failed(&mut self) -> (r: Severity)
        ensures
            final(self).failures == (if old(self).failures == u32::MAX { u32::MAX as int } else { old(self).failures + 1 }),
            r == (if final(self).failures < 5 { Severity::Warning } else { Severity::Error }),
    {
        self.failures = self.failures.saturating_add(1);
        if self.failures < 5 {
            Severity::Warning
        } else {
            Severity::Error
        }
    }
}

} // verus!
