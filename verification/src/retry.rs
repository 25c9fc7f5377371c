//! How often something is tried again.
use vstd::prelude::*;

verus! {

/// How often, and after how many seconds each time.
#[derive(Debug, Clone, Copy, PartialEq, Eq, Structural)]
pub struct RetryPolicy {
    /// How many failures are followed by another try.
    pub retries: u32,
    pub pause_seconds: u64,
}

impl RetryPolicy {
    /// For the database to be there.
    pub fn database() -> (r: RetryPolicy)
        ensures
            r == (RetryPolicy { retries: 30, pause_seconds: 5 }),
    {
        RetryPolicy { retries: 30, pause_seconds: 5 }
    }

    /// For the consumer to be made.
    pub fn consumer() -> (r: RetryPolicy)
        ensures
            r == (RetryPolicy { retries: 20, pause_seconds: 3 }),
    {
        RetryPolicy { retries: 20, pause_seconds: 3 }
    }

    /// For a schema to be registered: thirty tries in all.
    pub fn registration() -> (r: RetryPolicy)
        ensures
            r == (RetryPolicy { retries: 29, pause_seconds: 3 }),
    {
        RetryPolicy { retries: 29, pause_seconds: 3 }
    }
}

/// The tries at something.
#[derive(Debug, Clone, Copy, PartialEq, Eq, Structural)]
pub struct Attempts {
    pub policy: RetryPolicy,
    pub failed: u32,
}

impl Attempts {
    /// No try yet.
    pub fn new(policy: RetryPolicy) -> (r: Attempts)
        ensures
            r == (Attempts { policy, failed: 0 }),
    {
        Attempts { policy, failed: 0 }
    }

    /// Takes note of a failure: another try is due, or it was the last.
    pub fn fail(&mut self) -> (r: bool)
        ensures
            final(self).policy == old(self).policy,
            r == (old(self).failed < old(self).policy.retries),
            final(self).failed == if r {
                old(self).failed + 1
            } else {
                old(self).failed as int
            },
    {
        if self.failed < self.policy.retries {
            self.failed = self.failed + 1;
            true
        } else {
            false
        }
    }
}

} // verus!
