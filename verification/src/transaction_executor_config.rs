//! The timing and retry limits of a transaction executor.

use vstd::prelude::*;

verus! {

/// A span of time: whole seconds plus nanoseconds, the nanoseconds always
/// below one second.
#[derive(Clone, Copy, Debug, PartialEq, Eq, Structural)]
pub struct Interval {
    secs: u64,
    nanos: u32,
}

impl Interval {
    /// The nanoseconds stay below one second, as in a `Duration`.
    #[verifier::type_invariant]
    closed spec fn nanos_below_one_second(self) -> bool {
        self.nanos < 1_000_000_000
    }

    /// The whole seconds of the span.
    pub closed spec fn spec_secs(self) -> u64 {
        self.secs
    }

    /// The nanoseconds of the span beyond its whole seconds.
    pub closed spec fn spec_nanos(self) -> u32 {
        self.nanos
    }

    /// A span of whole seconds.
    pub fn from_secs(secs: u64) -> (r: Interval)
        ensures
            r.spec_secs() == secs,
            r.spec_nanos() == 0,
    {
        Interval { secs, nanos: 0 }
    }

    /// A span of `secs` seconds and `nanos` nanoseconds; `None` where `nanos`
    /// is a second or more.
    pub fn from_secs_nanos(secs: u64, nanos: u32) -> (r: Option<Interval>)
        ensures
            r is Some <==> nanos < 1_000_000_000,
            r matches Some(i) ==> i.spec_secs() == secs && i.spec_nanos() == nanos,
    {
        if nanos < 1_000_000_000 {
            Some(Interval { secs, nanos })
        } else {
            None
        }
    }

    /// The whole seconds of the span.
    pub fn secs(&self) -> (r: u64)
        ensures
            r == self.spec_secs(),
    {
        self.secs
    }

    /// The nanoseconds of the span beyond its whole seconds.
    pub fn subsec_nanos(&self) -> (r: u32)
        ensures
            r == self.spec_nanos(),
            r < 1_000_000_000,
    {
        proof {
            use_type_invariant(self);
        }
        self.nanos
    }
}

/// How often the executor checks and re-sends, and how often it may try.
#[derive(Clone, Copy, Debug)]
pub struct TransactionExecutorConfig {
    pub signature_status_check_interval: Interval,
    pub transaction_send_interval: Interval,
    pub waiting_time_after_last_send: Interval,
    pub max_attempts: u32,
}

impl Default for TransactionExecutorConfig {
    fn default() -> (r: Self)
        ensures
            r.signature_status_check_interval.spec_secs() == 1,
            r.signature_status_check_interval.spec_nanos() == 0,
            r.transaction_send_interval.spec_secs() == 20,
            r.transaction_send_interval.spec_nanos() == 0,
            r.waiting_time_after_last_send.spec_secs() == 60,
            r.waiting_time_after_last_send.spec_nanos() == 0,
            r.max_attempts == 10,
    {
        TransactionExecutorConfig {
            signature_status_check_interval: Interval::from_secs(1),
            transaction_send_interval: Interval::from_secs(20),
            waiting_time_after_last_send: Interval::from_secs(60),
            max_attempts: 10,
        }
    }
}

} // verus!
