//! Request time limits: a handler that does not finish in time is answered
//! with `504 Gateway Timeout`.

use vstd::prelude::*;
use crate::duration::Duration;
use crate::error::{Error, ErrorKind};
use crate::middleware::DuplicatePolicy;

verus! {

/// Message of the error answering a request that ran out of time.
pub const TIMED_OUT_MESSAGE: &'static str = "request timed out";

/// Bounds how long a request may take.
pub struct Timeout {
    duration: Duration,
}

impl Timeout {
    /// The time limit.
    pub closed spec fn spec_duration(&self) -> Duration {
        self.duration
    }

    /// A limit of `duration`.
    pub fn new(duration: Duration) -> (t: Self)
        ensures
            t.spec_duration() == duration,
    {
        Timeout { duration }
    }

    /// A limit of `secs` seconds.
    pub fn seconds(secs: u64) -> (t: Self)
        ensures
            t.spec_duration().wf(),
            t.spec_duration().spec_secs() == secs,
            t.spec_duration().spec_subsec_nanos() == 0,
    {
        Self::new(Duration::from_secs(secs))
    }

    /// A limit of `millis` milliseconds.
    pub fn millis(millis: u64) -> (t: Self)
        ensures
            t.spec_duration().wf(),
            t.spec_duration().total_nanos() == millis * 1_000_000,
    {
        Self::new(Duration::from_millis(millis))
    }

    /// The time limit.
    pub fn duration(&self) -> (d: Duration)
        ensures
            d == self.spec_duration(),
    {
        self.duration
    }

    /// The error answering a request that ran out of time.
    pub fn timed_out() -> (e: Error)
        ensures
            e.fresh(ErrorKind::GatewayTimeout, TIMED_OUT_MESSAGE@),
    {
        Error::gateway_timeout(TIMED_OUT_MESSAGE)
    }

    /// The layer's stable name.
    pub fn name(&self) -> (name: &'static str)
        ensures
            name@ == "Timeout"@,
    {
        "Timeout"
    }

    /// A second time limit is a configuration error.
    pub fn duplicate_policy(&self) -> (policy: DuplicatePolicy)
        ensures
            policy == DuplicatePolicy::Reject,
    {
        DuplicatePolicy::Reject
    }
}

} // verus!
