//! Request logging: one line per request with its method, path and status.

use vstd::prelude::*;
use crate::decimal::{decimal, u64_to_decimal};
use crate::error::Error;
use crate::middleware::DuplicatePolicy;
use crate::text::{push_char, push_str};

verus! {

/// Logs each request once it has been answered.
pub struct Trace;

/// The log line of a request: method, path and status, space-separated.
pub open spec fn spec_log_line(method: Seq<char>, path: Seq<char>, status: u16) -> Seq<char> {
    method + seq![' '] + path + seq![' '] + decimal(status as nat)
}

impl Trace {
    /// Creates the layer.
    pub fn new() -> (t: Self) {
        Trace
    }

    /// The status logged for a request: the response's, or the status of its
    /// error's kind.
    pub fn outcome_status(outcome: Result<u16, &Error>) -> (status: u16)
        ensures
            status == match outcome {
                Ok(s) => s,
                Err(e) => e.spec_kind().spec_status(),
            },
    {
        match outcome {
            Ok(s) => s,
            Err(e) => e.kind().status(),
        }
    }

    /// The log line of a request.
    pub fn log_line(method: &str, path: &str, status: u16) -> (line: String)
        ensures
            line@ == spec_log_line(method@, path@, status),
    {
        let mut line = String::new();
        push_str(&mut line, method);
        push_char(&mut line, ' ');
        push_str(&mut line, path);
        push_char(&mut line, ' ');
        let digits = u64_to_decimal(status as u64);
        push_str(&mut line, digits.as_str());
        line
    }

    /// The layer's stable name.
    pub fn name(&self) -> (name: &'static str)
        ensures
            name@ == "Trace"@,
    {
        "Trace"
    }

    /// A second trace layer is a configuration error.
    pub fn duplicate_policy(&self) -> (policy: DuplicatePolicy)
        ensures
            policy == DuplicatePolicy::Reject,
    {
        DuplicatePolicy::Reject
    }
}

} // verus!
