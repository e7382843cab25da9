//! Body limits: the cap on buffered request bodies, the cap a streaming
//! response may be held to, and the errors of body extraction.

use vstd::prelude::*;
use crate::constants::MAX_BODY_BYTES;
use crate::decimal::{decimal, u64_to_decimal};
use crate::error::{Error, ErrorKind};
use crate::text::push_str;

verus! {

/// Message of the error for a request body over the buffering cap.
pub const BODY_TOO_LARGE_MESSAGE: &'static str = "request body is too large";
/// Message of the error for a request body that failed to arrive.
pub const BODY_UNREADABLE_MESSAGE: &'static str = "request body could not be read";
/// Message of the error for a body that is not JSON of the expected shape.
pub const INVALID_JSON_MESSAGE: &'static str = "request body is not valid JSON";
/// Message of the error for a response value that does not serialize.
pub const SERIALIZATION_FAILED_MESSAGE: &'static str = "response body serialization failed";

/// The bytes of a request body buffered so far, against the global cap.
pub struct BufferedBody {
    len: usize,
}

impl BufferedBody {
    /// Bytes buffered so far.
    pub closed spec fn spec_len(&self) -> nat {
        self.len as nat
    }

    /// Nothing buffered yet.
    pub fn new() -> (b: Self)
        ensures
            b.spec_len() == 0,
    {
        BufferedBody { len: 0 }
    }

    /// Bytes buffered so far.
    pub fn len(&self) -> (n: usize)
        ensures
            n == self.spec_len(),
    {
        self.len
    }

    /// Takes a data frame of `len` bytes: rejected when the buffer would pass
    /// the cap.
    pub fn take(&mut self, len: usize) -> (r: Result<(), Error>)
        requires
            old(self).spec_len() <= MAX_BODY_BYTES,
        ensures
            final(self).spec_len() <= MAX_BODY_BYTES,
            match r {
                Ok(()) => old(self).spec_len() + len <= MAX_BODY_BYTES && final(self).spec_len()
                    == old(self).spec_len() + len,
                Err(e) => old(self).spec_len() + len > MAX_BODY_BYTES && final(self).spec_len()
                    == old(self).spec_len() && e.fresh(ErrorKind::BadRequest, BODY_TOO_LARGE_MESSAGE@),
            },
    {
        if len > MAX_BODY_BYTES - self.len {
            return Err(Error::bad_request(BODY_TOO_LARGE_MESSAGE));
        }
        self.len = self.len + len;
        Ok(())
    }
}

/// The error for a request body that failed to arrive.
pub fn body_unreadable() -> (e: Error)
    ensures
        e.fresh(ErrorKind::BadRequest, BODY_UNREADABLE_MESSAGE@),
{
    Error::bad_request(BODY_UNREADABLE_MESSAGE)
}

/// The error for a request body that is not JSON of the expected shape.
pub fn invalid_json() -> (e: Error)
    ensures
        e.fresh(ErrorKind::Unprocessable, INVALID_JSON_MESSAGE@),
{
    Error::unprocessable(INVALID_JSON_MESSAGE)
}

/// The error for a response value that does not serialize; rendered, it shows
/// only the generic server-error message.
pub fn serialization_failed() -> (e: Error)
    ensures
        e.fresh(ErrorKind::Internal, SERIALIZATION_FAILED_MESSAGE@),
{
    Error::internal(SERIALIZATION_FAILED_MESSAGE)
}

/// The byte count of a streaming response held to a cap.
pub struct EmittedBytes {
    emitted: u64,
    limit: u64,
}

/// The message of the error that ends a stream past its cap.
pub open spec fn over_limit_message(limit: u64) -> Seq<char> {
    "response body exceeded the "@ + decimal(limit as nat) + "-byte limit"@
}

impl EmittedBytes {
    /// Bytes emitted so far (saturating at the largest count).
    pub closed spec fn spec_emitted(&self) -> u64 {
        self.emitted
    }

    /// The cap.
    pub closed spec fn spec_limit(&self) -> u64 {
        self.limit
    }

    /// Nothing emitted yet, against `limit`.
    pub fn new(limit: u64) -> (c: Self)
        ensures
            c.spec_emitted() == 0,
            c.spec_limit() == limit,
    {
        EmittedBytes { emitted: 0, limit }
    }

    /// Counts a data frame of `len` bytes: past the cap the frame is replaced
    /// by an error naming the limit.
    pub fn on_data(&mut self, len: u64) -> (r: Result<(), String>)
        ensures
            final(self).spec_limit() == old(self).spec_limit(),
            final(self).spec_emitted() == (if old(self).spec_emitted() + len > u64::MAX {
                u64::MAX as int
            } else {
                old(self).spec_emitted() + len
            }),
            match r {
                Ok(()) => final(self).spec_emitted() <= final(self).spec_limit(),
                Err(msg) => final(self).spec_emitted() > final(self).spec_limit() && msg@ == over_limit_message(
                    final(self).spec_limit(),
                ),
            },
    {
        self.emitted = self.emitted.saturating_add(len);
        if self.emitted > self.limit {
            let mut msg = "response body exceeded the ".to_string();
            let digits = u64_to_decimal(self.limit);
            push_str(&mut msg, digits.as_str());
            push_str(&mut msg, "-byte limit");
            return Err(msg);
        }
        Ok(())
    }
}

/// A JSON request or response body.
pub struct Json<T>(pub T);

/// A JSON request body, decoded and validated.
pub struct Valid<T>(pub T);

impl<T> Valid<T> {
    /// The validated value.
    pub fn into_inner(self) -> (v: T)
        ensures
            v == self.0,
    {
        self.0
    }
}

} // verus!
