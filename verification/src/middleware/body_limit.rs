//! Request body size limits: a request declaring or sending more than the
//! limit is answered with `413 Payload Too Large`.

use vstd::prelude::*;
use crate::decimal::{parse_decimal, parsed_value};
use crate::error::{Error, ErrorKind};
use crate::header::{header_text, spec_header_text};
use crate::middleware::DuplicatePolicy;
use crate::text::to_chars;

verus! {

/// Bytes in a kibibyte.
pub const BYTES_PER_KB: usize = 1024;

/// Bytes in a mebibyte.
pub const BYTES_PER_MB: usize = 1048576;

/// Message of the error answering a body over the limit.
pub const TOO_LARGE_MESSAGE: &'static str = "request body too large";

/// The length a `Content-Length` header (raw bytes) declares: its text read as
/// an unsigned integer that fits a `usize`.
pub open spec fn spec_declared_length(header: Option<Seq<u8>>) -> Option<nat> {
    match header {
        None => None,
        Some(b) => match spec_header_text(b) {
            None => None,
            Some(t) => match parsed_value(t) {
                Some(n) => if n <= usize::MAX {
                    Some(n)
                } else {
                    None
                },
                None => None,
            },
        },
    }
}

/// Caps the size of request bodies.
pub struct BodyLimit {
    limit: usize,
}

impl BodyLimit {
    /// The limit in bytes.
    pub closed spec fn spec_limit(&self) -> usize {
        self.limit
    }

    /// A limit of `limit` bytes.
    pub fn bytes(limit: usize) -> (b: Self)
        ensures
            b.spec_limit() == limit,
    {
        BodyLimit { limit }
    }

    /// A limit of `limit` kibibytes.
    pub fn kb(limit: usize) -> (b: Self)
        requires
            limit * BYTES_PER_KB <= usize::MAX,
        ensures
            b.spec_limit() == limit * BYTES_PER_KB,
    {
        BodyLimit { limit: limit * BYTES_PER_KB }
    }

    /// A limit of `limit` mebibytes.
    pub fn mb(limit: usize) -> (b: Self)
        requires
            limit * BYTES_PER_MB <= usize::MAX,
        ensures
            b.spec_limit() == limit * BYTES_PER_MB,
    {
        BodyLimit { limit: limit * BYTES_PER_MB }
    }

    /// The limit in bytes.
    pub fn limit(&self) -> (limit: usize)
        ensures
            limit == self.spec_limit(),
    {
        self.limit
    }

    /// Checks the length a request declares in its `Content-Length` header
    /// (raw bytes): a declared length over the limit is rejected up front; an
    /// absent or unreadable header is left to the byte count.
    pub fn check_declared(&self, content_length: Option<&[u8]>) -> (r: Result<(), Error>)
        ensures
            ({
                let over = match spec_declared_length(match content_length {
                    Some(b) => Some(b@),
                    None => None,
                }) {
                    Some(n) => n > self.spec_limit(),
                    None => false,
                };
                match r {
                    Ok(()) => !over,
                    Err(e) => over && e.fresh(ErrorKind::PayloadTooLarge, TOO_LARGE_MESSAGE@),
                }
            }),
    {
        let declared: Option<u64> = match content_length {
            Some(bytes) => match header_text(bytes) {
                Some(t) => {
                    let chars = to_chars(t.as_str());
                    parse_decimal(chars.as_slice(), usize::MAX as u64)
                },
                None => None,
            },
            None => None,
        };
        match declared {
            Some(n) => if n > self.limit as u64 {
                Err(Error::payload_too_large(TOO_LARGE_MESSAGE))
            } else {
                Ok(())
            },
            None => Ok(()),
        }
    }

    /// Starts counting the bytes of a body against the limit.
    pub fn budget(&self) -> (b: BodyBudget)
        ensures
            b.spec_seen() == 0,
            b.spec_limit() == self.spec_limit(),
    {
        BodyBudget { seen: 0, limit: self.limit }
    }

    /// The layer's stable name.
    pub fn name(&self) -> (name: &'static str)
        ensures
            name@ == "BodyLimit"@,
    {
        "BodyLimit"
    }

    /// A second body limit is a configuration error.
    pub fn duplicate_policy(&self) -> (policy: DuplicatePolicy)
        ensures
            policy == DuplicatePolicy::Reject,
    {
        DuplicatePolicy::Reject
    }
}

/// The running byte count of a body being read under a limit.
pub struct BodyBudget {
    seen: usize,
    limit: usize,
}

impl BodyBudget {
    /// Bytes read so far.
    pub closed spec fn spec_seen(&self) -> nat {
        self.seen as nat
    }

    /// The limit in bytes.
    pub closed spec fn spec_limit(&self) -> nat {
        self.limit as nat
    }

    /// A fresh count against `limit`.
    pub fn new(limit: usize) -> (b: Self)
        ensures
            b.spec_seen() == 0,
            b.spec_limit() == limit,
    {
        BodyBudget { seen: 0, limit }
    }

    /// Bytes read so far.
    pub fn seen(&self) -> (seen: usize)
        ensures
            seen == self.spec_seen(),
    {
        self.seen
    }

    /// Counts a chunk of `len` bytes: once the total passes the limit the body
    /// is rejected.
    pub fn take(&mut self, len: usize) -> (r: Result<(), Error>)
        requires
            old(self).spec_seen() <= old(self).spec_limit(),
        ensures
            final(self).spec_limit() == old(self).spec_limit(),
            final(self).spec_seen() <= final(self).spec_limit(),
            match r {
                Ok(()) => old(self).spec_seen() + len <= old(self).spec_limit() && final(self).spec_seen()
                    == old(self).spec_seen() + len,
                Err(e) => old(self).spec_seen() + len > old(self).spec_limit() && e.fresh(
                    ErrorKind::PayloadTooLarge,
                    TOO_LARGE_MESSAGE@,
                ),
            },
    {
        if len > self.limit - self.seen {
            return Err(Error::payload_too_large(TOO_LARGE_MESSAGE));
        }
        self.seen = self.seen + len;
        Ok(())
    }
}

} // verus!
