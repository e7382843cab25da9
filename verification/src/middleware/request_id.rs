//! Request ids: every request carries an id header, taken from the incoming
//! request or freshly generated, and echoed on the response.

use vstd::prelude::*;
use crate::header::{header_text, spec_header_text};
use crate::middleware::DuplicatePolicy;
use crate::text::push_str;

verus! {

/// The header the id travels in unless configured otherwise.
pub const DEFAULT_HEADER: &'static str = "x-request-id";

/// Prefix of generated ids.
pub const REQUEST_ID_PREFIX: &'static str = "req-";

/// A character a header name may hold (lower-case token characters).
pub open spec fn header_name_char(c: char) -> bool {
    ('a' <= c && c <= 'z') || ('0' <= c && c <= '9') || c == '!' || c == '"' || c == '#' || c == '$'
        || c == '%' || c == '&' || c == '\'' || c == '*' || c == '+' || c == '-' || c == '.' || c
        == '^' || c == '_' || c == '`' || c == '|' || c == '~'
}

/// A valid header name: non-empty, at most 65535 characters, each a
/// lower-case token character.
pub open spec fn valid_header_name(name: Seq<char>) -> bool {
    &&& 0 < name.len() <= 65535
    &&& forall|i: int| 0 <= i < name.len() ==> header_name_char(#[trigger] name[i])
}

/// A lower-case hexadecimal digit or a hyphen.
pub open spec fn uuid_char(c: char) -> bool {
    ('0' <= c && c <= '9') || ('a' <= c && c <= 'f') || c == '-'
}

/// A fresh random (version 4) UUID in its hyphenated lower-case form
/// (`uuid::Uuid::new_v4` rendered with `Display`).
///
/// Trusted: the text is 36 characters of lower-case hex digits and hyphens.
/// The value itself is random, so nothing more is stated of it.
#[verifier::external_body]
pub(crate) fn new_uuid_v4() -> (id: String)
    ensures
        id@.len() == 36,
        forall|i: int| 0 <= i < 36 ==> uuid_char(#[trigger] id@[i]),
{
    uuid::Uuid::new_v4().to_string()
}

/// Tags each request and its response with an id header.
pub struct RequestId {
    header: &'static str,
}

impl RequestId {
    /// The header the id travels in.
    pub closed spec fn spec_header(&self) -> Seq<char> {
        self.header@
    }

    /// Uses the `x-request-id` header.
    pub fn new() -> (r: Self)
        ensures
            r.spec_header() == DEFAULT_HEADER@,
    {
        RequestId { header: DEFAULT_HEADER }
    }

    /// Uses another header (a lower-case header name).
    pub fn header_name(self, name: &'static str) -> (r: Self)
        requires
            valid_header_name(name@),
        ensures
            r.spec_header() == name@,
    {
        RequestId { header: name }
    }

    /// The header the id travels in.
    pub fn header(&self) -> (name: &'static str)
        ensures
            name@ == self.spec_header(),
    {
        self.header
    }

    /// The id of a request whose id header holds `incoming` (raw bytes): that
    /// text when it is readable, else `req-` and a fresh random UUID.
    pub fn request_id(&self, incoming: Option<&[u8]>) -> (id: String)
        ensures
            match incoming {
                Some(b) => match spec_header_text(b@) {
                    Some(t) => id@ == t,
                    None => id@.len() == 40 && id@.subrange(0, 4) == REQUEST_ID_PREFIX@,
                },
                None => id@.len() == 40 && id@.subrange(0, 4) == REQUEST_ID_PREFIX@,
            },
    {
        if let Some(bytes) = incoming {
            if let Some(t) = header_text(bytes) {
                return t;
            }
        }
        let mut id = REQUEST_ID_PREFIX.to_string();
        let fresh = new_uuid_v4();
        push_str(&mut id, fresh.as_str());
        proof {
            reveal_strlit("req-");
            assert(id@.subrange(0, 4) =~= REQUEST_ID_PREFIX@);
        }
        id
    }

    /// The layer's stable name.
    pub fn name(&self) -> (name: &'static str)
        ensures
            name@ == "RequestId"@,
    {
        "RequestId"
    }

    /// A second request-id layer is a configuration error.
    pub fn duplicate_policy(&self) -> (policy: DuplicatePolicy)
        ensures
            policy == DuplicatePolicy::Reject,
    {
        DuplicatePolicy::Reject
    }
}

} // verus!
