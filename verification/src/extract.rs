//! Request extraction: the scheme a request arrived over, header-derived
//! values (bearer tokens, SSE resume ids) and matched path parameters.

use vstd::prelude::*;
use crate::error::{Error, ErrorKind};
use crate::header::{header_text, spec_header_text};
use crate::middleware::proxy_headers::IpAddress;
use crate::text::{eq_ignore_ascii_case, lower_seq, push_str, starts_with, starts_with_chars, str_eq, string_of_range, to_chars};

verus! {

/// The scheme a request arrived over, as established by a trusted proxy.
#[derive(Clone, Copy, Debug, PartialEq, Eq, Structural)]
pub enum RequestScheme {
    Http,
    Https,
}

impl RequestScheme {
    /// The scheme's name.
    pub fn as_str(self) -> (name: &'static str)
        ensures
            name@ == match self {
                RequestScheme::Http => "http"@,
                RequestScheme::Https => "https"@,
            },
    {
        match self {
            RequestScheme::Http => "http",
            RequestScheme::Https => "https",
        }
    }
}

/// Header carrying a request's credentials.
pub const AUTHORIZATION: &'static str = "authorization";

/// Header carrying the id of the last Server-Sent Event a client received.
pub const LAST_EVENT_ID_HEADER: &'static str = "last-event-id";

/// The (name, value) texts of a list of captured parameters.
pub open spec fn entries_view(entries: Seq<(String, String)>) -> Seq<(Seq<char>, Seq<char>)> {
    entries.map_values(|e: (String, String)| (e.0@, e.1@))
}

/// The value of the first entry named `name`, scanning from position `from`.
pub open spec fn lookup(entries: Seq<(Seq<char>, Seq<char>)>, name: Seq<char>, from: int) -> Option<Seq<char>>
    decreases entries.len() - from,
{
    if from < 0 || from >= entries.len() {
        None
    } else if entries[from].0 == name {
        Some(entries[from].1)
    } else {
        lookup(entries, name, from + 1)
    }
}

/// Parameters captured from the request path, in the order of the pattern.
pub struct PathParams {
    entries: Vec<(String, String)>,
}

impl View for PathParams {
    type V = Seq<(Seq<char>, Seq<char>)>;

    closed spec fn view(&self) -> Seq<(Seq<char>, Seq<char>)> {
        entries_view(self.entries@)
    }
}

impl PathParams {
    /// No parameters.
    pub fn new() -> (p: Self)
        ensures
            p@ == Seq::<(Seq<char>, Seq<char>)>::empty(),
    {
        let p = PathParams { entries: Vec::new() };
        assert(p@ =~= Seq::<(Seq<char>, Seq<char>)>::empty());
        p
    }

    /// Parameters from captured (name, value) pairs, in order.
    pub fn from_entries(entries: Vec<(String, String)>) -> (p: Self)
        ensures
            p@ == entries_view(entries@),
    {
        PathParams { entries }
    }

    /// Appends a captured parameter and its raw value.
    pub fn push(&mut self, name: String, value: String)
        ensures
            final(self)@ == old(self)@.push((name@, value@)),
    {
        let ghost before = self.entries@;
        self.entries.push((name, value));
        assert(entries_view(self.entries@) =~= entries_view(before).push((name@, value@)));
    }

    /// The raw value captured for `name` (the first one, if several share it).
    pub fn get(&self, name: &str) -> (value: Option<&str>)
        ensures
            match value {
                Some(v) => lookup(self@, name@, 0) == Some(v@),
                None => lookup(self@, name@, 0) is None,
            },
    {
        let mut i: usize = 0;
        while i < self.entries.len()
            invariant
                i <= self.entries@.len(),
                lookup(self@, name@, 0) == lookup(self@, name@, i as int),
            decreases self.entries.len() - i,
        {
            if str_eq(self.entries[i].0.as_str(), name) {
                return Some(self.entries[i].1.as_str());
            }
            i = i + 1;
        }
        None
    }

    /// Whether no parameter was captured.
    pub fn is_empty(&self) -> (empty: bool)
        ensures
            empty == (self@.len() == 0),
    {
        self.entries.len() == 0
    }

    /// The number of captured parameters.
    pub fn len(&self) -> (n: usize)
        ensures
            n == self@.len(),
    {
        self.entries.len()
    }
}

/// `prefix`, then `name`, then `suffix`.
pub open spec fn framed(prefix: Seq<char>, name: Seq<char>, suffix: Seq<char>) -> Seq<char> {
    prefix + name + suffix
}

/// Builds `prefix` + `name` + `suffix`.
fn frame(prefix: &str, name: &str, suffix: &str) -> (s: String)
    ensures
        s@ == framed(prefix@, name@, suffix@),
{
    let mut s = prefix.to_string();
    push_str(&mut s, name);
    push_str(&mut s, suffix);
    s
}

/// The raw value of the path parameter `name`. A parameter the route matched
/// without capturing is a routing bug, reported as an internal error.
pub fn path_param<'a>(params: &'a PathParams, name: &str) -> (r: Result<&'a str, Error>)
    ensures
        match r {
            Ok(v) => lookup(params@, name@, 0) == Some(v@),
            Err(e) => lookup(params@, name@, 0) is None && e.fresh(
                ErrorKind::Internal,
                framed("path parameter `"@, name@, "` was not captured by the router"@),
            ),
        },
{
    match params.get(name) {
        Some(v) => Ok(v),
        None => {
            let msg = frame("path parameter `", name, "` was not captured by the router");
            Err(Error::internal(msg.as_str()))
        },
    }
}

/// The error for a path parameter whose raw value does not parse; the value
/// itself is never echoed back.
pub fn invalid_path_param(name: &str) -> (e: Error)
    ensures
        e.fresh(ErrorKind::Unprocessable, framed("invalid value for path parameter `"@, name@, "`"@)),
{
    let msg = frame("invalid value for path parameter `", name, "`");
    Error::unprocessable(msg.as_str())
}

/// A path parameter as parsed: the value, or the unprocessable-entity error
/// when the raw text did not parse.
pub fn parsed_path_param<T>(name: &str, parsed: Option<T>) -> (r: Result<T, Error>)
    ensures
        match parsed {
            Some(v) => r == Ok::<T, Error>(v),
            None => r matches Err(e) && e.fresh(
                ErrorKind::Unprocessable,
                framed("invalid value for path parameter `"@, name@, "`"@),
            ),
        },
{
    match parsed {
        Some(v) => Ok(v),
        None => Err(invalid_path_param(name)),
    }
}

/// A bearer token taken from the `Authorization` header.
pub struct BearerToken(String);

/// The token an `Authorization` header (raw bytes) carries, or the message of
/// the `401 Unauthorized` rejection.
pub open spec fn spec_bearer(header: Option<Seq<u8>>) -> Result<Seq<char>, Seq<char>> {
    match header {
        None => Err("missing Authorization header"@),
        Some(b) => match spec_header_text(b) {
            None => Err("invalid Authorization header"@),
            Some(t) => if starts_with(t, crate::constants::BEARER_PREFIX@) {
                Ok(t.subrange(crate::constants::BEARER_PREFIX@.len() as int, t.len() as int))
            } else {
                Err("expected a bearer token"@)
            },
        },
    }
}

impl BearerToken {
    /// The token.
    pub closed spec fn spec_token(&self) -> Seq<char> {
        self.0@
    }

    /// The raw token: the header after the `Bearer ` prefix.
    pub fn token(&self) -> (t: &str)
        ensures
            t@ == self.spec_token(),
    {
        self.0.as_str()
    }

    /// Parses the `Authorization` header (raw bytes, if present): a readable
    /// `Bearer <token>` value yields the token; anything else is rejected with
    /// `401 Unauthorized`.
    pub fn from_header(header: Option<&[u8]>) -> (r: Result<BearerToken, Error>)
        ensures
            match spec_bearer(match header {
                Some(b) => Some(b@),
                None => None,
            }) {
                Ok(t) => r matches Ok(tok) && tok.spec_token() == t,
                Err(m) => r matches Err(e) && e.fresh(ErrorKind::Unauthorized, m),
            },
    {
        let bytes = match header {
            Some(b) => b,
            None => return Err(Error::unauthorized("missing Authorization header")),
        };
        let text = match header_text(bytes) {
            Some(t) => t,
            None => return Err(Error::unauthorized("invalid Authorization header")),
        };
        let chars = to_chars(text.as_str());
        let prefix = to_chars(crate::constants::BEARER_PREFIX);
        if !starts_with_chars(chars.as_slice(), prefix.as_slice()) {
            return Err(Error::unauthorized("expected a bearer token"));
        }
        let token = string_of_range(chars.as_slice(), prefix.len(), chars.len());
        Ok(BearerToken(token))
    }

    /// Resolves the token from the request's `Authorization` header, as
    /// [`BearerToken::from_header`] does.
    pub fn from_request<B, U>(ctx: &RequestContext<B, U>) -> (r: Result<BearerToken, Error>)
        ensures
            match spec_bearer(header_lookup(ctx.spec_headers(), AUTHORIZATION@, 0)) {
                Ok(t) => r matches Ok(tok) && tok.spec_token() == t,
                Err(m) => r matches Err(e) && e.fresh(ErrorKind::Unauthorized, m),
            },
    {
        BearerToken::from_header(ctx.header(AUTHORIZATION))
    }
}

/// The `Last-Event-ID` header a client resuming an SSE stream sends.
pub struct LastEventId(Option<String>);

impl LastEventId {
    /// The id, if the client sent a readable one.
    pub closed spec fn spec_id(&self) -> Option<Seq<char>> {
        match self.0 {
            Some(s) => Some(s@),
            None => None,
        }
    }

    /// Reads the header (raw bytes, if present); never fails.
    pub fn from_header(header: Option<&[u8]>) -> (id: Self)
        ensures
            id.spec_id() == match header {
                Some(b) => spec_header_text(b@),
                None => None,
            },
    {
        match header {
            Some(b) => LastEventId(header_text(b)),
            None => LastEventId(None),
        }
    }

    /// Reads the request's `Last-Event-ID` header; never fails.
    pub fn from_request<B, U>(ctx: &RequestContext<B, U>) -> (id: Self)
        ensures
            id.spec_id() == match header_lookup(ctx.spec_headers(), LAST_EVENT_ID_HEADER@, 0) {
                Some(b) => spec_header_text(b),
                None => None,
            },
    {
        LastEventId::from_header(ctx.header(LAST_EVENT_ID_HEADER))
    }

    /// The last event id, if the client sent one.
    pub fn as_str(&self) -> (id: Option<&str>)
        ensures
            match id {
                Some(s) => self.spec_id() == Some(s@),
                None => self.spec_id() is None,
            },
    {
        match &self.0 {
            Some(s) => Some(s.as_str()),
            None => None,
        }
    }

    /// The last event id, if the client sent one.
    pub fn into_inner(self) -> (id: Option<String>)
        ensures
            match id {
                Some(s) => self.spec_id() == Some(s@),
                None => self.spec_id() is None,
            },
    {
        self.0
    }
}

/// The `Last-Event-ID` header parsed into a typed resume cursor.
pub struct SseResume<T>(Option<T>);

impl<T> SseResume<T> {
    /// The parsed cursor.
    pub closed spec fn spec_last_id(&self) -> Option<T> {
        self.0
    }

    /// A cursor from what parsing the header gave (`None` when the header is
    /// missing, unreadable or does not parse).
    pub fn new(parsed: Option<T>) -> (r: Self)
        ensures
            r.spec_last_id() == parsed,
    {
        SseResume(parsed)
    }

    /// The parsed last event id, if the client sent a valid one.
    pub fn last_id(&self) -> (id: Option<&T>)
        ensures
            match id {
                Some(v) => self.spec_last_id() == Some(*v),
                None => self.spec_last_id() is None,
            },
    {
        match &self.0 {
            Some(v) => Some(v),
            None => None,
        }
    }

    /// The parsed last event id, if the client sent a valid one.
    pub fn into_inner(self) -> (id: Option<T>)
        ensures
            id == self.spec_last_id(),
    {
        self.0
    }
}

/// The message of the error for a second attempt to take the request body.
pub const BODY_CONSUMED_MESSAGE: &'static str = "request body has already been consumed";

/// The message of the error for taking an upgrade the request does not carry.
pub const NOT_AN_UPGRADE_MESSAGE: &'static str = "request is not a WebSocket upgrade";

/// The code of the error for taking an upgrade the request does not carry.
pub const NOT_AN_UPGRADE: &'static str = "NOT_AN_UPGRADE";

/// The (name, value) texts of a request's headers.
pub open spec fn headers_view(headers: Seq<(String, Vec<u8>)>) -> Seq<(Seq<char>, Seq<u8>)> {
    headers.map_values(|h: (String, Vec<u8>)| (h.0@, h.1@))
}

/// The value of the first header, from position `from` on, whose name equals
/// `name` ignoring ASCII case.
pub open spec fn header_lookup(headers: Seq<(Seq<char>, Seq<u8>)>, name: Seq<char>, from: int) -> Option<Seq<u8>>
    decreases headers.len() - from,
{
    if from < 0 || from >= headers.len() {
        None
    } else if lower_seq(headers[from].0) == lower_seq(name) {
        Some(headers[from].1)
    } else {
        header_lookup(headers, name, from + 1)
    }
}

/// The value of the first of `headers` named `name`, ignoring ASCII case.
pub fn header_value<'a>(headers: &'a [(String, Vec<u8>)], name: &str) -> (value: Option<&'a [u8]>)
    ensures
        match value {
            Some(v) => header_lookup(headers_view(headers@), name@, 0) == Some(v@),
            None => header_lookup(headers_view(headers@), name@, 0) is None,
        },
{
    let ghost hv = headers_view(headers@);
    let mut i: usize = 0;
    while i < headers.len()
        invariant
            i <= headers@.len(),
            hv == headers_view(headers@),
            header_lookup(hv, name@, 0) == header_lookup(hv, name@, i as int),
        decreases headers.len() - i,
    {
        if eq_ignore_ascii_case(headers[i].0.as_str(), name) {
            return Some(headers[i].1.as_slice());
        }
        i = i + 1;
    }
    None
}

/// What an extractor reads from the current request: its method, headers,
/// peer and scheme, the captured path parameters, and the body and upgrade,
/// each of which can be taken at most once.
pub struct RequestContext<B, U> {
    method: String,
    headers: Vec<(String, Vec<u8>)>,
    peer: Option<IpAddress>,
    scheme: Option<RequestScheme>,
    path_params: PathParams,
    body: Option<B>,
    upgrade: Option<U>,
}

impl<B, U> RequestContext<B, U> {
    /// The request method.
    pub closed spec fn spec_method(&self) -> Seq<char> {
        self.method@
    }

    /// The request headers, in order.
    pub closed spec fn spec_headers(&self) -> Seq<(Seq<char>, Seq<u8>)> {
        headers_view(self.headers@)
    }

    /// The remote peer, when known.
    pub closed spec fn spec_peer(&self) -> Option<IpAddress> {
        self.peer
    }

    /// The scheme established by a trusted proxy, when any.
    pub closed spec fn spec_scheme(&self) -> Option<RequestScheme> {
        self.scheme
    }

    /// The captured path parameters.
    pub closed spec fn spec_path_params(&self) -> Seq<(Seq<char>, Seq<char>)> {
        self.path_params@
    }

    /// The body, while it has not been taken.
    pub closed spec fn spec_body(&self) -> Option<B> {
        self.body
    }

    /// The upgrade, while the request carries one that has not been taken.
    pub closed spec fn spec_upgrade(&self) -> Option<U> {
        self.upgrade
    }

    /// A context for a request; `upgrade` is the pending connection upgrade,
    /// when the request asks for one.
    pub fn new(
        method: String,
        headers: Vec<(String, Vec<u8>)>,
        peer: Option<IpAddress>,
        scheme: Option<RequestScheme>,
        path_params: PathParams,
        body: B,
        upgrade: Option<U>,
    ) -> (ctx: Self)
        ensures
            ctx.spec_method() == method@,
            ctx.spec_headers() == headers_view(headers@),
            ctx.spec_peer() == peer,
            ctx.spec_scheme() == scheme,
            ctx.spec_path_params() == path_params@,
            ctx.spec_body() == Some(body),
            ctx.spec_upgrade() == upgrade,
    {
        RequestContext { method, headers, peer, scheme, path_params, body: Some(body), upgrade }
    }

    /// The request method.
    pub fn method(&self) -> (m: &str)
        ensures
            m@ == self.spec_method(),
    {
        self.method.as_str()
    }

    /// The request headers, in order.
    pub fn headers(&self) -> (h: &[(String, Vec<u8>)])
        ensures
            headers_view(h@) == self.spec_headers(),
    {
        self.headers.as_slice()
    }

    /// The value of the first header named `name`, ignoring ASCII case.
    pub fn header(&self, name: &str) -> (value: Option<&[u8]>)
        ensures
            match value {
                Some(v) => header_lookup(self.spec_headers(), name@, 0) == Some(v@),
                None => header_lookup(self.spec_headers(), name@, 0) is None,
            },
    {
        header_value(self.headers.as_slice(), name)
    }

    /// The remote peer, when known.
    pub fn peer_addr(&self) -> (peer: Option<IpAddress>)
        ensures
            peer == self.spec_peer(),
    {
        self.peer
    }

    /// The name of the scheme established by a trusted proxy, when any.
    pub fn scheme(&self) -> (name: Option<&'static str>)
        ensures
            match name {
                Some(n) => self.spec_scheme() matches Some(s) && n@ == match s {
                    RequestScheme::Http => "http"@,
                    RequestScheme::Https => "https"@,
                },
                None => self.spec_scheme() is None,
            },
    {
        match self.scheme {
            Some(s) => Some(s.as_str()),
            None => None,
        }
    }

    /// The captured path parameters.
    pub fn path_params(&self) -> (p: &PathParams)
        ensures
            p@ == self.spec_path_params(),
    {
        &self.path_params
    }

    /// The raw value captured for the path parameter `name`.
    pub fn path_param(&self, name: &str) -> (value: Option<&str>)
        ensures
            match value {
                Some(v) => lookup(self.spec_path_params(), name@, 0) == Some(v@),
                None => lookup(self.spec_path_params(), name@, 0) is None,
            },
    {
        self.path_params.get(name)
    }

    /// Takes the request body. It can be taken once: afterwards the context
    /// holds none, and taking it again fails with `400 Bad Request`.
    pub fn take_body(&mut self) -> (r: Result<B, Error>)
        ensures
            final(self).spec_body() is None,
            match old(self).spec_body() {
                Some(b) => r == Ok::<B, Error>(b),
                None => r matches Err(e) && e.fresh(ErrorKind::BadRequest, BODY_CONSUMED_MESSAGE@),
            },
            final(self).spec_method() == old(self).spec_method(),
            final(self).spec_headers() == old(self).spec_headers(),
            final(self).spec_peer() == old(self).spec_peer(),
            final(self).spec_scheme() == old(self).spec_scheme(),
            final(self).spec_path_params() == old(self).spec_path_params(),
            final(self).spec_upgrade() == old(self).spec_upgrade(),
    {
        match self.body.take() {
            Some(b) => Ok(b),
            None => Err(Error::bad_request(BODY_CONSUMED_MESSAGE)),
        }
    }

    /// Takes the pending connection upgrade. It can be taken once; a request
    /// without one, or whose upgrade was taken, fails with `400 Bad Request`
    /// and the code `NOT_AN_UPGRADE`.
    pub fn take_upgrade(&mut self) -> (r: Result<U, Error>)
        ensures
            final(self).spec_upgrade() is None,
            match old(self).spec_upgrade() {
                Some(u) => r == Ok::<U, Error>(u),
                None => r matches Err(e) && e.wf() && e.spec_kind() == ErrorKind::BadRequest
                    && e.spec_message() == NOT_AN_UPGRADE_MESSAGE@ && e.spec_status_override() is None
                    && e.spec_code_override() == Some(NOT_AN_UPGRADE@) && e.spec_details().len() == 0,
            },
            final(self).spec_method() == old(self).spec_method(),
            final(self).spec_headers() == old(self).spec_headers(),
            final(self).spec_peer() == old(self).spec_peer(),
            final(self).spec_scheme() == old(self).spec_scheme(),
            final(self).spec_path_params() == old(self).spec_path_params(),
            final(self).spec_body() == old(self).spec_body(),
    {
        match self.upgrade.take() {
            Some(u) => Ok(u),
            None => Err(Error::bad_request(NOT_AN_UPGRADE_MESSAGE).with_code(NOT_AN_UPGRADE)),
        }
    }
}

} // verus!
