//! The framework error type and the decisions behind an HTTP error response.
//!
//! An [`Error`] carries a category ([`ErrorKind`]), an optional explicit status,
//! an optional machine-readable code, a client-facing message, and field-level
//! details. [`Error::into_payload`] decides what a client may see: for server
//! errors (5xx) the message is replaced by a fixed generic text and the details
//! are dropped, so internal detail never leaks.

use vstd::prelude::*;
use crate::constants::INTERNAL_ERROR_MESSAGE;
use crate::text::{has_substring, lower_seq, push_str, to_ascii_lowercase, to_chars, contains_chars};

verus! {

/// Machine-readable code used for validation failures.
pub const VALIDATION_ERROR_CODE: &'static str = "VALIDATION_ERROR";
/// Default top-level message for a validation failure.
pub const VALIDATION_ERROR_MESSAGE: &'static str = "The submitted data failed validation.";
/// Issue code used for a field error that could not be classified.
pub const GENERIC_ISSUE: &'static str = "INVALID";

/// The category of an [`Error`], which determines the HTTP status code.
#[derive(Clone, Copy, Debug, PartialEq, Eq, Structural)]
pub enum ErrorKind {
    /// `400 Bad Request`.
    BadRequest,
    /// `401 Unauthorized`.
    Unauthorized,
    /// `403 Forbidden`.
    Forbidden,
    /// `404 Not Found`.
    NotFound,
    /// `405 Method Not Allowed`.
    MethodNotAllowed,
    /// `409 Conflict`.
    Conflict,
    /// `413 Payload Too Large`.
    PayloadTooLarge,
    /// `422 Unprocessable Entity`.
    Unprocessable,
    /// `429 Too Many Requests`.
    TooManyRequests,
    /// `500 Internal Server Error`.
    Internal,
    /// `503 Service Unavailable`.
    ServiceUnavailable,
    /// `504 Gateway Timeout`.
    GatewayTimeout,
}

impl ErrorKind {
    /// The HTTP status code of a category.
    pub open spec fn spec_status(self) -> u16 {
        match self {
            ErrorKind::BadRequest => 400,
            ErrorKind::Unauthorized => 401,
            ErrorKind::Forbidden => 403,
            ErrorKind::NotFound => 404,
            ErrorKind::MethodNotAllowed => 405,
            ErrorKind::Conflict => 409,
            ErrorKind::PayloadTooLarge => 413,
            ErrorKind::Unprocessable => 422,
            ErrorKind::TooManyRequests => 429,
            ErrorKind::Internal => 500,
            ErrorKind::ServiceUnavailable => 503,
            ErrorKind::GatewayTimeout => 504,
        }
    }

    /// The default machine-readable code of a category.
    pub open spec fn spec_code(self) -> Seq<char> {
        match self {
            ErrorKind::BadRequest => "BAD_REQUEST"@,
            ErrorKind::Unauthorized => "UNAUTHORIZED"@,
            ErrorKind::Forbidden => "FORBIDDEN"@,
            ErrorKind::NotFound => "NOT_FOUND"@,
            ErrorKind::MethodNotAllowed => "METHOD_NOT_ALLOWED"@,
            ErrorKind::Conflict => "CONFLICT"@,
            ErrorKind::PayloadTooLarge => "PAYLOAD_TOO_LARGE"@,
            ErrorKind::Unprocessable => "UNPROCESSABLE_ENTITY"@,
            ErrorKind::TooManyRequests => "TOO_MANY_REQUESTS"@,
            ErrorKind::Internal => "INTERNAL_SERVER_ERROR"@,
            ErrorKind::ServiceUnavailable => "SERVICE_UNAVAILABLE"@,
            ErrorKind::GatewayTimeout => "GATEWAY_TIMEOUT"@,
        }
    }

    /// The category whose status is `status`, if one is.
    pub open spec fn spec_from_status(status: u16) -> Option<ErrorKind> {
        if status == 400 { Some(ErrorKind::BadRequest) }
        else if status == 401 { Some(ErrorKind::Unauthorized) }
        else if status == 403 { Some(ErrorKind::Forbidden) }
        else if status == 404 { Some(ErrorKind::NotFound) }
        else if status == 405 { Some(ErrorKind::MethodNotAllowed) }
        else if status == 409 { Some(ErrorKind::Conflict) }
        else if status == 413 { Some(ErrorKind::PayloadTooLarge) }
        else if status == 422 { Some(ErrorKind::Unprocessable) }
        else if status == 429 { Some(ErrorKind::TooManyRequests) }
        else if status == 500 { Some(ErrorKind::Internal) }
        else if status == 503 { Some(ErrorKind::ServiceUnavailable) }
        else if status == 504 { Some(ErrorKind::GatewayTimeout) }
        else { None }
    }

    /// Returns the HTTP status code for this error category.
    pub fn status(self) -> (status: u16)
        ensures
            status == self.spec_status(),
    {
        match self {
            ErrorKind::BadRequest => 400,
            ErrorKind::Unauthorized => 401,
            ErrorKind::Forbidden => 403,
            ErrorKind::NotFound => 404,
            ErrorKind::MethodNotAllowed => 405,
            ErrorKind::Conflict => 409,
            ErrorKind::PayloadTooLarge => 413,
            ErrorKind::Unprocessable => 422,
            ErrorKind::TooManyRequests => 429,
            ErrorKind::Internal => 500,
            ErrorKind::ServiceUnavailable => 503,
            ErrorKind::GatewayTimeout => 504,
        }
    }

    /// Returns the default stable, machine-readable code for this category
    /// (upper snake case, for example `NOT_FOUND`).
    pub fn code(self) -> (code: &'static str)
        ensures
            code@ == self.spec_code(),
    {
        match self {
            ErrorKind::BadRequest => "BAD_REQUEST",
            ErrorKind::Unauthorized => "UNAUTHORIZED",
            ErrorKind::Forbidden => "FORBIDDEN",
            ErrorKind::NotFound => "NOT_FOUND",
            ErrorKind::MethodNotAllowed => "METHOD_NOT_ALLOWED",
            ErrorKind::Conflict => "CONFLICT",
            ErrorKind::PayloadTooLarge => "PAYLOAD_TOO_LARGE",
            ErrorKind::Unprocessable => "UNPROCESSABLE_ENTITY",
            ErrorKind::TooManyRequests => "TOO_MANY_REQUESTS",
            ErrorKind::Internal => "INTERNAL_SERVER_ERROR",
            ErrorKind::ServiceUnavailable => "SERVICE_UNAVAILABLE",
            ErrorKind::GatewayTimeout => "GATEWAY_TIMEOUT",
        }
    }

    /// Returns the kind that matches an HTTP status, if one does.
    pub fn from_status(status: u16) -> (kind: Option<ErrorKind>)
        ensures
            kind == ErrorKind::spec_from_status(status),
    {
        if status == 400 { Some(ErrorKind::BadRequest) }
        else if status == 401 { Some(ErrorKind::Unauthorized) }
        else if status == 403 { Some(ErrorKind::Forbidden) }
        else if status == 404 { Some(ErrorKind::NotFound) }
        else if status == 405 { Some(ErrorKind::MethodNotAllowed) }
        else if status == 409 { Some(ErrorKind::Conflict) }
        else if status == 413 { Some(ErrorKind::PayloadTooLarge) }
        else if status == 422 { Some(ErrorKind::Unprocessable) }
        else if status == 429 { Some(ErrorKind::TooManyRequests) }
        else if status == 500 { Some(ErrorKind::Internal) }
        else if status == 503 { Some(ErrorKind::ServiceUnavailable) }
        else if status == 504 { Some(ErrorKind::GatewayTimeout) }
        else { None }
    }
}

/// A single field-level error, included in validation responses.
pub struct ErrorDetail {
    /// Dotted path to the offending field.
    pub field: String,
    /// Machine-readable code describing what went wrong (for example
    /// `TOO_SHORT`).
    pub issue: String,
    /// Human-readable description of the problem.
    pub message: String,
}

impl ErrorDetail {
    /// The detail as its three texts.
    pub open spec fn spec_view(self) -> (Seq<char>, Seq<char>, Seq<char>) {
        (self.field@, self.issue@, self.message@)
    }

    /// Creates a field-level error detail.
    pub fn new(field: &str, issue: &str, message: &str) -> (detail: Self)
        ensures
            detail.field@ == field@,
            detail.issue@ == issue@,
            detail.message@ == message@,
    {
        ErrorDetail { field: field.to_owned(), issue: issue.to_owned(), message: message.to_owned() }
    }
}

/// The client-visible content of an error response, before the trace id and
/// timestamp are added.
pub struct ErrorPayload {
    /// The numeric HTTP status.
    pub status: u16,
    /// The machine-readable code.
    pub code: &'static str,
    /// The canonical reason phrase of the status (`Error` when it has none).
    pub title: &'static str,
    /// The message shown to the client.
    pub message: String,
    /// Field-level details shown to the client (empty for server errors).
    pub details: Vec<ErrorDetail>,
}

/// Prefix of the trace id attached to every rendered error.
pub const TRACE_ID_PREFIX: &'static str = "req-";

/// A fresh trace id: `req-` followed by a random UUID, so the id a client sees
/// can be found in the server's logs.
pub fn generate_trace_id() -> (id: String)
    ensures
        id@.len() == 40,
        id@.subrange(0, 4) == TRACE_ID_PREFIX@,
{
    let mut id = TRACE_ID_PREFIX.to_string();
    let fresh = crate::middleware::request_id::new_uuid_v4();
    push_str(&mut id, fresh.as_str());
    proof {
        reveal_strlit("req-");
        assert(id@.subrange(0, 4) =~= TRACE_ID_PREFIX@);
    }
    id
}

/// `status` is a status code `http` accepts (`100..=999`).
pub open spec fn valid_status(status: u16) -> bool {
    100 <= status <= 999
}

/// `status` is a server error (`500..=599`).
pub open spec fn is_server_error(status: u16) -> bool {
    500 <= status <= 599
}

/// The canonical reason phrase `http` gives a status code.
pub uninterp spec fn reason_phrase(status: u16) -> Option<Seq<char>>;

/// The canonical reason phrase of a valid status code
/// (`http::StatusCode::canonical_reason`).
///
/// Trusted: the phrase is whatever `http`'s table holds for the number; this
/// states only that the result is that fixed function of the status.
#[verifier::external_body]
fn canonical_reason(status: u16) -> (reason: Option<&'static str>)
    requires
        valid_status(status),
    ensures
        match reason {
            Some(text) => reason_phrase(status) == Some(text@),
            None => reason_phrase(status) is None,
        },
{
    match http::StatusCode::from_u16(status) {
        Ok(code) => code.canonical_reason(),
        Err(_) => None,
    }
}

/// The kind an explicit status maps to: the kind of that status, or else
/// `Internal` for server errors and `BadRequest` for anything else.
pub open spec fn kind_for_status(s: u16) -> ErrorKind {
    match ErrorKind::spec_from_status(s) {
        Some(k) => k,
        None => if is_server_error(s) { ErrorKind::Internal } else { ErrorKind::BadRequest },
    }
}

/// A framework error that can be turned into an HTTP error response.
pub struct Error {
    kind: ErrorKind,
    status: Option<u16>,
    code: Option<&'static str>,
    message: String,
    details: Vec<ErrorDetail>,
}

impl Error {
    /// The explicit status override, if any.
    pub closed spec fn spec_status_override(&self) -> Option<u16> {
        self.status
    }

    /// The category.
    pub closed spec fn spec_kind(&self) -> ErrorKind {
        self.kind
    }

    /// The message as text.
    pub closed spec fn spec_message(&self) -> Seq<char> {
        self.message@
    }

    /// The code override, if any.
    pub closed spec fn spec_code_override(&self) -> Option<Seq<char>> {
        match self.code {
            Some(c) => Some(c@),
            None => None,
        }
    }

    /// The effective machine-readable code.
    pub open spec fn spec_code(&self) -> Seq<char> {
        match self.spec_code_override() {
            Some(c) => c,
            None => self.spec_kind().spec_code(),
        }
    }

    /// The field-level details.
    pub closed spec fn spec_details(&self) -> Seq<(Seq<char>, Seq<char>, Seq<char>)> {
        self.details@.map_values(|d: ErrorDetail| d.spec_view())
    }

    /// The HTTP status the error renders to.
    pub open spec fn spec_effective_status(&self) -> u16 {
        match self.spec_status_override() {
            Some(s) => s,
            None => self.spec_kind().spec_status(),
        }
    }

    /// Every status an error can render to is a valid status code.
    pub closed spec fn wf(&self) -> bool {
        match self.status {
            Some(s) => valid_status(s),
            None => true,
        }
    }

    /// A fresh error: the given kind and message, no override, no details.
    pub open spec fn fresh(&self, kind: ErrorKind, message: Seq<char>) -> bool {
        &&& self.wf()
        &&& self.spec_kind() == kind
        &&& self.spec_message() == message
        &&& self.spec_status_override() is None
        &&& self.spec_code_override() is None
        &&& self.spec_details().len() == 0
    }

    /// Creates an error of the given kind with a client-facing message.
    pub fn new(kind: ErrorKind, message: &str) -> (error: Self)
        ensures
            error.fresh(kind, message@),
    {
        let e = Error { kind, status: None, code: None, message: message.to_owned(), details: Vec::new() };
        assert(e.spec_details() =~= Seq::empty());
        e
    }

    /// Creates an error with an explicit HTTP status code.
    ///
    /// An out-of-range value (outside `100..=999`) falls back to `500`. The kind
    /// (and so the default machine code) is the one matching the status, or
    /// `Internal` for other server errors and `BadRequest` otherwise.
    pub fn http(status: u16, message: &str) -> (error: Self)
        ensures
            error.wf(),
            error.spec_status_override() == Some(if valid_status(status) { status } else { 500u16 }),
            error.spec_kind() == kind_for_status(if valid_status(status) { status } else { 500u16 }),
            error.spec_message() == message@,
            error.spec_code_override() is None,
            error.spec_details().len() == 0,
    {
        let s: u16 = if 100 <= status && status <= 999 { status } else { 500 };
        let kind = match ErrorKind::from_status(s) {
            Some(k) => k,
            None => if 500 <= s && s <= 599 { ErrorKind::Internal } else { ErrorKind::BadRequest },
        };
        let mut error = Self::new(kind, message);
        error.status = Some(s);
        error
    }

    /// An error built from an explicit (valid) status, with a message and a
    /// machine-readable code.
    pub open spec fn explicit(&self, status: u16, message: Seq<char>, code: Seq<char>) -> bool {
        &&& self.wf()
        &&& self.spec_status_override() == Some(status)
        &&& self.spec_kind() == kind_for_status(status)
        &&& self.spec_message() == message
        &&& self.spec_code_override() == Some(code)
        &&& self.spec_details().len() == 0
    }

    /// Creates a `402 Payment Required` error.
    pub fn payment_required(message: &str) -> (error: Self)
        ensures
            error.explicit(402, message@, "PAYMENT_REQUIRED"@),
    {
        Self::http(402, message).with_code("PAYMENT_REQUIRED")
    }

    /// Creates a `406 Not Acceptable` error.
    pub fn not_acceptable(message: &str) -> (error: Self)
        ensures
            error.explicit(406, message@, "NOT_ACCEPTABLE"@),
    {
        Self::http(406, message).with_code("NOT_ACCEPTABLE")
    }

    /// Creates a `407 Proxy Authentication Required` error.
    pub fn proxy_authentication_required(message: &str) -> (error: Self)
        ensures
            error.explicit(407, message@, "PROXY_AUTHENTICATION_REQUIRED"@),
    {
        Self::http(407, message).with_code("PROXY_AUTHENTICATION_REQUIRED")
    }

    /// Creates a `408 Request Timeout` error.
    pub fn request_timeout(message: &str) -> (error: Self)
        ensures
            error.explicit(408, message@, "REQUEST_TIMEOUT"@),
    {
        Self::http(408, message).with_code("REQUEST_TIMEOUT")
    }

    /// Creates a `410 Gone` error.
    pub fn gone(message: &str) -> (error: Self)
        ensures
            error.explicit(410, message@, "GONE"@),
    {
        Self::http(410, message).with_code("GONE")
    }

    /// Creates a `411 Length Required` error.
    pub fn length_required(message: &str) -> (error: Self)
        ensures
            error.explicit(411, message@, "LENGTH_REQUIRED"@),
    {
        Self::http(411, message).with_code("LENGTH_REQUIRED")
    }

    /// Creates a `412 Precondition Failed` error.
    pub fn precondition_failed(message: &str) -> (error: Self)
        ensures
            error.explicit(412, message@, "PRECONDITION_FAILED"@),
    {
        Self::http(412, message).with_code("PRECONDITION_FAILED")
    }

    /// Creates a `414 URI Too Long` error.
    pub fn uri_too_long(message: &str) -> (error: Self)
        ensures
            error.explicit(414, message@, "URI_TOO_LONG"@),
    {
        Self::http(414, message).with_code("URI_TOO_LONG")
    }

    /// Creates a `415 Unsupported Media Type` error.
    pub fn unsupported_media_type(message: &str) -> (error: Self)
        ensures
            error.explicit(415, message@, "UNSUPPORTED_MEDIA_TYPE"@),
    {
        Self::http(415, message).with_code("UNSUPPORTED_MEDIA_TYPE")
    }

    /// Creates a `416 Range Not Satisfiable` error.
    pub fn range_not_satisfiable(message: &str) -> (error: Self)
        ensures
            error.explicit(416, message@, "RANGE_NOT_SATISFIABLE"@),
    {
        Self::http(416, message).with_code("RANGE_NOT_SATISFIABLE")
    }

    /// Creates a `417 Expectation Failed` error.
    pub fn expectation_failed(message: &str) -> (error: Self)
        ensures
            error.explicit(417, message@, "EXPECTATION_FAILED"@),
    {
        Self::http(417, message).with_code("EXPECTATION_FAILED")
    }

    /// Creates a `418 I'm a teapot` error.
    pub fn im_a_teapot(message: &str) -> (error: Self)
        ensures
            error.explicit(418, message@, "IM_A_TEAPOT"@),
    {
        Self::http(418, message).with_code("IM_A_TEAPOT")
    }

    /// Creates a `421 Misdirected Request` error.
    pub fn misdirected_request(message: &str) -> (error: Self)
        ensures
            error.explicit(421, message@, "MISDIRECTED_REQUEST"@),
    {
        Self::http(421, message).with_code("MISDIRECTED_REQUEST")
    }

    /// Creates a `423 Locked` error.
    pub fn locked(message: &str) -> (error: Self)
        ensures
            error.explicit(423, message@, "LOCKED"@),
    {
        Self::http(423, message).with_code("LOCKED")
    }

    /// Creates a `424 Failed Dependency` error.
    pub fn failed_dependency(message: &str) -> (error: Self)
        ensures
            error.explicit(424, message@, "FAILED_DEPENDENCY"@),
    {
        Self::http(424, message).with_code("FAILED_DEPENDENCY")
    }

    /// Creates a `425 Too Early` error.
    pub fn too_early(message: &str) -> (error: Self)
        ensures
            error.explicit(425, message@, "TOO_EARLY"@),
    {
        Self::http(425, message).with_code("TOO_EARLY")
    }

    /// Creates a `426 Upgrade Required` error.
    pub fn upgrade_required(message: &str) -> (error: Self)
        ensures
            error.explicit(426, message@, "UPGRADE_REQUIRED"@),
    {
        Self::http(426, message).with_code("UPGRADE_REQUIRED")
    }

    /// Creates a `428 Precondition Required` error.
    pub fn precondition_required(message: &str) -> (error: Self)
        ensures
            error.explicit(428, message@, "PRECONDITION_REQUIRED"@),
    {
        Self::http(428, message).with_code("PRECONDITION_REQUIRED")
    }

    /// Creates a `431 Request Header Fields Too Large` error.
    pub fn request_header_fields_too_large(message: &str) -> (error: Self)
        ensures
            error.explicit(431, message@, "REQUEST_HEADER_FIELDS_TOO_LARGE"@),
    {
        Self::http(431, message).with_code("REQUEST_HEADER_FIELDS_TOO_LARGE")
    }

    /// Creates a `451 Unavailable For Legal Reasons` error.
    pub fn unavailable_for_legal_reasons(message: &str) -> (error: Self)
        ensures
            error.explicit(451, message@, "UNAVAILABLE_FOR_LEGAL_REASONS"@),
    {
        Self::http(451, message).with_code("UNAVAILABLE_FOR_LEGAL_REASONS")
    }

    /// Creates a `501 Not Implemented` error.
    pub fn not_implemented(message: &str) -> (error: Self)
        ensures
            error.explicit(501, message@, "NOT_IMPLEMENTED"@),
    {
        Self::http(501, message).with_code("NOT_IMPLEMENTED")
    }

    /// Creates a `502 Bad Gateway` error.
    pub fn bad_gateway(message: &str) -> (error: Self)
        ensures
            error.explicit(502, message@, "BAD_GATEWAY"@),
    {
        Self::http(502, message).with_code("BAD_GATEWAY")
    }

    /// Creates a `505 HTTP Version Not Supported` error.
    pub fn http_version_not_supported(message: &str) -> (error: Self)
        ensures
            error.explicit(505, message@, "HTTP_VERSION_NOT_SUPPORTED"@),
    {
        Self::http(505, message).with_code("HTTP_VERSION_NOT_SUPPORTED")
    }

    /// Creates a `506 Variant Also Negotiates` error.
    pub fn variant_also_negotiates(message: &str) -> (error: Self)
        ensures
            error.explicit(506, message@, "VARIANT_ALSO_NEGOTIATES"@),
    {
        Self::http(506, message).with_code("VARIANT_ALSO_NEGOTIATES")
    }

    /// Creates a `507 Insufficient Storage` error.
    pub fn insufficient_storage(message: &str) -> (error: Self)
        ensures
            error.explicit(507, message@, "INSUFFICIENT_STORAGE"@),
    {
        Self::http(507, message).with_code("INSUFFICIENT_STORAGE")
    }

    /// Creates a `508 Loop Detected` error.
    pub fn loop_detected(message: &str) -> (error: Self)
        ensures
            error.explicit(508, message@, "LOOP_DETECTED"@),
    {
        Self::http(508, message).with_code("LOOP_DETECTED")
    }

    /// Creates a `510 Not Extended` error.
    pub fn not_extended(message: &str) -> (error: Self)
        ensures
            error.explicit(510, message@, "NOT_EXTENDED"@),
    {
        Self::http(510, message).with_code("NOT_EXTENDED")
    }

    /// Creates a `511 Network Authentication Required` error.
    pub fn network_authentication_required(message: &str) -> (error: Self)
        ensures
            error.explicit(511, message@, "NETWORK_AUTHENTICATION_REQUIRED"@),
    {
        Self::http(511, message).with_code("NETWORK_AUTHENTICATION_REQUIRED")
    }

    /// Creates a `400 Bad Request` error.
    pub fn bad_request(message: &str) -> (error: Self)
        ensures error.fresh(ErrorKind::BadRequest, message@),
    {
        Self::new(ErrorKind::BadRequest, message)
    }

    /// Creates a `401 Unauthorized` error.
    pub fn unauthorized(message: &str) -> (error: Self)
        ensures error.fresh(ErrorKind::Unauthorized, message@),
    {
        Self::new(ErrorKind::Unauthorized, message)
    }

    /// Creates a `403 Forbidden` error.
    pub fn forbidden(message: &str) -> (error: Self)
        ensures error.fresh(ErrorKind::Forbidden, message@),
    {
        Self::new(ErrorKind::Forbidden, message)
    }

    /// Creates a `404 Not Found` error.
    pub fn not_found(message: &str) -> (error: Self)
        ensures error.fresh(ErrorKind::NotFound, message@),
    {
        Self::new(ErrorKind::NotFound, message)
    }

    /// Creates a `405 Method Not Allowed` error.
    pub fn method_not_allowed(message: &str) -> (error: Self)
        ensures error.fresh(ErrorKind::MethodNotAllowed, message@),
    {
        Self::new(ErrorKind::MethodNotAllowed, message)
    }

    /// Creates a `409 Conflict` error.
    pub fn conflict(message: &str) -> (error: Self)
        ensures error.fresh(ErrorKind::Conflict, message@),
    {
        Self::new(ErrorKind::Conflict, message)
    }

    /// Creates a `422 Unprocessable Entity` error.
    pub fn unprocessable(message: &str) -> (error: Self)
        ensures error.fresh(ErrorKind::Unprocessable, message@),
    {
        Self::new(ErrorKind::Unprocessable, message)
    }

    /// Creates a `413 Payload Too Large` error.
    pub fn payload_too_large(message: &str) -> (error: Self)
        ensures error.fresh(ErrorKind::PayloadTooLarge, message@),
    {
        Self::new(ErrorKind::PayloadTooLarge, message)
    }

    /// Creates a `429 Too Many Requests` error.
    pub fn too_many_requests(message: &str) -> (error: Self)
        ensures error.fresh(ErrorKind::TooManyRequests, message@),
    {
        Self::new(ErrorKind::TooManyRequests, message)
    }

    /// Creates a `500 Internal Server Error`. The message is logged but never
    /// returned to the client.
    pub fn internal(message: &str) -> (error: Self)
        ensures error.fresh(ErrorKind::Internal, message@),
    {
        Self::new(ErrorKind::Internal, message)
    }

    /// Creates a `503 Service Unavailable` error.
    pub fn service_unavailable(message: &str) -> (error: Self)
        ensures error.fresh(ErrorKind::ServiceUnavailable, message@),
    {
        Self::new(ErrorKind::ServiceUnavailable, message)
    }

    /// Creates a `504 Gateway Timeout` error.
    pub fn gateway_timeout(message: &str) -> (error: Self)
        ensures error.fresh(ErrorKind::GatewayTimeout, message@),
    {
        Self::new(ErrorKind::GatewayTimeout, message)
    }

    /// Overrides the machine-readable code (otherwise derived from the kind).
    pub fn with_code(self, code: &'static str) -> (error: Self)
        ensures
            error.wf() == self.wf(),
            error.spec_kind() == self.spec_kind(),
            error.spec_status_override() == self.spec_status_override(),
            error.spec_message() == self.spec_message(),
            error.spec_details() == self.spec_details(),
            error.spec_code_override() == Some(code@),
    {
        let mut error = self;
        error.code = Some(code);
        error
    }

    /// Attaches field-level details, surfaced in the response body for `4xx`.
    pub fn with_details(self, details: Vec<ErrorDetail>) -> (error: Self)
        ensures
            error.wf() == self.wf(),
            error.spec_kind() == self.spec_kind(),
            error.spec_status_override() == self.spec_status_override(),
            error.spec_message() == self.spec_message(),
            error.spec_code_override() == self.spec_code_override(),
            error.spec_details() == details@.map_values(|d: ErrorDetail| d.spec_view()),
    {
        let mut error = self;
        error.details = details;
        error
    }

    /// Returns the error category.
    pub fn kind(&self) -> (kind: ErrorKind)
        ensures
            kind == self.spec_kind(),
    {
        self.kind
    }

    /// Returns the HTTP status the error renders to.
    pub fn status(&self) -> (status: u16)
        ensures
            status == self.spec_effective_status(),
    {
        match self.status {
            Some(s) => s,
            None => self.kind.status(),
        }
    }

    /// Returns the machine-readable code (override, otherwise from the kind).
    pub fn code(&self) -> (code: &'static str)
        ensures
            code@ == self.spec_code(),
    {
        match self.code {
            Some(c) => c,
            None => self.kind.code(),
        }
    }

    /// Returns the field-level details, if any.
    pub fn details(&self) -> (details: &[ErrorDetail])
        ensures
            details@.map_values(|d: ErrorDetail| d.spec_view()) == self.spec_details(),
    {
        self.details.as_slice()
    }

    /// Returns the client-facing message.
    pub fn message(&self) -> (message: &str)
        ensures
            message@ == self.spec_message(),
    {
        self.message.as_str()
    }

    /// Reports whether this is a request-body validation failure.
    pub fn is_validation(&self) -> (validation: bool)
        ensures
            validation == (self.spec_code() == VALIDATION_ERROR_CODE@),
    {
        let code = self.code();
        crate::text::str_eq(code, VALIDATION_ERROR_CODE)
    }

    /// The error rendered as `<code>: <message>`.
    pub fn to_display_string(&self) -> (text: String)
        ensures
            text@ == self.spec_code() + ": "@ + self.spec_message(),
    {
        let mut text = String::new();
        push_str(&mut text, self.code());
        push_str(&mut text, ": ");
        push_str(&mut text, self.message.as_str());
        assert(text@ =~= self.spec_code() + ": "@ + self.spec_message());
        text
    }

    /// Decides what a client sees for this error.
    ///
    /// The status is the explicit one when set, otherwise the kind's. For a
    /// server error (5xx) the message is the generic
    /// [`INTERNAL_ERROR_MESSAGE`] and no details are included; otherwise the
    /// message and details are passed through.
    pub fn into_payload(self) -> (payload: ErrorPayload)
        requires
            self.wf(),
        ensures
            payload.status == self.spec_effective_status(),
            payload.code@ == self.spec_code(),
            payload.title@ == match reason_phrase(payload.status) {
                Some(t) => t,
                None => "Error"@,
            },
            is_server_error(payload.status) ==> payload.message@ == INTERNAL_ERROR_MESSAGE@,
            is_server_error(payload.status) ==> payload.details@.len() == 0,
            !is_server_error(payload.status) ==> payload.message@ == self.spec_message(),
            !is_server_error(payload.status) ==> payload.details@.map_values(|d: ErrorDetail| d.spec_view())
                == self.spec_details(),
    {
        let status = self.status();
        let reason = canonical_reason(status);
        self.payload_with_reason(reason)
    }

    /// The payload given the reason phrase of the effective status (`None`
    /// when the status has none, shown as `Error`).
    pub fn payload_with_reason(self, reason: Option<&'static str>) -> (payload: ErrorPayload)
        ensures
            payload.status == self.spec_effective_status(),
            payload.code@ == self.spec_code(),
            payload.title@ == match reason {
                Some(t) => t@,
                None => "Error"@,
            },
            is_server_error(payload.status) ==> payload.message@ == INTERNAL_ERROR_MESSAGE@,
            is_server_error(payload.status) ==> payload.details@.len() == 0,
            !is_server_error(payload.status) ==> payload.message@ == self.spec_message(),
            !is_server_error(payload.status) ==> payload.details@.map_values(|d: ErrorDetail| d.spec_view())
                == self.spec_details(),
    {
        let status = self.status();
        let code = self.code();
        let title = match reason {
            Some(t) => t,
            None => "Error",
        };
        let server = 500 <= status && status <= 599;
        if server {
            ErrorPayload { status, code, title, message: INTERNAL_ERROR_MESSAGE.to_owned(), details: Vec::new() }
        } else {
            ErrorPayload { status, code, title, message: self.message, details: self.details }
        }
    }

    /// Builds a validation error from `(field path, message)` pairs.
    ///
    /// The code is `VALIDATION_ERROR` and each pair becomes an [`ErrorDetail`]
    /// whose issue is classified from the message (see [`classify_issue`]).
    pub fn from_validation_issues(issues: &Vec<(String, String)>) -> (error: Self)
        ensures
            error.wf(),
            error.spec_kind() == ErrorKind::Unprocessable,
            error.spec_message() == VALIDATION_ERROR_MESSAGE@,
            error.spec_code_override() == Some(VALIDATION_ERROR_CODE@),
            error.spec_status_override() is None,
            error.spec_details().len() == issues@.len(),
            forall|i: int| 0 <= i < issues@.len() ==> #[trigger] error.spec_details()[i] == (
                issues@[i].0@,
                spec_classify_issue(issues@[i].1@),
                issues@[i].1@,
            ),
    {
        let mut details: Vec<ErrorDetail> = Vec::new();
        let mut i: usize = 0;
        while i < issues.len()
            invariant
                i <= issues@.len(),
                details@.len() == i,
                forall|j: int| 0 <= j < i ==> #[trigger] details@[j].spec_view() == (
                    issues@[j].0@,
                    spec_classify_issue(issues@[j].1@),
                    issues@[j].1@,
                ),
            decreases issues@.len() - i,
        {
            let (field, message) = &issues[i];
            let issue = classify_issue(message.as_str());
            let detail = ErrorDetail::new(field.as_str(), issue, message.as_str());
            details.push(detail);
            i = i + 1;
        }
        let error = Self::unprocessable(VALIDATION_ERROR_MESSAGE)
            .with_code(VALIDATION_ERROR_CODE)
            .with_details(details);
        error
    }

    /// Builds a validation error from a `garde` report: every reported field path
    /// and message becomes an [`ErrorDetail`], as in
    /// [`from_validation_issues`](Error::from_validation_issues).
    pub fn from_garde_report(report: garde::error::Report) -> (error: Self)
        ensures
            error.wf(),
            error.spec_kind() == ErrorKind::Unprocessable,
            error.spec_message() == VALIDATION_ERROR_MESSAGE@,
            error.spec_code_override() == Some(VALIDATION_ERROR_CODE@),
            error.spec_details().len() == report_issues(report).len(),
            forall|i: int| 0 <= i < report_issues(report).len() ==> #[trigger] error.spec_details()[i] == (
                report_issues(report)[i].0,
                spec_classify_issue(report_issues(report)[i].1),
                report_issues(report)[i].1,
            ),
    {
        let issues = report_entries(&report);
        Self::from_validation_issues(&issues)
    }
}

#[verifier::external_type_specification]
#[verifier::external_body]
pub struct ExGardeReport(garde::error::Report);

/// The `(field path, message)` pairs a `garde` report holds, in order.
pub uninterp spec fn report_issues(report: garde::error::Report) -> Seq<(Seq<char>, Seq<char>)>;

/// Lists the entries of a `garde` report (`Report::iter`), each path and error
/// rendered with its `Display` impl.
///
/// Trusted: the entries come out in the report's order, one per entry.
#[verifier::external_body]
fn report_entries(report: &garde::error::Report) -> (entries: Vec<(String, String)>)
    ensures
        entries@.len() == report_issues(*report).len(),
        forall|i: int| 0 <= i < entries@.len() ==> (#[trigger] entries@[i]).0@ == report_issues(*report)[i].0
            && entries@[i].1@ == report_issues(*report)[i].1,
{
    report.iter().map(|(path, error)| (path.to_string(), error.to_string())).collect()
}

/// The issue code for a validation message: the first of the known wordings
/// found in the lower-cased message, or `INVALID`.
pub open spec fn spec_classify_issue(message: Seq<char>) -> Seq<char> {
    let lower = lower_seq(message);
    if has_substring(lower, "email"@) {
        "INVALID_FORMAT"@
    } else if has_substring(lower, "length is lower"@) {
        "TOO_SHORT"@
    } else if has_substring(lower, "length is greater"@) {
        "TOO_LONG"@
    } else if has_substring(lower, "must be greater than"@) {
        "TOO_SMALL"@
    } else if has_substring(lower, "must be less than"@) {
        "TOO_LARGE"@
    } else if has_substring(lower, "lower than"@) {
        "TOO_SMALL"@
    } else if has_substring(lower, "greater than"@) {
        "TOO_LARGE"@
    } else {
        GENERIC_ISSUE@
    }
}

/// Checks whether the lower-cased `lower` holds `needle`.
fn holds(lower: &[char], needle: &str) -> (r: bool)
    ensures
        r == has_substring(lower@, needle@),
{
    let n = to_chars(needle);
    contains_chars(lower, n.as_slice())
}

/// Classifies a validation message into a coarse issue code, recognizing a few
/// well-known wordings (case-insensitively); anything else is `INVALID`.
pub fn classify_issue(message: &str) -> (issue: &'static str)
    ensures
        issue@ == spec_classify_issue(message@),
{
    let lower = to_ascii_lowercase(message);
    let l = lower.as_slice();
    if holds(l, "email") {
        "INVALID_FORMAT"
    } else if holds(l, "length is lower") {
        "TOO_SHORT"
    } else if holds(l, "length is greater") {
        "TOO_LONG"
    } else if holds(l, "must be greater than") {
        "TOO_SMALL"
    } else if holds(l, "must be less than") {
        "TOO_LARGE"
    } else if holds(l, "lower than") {
        "TOO_SMALL"
    } else if holds(l, "greater than") {
        "TOO_LARGE"
    } else {
        GENERIC_ISSUE
    }
}

} // verus!
