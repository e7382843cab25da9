//! Request-lifecycle observability events: the request metadata (and, where
//! relevant, the status, elapsed time, error or panic message) that hooks
//! observe. The events own a snapshot of their data; none exposes a body.

use vstd::prelude::*;
use crate::duration::Duration;
use crate::error::ErrorDetail;
use crate::text::text_of;

verus! {

/// The request metadata every event carries.
pub struct RequestInfo {
    method: String,
    path: String,
    route: Option<String>,
    request_id: Option<String>,
}

impl RequestInfo {
    /// The method.
    pub closed spec fn spec_method(&self) -> Seq<char> {
        self.method@
    }

    /// The request path.
    pub closed spec fn spec_path(&self) -> Seq<char> {
        self.path@
    }

    /// The matched route pattern.
    pub closed spec fn spec_route(&self) -> Option<Seq<char>> {
        text_of(self.route)
    }

    /// The request id.
    pub closed spec fn spec_request_id(&self) -> Option<Seq<char>> {
        text_of(self.request_id)
    }

    /// Metadata of a request.
    pub fn new(method: String, path: String, route: Option<String>, request_id: Option<String>) -> (i: Self)
        ensures
            i.spec_method() == method@,
            i.spec_path() == path@,
            i.spec_route() == text_of(route),
            i.spec_request_id() == text_of(request_id),
    {
        RequestInfo { method, path, route, request_id }
    }

    /// A copy of the metadata.
    pub fn duplicate(&self) -> (i: Self)
        ensures
            i.spec_method() == self.spec_method(),
            i.spec_path() == self.spec_path(),
            i.spec_route() == self.spec_route(),
            i.spec_request_id() == self.spec_request_id(),
    {
        RequestInfo {
            method: self.method.clone(),
            path: self.path.clone(),
            route: match &self.route {
                Some(r) => Some(r.clone()),
                None => None,
            },
            request_id: match &self.request_id {
                Some(r) => Some(r.clone()),
                None => None,
            },
        }
    }
}

/// An event observed when a request arrives.
pub struct RequestEvent {
    info: RequestInfo,
}

impl RequestEvent {
    /// The request metadata.
    pub closed spec fn spec_info(&self) -> RequestInfo {
        self.info
    }

    /// The event for a request.
    pub fn new(info: RequestInfo) -> (e: Self)
        ensures
            e.spec_info() == info,
    {
        RequestEvent { info }
    }

    /// The method.
    pub fn method(&self) -> (m: &str)
        ensures
            m@ == self.spec_info().spec_method(),
    {
        self.info.method.as_str()
    }

    /// The request path.
    pub fn path(&self) -> (p: &str)
        ensures
            p@ == self.spec_info().spec_path(),
    {
        self.info.path.as_str()
    }

    /// The matched route pattern, if a route matched.
    pub fn route(&self) -> (r: Option<&str>)
        ensures
            match r {
                Some(s) => self.spec_info().spec_route() == Some(s@),
                None => self.spec_info().spec_route() is None,
            },
    {
        match &self.info.route {
            Some(s) => Some(s.as_str()),
            None => None,
        }
    }

    /// The request id, if one was assigned.
    pub fn request_id(&self) -> (r: Option<&str>)
        ensures
            match r {
                Some(s) => self.spec_info().spec_request_id() == Some(s@),
                None => self.spec_info().spec_request_id() is None,
            },
    {
        match &self.info.request_id {
            Some(s) => Some(s.as_str()),
            None => None,
        }
    }
}

/// An event observed when a response is sent.
pub struct ResponseEvent {
    info: RequestInfo,
    status: u16,
    elapsed: Duration,
}

impl ResponseEvent {
    /// The request metadata.
    pub closed spec fn spec_info(&self) -> RequestInfo {
        self.info
    }

    /// The response status.
    pub closed spec fn spec_status(&self) -> u16 {
        self.status
    }

    /// How long the request took.
    pub closed spec fn spec_elapsed(&self) -> Duration {
        self.elapsed
    }

    /// The event for a request.
    pub fn new(info: RequestInfo, status: u16, elapsed: Duration) -> (e: Self)
        ensures
            e.spec_info() == info,
            e.spec_status() == status,
            e.spec_elapsed() == elapsed,
    {
        ResponseEvent { info, status, elapsed }
    }

    /// The method.
    pub fn method(&self) -> (m: &str)
        ensures
            m@ == self.spec_info().spec_method(),
    {
        self.info.method.as_str()
    }

    /// The request path.
    pub fn path(&self) -> (p: &str)
        ensures
            p@ == self.spec_info().spec_path(),
    {
        self.info.path.as_str()
    }

    /// The matched route pattern, if a route matched.
    pub fn route(&self) -> (r: Option<&str>)
        ensures
            match r {
                Some(s) => self.spec_info().spec_route() == Some(s@),
                None => self.spec_info().spec_route() is None,
            },
    {
        match &self.info.route {
            Some(s) => Some(s.as_str()),
            None => None,
        }
    }

    /// The request id, if one was assigned.
    pub fn request_id(&self) -> (r: Option<&str>)
        ensures
            match r {
                Some(s) => self.spec_info().spec_request_id() == Some(s@),
                None => self.spec_info().spec_request_id() is None,
            },
    {
        match &self.info.request_id {
            Some(s) => Some(s.as_str()),
            None => None,
        }
    }

    /// The response status.
    pub fn status(&self) -> (v: u16)
        ensures
            v == self.spec_status(),
    {
        self.status
    }

    /// How long the request took.
    pub fn elapsed(&self) -> (v: Duration)
        ensures
            v == self.spec_elapsed(),
    {
        self.elapsed
    }
}

/// An event observed when a request fails.
pub struct ErrorEvent {
    info: RequestInfo,
    status: u16,
    code: &'static str,
    message: String,
}

impl ErrorEvent {
    /// The request metadata.
    pub closed spec fn spec_info(&self) -> RequestInfo {
        self.info
    }

    /// The status the error renders to.
    pub closed spec fn spec_status(&self) -> u16 {
        self.status
    }

    /// The machine-readable code.
    pub closed spec fn spec_code(&self) -> Seq<char> {
        self.code@
    }

    /// The error message.
    pub closed spec fn spec_message(&self) -> Seq<char> {
        self.message@
    }

    /// The event for a request.
    pub fn new(info: RequestInfo, status: u16, code: &'static str, message: String) -> (e: Self)
        ensures
            e.spec_info() == info,
            e.spec_status() == status,
            e.spec_code() == code@,
            e.spec_message() == message@,
    {
        ErrorEvent { info, status, code, message }
    }

    /// The method.
    pub fn method(&self) -> (m: &str)
        ensures
            m@ == self.spec_info().spec_method(),
    {
        self.info.method.as_str()
    }

    /// The request path.
    pub fn path(&self) -> (p: &str)
        ensures
            p@ == self.spec_info().spec_path(),
    {
        self.info.path.as_str()
    }

    /// The matched route pattern, if a route matched.
    pub fn route(&self) -> (r: Option<&str>)
        ensures
            match r {
                Some(s) => self.spec_info().spec_route() == Some(s@),
                None => self.spec_info().spec_route() is None,
            },
    {
        match &self.info.route {
            Some(s) => Some(s.as_str()),
            None => None,
        }
    }

    /// The request id, if one was assigned.
    pub fn request_id(&self) -> (r: Option<&str>)
        ensures
            match r {
                Some(s) => self.spec_info().spec_request_id() == Some(s@),
                None => self.spec_info().spec_request_id() is None,
            },
    {
        match &self.info.request_id {
            Some(s) => Some(s.as_str()),
            None => None,
        }
    }

    /// The status the error renders to.
    pub fn status(&self) -> (v: u16)
        ensures
            v == self.spec_status(),
    {
        self.status
    }

    /// The machine-readable code.
    pub fn code(&self) -> (v: &str)
        ensures
            v@ == self.spec_code(),
    {
        self.code
    }

    /// The error message.
    pub fn message(&self) -> (v: &str)
        ensures
            v@ == self.spec_message(),
    {
        self.message.as_str()
    }
}

/// An event observed when request validation fails.
pub struct ValidationErrorEvent {
    info: RequestInfo,
    details: Vec<ErrorDetail>,
}

impl ValidationErrorEvent {
    /// The request metadata.
    pub closed spec fn spec_info(&self) -> RequestInfo {
        self.info
    }

    /// The field-level details.
    pub closed spec fn spec_details(&self) -> Seq<ErrorDetail> {
        self.details@
    }

    /// The event for a request.
    pub fn new(info: RequestInfo, details: Vec<ErrorDetail>) -> (e: Self)
        ensures
            e.spec_info() == info,
            e.spec_details() == details@,
    {
        ValidationErrorEvent { info, details }
    }

    /// The method.
    pub fn method(&self) -> (m: &str)
        ensures
            m@ == self.spec_info().spec_method(),
    {
        self.info.method.as_str()
    }

    /// The request path.
    pub fn path(&self) -> (p: &str)
        ensures
            p@ == self.spec_info().spec_path(),
    {
        self.info.path.as_str()
    }

    /// The matched route pattern, if a route matched.
    pub fn route(&self) -> (r: Option<&str>)
        ensures
            match r {
                Some(s) => self.spec_info().spec_route() == Some(s@),
                None => self.spec_info().spec_route() is None,
            },
    {
        match &self.info.route {
            Some(s) => Some(s.as_str()),
            None => None,
        }
    }

    /// The request id, if one was assigned.
    pub fn request_id(&self) -> (r: Option<&str>)
        ensures
            match r {
                Some(s) => self.spec_info().spec_request_id() == Some(s@),
                None => self.spec_info().spec_request_id() is None,
            },
    {
        match &self.info.request_id {
            Some(s) => Some(s.as_str()),
            None => None,
        }
    }

    /// The field-level details.
    pub fn details(&self) -> (v: &[ErrorDetail])
        ensures
            v@ == self.spec_details(),
    {
        self.details.as_slice()
    }
}

/// An event observed when a handler panics.
pub struct PanicEvent {
    info: RequestInfo,
    message: String,
}

impl PanicEvent {
    /// The request metadata.
    pub closed spec fn spec_info(&self) -> RequestInfo {
        self.info
    }

    /// The panic message.
    pub closed spec fn spec_message(&self) -> Seq<char> {
        self.message@
    }

    /// The event for a request.
    pub fn new(info: RequestInfo, message: String) -> (e: Self)
        ensures
            e.spec_info() == info,
            e.spec_message() == message@,
    {
        PanicEvent { info, message }
    }

    /// The method.
    pub fn method(&self) -> (m: &str)
        ensures
            m@ == self.spec_info().spec_method(),
    {
        self.info.method.as_str()
    }

    /// The request path.
    pub fn path(&self) -> (p: &str)
        ensures
            p@ == self.spec_info().spec_path(),
    {
        self.info.path.as_str()
    }

    /// The matched route pattern, if a route matched.
    pub fn route(&self) -> (r: Option<&str>)
        ensures
            match r {
                Some(s) => self.spec_info().spec_route() == Some(s@),
                None => self.spec_info().spec_route() is None,
            },
    {
        match &self.info.route {
            Some(s) => Some(s.as_str()),
            None => None,
        }
    }

    /// The request id, if one was assigned.
    pub fn request_id(&self) -> (r: Option<&str>)
        ensures
            match r {
                Some(s) => self.spec_info().spec_request_id() == Some(s@),
                None => self.spec_info().spec_request_id() is None,
            },
    {
        match &self.info.request_id {
            Some(s) => Some(s.as_str()),
            None => None,
        }
    }

    /// The panic message.
    pub fn message(&self) -> (v: &str)
        ensures
            v@ == self.spec_message(),
    {
        self.message.as_str()
    }
}

/// An event the request an error handler answers.
pub struct ErrorContext {
    info: RequestInfo,
}

impl ErrorContext {
    /// The request metadata.
    pub closed spec fn spec_info(&self) -> RequestInfo {
        self.info
    }

    /// The event for a request.
    pub fn new(info: RequestInfo) -> (e: Self)
        ensures
            e.spec_info() == info,
    {
        ErrorContext { info }
    }

    /// The method.
    pub fn method(&self) -> (m: &str)
        ensures
            m@ == self.spec_info().spec_method(),
    {
        self.info.method.as_str()
    }

    /// The request path.
    pub fn path(&self) -> (p: &str)
        ensures
            p@ == self.spec_info().spec_path(),
    {
        self.info.path.as_str()
    }

    /// The matched route pattern, if a route matched.
    pub fn route(&self) -> (r: Option<&str>)
        ensures
            match r {
                Some(s) => self.spec_info().spec_route() == Some(s@),
                None => self.spec_info().spec_route() is None,
            },
    {
        match &self.info.route {
            Some(s) => Some(s.as_str()),
            None => None,
        }
    }

    /// The request id, if one was assigned.
    pub fn request_id(&self) -> (r: Option<&str>)
        ensures
            match r {
                Some(s) => self.spec_info().spec_request_id() == Some(s@),
                None => self.spec_info().spec_request_id() is None,
            },
    {
        match &self.info.request_id {
            Some(s) => Some(s.as_str()),
            None => None,
        }
    }
}

} // verus!
