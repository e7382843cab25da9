//! HTTPS enforcement: plain-HTTP requests are redirected to the same host and
//! path over HTTPS with `308 Permanent Redirect`.

use vstd::prelude::*;
use crate::extract::RequestScheme;
use crate::header::{header_text, header_value_ok, spec_header_text, valid_header_text};
use crate::middleware::DuplicatePolicy;
use crate::text::{push_str, str_eq};

verus! {

/// The status of the redirect answer.
pub const PERMANENT_REDIRECT: u16 = 308;

/// Whether a request arrived over HTTPS: the scheme a trusted proxy reported
/// takes priority; without one, the request URI's own scheme decides.
pub open spec fn spec_is_https(proxy_scheme: Option<RequestScheme>, uri_scheme: Option<Seq<char>>) -> bool {
    match proxy_scheme {
        Some(s) => s == RequestScheme::Https,
        None => uri_scheme == Some("https"@),
    }
}

/// The redirect target: `https://`, the `Host` header's text (empty when it is
/// missing or unreadable), then the path and query (`/` when absent).
pub open spec fn spec_location(host: Option<Seq<u8>>, path_and_query: Option<Seq<char>>) -> Seq<char> {
    let h = match host {
        Some(b) => match spec_header_text(b) {
            Some(t) => t,
            None => Seq::empty(),
        },
        None => Seq::empty(),
    };
    let p = match path_and_query {
        Some(p) => p,
        None => "/"@,
    };
    "https://"@ + h + p
}

/// What the layer does with a request.
pub enum RedirectPlan {
    /// The request is already secure: run the handler.
    Forward,
    /// Answer `308 Permanent Redirect`, with this `Location` when it is a valid
    /// header value.
    Redirect(Option<String>),
}

/// Redirects plain-HTTP requests to HTTPS.
pub struct HttpsRedirect;

/// Whether a request arrived over HTTPS.
pub fn is_https(proxy_scheme: Option<RequestScheme>, uri_scheme: Option<&str>) -> (https: bool)
    ensures
        https == spec_is_https(proxy_scheme, match uri_scheme {
            Some(s) => Some(s@),
            None => None,
        }),
{
    match proxy_scheme {
        Some(s) => s == RequestScheme::Https,
        None => match uri_scheme {
            Some(s) => str_eq(s, "https"),
            None => false,
        },
    }
}

impl HttpsRedirect {
    /// Creates the layer.
    pub fn new() -> (r: Self) {
        HttpsRedirect
    }

    /// The redirect target for a request.
    pub fn location(host: Option<&[u8]>, path_and_query: Option<&str>) -> (location: String)
        ensures
            location@ == spec_location(match host {
                Some(b) => Some(b@),
                None => None,
            }, match path_and_query {
                Some(p) => Some(p@),
                None => None,
            }),
    {
        let mut out = "https://".to_string();
        match host {
            Some(bytes) => match header_text(bytes) {
                Some(t) => push_str(&mut out, t.as_str()),
                None => {},
            },
            None => {},
        }
        match path_and_query {
            Some(p) => push_str(&mut out, p),
            None => push_str(&mut out, "/"),
        }
        out
    }

    /// Decides how to handle a request.
    pub fn plan(
        &self,
        proxy_scheme: Option<RequestScheme>,
        uri_scheme: Option<&str>,
        host: Option<&[u8]>,
        path_and_query: Option<&str>,
    ) -> (plan: RedirectPlan)
        ensures
            ({
                let https = spec_is_https(proxy_scheme, match uri_scheme {
                    Some(s) => Some(s@),
                    None => None,
                });
                let loc = spec_location(match host {
                    Some(b) => Some(b@),
                    None => None,
                }, match path_and_query {
                    Some(p) => Some(p@),
                    None => None,
                });
                if https {
                    plan is Forward
                } else {
                    plan matches RedirectPlan::Redirect(l) && match l {
                        Some(v) => v@ == loc && valid_header_text(loc),
                        None => !valid_header_text(loc),
                    }
                }
            }),
    {
        if is_https(proxy_scheme, uri_scheme) {
            return RedirectPlan::Forward;
        }
        let location = Self::location(host, path_and_query);
        if header_value_ok(location.as_str()) {
            RedirectPlan::Redirect(Some(location))
        } else {
            RedirectPlan::Redirect(None)
        }
    }

    /// The layer's stable name.
    pub fn name(&self) -> (name: &'static str)
        ensures
            name@ == "HttpsRedirect"@,
    {
        "HttpsRedirect"
    }

    /// A second redirect layer is a configuration error.
    pub fn duplicate_policy(&self) -> (policy: DuplicatePolicy)
        ensures
            policy == DuplicatePolicy::Reject,
    {
        DuplicatePolicy::Reject
    }
}

} // verus!
