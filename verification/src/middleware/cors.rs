//! Cross-Origin Resource Sharing (CORS): which origin a response allows, and
//! the `Access-Control-*` headers of preflight answers and actual responses.

use vstd::prelude::*;
use crate::decimal::{decimal, u64_to_decimal};
use crate::header::{header_text, header_value_ok, spec_header_text, valid_header_text};
use crate::middleware::DuplicatePolicy;
use crate::text::{push_str, str_eq, text_of};

verus! {

/// The wildcard origin token.
pub const WILDCARD: &'static str = "*";

pub const ACCESS_CONTROL_ALLOW_ORIGIN: &'static str = "access-control-allow-origin";
pub const ACCESS_CONTROL_ALLOW_METHODS: &'static str = "access-control-allow-methods";
pub const ACCESS_CONTROL_ALLOW_HEADERS: &'static str = "access-control-allow-headers";
pub const ACCESS_CONTROL_ALLOW_CREDENTIALS: &'static str = "access-control-allow-credentials";
pub const ACCESS_CONTROL_EXPOSE_HEADERS: &'static str = "access-control-expose-headers";
pub const ACCESS_CONTROL_MAX_AGE: &'static str = "access-control-max-age";
pub const VARY: &'static str = "vary";

/// The configuration of a [`Cors`] layer, as text.
pub struct CorsView {
    pub origins: Seq<Seq<char>>,
    pub methods: Option<Seq<char>>,
    pub headers: Option<Seq<char>>,
    pub expose: Option<Seq<char>>,
    pub credentials: bool,
    pub max_age: Option<Seq<char>>,
}

/// Adds CORS headers and answers preflight (`OPTIONS`) requests.
///
/// A preflight request is answered directly with `204 No Content` and the
/// negotiated headers, without running the handler; actual requests get the
/// allowed origin and the exposed headers on the handler's response.
pub struct Cors {
    origins: Vec<String>,
    methods: Option<String>,
    headers: Option<String>,
    expose: Option<String>,
    credentials: bool,
    max_age: Option<String>,
}

impl View for Cors {
    type V = CorsView;

    closed spec fn view(&self) -> CorsView {
        CorsView {
            origins: self.origins@.map_values(|o: String| o@),
            methods: text_of(self.methods),
            headers: text_of(self.headers),
            expose: text_of(self.expose),
            credentials: self.credentials,
            max_age: text_of(self.max_age),
        }
    }
}

/// Items joined with `", "`.
pub open spec fn joined(items: Seq<Seq<char>>) -> Seq<char>
    decreases items.len(),
{
    if items.len() == 0 {
        Seq::empty()
    } else if items.len() == 1 {
        items[0]
    } else {
        joined(items.drop_last()) + ", "@ + items.last()
    }
}

/// The header value listing `items`: `None` when the list is empty text or
/// cannot be a header value.
pub open spec fn spec_join(items: Seq<Seq<char>>) -> Option<Seq<char>> {
    let j = joined(items);
    if j.len() == 0 || !valid_header_text(j) {
        None
    } else {
        Some(j)
    }
}

/// The `Access-Control-Allow-Origin` value for a request whose `Origin` header
/// holds `origin`: the wildcard when any origin is allowed and credentials are
/// not, the origin itself when it is allowed, else nothing.
pub open spec fn spec_allow_origin(v: CorsView, origin: Option<Seq<u8>>) -> Option<Seq<char>> {
    match origin {
        None => None,
        Some(bytes) => match spec_header_text(bytes) {
            None => None,
            Some(o) => {
                let any = v.origins.contains(WILDCARD@);
                if !(any || v.origins.contains(o)) {
                    None
                } else if any && !v.credentials {
                    Some(WILDCARD@)
                } else {
                    Some(o)
                }
            },
        },
    }
}

/// One header when the value is present, none otherwise.
pub open spec fn opt_header(name: Seq<char>, value: Option<Seq<char>>) -> Seq<(Seq<char>, Seq<char>)> {
    match value {
        Some(v) => seq![(name, v)],
        None => Seq::empty(),
    }
}

/// The credentials header when credentials are allowed.
pub open spec fn credentials_header(on: bool) -> Seq<(Seq<char>, Seq<char>)> {
    if on {
        seq![(ACCESS_CONTROL_ALLOW_CREDENTIALS@, "true"@)]
    } else {
        Seq::empty()
    }
}

/// The origin headers: the allowed origin and `Vary: Origin`.
pub open spec fn origin_headers(allow: Option<Seq<char>>) -> Seq<(Seq<char>, Seq<char>)> {
    match allow {
        Some(o) => seq![(ACCESS_CONTROL_ALLOW_ORIGIN@, o), (VARY@, "Origin"@)],
        None => Seq::empty(),
    }
}

/// The headers of the answer to a preflight request.
pub open spec fn preflight_headers(v: CorsView, allow: Option<Seq<char>>) -> Seq<(Seq<char>, Seq<char>)> {
    origin_headers(allow) + opt_header(ACCESS_CONTROL_ALLOW_METHODS@, v.methods) + opt_header(
        ACCESS_CONTROL_ALLOW_HEADERS@,
        v.headers,
    ) + credentials_header(v.credentials) + opt_header(ACCESS_CONTROL_MAX_AGE@, v.max_age)
}

/// The headers added to the response of an actual (non-preflight) request.
pub open spec fn actual_headers(v: CorsView, allow: Option<Seq<char>>) -> Seq<(Seq<char>, Seq<char>)> {
    match allow {
        Some(o) => origin_headers(allow) + opt_header(ACCESS_CONTROL_EXPOSE_HEADERS@, v.expose)
            + credentials_header(v.credentials),
        None => Seq::empty(),
    }
}

/// The text of a header list.
pub open spec fn headers_view(h: Seq<(&'static str, String)>) -> Seq<(Seq<char>, Seq<char>)> {
    h.map_values(|p: (&'static str, String)| (p.0@, p.1@))
}

/// What the layer does with a request.
pub enum CorsPlan {
    /// Answer the preflight request with `204 No Content` and these headers.
    Preflight(Vec<(&'static str, String)>),
    /// Run the handler and add these headers to its response.
    Actual(Vec<(&'static str, String)>),
}

/// Joins items into one comma-separated header value.
pub fn join(items: &[&str]) -> (value: Option<String>)
    ensures
        text_of(value) == spec_join(items@.map_values(|s: &str| s@)),
{
    let ghost views = items@.map_values(|s: &str| s@);
    let mut out = String::new();
    let mut i: usize = 0;
    while i < items.len()
        invariant
            views == items@.map_values(|s: &str| s@),
            i <= items@.len(),
            out@ == joined(views.subrange(0, i as int)),
        decreases items.len() - i,
    {
        if i > 0 {
            push_str(&mut out, ", ");
        }
        push_str(&mut out, items[i]);
        proof {
            let next = views.subrange(0, i + 1);
            assert(next.drop_last() =~= views.subrange(0, i as int));
            if i == 0 {
                assert(out@ =~= joined(next));
            } else {
                assert(out@ =~= joined(next));
            }
        }
        i = i + 1;
    }
    assert(views.subrange(0, items@.len() as int) =~= views);
    if out.as_str().unicode_len() == 0 || !header_value_ok(out.as_str()) {
        None
    } else {
        Some(out)
    }
}

/// Whether `list` holds an entry equal to `s`.
fn list_contains(list: &Vec<String>, s: &str) -> (found: bool)
    ensures
        found == list@.map_values(|o: String| o@).contains(s@),
{
    let ghost views = list@.map_values(|o: String| o@);
    let mut i: usize = 0;
    while i < list.len()
        invariant
            views == list@.map_values(|o: String| o@),
            i <= list@.len(),
            forall|j: int| 0 <= j < i ==> views[j] != s@,
        decreases list.len() - i,
    {
        if str_eq(list[i].as_str(), s) {
            assert(views[i as int] == s@);
            return true;
        }
        i = i + 1;
    }
    proof {
        if views.contains(s@) {
            let j = choose|j: int| 0 <= j < views.len() && views[j] == s@;
            assert(views[j] != s@);
        }
    }
    false
}

impl Cors {
    /// Creates a layer with no origins allowed yet.
    pub fn new() -> (c: Self)
        ensures
            c@ == (CorsView {
                origins: Seq::empty(),
                methods: None,
                headers: None,
                expose: None,
                credentials: false,
                max_age: None,
            }),
    {
        let c = Cors {
            origins: Vec::new(),
            methods: None,
            headers: None,
            expose: None,
            credentials: false,
            max_age: None,
        };
        assert(c@.origins =~= Seq::empty());
        c
    }

    /// Allows an origin (call repeatedly), or `"*"` to allow any origin.
    pub fn allow_origin(self, origin: &str) -> (c: Self)
        ensures
            c@ == (CorsView { origins: self@.origins.push(origin@), ..self@ }),
    {
        let mut s = self;
        let ghost before = s@;
        s.origins.push(origin.to_string());
        assert(s@.origins =~= before.origins.push(origin@));
        s
    }

    /// Sets the methods allowed for cross-origin requests.
    pub fn allow_methods(self, methods: &[&str]) -> (c: Self)
        ensures
            c@ == (CorsView { methods: spec_join(methods@.map_values(|s: &str| s@)), ..self@ }),
    {
        let value = join(methods);
        let c = Cors { methods: value, ..self };
        assert(c@.origins =~= self@.origins);
        c
    }

    /// Sets the request headers allowed for cross-origin requests.
    pub fn allow_headers(self, headers: &[&str]) -> (c: Self)
        ensures
            c@ == (CorsView { headers: spec_join(headers@.map_values(|s: &str| s@)), ..self@ }),
    {
        let value = join(headers);
        let c = Cors { headers: value, ..self };
        assert(c@.origins =~= self@.origins);
        c
    }

    /// Sets the response headers exposed to the client.
    pub fn expose_headers(self, headers: &[&str]) -> (c: Self)
        ensures
            c@ == (CorsView { expose: spec_join(headers@.map_values(|s: &str| s@)), ..self@ }),
    {
        let value = join(headers);
        let c = Cors { expose: value, ..self };
        assert(c@.origins =~= self@.origins);
        c
    }

    /// Allows credentials (cookies, authorization headers) on cross-origin requests.
    pub fn allow_credentials(self, allow: bool) -> (c: Self)
        ensures
            c@ == (CorsView { credentials: allow, ..self@ }),
    {
        let c = Cors { credentials: allow, ..self };
        assert(c@.origins =~= self@.origins);
        c
    }

    /// Sets how long (in seconds) a preflight result may be cached.
    pub fn max_age(self, seconds: u64) -> (c: Self)
        ensures
            c@ == (CorsView { max_age: Some(decimal(seconds as nat)), ..self@ }),
    {
        let value = u64_to_decimal(seconds);
        let c = Cors { max_age: Some(value), ..self };
        assert(c@.origins =~= self@.origins);
        c
    }

    /// The `Access-Control-Allow-Origin` value for a request whose `Origin`
    /// header holds `origin` (raw bytes), if any.
    pub fn allow_origin_value(&self, origin: Option<&[u8]>) -> (value: Option<String>)
        ensures
            text_of(value) == spec_allow_origin(self@, match origin {
                Some(b) => Some(b@),
                None => None,
            }),
    {
        let bytes = match origin {
            Some(b) => b,
            None => return None,
        };
        let text = match header_text(bytes) {
            Some(t) => t,
            None => return None,
        };
        let any = list_contains(&self.origins, WILDCARD);
        let allowed = any || list_contains(&self.origins, text.as_str());
        if !allowed {
            return None;
        }
        if any && !self.credentials {
            Some(WILDCARD.to_string())
        } else {
            Some(text)
        }
    }

    /// Decides how to handle a request: a preflight (`OPTIONS` with an
    /// `Access-Control-Request-Method` header) is answered here, anything else
    /// runs the handler and gets the CORS headers added.
    pub fn plan(&self, origin: Option<&[u8]>, is_options: bool, has_request_method: bool) -> (plan: CorsPlan)
        ensures
            ({
                let allow = spec_allow_origin(self@, match origin {
                    Some(b) => Some(b@),
                    None => None,
                });
                if is_options && has_request_method {
                    plan matches CorsPlan::Preflight(h) && headers_view(h@) == preflight_headers(self@, allow)
                } else {
                    plan matches CorsPlan::Actual(h) && headers_view(h@) == actual_headers(self@, allow)
                }
            }),
    {
        let allow = self.allow_origin_value(origin);
        let ghost allow_v = text_of(allow);
        let mut headers: Vec<(&'static str, String)> = Vec::new();
        let preflight = is_options && has_request_method;
        if !preflight && allow.is_none() {
            assert(headers_view(headers@) =~= actual_headers(self@, allow_v));
            return CorsPlan::Actual(headers);
        }
        if let Some(o) = allow {
            headers.push((ACCESS_CONTROL_ALLOW_ORIGIN, o));
            headers.push((VARY, "Origin".to_string()));
        }
        assert(headers_view(headers@) =~= origin_headers(allow_v));
        if preflight {
            let ghost h0 = headers_view(headers@);
            if let Some(m) = &self.methods {
                headers.push((ACCESS_CONTROL_ALLOW_METHODS, m.clone()));
            }
            assert(headers_view(headers@) =~= h0 + opt_header(ACCESS_CONTROL_ALLOW_METHODS@, self@.methods));
            let ghost h1 = headers_view(headers@);
            if let Some(h) = &self.headers {
                headers.push((ACCESS_CONTROL_ALLOW_HEADERS, h.clone()));
            }
            assert(headers_view(headers@) =~= h1 + opt_header(ACCESS_CONTROL_ALLOW_HEADERS@, self@.headers));
            let ghost h2 = headers_view(headers@);
            if self.credentials {
                headers.push((ACCESS_CONTROL_ALLOW_CREDENTIALS, "true".to_string()));
            }
            assert(headers_view(headers@) =~= h2 + credentials_header(self@.credentials));
            let ghost h3 = headers_view(headers@);
            if let Some(a) = &self.max_age {
                headers.push((ACCESS_CONTROL_MAX_AGE, a.clone()));
            }
            assert(headers_view(headers@) =~= h3 + opt_header(ACCESS_CONTROL_MAX_AGE@, self@.max_age));
            assert(headers_view(headers@) =~= preflight_headers(self@, allow_v));
            CorsPlan::Preflight(headers)
        } else {
            let ghost h0 = headers_view(headers@);
            if let Some(e) = &self.expose {
                headers.push((ACCESS_CONTROL_EXPOSE_HEADERS, e.clone()));
            }
            assert(headers_view(headers@) =~= h0 + opt_header(ACCESS_CONTROL_EXPOSE_HEADERS@, self@.expose));
            let ghost h1 = headers_view(headers@);
            if self.credentials {
                headers.push((ACCESS_CONTROL_ALLOW_CREDENTIALS, "true".to_string()));
            }
            assert(headers_view(headers@) =~= h1 + credentials_header(self@.credentials));
            assert(headers_view(headers@) =~= actual_headers(self@, allow_v));
            CorsPlan::Actual(headers)
        }
    }

    /// The layer's stable name.
    pub fn name(&self) -> (name: &'static str)
        ensures
            name@ == "Cors"@,
    {
        "Cors"
    }

    /// A second CORS layer is a configuration error.
    pub fn duplicate_policy(&self) -> (policy: DuplicatePolicy)
        ensures
            policy == DuplicatePolicy::Reject,
    {
        DuplicatePolicy::Reject
    }
}

/// With credentials allowed, a response never allows every origin: the
/// allowed origin, when there is one, is the request's own.
pub proof fn law_credentials_echo_the_origin(v: CorsView, origin: Option<Seq<u8>>)
    requires
        v.credentials,
    ensures
        match spec_allow_origin(v, origin) {
            Some(allowed) => origin matches Some(b) && spec_header_text(b) == Some(allowed),
            None => true,
        },
{
}

/// Without the wildcard on the list, only listed origins are ever allowed.
pub proof fn law_unlisted_origins_are_refused(v: CorsView, origin: Option<Seq<u8>>)
    requires
        !v.origins.contains(WILDCARD@),
    ensures
        match spec_allow_origin(v, origin) {
            Some(allowed) => v.origins.contains(allowed),
            None => true,
        },
{
}


/// A response to a credentialed request says so: when credentials are allowed
/// and the request's origin is allowed (listed, or any origin allowed), an
/// actual response names that origin, varies on `Origin` and carries
/// `Access-Control-Allow-Credentials: true`; a preflight answer carries that
/// header exactly when credentials are allowed, and an actual response exactly
/// when credentials are allowed and some origin is.
pub proof fn law_credentialed_responses_say_so(v: CorsView, origin: Option<Seq<u8>>)
    ensures
        ({
            let allow = spec_allow_origin(v, origin);
            let cred = (ACCESS_CONTROL_ALLOW_CREDENTIALS@, "true"@);
            &&& actual_headers(v, allow).contains(cred) == (v.credentials && allow is Some)
            &&& preflight_headers(v, allow).contains(cred) == v.credentials
        }),
        match origin {
            Some(b) => match spec_header_text(b) {
                Some(o) => (v.credentials && (v.origins.contains(o) || v.origins.contains(WILDCARD@))) ==> {
                    let h = actual_headers(v, spec_allow_origin(v, origin));
                    &&& h.contains((ACCESS_CONTROL_ALLOW_ORIGIN@, o))
                    &&& h.contains((VARY@, "Origin"@))
                    &&& h.contains((ACCESS_CONTROL_ALLOW_CREDENTIALS@, "true"@))
                },
                None => true,
            },
            None => true,
        },
{
    reveal_strlit("access-control-allow-credentials");
    reveal_strlit("access-control-allow-origin");
    reveal_strlit("access-control-allow-methods");
    reveal_strlit("access-control-allow-headers");
    reveal_strlit("access-control-expose-headers");
    reveal_strlit("access-control-max-age");
    reveal_strlit("vary");
    let allow = spec_allow_origin(v, origin);
    let cred = (ACCESS_CONTROL_ALLOW_CREDENTIALS@, "true"@);
    let oh = origin_headers(allow);
    let eh = opt_header(ACCESS_CONTROL_EXPOSE_HEADERS@, v.expose);
    let ch = credentials_header(v.credentials);
    let mh = opt_header(ACCESS_CONTROL_ALLOW_METHODS@, v.methods);
    let hh = opt_header(ACCESS_CONTROL_ALLOW_HEADERS@, v.headers);
    let ah = opt_header(ACCESS_CONTROL_MAX_AGE@, v.max_age);
    // No header but the credentials one carries its name.
    assert forall|k: int| 0 <= k < oh.len() implies (#[trigger] oh[k]).0 != cred.0 by {
        if k == 0 {
            assert(oh[k].0.len() != cred.0.len());
        } else {
            assert(oh[k].0.len() != cred.0.len());
        }
    }
    assert forall|k: int| 0 <= k < eh.len() implies (#[trigger] eh[k]).0 != cred.0 by {
        assert(eh[k].0.len() != cred.0.len());
    }
    assert forall|k: int| 0 <= k < mh.len() implies (#[trigger] mh[k]).0 != cred.0 by {
        assert(mh[k].0.len() != cred.0.len());
    }
    assert forall|k: int| 0 <= k < hh.len() implies (#[trigger] hh[k]).0 != cred.0 by {
        assert(hh[k].0.len() != cred.0.len());
    }
    assert forall|k: int| 0 <= k < ah.len() implies (#[trigger] ah[k]).0 != cred.0 by {
        assert(ah[k].0.len() != cred.0.len());
    }
    // Actual responses.
    match allow {
        Some(o) => {
            let h = oh + eh + ch;
            assert(actual_headers(v, allow) == h);
            if v.credentials {
                assert(h[(oh.len() + eh.len()) as int] == cred);
            } else {
                assert forall|k: int| 0 <= k < h.len() implies h[k] != cred by {
                    if k < oh.len() {
                        assert(h[k] == oh[k]);
                    } else {
                        assert(h[k] == eh[k - oh.len()]);
                    }
                }
            }
            assert(h[0] == (ACCESS_CONTROL_ALLOW_ORIGIN@, o));
            assert(h[1] == (VARY@, "Origin"@));
        },
        None => {
            assert(actual_headers(v, allow) =~= Seq::<(Seq<char>, Seq<char>)>::empty());
        },
    }
    // Preflight answers.
    let p = oh + mh + hh + ch + ah;
    assert(preflight_headers(v, allow) == p);
    if v.credentials {
        assert(p[(oh.len() + mh.len() + hh.len()) as int] == cred);
    } else {
        assert forall|k: int| 0 <= k < p.len() implies p[k] != cred by {
            if k < oh.len() {
                assert(p[k] == oh[k]);
            } else if k < oh.len() + mh.len() {
                assert(p[k] == mh[k - oh.len()]);
            } else if k < oh.len() + mh.len() + hh.len() {
                assert(p[k] == hh[k - oh.len() - mh.len()]);
            } else {
                assert(p[k] == ah[k - oh.len() - mh.len() - hh.len()]);
            }
        }
    }
}

} // verus!
