//! Baseline security headers (HSTS, `X-Content-Type-Options`,
//! `X-Frame-Options`, `Referrer-Policy`, and optionally a
//! `Content-Security-Policy`), added to responses that do not set them.

use vstd::prelude::*;
use crate::decimal::{decimal, u64_to_decimal};
use crate::middleware::DuplicatePolicy;
use crate::text::{push_str, str_eq, text_of};

verus! {

/// The default `Strict-Transport-Security` value.
pub const DEFAULT_HSTS: &'static str = "max-age=31536000; includeSubDomains";

pub const STRICT_TRANSPORT_SECURITY: &'static str = "strict-transport-security";
pub const X_CONTENT_TYPE_OPTIONS: &'static str = "x-content-type-options";
pub const X_FRAME_OPTIONS: &'static str = "x-frame-options";
pub const REFERRER_POLICY: &'static str = "referrer-policy";
pub const CONTENT_SECURITY_POLICY: &'static str = "content-security-policy";

/// Text a static header value may hold: visible ASCII and tabs.
pub open spec fn static_header_text(s: Seq<char>) -> bool {
    forall|i: int| 0 <= i < s.len() ==> ((' ' <= #[trigger] s[i] && s[i] <= '~') || s[i] == '\t')
}

/// The configured values, as text.
pub struct SecurityHeadersView {
    pub hsts: Option<Seq<char>>,
    pub content_type_options: Option<Seq<char>>,
    pub frame_options: Option<Seq<char>>,
    pub referrer_policy: Option<Seq<char>>,
    pub content_security_policy: Option<Seq<char>>,
}

/// Adds baseline security headers to every response that lacks them.
pub struct SecurityHeaders {
    hsts: Option<String>,
    content_type_options: Option<String>,
    frame_options: Option<String>,
    referrer_policy: Option<String>,
    content_security_policy: Option<String>,
}

impl View for SecurityHeaders {
    type V = SecurityHeadersView;

    closed spec fn view(&self) -> SecurityHeadersView {
        SecurityHeadersView {
            hsts: text_of(self.hsts),
            content_type_options: text_of(self.content_type_options),
            frame_options: text_of(self.frame_options),
            referrer_policy: text_of(self.referrer_policy),
            content_security_policy: text_of(self.content_security_policy),
        }
    }
}

/// The HSTS value for a max age: `max-age=N`, with `; includeSubDomains` when asked.
pub open spec fn hsts_value(seconds: u64, include_subdomains: bool) -> Seq<char> {
    "max-age="@ + decimal(seconds as nat) + (if include_subdomains {
        "; includeSubDomains"@
    } else {
        Seq::empty()
    })
}

/// The headers, in order, with their configured values.
pub open spec fn configured(v: SecurityHeadersView) -> Seq<(Seq<char>, Option<Seq<char>>)> {
    seq![
        (STRICT_TRANSPORT_SECURITY@, v.hsts),
        (X_CONTENT_TYPE_OPTIONS@, v.content_type_options),
        (X_FRAME_OPTIONS@, v.frame_options),
        (REFERRER_POLICY@, v.referrer_policy),
        (CONTENT_SECURITY_POLICY@, v.content_security_policy),
    ]
}

/// The headers to add to a response that already carries the headers named
/// in `present`: each configured header it lacks, in order.
pub open spec fn spec_missing(
    items: Seq<(Seq<char>, Option<Seq<char>>)>,
    present: Seq<Seq<char>>,
) -> Seq<(Seq<char>, Seq<char>)>
    decreases items.len(),
{
    if items.len() == 0 {
        Seq::empty()
    } else {
        let rest = spec_missing(items.drop_last(), present);
        let (name, value) = items.last();
        match value {
            Some(v) => if present.contains(name) {
                rest
            } else {
                rest.push((name, v))
            },
            None => rest,
        }
    }
}

/// Whether `present` holds `name`.
fn present_contains(present: &[&str], name: &str) -> (found: bool)
    ensures
        found == present@.map_values(|s: &str| s@).contains(name@),
{
    let ghost views = present@.map_values(|s: &str| s@);
    let mut i: usize = 0;
    while i < present.len()
        invariant
            views == present@.map_values(|s: &str| s@),
            i <= present@.len(),
            forall|j: int| 0 <= j < i ==> views[j] != name@,
        decreases present.len() - i,
    {
        if str_eq(present[i], name) {
            assert(views[i as int] == name@);
            return true;
        }
        i = i + 1;
    }
    proof {
        if views.contains(name@) {
            let j = choose|j: int| 0 <= j < views.len() && views[j] == name@;
            assert(views[j] != name@);
        }
    }
    false
}

impl SecurityHeaders {
    /// The baseline: HSTS for a year including subdomains, `nosniff`, `DENY`,
    /// `no-referrer`, and no content security policy.
    pub fn new() -> (h: Self)
        ensures
            h@ == (SecurityHeadersView {
                hsts: Some(DEFAULT_HSTS@),
                content_type_options: Some("nosniff"@),
                frame_options: Some("DENY"@),
                referrer_policy: Some("no-referrer"@),
                content_security_policy: None,
            }),
    {
        SecurityHeaders {
            hsts: Some(DEFAULT_HSTS.to_string()),
            content_type_options: Some("nosniff".to_string()),
            frame_options: Some("DENY".to_string()),
            referrer_policy: Some("no-referrer".to_string()),
            content_security_policy: None,
        }
    }

    /// Sets the HSTS value.
    pub fn hsts(self, value: &'static str) -> (h: Self)
        requires
            static_header_text(value@),
        ensures
            h@ == (SecurityHeadersView { hsts: Some(value@), ..self@ }),
    {
        SecurityHeaders { hsts: Some(value.to_string()), ..self }
    }

    /// Sets the HSTS max age, optionally covering subdomains.
    pub fn hsts_max_age(self, seconds: u64, include_subdomains: bool) -> (h: Self)
        ensures
            h@ == (SecurityHeadersView { hsts: Some(hsts_value(seconds, include_subdomains)), ..self@ }),
    {
        let mut value = "max-age=".to_string();
        let digits = u64_to_decimal(seconds);
        push_str(&mut value, digits.as_str());
        if include_subdomains {
            push_str(&mut value, "; includeSubDomains");
        }
        SecurityHeaders { hsts: Some(value), ..self }
    }

    /// Drops the HSTS header.
    pub fn without_hsts(self) -> (h: Self)
        ensures
            h@ == (SecurityHeadersView { hsts: None, ..self@ }),
    {
        SecurityHeaders { hsts: None, ..self }
    }

    /// Sets the `X-Frame-Options` value.
    pub fn frame_options(self, value: &'static str) -> (h: Self)
        requires
            static_header_text(value@),
        ensures
            h@ == (SecurityHeadersView { frame_options: Some(value@), ..self@ }),
    {
        SecurityHeaders { frame_options: Some(value.to_string()), ..self }
    }

    /// Drops the `X-Frame-Options` header.
    pub fn without_frame_options(self) -> (h: Self)
        ensures
            h@ == (SecurityHeadersView { frame_options: None, ..self@ }),
    {
        SecurityHeaders { frame_options: None, ..self }
    }

    /// Sets the `Referrer-Policy` value.
    pub fn referrer_policy(self, value: &'static str) -> (h: Self)
        requires
            static_header_text(value@),
        ensures
            h@ == (SecurityHeadersView { referrer_policy: Some(value@), ..self@ }),
    {
        SecurityHeaders { referrer_policy: Some(value.to_string()), ..self }
    }

    /// Drops the `Referrer-Policy` header.
    pub fn without_referrer_policy(self) -> (h: Self)
        ensures
            h@ == (SecurityHeadersView { referrer_policy: None, ..self@ }),
    {
        SecurityHeaders { referrer_policy: None, ..self }
    }

    /// Drops the `X-Content-Type-Options` header.
    pub fn without_content_type_options(self) -> (h: Self)
        ensures
            h@ == (SecurityHeadersView { content_type_options: None, ..self@ }),
    {
        SecurityHeaders { content_type_options: None, ..self }
    }

    /// Sets a `Content-Security-Policy` value.
    pub fn content_security_policy(self, value: &'static str) -> (h: Self)
        requires
            static_header_text(value@),
        ensures
            h@ == (SecurityHeadersView { content_security_policy: Some(value@), ..self@ }),
    {
        SecurityHeaders { content_security_policy: Some(value.to_string()), ..self }
    }

    /// The configured value of each header, in order.
    pub fn configured(&self) -> (items: Vec<(&'static str, Option<String>)>)
        ensures
            items@.map_values(|p: (&'static str, Option<String>)| (p.0@, text_of(p.1))) == configured(self@),
    {
        let mut items: Vec<(&'static str, Option<String>)> = Vec::new();
        items.push((STRICT_TRANSPORT_SECURITY, self.hsts.clone()));
        items.push((X_CONTENT_TYPE_OPTIONS, self.content_type_options.clone()));
        items.push((X_FRAME_OPTIONS, self.frame_options.clone()));
        items.push((REFERRER_POLICY, self.referrer_policy.clone()));
        items.push((CONTENT_SECURITY_POLICY, self.content_security_policy.clone()));
        assert(items@.map_values(|p: (&'static str, Option<String>)| (p.0@, text_of(p.1))) =~= configured(self@));
        items
    }

    /// The headers to add to a response that already carries the headers named
    /// in `present` (lower-case names): every configured header it lacks.
    pub fn missing(&self, present: &[&str]) -> (headers: Vec<(&'static str, String)>)
        ensures
            headers@.map_values(|p: (&'static str, String)| (p.0@, p.1@)) == spec_missing(
                configured(self@),
                present@.map_values(|s: &str| s@),
            ),
    {
        let items = self.configured();
        let ghost iv = items@.map_values(|p: (&'static str, Option<String>)| (p.0@, text_of(p.1)));
        let ghost pv = present@.map_values(|s: &str| s@);
        let mut out: Vec<(&'static str, String)> = Vec::new();
        let mut i: usize = 0;
        while i < items.len()
            invariant
                i <= items@.len(),
                iv == items@.map_values(|p: (&'static str, Option<String>)| (p.0@, text_of(p.1))),
                pv == present@.map_values(|s: &str| s@),
                out@.map_values(|p: (&'static str, String)| (p.0@, p.1@)) == spec_missing(
                    iv.subrange(0, i as int),
                    pv,
                ),
            decreases items.len() - i,
        {
            let ghost before = out@;
            let (name, value) = (items[i].0, &items[i].1);
            proof {
                assert(iv.subrange(0, i + 1).drop_last() =~= iv.subrange(0, i as int));
            }
            match value {
                Some(v) => {
                    if !present_contains(present, name) {
                        out.push((name, v.clone()));
                        assert(out@.map_values(|p: (&'static str, String)| (p.0@, p.1@)) =~= before.map_values(
                            |p: (&'static str, String)| (p.0@, p.1@),
                        ).push((name@, v@)));
                    }
                },
                None => {},
            }
            i = i + 1;
        }
        assert(iv.subrange(0, items@.len() as int) =~= iv);
        out
    }

    /// The layer's stable name.
    pub fn name(&self) -> (name: &'static str)
        ensures
            name@ == "SecurityHeaders"@,
    {
        "SecurityHeaders"
    }

    /// A second security-headers layer is a configuration error.
    pub fn duplicate_policy(&self) -> (policy: DuplicatePolicy)
        ensures
            policy == DuplicatePolicy::Reject,
    {
        DuplicatePolicy::Reject
    }
}

} // verus!
