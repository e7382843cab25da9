//! Host allow-listing: requests whose `Host` header names no allowed host are
//! rejected with `400 Bad Request`.

use vstd::prelude::*;
use crate::error::{Error, ErrorKind};
use crate::header::{header_text, spec_header_text};
use crate::middleware::DuplicatePolicy;
use crate::text::{
    before_first, chars_eq, ends_with, ends_with_chars, find_char, lower_seq, lower_chars,
    starts_with, starts_with_chars, to_chars,
};

verus! {

/// Message of the error answering a request from a host that is not allowed.
pub const INVALID_HOST_MESSAGE: &'static str = "invalid host header";

/// One allowed host: an exact (lower-cased) name, or a `.suffix` that a
/// `*.suffix` pattern allows every subdomain of.
pub enum HostPattern {
    Exact(Vec<char>),
    Suffix(Vec<char>),
}

impl HostPattern {
    /// The pattern as (is a suffix, text).
    pub open spec fn view_pair(&self) -> (bool, Seq<char>) {
        match self {
            HostPattern::Exact(e) => (false, e@),
            HostPattern::Suffix(s) => (true, s@),
        }
    }
}

/// The pattern a configured host name becomes: `*.rest` allows any host ending
/// in `.rest`; anything else allows exactly that name; both lower-cased.
pub open spec fn pattern_of(host: Seq<char>) -> (bool, Seq<char>) {
    if starts_with(host, "*."@) {
        (true, seq!['.'] + lower_seq(host.subrange(2, host.len() as int)))
    } else {
        (false, lower_seq(host))
    }
}

/// Whether a pattern allows the (lower-cased) host.
pub open spec fn pattern_allows(p: (bool, Seq<char>), host: Seq<char>) -> bool {
    if p.0 {
        ends_with(host, p.1)
    } else {
        host == p.1
    }
}

/// Rejects requests whose `Host` header is not on the allow list.
pub struct TrustedHost {
    patterns: Vec<HostPattern>,
}

impl TrustedHost {
    /// The allow list.
    pub closed spec fn spec_patterns(&self) -> Seq<(bool, Seq<char>)> {
        self.patterns@.map_values(|p: HostPattern| p.view_pair())
    }

    /// Whether some pattern allows `host` (compared lower-cased).
    pub open spec fn spec_allows(&self, host: Seq<char>) -> bool {
        exists|i: int|
            0 <= i < self.spec_patterns().len() && pattern_allows(
                #[trigger] self.spec_patterns()[i],
                lower_seq(host),
            )
    }

    /// Creates the layer from allowed host names; `*.example.com` allows every
    /// subdomain of `example.com`.
    pub fn new(hosts: &[&str]) -> (t: Self)
        ensures
            t.spec_patterns() == hosts@.map_values(|h: &str| pattern_of(h@)),
    {
        let mut patterns: Vec<HostPattern> = Vec::new();
        let mut i: usize = 0;
        let star = to_chars("*.");
        proof {
            reveal_strlit("*.");
        }
        while i < hosts.len()
            invariant
                i <= hosts@.len(),
                star@ == "*."@,
                star@ == seq!['*', '.'],
                patterns@.map_values(|p: HostPattern| p.view_pair()) == hosts@.subrange(
                    0,
                    i as int,
                ).map_values(|h: &str| pattern_of(h@)),
            decreases hosts.len() - i,
        {
            let chars = to_chars(hosts[i]);
            let ghost h = hosts[i as int]@;
            let pattern = if starts_with_chars(chars.as_slice(), star.as_slice()) {
                let rest = lower_chars(vstd::slice::slice_subrange(chars.as_slice(), 2, chars.len()));
                let mut suffix: Vec<char> = Vec::new();
                suffix.push('.');
                let mut r = rest;
                suffix.append(&mut r);
                assert(suffix@ =~= seq!['.'] + lower_seq(h.subrange(2, h.len() as int)));
                HostPattern::Suffix(suffix)
            } else {
                HostPattern::Exact(lower_chars(chars.as_slice()))
            };
            assert(pattern.view_pair() == pattern_of(h));
            let ghost before = patterns@;
            patterns.push(pattern);
            proof {
                assert(hosts@.subrange(0, i + 1) =~= hosts@.subrange(0, i as int).push(hosts[i as int]));
                assert(patterns@ =~= before.push(pattern));
                assert(patterns@.map_values(|p: HostPattern| p.view_pair()) =~= before.map_values(
                    |p: HostPattern| p.view_pair(),
                ).push(pattern.view_pair()));
                assert(hosts@.subrange(0, i + 1).map_values(|h: &str| pattern_of(h@))
                    =~= hosts@.subrange(0, i as int).map_values(|h: &str| pattern_of(h@)).push(pattern_of(h)));
            }
            i = i + 1;
        }
        assert(hosts@.subrange(0, hosts@.len() as int) =~= hosts@);
        TrustedHost { patterns }
    }

    /// Whether `host` is allowed (compared case-insensitively).
    pub fn allows(&self, host: &[char]) -> (allowed: bool)
        ensures
            allowed == self.spec_allows(host@),
    {
        let lowered = lower_chars(host);
        let mut i: usize = 0;
        while i < self.patterns.len()
            invariant
                i <= self.patterns@.len(),
                lowered@ == lower_seq(host@),
                forall|j: int|
                    0 <= j < i ==> !pattern_allows(
                        #[trigger] self.spec_patterns()[j],
                        lower_seq(host@),
                    ),
            decreases self.patterns.len() - i,
        {
            let hit = match &self.patterns[i] {
                HostPattern::Exact(e) => chars_eq(e.as_slice(), lowered.as_slice()),
                HostPattern::Suffix(s) => ends_with_chars(lowered.as_slice(), s.as_slice()),
            };
            if hit {
                assert(pattern_allows(self.spec_patterns()[i as int], lower_seq(host@)));
                return true;
            }
            i = i + 1;
        }
        false
    }

    /// Checks a request's `Host` header (raw bytes): its host part (before any
    /// `:port`) must be allowed, else the request is rejected.
    pub fn check(&self, host_header: Option<&[u8]>) -> (r: Result<(), Error>)
        ensures
            ({
                let allowed = match host_header {
                    Some(b) => match spec_header_text(b@) {
                        Some(t) => self.spec_allows(before_first(t, ':')),
                        None => false,
                    },
                    None => false,
                };
                match r {
                    Ok(()) => allowed,
                    Err(e) => !allowed && e.fresh(ErrorKind::BadRequest, INVALID_HOST_MESSAGE@),
                }
            }),
    {
        let allowed = match host_header {
            Some(bytes) => match header_text(bytes) {
                Some(text) => {
                    let chars = to_chars(text.as_str());
                    let end = find_char(chars.as_slice(), ':');
                    let host = vstd::slice::slice_subrange(chars.as_slice(), 0, end);
                    self.allows(host)
                },
                None => false,
            },
            None => false,
        };
        if allowed {
            Ok(())
        } else {
            Err(Error::bad_request(INVALID_HOST_MESSAGE))
        }
    }

    /// The layer's stable name.
    pub fn name(&self) -> (name: &'static str)
        ensures
            name@ == "TrustedHost"@,
    {
        "TrustedHost"
    }

    /// A second host allow list is a configuration error.
    pub fn duplicate_policy(&self) -> (policy: DuplicatePolicy)
        ensures
            policy == DuplicatePolicy::Reject,
    {
        DuplicatePolicy::Reject
    }
}

/// Host checks ignore case: a host is allowed exactly when its lower-cased
/// form is.
pub proof fn law_host_check_ignores_case(t: &TrustedHost, host: Seq<char>)
    ensures
        t.spec_allows(host) == t.spec_allows(lower_seq(host)),
{
    assert(lower_seq(lower_seq(host)) =~= lower_seq(host));
}

} // verus!
