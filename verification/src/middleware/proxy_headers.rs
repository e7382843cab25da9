//! Trusted reverse proxies: when the peer is a trusted proxy, the
//! `X-Forwarded-Host` and `X-Forwarded-Proto` headers it sets are believed.

use vstd::prelude::*;
use vstd::arithmetic::power2::{pow2, lemma2_to64, lemma_pow2_pos};
use crate::extract::RequestScheme;
use crate::header::{header_text, header_value_ok, spec_header_text, valid_header_text};
use crate::middleware::DuplicatePolicy;
use crate::text::{before_first, eq_ignore_ascii_case, find_char, lower_seq, string_of_range, to_chars, trim_ws, trim_ws_range};

verus! {

/// The header a proxy puts the original host in.
pub const FORWARDED_HOST: &'static str = "x-forwarded-host";

/// The header a proxy puts the original scheme in.
pub const FORWARDED_PROTO: &'static str = "x-forwarded-proto";

/// An IP address: IPv4 as a 32-bit number, IPv6 as a 128-bit number (both in
/// network order, most significant octet first).
#[derive(Clone, Copy, Debug, PartialEq, Eq, Structural)]
pub enum IpAddress {
    V4(u32),
    V6(u128),
}

impl IpAddress {
    /// The IPv4 address `a.b.c.d`.
    pub fn v4(a: u8, b: u8, c: u8, d: u8) -> (ip: Self)
        ensures
            ip == IpAddress::V4((a * 0x1000000 + b * 0x10000 + c * 0x100 + d) as u32),
    {
        let v: u32 = (a as u32) * 0x1000000 + (b as u32) * 0x10000 + (c as u32) * 0x100 + (d as u32);
        IpAddress::V4(v)
    }

    /// The IPv4 loopback address `127.0.0.1`.
    pub fn v4_loopback() -> (ip: Self)
        ensures
            ip == IpAddress::V4(0x7f000001),
    {
        IpAddress::V4(0x7f000001)
    }

    /// The IPv6 loopback address `::1`.
    pub fn v6_loopback() -> (ip: Self)
        ensures
            ip == IpAddress::V6(1),
    {
        IpAddress::V6(1)
    }
}

/// An IP network: an address and a prefix length of at most the address's
/// width.
#[derive(Clone, Copy, Debug, PartialEq, Eq, Structural)]
pub struct IpNetwork {
    addr: IpAddress,
    prefix_len: u8,
}

/// The width of an address in bits.
pub open spec fn width(ip: IpAddress) -> nat {
    match ip {
        IpAddress::V4(_) => 32,
        IpAddress::V6(_) => 128,
    }
}

/// The numeric value of an address.
pub open spec fn value(ip: IpAddress) -> nat {
    match ip {
        IpAddress::V4(v) => v as nat,
        IpAddress::V6(v) => v as nat,
    }
}

/// Whether a network with address `addr` and prefix `prefix_len` holds `ip`:
/// both of one family, and `ip` between the network address and the broadcast
/// address, that is, agreeing with `addr` on the first `prefix_len` bits.
pub open spec fn spec_contains(addr: IpAddress, prefix_len: nat, ip: IpAddress) -> bool {
    &&& width(addr) == width(ip)
    &&& value(ip) / pow2((width(addr) - prefix_len) as nat) == value(addr) / pow2(
        (width(addr) - prefix_len) as nat,
    )
}

impl IpNetwork {
    /// The network's address.
    pub closed spec fn spec_addr(&self) -> IpAddress {
        self.addr
    }

    /// The network's prefix length.
    pub closed spec fn spec_prefix_len(&self) -> nat {
        self.prefix_len as nat
    }

    /// The prefix length fits the address.
    pub closed spec fn wf(&self) -> bool {
        self.prefix_len as nat <= width(self.addr)
    }

    /// The network `addr/prefix_len`; `None` when the prefix is longer than the
    /// address.
    pub fn new(addr: IpAddress, prefix_len: u8) -> (net: Option<Self>)
        ensures
            match net {
                Some(n) => n.wf() && n.spec_addr() == addr && n.spec_prefix_len() == prefix_len,
                None => prefix_len > width(addr),
            },
    {
        let max: u8 = match addr {
            IpAddress::V4(_) => 32,
            IpAddress::V6(_) => 128,
        };
        if prefix_len > max {
            None
        } else {
            Some(IpNetwork { addr, prefix_len })
        }
    }

    /// Whether the network holds `ip`.
    pub fn contains(&self, ip: IpAddress) -> (inside: bool)
        requires
            self.wf(),
        ensures
            inside == spec_contains(self.spec_addr(), self.spec_prefix_len(), ip),
    {
        match (self.addr, ip) {
            (IpAddress::V4(a), IpAddress::V4(b)) => {
                let shift: u32 = 32 - self.prefix_len as u32;
                if shift == 32 {
                    proof {
                        lemma2_to64();
                        vstd::arithmetic::div_mod::lemma_basic_div(a as int, pow2(32) as int);
                        vstd::arithmetic::div_mod::lemma_basic_div(b as int, pow2(32) as int);
                    }
                    true
                } else {
                    proof {
                        vstd::bits::lemma_u32_shr_is_div(a, shift);
                        vstd::bits::lemma_u32_shr_is_div(b, shift);
                    }
                    (a >> shift) == (b >> shift)
                }
            },
            (IpAddress::V6(a), IpAddress::V6(b)) => {
                let shift: u128 = 128 - self.prefix_len as u128;
                if shift == 128 {
                    proof {
                        lemma_pow2_128();
                        vstd::arithmetic::div_mod::lemma_basic_div(a as int, pow2(128) as int);
                        vstd::arithmetic::div_mod::lemma_basic_div(b as int, pow2(128) as int);
                    }
                    true
                } else {
                    proof {
                        vstd::bits::lemma_u128_shr_is_div(a, shift);
                        vstd::bits::lemma_u128_shr_is_div(b, shift);
                    }
                    (a >> shift) == (b >> shift)
                }
            },
            _ => false,
        }
    }
}

proof fn lemma_pow2_128()
    ensures
        pow2(128) > u128::MAX,
{
    lemma2_to64();
    vstd::arithmetic::power2::lemma_pow2_adds(64, 64);
    assert(pow2(64) * pow2(64) > u128::MAX) by (nonlinear_arith)
        requires
            pow2(64) == 0x10000000000000000,
    ;
}

/// The first comma-separated entry of a forwarded header (raw bytes),
/// whitespace-trimmed, when it is readable and not empty.
pub open spec fn spec_forwarded_value(header: Option<Seq<u8>>) -> Option<Seq<char>> {
    match header {
        None => None,
        Some(b) => match spec_header_text(b) {
            None => None,
            Some(t) => {
                let v = trim_ws(before_first(t, ','));
                if v.len() == 0 {
                    None
                } else {
                    Some(v)
                }
            },
        },
    }
}

/// The scheme an `X-Forwarded-Proto` value names, compared case-insensitively.
pub open spec fn spec_forwarded_scheme(proto: Seq<char>) -> Option<RequestScheme> {
    if lower_seq(proto) == lower_seq("https"@) {
        Some(RequestScheme::Https)
    } else if lower_seq(proto) == lower_seq("http"@) {
        Some(RequestScheme::Http)
    } else {
        None
    }
}

/// What the layer does to a request before running the handler.
pub struct ProxyPlan {
    /// Replace the `Host` header with this value.
    pub host: Option<String>,
    /// Record this scheme for the request.
    pub scheme: Option<RequestScheme>,
    /// A trusted proxy sent an `X-Forwarded-Proto` value naming no known scheme
    /// (logged and ignored).
    pub unsupported_proto: bool,
}

/// Believes forwarding headers from trusted proxies.
pub struct ProxyHeaders {
    trusted_ips: Vec<IpAddress>,
    trusted_cidrs: Vec<IpNetwork>,
}

/// The first comma-separated entry of a forwarded header, trimmed, if any.
pub fn forwarded_value(header: Option<&[u8]>) -> (v: Option<String>)
    ensures
        match v {
            Some(s) => spec_forwarded_value(match header {
                Some(b) => Some(b@),
                None => None,
            }) == Some(s@),
            None => spec_forwarded_value(match header {
                Some(b) => Some(b@),
                None => None,
            }) is None,
        },
{
    let bytes = match header {
        Some(b) => b,
        None => return None,
    };
    let text = match header_text(bytes) {
        Some(t) => t,
        None => return None,
    };
    let chars = to_chars(text.as_str());
    let end = find_char(chars.as_slice(), ',');
    let (b, e) = trim_ws_range(chars.as_slice(), 0, end);
    if b == e {
        return None;
    }
    Some(string_of_range(chars.as_slice(), b, e))
}

impl ProxyHeaders {
    /// The trusted proxy addresses.
    pub closed spec fn spec_trusted_ips(&self) -> Seq<IpAddress> {
        self.trusted_ips@
    }

    /// The trusted proxy networks.
    pub closed spec fn spec_trusted_cidrs(&self) -> Seq<IpNetwork> {
        self.trusted_cidrs@
    }

    /// Whether a peer is a trusted proxy: one of the trusted addresses, or in
    /// one of the trusted networks.
    pub open spec fn spec_is_trusted(&self, peer: Option<IpAddress>) -> bool {
        match peer {
            None => false,
            Some(ip) => self.spec_trusted_ips().contains(ip) || exists|i: int|
                0 <= i < self.spec_trusted_cidrs().len() && spec_contains(
                    #[trigger] self.spec_trusted_cidrs()[i].spec_addr(),
                    self.spec_trusted_cidrs()[i].spec_prefix_len(),
                    ip,
                ),
        }
    }

    /// Every trusted network is well formed.
    pub closed spec fn wf(&self) -> bool {
        forall|i: int| 0 <= i < self.trusted_cidrs@.len() ==> (#[trigger] self.trusted_cidrs@[i]).wf()
    }

    /// Creates the layer with no trusted proxies.
    pub fn new() -> (p: Self)
        ensures
            p.wf(),
            p.spec_trusted_ips().len() == 0,
            p.spec_trusted_cidrs().len() == 0,
    {
        ProxyHeaders { trusted_ips: Vec::new(), trusted_cidrs: Vec::new() }
    }

    /// Trusts one proxy address.
    pub fn trust_proxy(self, addr: IpAddress) -> (p: Self)
        requires
            self.wf(),
        ensures
            p.wf(),
            p.spec_trusted_ips() == self.spec_trusted_ips().push(addr),
            p.spec_trusted_cidrs() == self.spec_trusted_cidrs(),
    {
        let mut s = self;
        s.trusted_ips.push(addr);
        s
    }

    /// Trusts every address of a network.
    pub fn trust_cidr(self, network: IpNetwork) -> (p: Self)
        requires
            self.wf(),
            network.wf(),
        ensures
            p.wf(),
            p.spec_trusted_ips() == self.spec_trusted_ips(),
            p.spec_trusted_cidrs() == self.spec_trusted_cidrs().push(network),
    {
        let mut s = self;
        s.trusted_cidrs.push(network);
        assert forall|i: int| 0 <= i < s.trusted_cidrs@.len() implies (#[trigger] s.trusted_cidrs@[i]).wf() by {
            if i < self.trusted_cidrs@.len() {
                assert(s.trusted_cidrs@[i] == self.trusted_cidrs@[i]);
            }
        }
        s
    }

    /// Trusts the loopback addresses `127.0.0.1` and `::1`.
    pub fn trust_loopback(self) -> (p: Self)
        requires
            self.wf(),
        ensures
            p.wf(),
            p.spec_trusted_ips() == self.spec_trusted_ips().push(IpAddress::V4(0x7f000001)).push(
                IpAddress::V6(1),
            ),
            p.spec_trusted_cidrs() == self.spec_trusted_cidrs(),
    {
        self.trust_proxy(IpAddress::v4_loopback()).trust_proxy(IpAddress::v6_loopback())
    }

    /// Whether the peer is a trusted proxy.
    pub fn is_trusted(&self, peer: Option<IpAddress>) -> (trusted: bool)
        requires
            self.wf(),
        ensures
            trusted == self.spec_is_trusted(peer),
    {
        let ip = match peer {
            Some(ip) => ip,
            None => return false,
        };
        let mut i: usize = 0;
        while i < self.trusted_ips.len()
            invariant
                i <= self.trusted_ips@.len(),
                peer == Some(ip),
                forall|j: int| 0 <= j < i ==> self.trusted_ips@[j] != ip,
            decreases self.trusted_ips.len() - i,
        {
            if self.trusted_ips[i] == ip {
                assert(self.spec_trusted_ips()[i as int] == ip);
                return true;
            }
            i = i + 1;
        }
        assert(!self.spec_trusted_ips().contains(ip)) by {
            if self.spec_trusted_ips().contains(ip) {
                let j = choose|j: int| 0 <= j < self.trusted_ips@.len() && self.trusted_ips@[j] == ip;
                assert(self.trusted_ips@[j] != ip);
            }
        }
        let mut k: usize = 0;
        while k < self.trusted_cidrs.len()
            invariant
                k <= self.trusted_cidrs@.len(),
                self.wf(),
                peer == Some(ip),
                !self.spec_trusted_ips().contains(ip),
                forall|j: int|
                    0 <= j < k ==> !spec_contains(
                        #[trigger] self.spec_trusted_cidrs()[j].spec_addr(),
                        self.spec_trusted_cidrs()[j].spec_prefix_len(),
                        ip,
                    ),
            decreases self.trusted_cidrs.len() - k,
        {
            assert(self.trusted_cidrs@[k as int].wf());
            if self.trusted_cidrs[k].contains(ip) {
                assert(spec_contains(
                    self.spec_trusted_cidrs()[k as int].spec_addr(),
                    self.spec_trusted_cidrs()[k as int].spec_prefix_len(),
                    ip,
                ));
                return true;
            }
            k = k + 1;
        }
        false
    }

    /// What to do with a request from `peer` carrying the given forwarding
    /// headers (raw bytes): nothing unless the peer is trusted; otherwise take
    /// the forwarded host when it is a valid header value, and the forwarded
    /// scheme when it is `http` or `https`.
    pub fn plan(&self, peer: Option<IpAddress>, forwarded_host: Option<&[u8]>, forwarded_proto: Option<&[u8]>) -> (plan: ProxyPlan)
        requires
            self.wf(),
        ensures
            ({
                let fh = spec_forwarded_value(match forwarded_host {
                    Some(b) => Some(b@),
                    None => None,
                });
                let fp = spec_forwarded_value(match forwarded_proto {
                    Some(b) => Some(b@),
                    None => None,
                });
                if !self.spec_is_trusted(peer) {
                    plan.host is None && plan.scheme is None && !plan.unsupported_proto
                } else {
                    &&& match fh {
                        Some(h) => if valid_header_text(h) {
                            plan.host matches Some(v) && v@ == h
                        } else {
                            plan.host is None
                        },
                        None => plan.host is None,
                    }
                    &&& match fp {
                        Some(p) => plan.scheme == spec_forwarded_scheme(p) && plan.unsupported_proto
                            == (spec_forwarded_scheme(p) is None),
                        None => plan.scheme is None && !plan.unsupported_proto,
                    }
                }
            }),
    {
        if !self.is_trusted(peer) {
            return ProxyPlan { host: None, scheme: None, unsupported_proto: false };
        }
        let host = match forwarded_value(forwarded_host) {
            Some(h) => if header_value_ok(h.as_str()) {
                Some(h)
            } else {
                None
            },
            None => None,
        };
        let (scheme, unsupported_proto) = match forwarded_value(forwarded_proto) {
            Some(p) => {
                if eq_ignore_ascii_case(p.as_str(), "https") {
                    (Some(RequestScheme::Https), false)
                } else if eq_ignore_ascii_case(p.as_str(), "http") {
                    (Some(RequestScheme::Http), false)
                } else {
                    (None, true)
                }
            },
            None => (None, false),
        };
        ProxyPlan { host, scheme, unsupported_proto }
    }

    /// The layer's stable name.
    pub fn name(&self) -> (name: &'static str)
        ensures
            name@ == "ProxyHeaders"@,
    {
        "ProxyHeaders"
    }

    /// A second proxy layer is a configuration error.
    pub fn duplicate_policy(&self) -> (policy: DuplicatePolicy)
        ensures
            policy == DuplicatePolicy::Reject,
    {
        DuplicatePolicy::Reject
    }
}

} // verus!
