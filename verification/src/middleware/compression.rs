//! Response compression: bodies are gzip-encoded for clients that accept it.

use vstd::prelude::*;
use crate::decimal::{decimal, u64_to_decimal};
use crate::extract::{header_lookup, header_value, headers_view};
use crate::header::{header_text, spec_header_text};
use crate::middleware::DuplicatePolicy;
use crate::text::{contains_chars, has_substring, lower_chars, lower_seq, starts_with, starts_with_chars, to_chars};

verus! {

/// The gzip content coding.
pub const GZIP: &'static str = "gzip";

pub const CONTENT_ENCODING: &'static str = "content-encoding";
pub const CONTENT_LENGTH: &'static str = "content-length";
pub const VARY: &'static str = "vary";
pub const CONTENT_TYPE: &'static str = "content-type";
/// The `Vary` value a compressed response gains.
pub const ACCEPT_ENCODING_TOKEN: &'static str = "Accept-Encoding";

/// The gzip encoding (default level) of `data`, as `flate2`'s `GzEncoder`
/// writes it into memory; `None` when the encoder reports an error.
pub uninterp spec fn gzip_encoded(data: Seq<u8>) -> Option<Seq<u8>>;

/// Gzip-encodes `data` in memory (`flate2::write::GzEncoder` at the default
/// level: `write_all`, then `finish`).
///
/// Trusted: the result is the encoder's output for these bytes.
#[verifier::external_body]
fn gzip(data: &[u8]) -> (out: Option<Vec<u8>>)
    ensures
        match out {
            Some(v) => gzip_encoded(data@) == Some(v@),
            None => gzip_encoded(data@) is None,
        },
{
    let mut encoder = flate2::write::GzEncoder::new(Vec::new(), flate2::Compression::default());
    match std::io::Write::write_all(&mut encoder, data) {
        Ok(()) => encoder.finish().ok(),
        Err(_) => None,
    }
}

/// Whether an `Accept-Encoding` header (raw bytes) accepts gzip: its text,
/// lower-cased, mentions `gzip`.
pub open spec fn spec_accepts_gzip(header: Option<Seq<u8>>) -> bool {
    match header {
        Some(b) => match spec_header_text(b) {
            Some(t) => has_substring(lower_seq(t), GZIP@),
            None => false,
        },
        None => false,
    }
}

/// Whether a `Content-Type` header (raw bytes) names an event stream, which is
/// never buffered for compression.
pub open spec fn spec_is_event_stream(header: Option<Seq<u8>>) -> bool {
    match header {
        Some(b) => match spec_header_text(b) {
            Some(t) => starts_with(t, crate::constants::TEXT_EVENT_STREAM@),
            None => false,
        },
        None => false,
    }
}

/// A compressed body and the `Content-Length` it takes.
pub struct Compressed {
    pub body: Vec<u8>,
    pub content_length: String,
}

/// A buffered response as the layer sees it: status, headers (name and raw
/// value, in order) and body.
pub struct ResponseParts {
    pub status: u16,
    pub headers: Vec<(String, Vec<u8>)>,
    pub body: Vec<u8>,
}

/// The status, header texts and body of a response.
pub open spec fn response_view(r: ResponseParts) -> (u16, Seq<(Seq<char>, Seq<u8>)>, Seq<u8>) {
    (r.status, headers_view(r.headers@), r.body@)
}

/// The bytes of a text, one per character.
pub open spec fn ascii_bytes(s: Seq<char>) -> Seq<u8> {
    s.map_values(|c: char| c as u8)
}

/// `h` without the headers named `name` (ignoring ASCII case), others in order.
pub open spec fn drop_named(h: Seq<(Seq<char>, Seq<u8>)>, name: Seq<char>) -> Seq<(Seq<char>, Seq<u8>)>
    decreases h.len(),
{
    if h.len() == 0 {
        h
    } else if lower_seq(h.last().0) == lower_seq(name) {
        drop_named(h.drop_last(), name)
    } else {
        drop_named(h.drop_last(), name).push(h.last())
    }
}

/// The headers of a response whose body was compressed to `length` bytes: any
/// `Content-Length` replaced, then `Content-Encoding: gzip`, the new
/// `Content-Length` and `Vary: Accept-Encoding` added.
pub open spec fn gzip_headers(h: Seq<(Seq<char>, Seq<u8>)>, length: nat) -> Seq<(Seq<char>, Seq<u8>)> {
    drop_named(h, CONTENT_LENGTH@) + seq![
        (CONTENT_ENCODING@, ascii_bytes(GZIP@)),
        (CONTENT_LENGTH@, ascii_bytes(decimal(length))),
        (VARY@, ascii_bytes(ACCEPT_ENCODING_TOKEN@)),
    ]
}

/// Whether a response goes out unchanged: gzip off or not accepted, the
/// response already encoded or an event stream, the body under the minimum
/// size, or the encoder failing.
pub open spec fn spec_unchanged(
    gzip: bool,
    minimum_size: usize,
    accept_encoding: Option<Seq<u8>>,
    h: Seq<(Seq<char>, Seq<u8>)>,
    body: Seq<u8>,
) -> bool {
    ||| !gzip
    ||| !spec_accepts_gzip(accept_encoding)
    ||| header_lookup(h, CONTENT_ENCODING@, 0) is Some
    ||| spec_is_event_stream(header_lookup(h, CONTENT_TYPE@, 0))
    ||| body.len() < minimum_size
    ||| gzip_encoded(body) is None
}

/// The response the layer sends for `r`, given the request's `Accept-Encoding`.
pub open spec fn spec_respond(
    gzip: bool,
    minimum_size: usize,
    accept_encoding: Option<Seq<u8>>,
    r: (u16, Seq<(Seq<char>, Seq<u8>)>, Seq<u8>),
) -> (u16, Seq<(Seq<char>, Seq<u8>)>, Seq<u8>) {
    if spec_unchanged(gzip, minimum_size, accept_encoding, r.1, r.2) {
        r
    } else {
        let z = gzip_encoded(r.2)->0;
        (r.0, gzip_headers(r.1, z.len()), z)
    }
}

/// The bytes of a text, one per character.
fn bytes_of(s: &str) -> (b: Vec<u8>)
    ensures
        b@ == ascii_bytes(s@),
{
    let chars = to_chars(s);
    let mut b: Vec<u8> = Vec::new();
    let mut i: usize = 0;
    while i < chars.len()
        invariant
            i <= chars@.len(),
            b@ == ascii_bytes(chars@.subrange(0, i as int)),
        decreases chars.len() - i,
    {
        let ghost before = b@;
        b.push(chars[i] as u8);
        assert(ascii_bytes(chars@.subrange(0, i + 1)) =~= before.push(chars@[i as int] as u8));
        i = i + 1;
    }
    assert(chars@.subrange(0, chars@.len() as int) =~= s@);
    b
}

/// Removes the headers named `name` (ignoring ASCII case), keeping the others
/// in order.
fn drop_header(headers: Vec<(String, Vec<u8>)>, name: &str) -> (out: Vec<(String, Vec<u8>)>)
    ensures
        headers_view(out@) == drop_named(headers_view(headers@), name@),
{
    let ghost orig = headers_view(headers@);
    let mut rest = headers;
    let mut out: Vec<(String, Vec<u8>)> = Vec::new();
    let ghost mut k: int = 0;
    assert(orig.subrange(0, 0) =~= Seq::<(Seq<char>, Seq<u8>)>::empty());
    assert(headers_view(rest@) =~= orig.subrange(0, orig.len() as int));
    while rest.len() > 0
        invariant
            0 <= k <= orig.len(),
            headers_view(rest@) == orig.subrange(k, orig.len() as int),
            headers_view(out@) == drop_named(orig.subrange(0, k), name@),
        decreases rest.len(),
    {
        let ghost rv = rest@;
        let ghost tail = orig.subrange(k, orig.len() as int);
        assert(headers_view(rv).len() == rv.len());
        assert(k < orig.len());
        let entry = rest.remove(0);
        assert(rest@ =~= rv.subrange(1, rv.len() as int));
        assert(headers_view(rv)[0] == tail[0]);
        assert(tail[0] == orig[k]);
        assert(headers_view(rest@) =~= orig.subrange(k + 1, orig.len() as int)) by {
            assert forall|j: int| 0 <= j < rest@.len() implies #[trigger] headers_view(rest@)[j] == orig[k + 1 + j] by {
                assert(rest@[j] == rv[j + 1]);
                assert(headers_view(rv)[j + 1] == tail[j + 1]);
            }
        }
        let ghost next = orig.subrange(0, k + 1);
        assert(next.drop_last() =~= orig.subrange(0, k));
        assert(next.last() == (entry.0@, entry.1@));
        let matches = crate::text::eq_ignore_ascii_case(entry.0.as_str(), name);
        if !matches {
            let ghost before = out@;
            out.push(entry);
            assert(headers_view(out@) =~= headers_view(before).push(next.last()));
        }
        proof {
            k = k + 1;
        }
    }
    assert(orig.subrange(0, k) =~= orig);
    out
}

/// Compresses response bodies with gzip when enabled and accepted.
pub struct Compression {
    gzip: bool,
    minimum_size: usize,
}

/// Whether a request accepts gzip.
pub fn accepts_gzip(accept_encoding: Option<&[u8]>) -> (accepts: bool)
    ensures
        accepts == spec_accepts_gzip(match accept_encoding {
            Some(b) => Some(b@),
            None => None,
        }),
{
    match accept_encoding {
        Some(bytes) => match header_text(bytes) {
            Some(t) => {
                let chars = to_chars(t.as_str());
                let lowered = lower_chars(chars.as_slice());
                let needle = to_chars(GZIP);
                contains_chars(lowered.as_slice(), needle.as_slice())
            },
            None => false,
        },
        None => false,
    }
}

/// Whether a response is an event stream.
pub fn is_event_stream(content_type: Option<&[u8]>) -> (stream: bool)
    ensures
        stream == spec_is_event_stream(match content_type {
            Some(b) => Some(b@),
            None => None,
        }),
{
    match content_type {
        Some(bytes) => match header_text(bytes) {
            Some(t) => {
                let chars = to_chars(t.as_str());
                let prefix = to_chars(crate::constants::TEXT_EVENT_STREAM);
                starts_with_chars(chars.as_slice(), prefix.as_slice())
            },
            None => false,
        },
        None => false,
    }
}

/// The compressed form of a body, given what the encoder produced: the bytes
/// and their decimal length; nothing when the encoder failed.
pub fn compressed_from(encoded: Option<Vec<u8>>) -> (c: Option<Compressed>)
    ensures
        match encoded {
            Some(v) => c matches Some(out) && out.body@ == v@ && out.content_length@ == decimal(
                v@.len(),
            ),
            None => c is None,
        },
{
    match encoded {
        Some(v) => {
            let n = v.len();
            let length = u64_to_decimal(n as u64);
            Some(Compressed { body: v, content_length: length })
        },
        None => None,
    }
}

impl Compression {
    /// Whether gzip is enabled.
    pub closed spec fn spec_gzip(&self) -> bool {
        self.gzip
    }

    /// Bodies shorter than this are sent as they are.
    pub closed spec fn spec_minimum_size(&self) -> usize {
        self.minimum_size
    }

    /// Creates the layer with every encoding off and no minimum size.
    pub fn new() -> (c: Self)
        ensures
            !c.spec_gzip(),
            c.spec_minimum_size() == 0,
    {
        Compression { gzip: false, minimum_size: 0 }
    }

    /// Enables gzip.
    pub fn gzip(self) -> (c: Self)
        ensures
            c.spec_gzip(),
            c.spec_minimum_size() == self.spec_minimum_size(),
    {
        Compression { gzip: true, ..self }
    }

    /// Leaves bodies shorter than `bytes` uncompressed.
    pub fn minimum_size(self, bytes: usize) -> (c: Self)
        ensures
            c.spec_gzip() == self.spec_gzip(),
            c.spec_minimum_size() == bytes,
    {
        Compression { minimum_size: bytes, ..self }
    }

    /// Whether a response goes out as it is: gzip off, not accepted by the
    /// client, already encoded, or an event stream.
    pub fn passes_through(&self, accepts: bool, already_encoded: bool, event_stream: bool) -> (pass: bool)
        ensures
            pass == (!self.spec_gzip() || !accepts || already_encoded || event_stream),
    {
        !self.gzip || !accepts || already_encoded || event_stream
    }

    /// Compresses a buffered body: nothing when it is shorter than the minimum
    /// size or the encoder fails; otherwise the gzip encoding and its length.
    pub fn compress(&self, body: &[u8]) -> (c: Option<Compressed>)
        ensures
            if body@.len() < self.spec_minimum_size() {
                c is None
            } else {
                match gzip_encoded(body@) {
                    Some(v) => c matches Some(out) && out.body@ == v && out.content_length@ == decimal(
                        v.len(),
                    ),
                    None => c is None,
                }
            },
    {
        if body.len() < self.minimum_size {
            return None;
        }
        compressed_from(gzip(body))
    }

    /// The response the layer sends: unchanged (status, headers and body) when
    /// gzip is off or not accepted, the response is already encoded or an
    /// event stream, the body is under the minimum size, or the encoder fails;
    /// otherwise the same status with the gzip body, `Content-Encoding: gzip`,
    /// the body's `Content-Length` and `Vary: Accept-Encoding`.
    pub fn respond(&self, accept_encoding: Option<&[u8]>, response: ResponseParts) -> (r: ResponseParts)
        ensures
            response_view(r) == spec_respond(
                self.spec_gzip(),
                self.spec_minimum_size(),
                match accept_encoding {
                    Some(b) => Some(b@),
                    None => None,
                },
                response_view(response),
            ),
    {
        let ResponseParts { status, headers, body } = response;
        let accepts = accepts_gzip(accept_encoding);
        let encoded = header_value(headers.as_slice(), CONTENT_ENCODING).is_some();
        let stream = is_event_stream(header_value(headers.as_slice(), CONTENT_TYPE));
        if self.passes_through(accepts, encoded, stream) {
            return ResponseParts { status, headers, body };
        }
        match self.compress(body.as_slice()) {
            None => ResponseParts { status, headers, body },
            Some(c) => {
                let ghost h0 = headers_view(headers@);
                let mut h = drop_header(headers, CONTENT_LENGTH);
                let ghost d = headers_view(h@);
                h.push((CONTENT_ENCODING.to_string(), bytes_of(GZIP)));
                h.push((CONTENT_LENGTH.to_string(), bytes_of(c.content_length.as_str())));
                h.push((VARY.to_string(), bytes_of(ACCEPT_ENCODING_TOKEN)));
                assert(headers_view(h@) =~= gzip_headers(h0, c.body@.len()));
                ResponseParts { status, headers: h, body: c.body }
            },
        }
    }

    /// The layer's stable name.
    pub fn name(&self) -> (name: &'static str)
        ensures
            name@ == "Compression"@,
    {
        "Compression"
    }

    /// A second compression layer is a configuration error.
    pub fn duplicate_policy(&self) -> (policy: DuplicatePolicy)
        ensures
            policy == DuplicatePolicy::Reject,
    {
        DuplicatePolicy::Reject
    }
}


/// No header of `h` from position `from` on is named `name` (ignoring ASCII case).
pub open spec fn unnamed_from(h: Seq<(Seq<char>, Seq<u8>)>, name: Seq<char>, from: int) -> bool {
    forall|i: int| from <= i < h.len() ==> lower_seq(#[trigger] h[i].0) != lower_seq(name)
}

proof fn lemma_lookup_none(h: Seq<(Seq<char>, Seq<u8>)>, name: Seq<char>, from: int)
    requires
        0 <= from <= h.len(),
    ensures
        (header_lookup(h, name, from) is None) == unnamed_from(h, name, from),
    decreases h.len() - from,
{
    if from < h.len() {
        lemma_lookup_none(h, name, from + 1);
    }
}

proof fn lemma_drop_named_unnamed(h: Seq<(Seq<char>, Seq<u8>)>, m: Seq<char>, n: Seq<char>)
    requires
        unnamed_from(h, n, 0) || lower_seq(m) == lower_seq(n),
    ensures
        unnamed_from(drop_named(h, m), n, 0),
    decreases h.len(),
{
    if h.len() > 0 {
        let d = h.drop_last();
        assert(unnamed_from(h, n, 0) ==> unnamed_from(d, n, 0)) by {
            assert forall|i: int| 0 <= i < d.len() implies lower_seq(#[trigger] d[i].0) != lower_seq(n) || !unnamed_from(h, n, 0) by {
                assert(d[i] == h[i]);
            }
        }
        lemma_drop_named_unnamed(d, m, n);
        let r = drop_named(d, m);
        if lower_seq(h.last().0) != lower_seq(m) {
            assert forall|i: int| 0 <= i < r.push(h.last()).len() implies lower_seq(#[trigger] r.push(h.last())[i].0) != lower_seq(n) by {
                if i < r.len() {
                    assert(r.push(h.last())[i] == r[i]);
                } else {
                    assert(h.last() == h[h.len() - 1]);
                }
            }
        }
    }
}

proof fn lemma_lookup_shift(a: Seq<(Seq<char>, Seq<u8>)>, b: Seq<(Seq<char>, Seq<u8>)>, name: Seq<char>, j: int)
    requires
        0 <= j <= b.len(),
    ensures
        header_lookup(a + b, name, a.len() + j) == header_lookup(b, name, j),
    decreases b.len() - j,
{
    if j < b.len() {
        assert((a + b)[a.len() + j] == b[j]);
        lemma_lookup_shift(a, b, name, j + 1);
    }
}

proof fn lemma_lookup_skips(a: Seq<(Seq<char>, Seq<u8>)>, b: Seq<(Seq<char>, Seq<u8>)>, name: Seq<char>, k: int)
    requires
        0 <= k <= a.len(),
        unnamed_from(a, name, 0),
    ensures
        header_lookup(a + b, name, k) == header_lookup(b, name, 0),
    decreases a.len() - k,
{
    if k < a.len() {
        assert((a + b)[k] == a[k]);
        lemma_lookup_skips(a, b, name, k + 1);
    } else {
        lemma_lookup_shift(a, b, name, 0);
    }
}

/// A compressed response declares its encoding: it keeps its status, its body
/// is the gzip encoding of the original body, its `Content-Encoding` is `gzip`,
/// its `Content-Length` is the compressed body's length, and it varies on
/// `Accept-Encoding`. Every other response goes out unchanged.
pub proof fn law_compressed_response_declares_its_encoding(
    gzip: bool,
    minimum_size: usize,
    accept_encoding: Option<Seq<u8>>,
    r: (u16, Seq<(Seq<char>, Seq<u8>)>, Seq<u8>),
)
    ensures
        spec_unchanged(gzip, minimum_size, accept_encoding, r.1, r.2) ==> spec_respond(
            gzip,
            minimum_size,
            accept_encoding,
            r,
        ) == r,
        !spec_unchanged(gzip, minimum_size, accept_encoding, r.1, r.2) ==> {
            let out = spec_respond(gzip, minimum_size, accept_encoding, r);
            &&& out.0 == r.0
            &&& gzip_encoded(r.2) == Some(out.2)
            &&& header_lookup(out.1, CONTENT_ENCODING@, 0) == Some(ascii_bytes(GZIP@))
            &&& header_lookup(out.1, CONTENT_LENGTH@, 0) == Some(ascii_bytes(decimal(out.2.len())))
            &&& out.1.contains((VARY@, ascii_bytes(ACCEPT_ENCODING_TOKEN@)))
        },
{
    if !spec_unchanged(gzip, minimum_size, accept_encoding, r.1, r.2) {
        let z = gzip_encoded(r.2)->0;
        let d = drop_named(r.1, CONTENT_LENGTH@);
        let tail = seq![
            (CONTENT_ENCODING@, ascii_bytes(GZIP@)),
            (CONTENT_LENGTH@, ascii_bytes(decimal(z.len()))),
            (VARY@, ascii_bytes(ACCEPT_ENCODING_TOKEN@)),
        ];
        let out = gzip_headers(r.1, z.len());
        assert(out == d + tail);
        lemma_lookup_none(r.1, CONTENT_ENCODING@, 0);
        lemma_drop_named_unnamed(r.1, CONTENT_LENGTH@, CONTENT_ENCODING@);
        lemma_drop_named_unnamed(r.1, CONTENT_LENGTH@, CONTENT_LENGTH@);
        lemma_lookup_skips(d, tail, CONTENT_ENCODING@, 0);
        lemma_lookup_skips(d, tail, CONTENT_LENGTH@, 0);
        reveal_strlit("content-encoding");
        reveal_strlit("content-length");
        assert(lower_seq(CONTENT_ENCODING@).len() != lower_seq(CONTENT_LENGTH@).len());
        assert(header_lookup(tail, CONTENT_LENGTH@, 1) == Some(ascii_bytes(decimal(z.len()))));
        assert(out[d.len() + 2int] == (VARY@, ascii_bytes(ACCEPT_ENCODING_TOKEN@)));
    }
}

} // verus!
