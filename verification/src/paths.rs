//! Request-path normalization and route-path joining.
//!
//! Registered route paths drop their trailing slash (except the root `/`), so an
//! incoming path is retried with trailing slashes trimmed and with runs of
//! slashes collapsed before a route is reported as missing.

use vstd::prelude::*;
use crate::text::{has_substring, occurs_at, string_of, string_of_range, to_chars, contains_chars};

verus! {

/// `s` with every trailing `c` removed (`str::trim_end_matches`).
pub open spec fn trim_end(s: Seq<char>, c: char) -> Seq<char>
    decreases s.len(),
{
    if s.len() > 0 && s.last() == c {
        trim_end(s.drop_last(), c)
    } else {
        s
    }
}

/// `s` with every leading `c` removed (`str::trim_start_matches`).
pub open spec fn trim_start(s: Seq<char>, c: char) -> Seq<char>
    decreases s.len(),
{
    if s.len() > 0 && s[0] == c {
        trim_start(s.drop_first(), c)
    } else {
        s
    }
}

/// The root path `/`.
pub open spec fn root() -> Seq<char> {
    seq!['/']
}

/// What [`normalized_request_path`] returns: `None` for the root or a path
/// without a trailing slash; otherwise the path without its trailing slashes, or
/// the root when nothing is left.
pub open spec fn spec_normalized(path: Seq<char>) -> Option<Seq<char>> {
    if path == root() || !(path.len() > 0 && path.last() == '/') {
        None
    } else {
        let trimmed = trim_end(path, '/');
        Some(if trimmed.len() == 0 { root() } else { trimmed })
    }
}

/// `s` with every `/` that directly follows another `/` removed, so each run of
/// slashes becomes a single slash.
pub open spec fn squeeze(s: Seq<char>) -> Seq<char>
    decreases s.len(),
{
    if s.len() == 0 {
        s
    } else if s.len() >= 2 && s.last() == '/' && s[s.len() - 2] == '/' {
        squeeze(s.drop_last())
    } else {
        squeeze(s.drop_last()).push(s.last())
    }
}

/// A path rooted at `/` built from the non-empty `/`-separated segments of
/// `path`, in order, joined by single slashes.
pub open spec fn spec_collapsed(path: Seq<char>) -> Seq<char> {
    let q = squeeze(path);
    let rooted = if q.len() > 0 && q[0] == '/' { q } else { root() + q };
    if rooted.len() > 1 && rooted.last() == '/' {
        rooted.drop_last()
    } else {
        rooted
    }
}

/// What [`collapse_double_slashes`] returns: `None` when the path holds no `//`.
pub open spec fn spec_collapse(path: Seq<char>) -> Option<Seq<char>> {
    if !has_substring(path, seq!['/', '/']) {
        None
    } else {
        Some(spec_collapsed(path))
    }
}

/// What [`join_paths`] returns: the prefix without trailing slashes, then (when
/// the path is not only slashes) one slash and the path without leading slashes;
/// rooted at `/`, with trailing slashes removed except for the root itself.
pub open spec fn spec_join(prefix: Seq<char>, path: Seq<char>) -> Seq<char> {
    let head = trim_end(prefix, '/');
    let tail = trim_start(path, '/');
    let combined = if tail.len() > 0 { head + seq!['/'] + tail } else { head };
    let rooted = if combined.len() > 0 && combined[0] == '/' { combined } else { root() + combined };
    let normalized = trim_end(rooted, '/');
    if normalized.len() == 0 { root() } else { normalized }
}

/// A trimmed prefix: trimming the trailing `c`s of a prefix that stops at a
/// non-`c` character (or at the start) changes nothing further.
proof fn lemma_trim_end_prefix(s: Seq<char>, c: char, e: int)
    requires
        0 <= e <= s.len(),
        forall|k: int| e <= k < s.len() ==> s[k] == c,
    ensures
        trim_end(s, c) == trim_end(s.subrange(0, e), c),
    decreases s.len() - e,
{
    if e < s.len() {
        assert(s.drop_last() =~= s.subrange(0, s.len() - 1));
        lemma_trim_end_prefix(s.drop_last(), c, e);
        assert(s.drop_last().subrange(0, e) =~= s.subrange(0, e));
    } else {
        assert(s.subrange(0, e) =~= s);
    }
}

/// Trimming the trailing `c`s of `s`: the number of characters kept.
pub fn trim_end_index(s: &[char], c: char) -> (e: usize)
    ensures
        e <= s@.len(),
        trim_end(s@, c) == s@.subrange(0, e as int),
{
    let mut e: usize = s.len();
    while e > 0 && s[e - 1] == c
        invariant
            e <= s.len(),
            forall|k: int| e <= k < s@.len() ==> s@[k] == c,
        decreases e,
    {
        e = e - 1;
    }
    proof {
        lemma_trim_end_prefix(s@, c, e as int);
        let t = s@.subrange(0, e as int);
        assert(!(t.len() > 0 && t.last() == c));
    }
    e
}

/// Trimming the leading `c`s of `s` (skipping `from` characters): the position
/// of the first character kept.
proof fn lemma_trim_start_suffix(s: Seq<char>, c: char, b: int)
    requires
        0 <= b <= s.len(),
        forall|k: int| 0 <= k < b ==> s[k] == c,
    ensures
        trim_start(s, c) == trim_start(s.subrange(b, s.len() as int), c),
    decreases b,
{
    if b > 0 {
        assert(s.drop_first() =~= s.subrange(1, s.len() as int));
        lemma_trim_start_suffix(s.drop_first(), c, b - 1);
        assert(s.drop_first().subrange(b - 1, s.drop_first().len() as int) =~= s.subrange(b, s.len() as int));
    } else {
        assert(s.subrange(0, s.len() as int) =~= s);
    }
}

/// Trimming the leading `c`s of `s`: the position of the first character kept.
pub fn trim_start_index(s: &[char], c: char) -> (b: usize)
    ensures
        b <= s@.len(),
        trim_start(s@, c) == s@.subrange(b as int, s@.len() as int),
{
    let mut b: usize = 0;
    while b < s.len() && s[b] == c
        invariant
            b <= s.len(),
            forall|k: int| 0 <= k < b ==> s@[k] == c,
        decreases s.len() - b,
    {
        b = b + 1;
    }
    proof {
        lemma_trim_start_suffix(s@, c, b as int);
        let t = s@.subrange(b as int, s@.len() as int);
        assert(!(t.len() > 0 && t[0] == c));
    }
    b
}

/// Returns the trailing-slash-trimmed form of `path` when normalization is
/// needed, or `None` when the path is the root or has no trailing slash.
pub fn normalized_request_path(path: &str) -> (r: Option<String>)
    ensures
        match r {
            Some(s) => spec_normalized(path@) == Some(s@),
            None => spec_normalized(path@) is None,
        },
{
    let chars = to_chars(path);
    let n = chars.len();
    let is_root = n == 1 && chars[0] == '/';
    if is_root {
        assert(path@ =~= root());
    } else {
        assert(path@ != root());
    }
    if is_root || !(n > 0 && chars[n - 1] == '/') {
        return None;
    }
    let e = trim_end_index(chars.as_slice(), '/');
    if e == 0 {
        Some(string_of(&['/']))
    } else {
        Some(string_of_range(chars.as_slice(), 0, e))
    }
}

/// `squeeze` of one more character, unfolded.
proof fn lemma_squeeze_step(s: Seq<char>, i: int)
    requires
        0 <= i < s.len(),
    ensures
        squeeze(s.subrange(0, i + 1)) == if i >= 1 && s[i] == '/' && s[i - 1] == '/' {
            squeeze(s.subrange(0, i))
        } else {
            squeeze(s.subrange(0, i)).push(s[i])
        },
{
    let t = s.subrange(0, i + 1);
    assert(t.drop_last() =~= s.subrange(0, i));
}

/// Collapses consecutive slashes in `path` into a single `/`, rooting the result
/// at `/` and dropping a trailing slash. Returns `None` when the path holds no
/// `//` (the common case).
///
/// For example `//api//users` becomes `/api/users`.
pub fn collapse_double_slashes(path: &str) -> (r: Option<String>)
    ensures
        match r {
            Some(s) => spec_collapse(path@) == Some(s@),
            None => spec_collapse(path@) is None,
        },
{
    let chars = to_chars(path);
    let pattern: [char; 2] = ['/', '/'];
    let found = contains_chars(chars.as_slice(), &pattern);
    assert(pattern@ =~= seq!['/', '/']);
    if !found {
        return None;
    }
    let mut out: Vec<char> = Vec::new();
    let mut i: usize = 0;
    while i < chars.len()
        invariant
            i <= chars.len(),
            chars@ == path@,
            out@ == squeeze(chars@.subrange(0, i as int)),
        decreases chars.len() - i,
    {
        proof {
            lemma_squeeze_step(chars@, i as int);
        }
        let c = chars[i];
        if !(i >= 1 && c == '/' && chars[i - 1] == '/') {
            out.push(c);
        }
        i = i + 1;
    }
    assert(chars@.subrange(0, chars@.len() as int) =~= chars@);
    let mut rooted: Vec<char> = Vec::new();
    if !(out.len() > 0 && out[0] == '/') {
        rooted.push('/');
    }
    let mut k: usize = 0;
    let ghost start = rooted@;
    while k < out.len()
        invariant
            k <= out.len(),
            rooted@ == start + out@.subrange(0, k as int),
        decreases out.len() - k,
    {
        rooted.push(out[k]);
        k = k + 1;
        assert(rooted@ =~= start + out@.subrange(0, k as int));
    }
    assert(out@.subrange(0, out@.len() as int) =~= out@);
    let ghost q = squeeze(path@);
    assert(start + out@ =~= (if q.len() > 0 && q[0] == '/' { q } else { root() + q }));
    let n = rooted.len();
    if n > 1 && rooted[n - 1] == '/' {
        let s = string_of_range(rooted.as_slice(), 0, n - 1);
        assert(rooted@.subrange(0, n - 1) =~= rooted@.drop_last());
        Some(s)
    } else {
        Some(string_of(rooted.as_slice()))
    }
}

/// Joins a prefix and a path into a single normalized route path.
///
/// The boundary between the two is collapsed to a single slash, the result is
/// rooted at `/`, and a trailing slash is removed except for the root path.
pub fn join_paths(prefix: &str, path: &str) -> (joined: String)
    ensures
        joined@ == spec_join(prefix@, path@),
{
    let p = to_chars(prefix);
    let q = to_chars(path);
    let head_end = trim_end_index(p.as_slice(), '/');
    let tail_start = trim_start_index(q.as_slice(), '/');
    let ghost head = p@.subrange(0, head_end as int);
    let ghost tail = q@.subrange(tail_start as int, q@.len() as int);
    let mut combined: Vec<char> = Vec::new();
    let mut i: usize = 0;
    while i < head_end
        invariant
            i <= head_end <= p.len(),
            combined@ == p@.subrange(0, i as int),
        decreases head_end - i,
    {
        combined.push(p[i]);
        i = i + 1;
        assert(combined@ =~= p@.subrange(0, i as int));
    }
    if tail_start < q.len() {
        combined.push('/');
        let ghost mid = combined@;
        let mut j: usize = tail_start;
        while j < q.len()
            invariant
                tail_start <= j <= q.len(),
                combined@ == mid + q@.subrange(tail_start as int, j as int),
            decreases q.len() - j,
        {
            combined.push(q[j]);
            j = j + 1;
            assert(combined@ =~= mid + q@.subrange(tail_start as int, j as int));
        }
        assert(combined@ =~= head + seq!['/'] + tail);
    } else {
        assert(combined@ =~= head);
    }
    let mut rooted: Vec<char> = Vec::new();
    if !(combined.len() > 0 && combined[0] == '/') {
        rooted.push('/');
    }
    let ghost start = rooted@;
    let mut k: usize = 0;
    while k < combined.len()
        invariant
            k <= combined.len(),
            rooted@ == start + combined@.subrange(0, k as int),
        decreases combined.len() - k,
    {
        rooted.push(combined[k]);
        k = k + 1;
        assert(rooted@ =~= start + combined@.subrange(0, k as int));
    }
    assert(combined@.subrange(0, combined@.len() as int) =~= combined@);
    let e = trim_end_index(rooted.as_slice(), '/');
    if e == 0 {
        string_of(&['/'])
    } else {
        string_of_range(rooted.as_slice(), 0, e)
    }
}

proof fn lemma_trim_end_shape(s: Seq<char>, c: char)
    ensures
        trim_end(s, c).len() == 0 || trim_end(s, c).last() != c,
        trim_end(s, c).len() <= s.len(),
        forall|i: int| 0 <= i < trim_end(s, c).len() ==> trim_end(s, c)[i] == s[i],
    decreases s.len(),
{
    if s.len() > 0 && s.last() == c {
        lemma_trim_end_shape(s.drop_last(), c);
        assert forall|i: int| 0 <= i < trim_end(s, c).len() implies trim_end(s, c)[i] == s[i] by {
            assert(s.drop_last()[i] == s[i]);
        }
    }
}

/// A joined route path is normalized: it starts with `/`, and it is either
/// the root `/` or does not end with `/`.
pub proof fn law_joined_path_is_normalized(prefix: Seq<char>, path: Seq<char>)
    ensures
        spec_join(prefix, path).len() > 0,
        spec_join(prefix, path)[0] == '/',
        spec_join(prefix, path) == root() || spec_join(prefix, path).last() != '/',
{
    let head = trim_end(prefix, '/');
    let tail = trim_start(path, '/');
    let combined = if tail.len() > 0 { head + seq!['/'] + tail } else { head };
    let rooted = if combined.len() > 0 && combined[0] == '/' { combined } else { root() + combined };
    lemma_trim_end_shape(rooted, '/');
    assert(rooted[0] == '/');
    let normalized = trim_end(rooted, '/');
    if normalized.len() > 0 {
        assert(normalized[0] == rooted[0]);
    }
}

/// A normalized request path never ends with `/`, unless it is the root, so
/// normalizing it again changes nothing.
pub proof fn law_normalized_path_has_no_trailing_slash(path: Seq<char>)
    ensures
        spec_normalized(path) matches Some(n) ==> (n == root() || (n.len() > 0 && n.last() != '/')),
        spec_normalized(path) matches Some(n) ==> spec_normalized(n) is None,
{
    lemma_trim_end_shape(path, '/');
}

/// No slash in `s` directly follows another slash.
pub open spec fn single_slashed(s: Seq<char>) -> bool {
    forall|k: int| 0 <= k && k + 1 < s.len() ==> !(#[trigger] s[k] == '/' && s[k + 1] == '/')
}

/// Squeezing keeps the last character and leaves no slash after a slash.
proof fn lemma_squeeze_single_slashed(s: Seq<char>)
    ensures
        single_slashed(squeeze(s)),
        s.len() > 0 ==> squeeze(s).len() > 0 && squeeze(s).last() == s.last(),
    decreases s.len(),
{
    if s.len() > 0 {
        let d = s.drop_last();
        lemma_squeeze_single_slashed(d);
        if s.len() >= 2 && s.last() == '/' && s[s.len() - 2] == '/' {
            assert(d.last() == s[s.len() - 2]);
        } else {
            let q = squeeze(d);
            let r = q.push(s.last());
            assert forall|k: int| 0 <= k && k + 1 < r.len() implies !(#[trigger] r[k] == '/' && r[k + 1] == '/') by {
                if k + 1 < q.len() {
                    assert(r[k] == q[k] && r[k + 1] == q[k + 1]);
                } else {
                    assert(k == q.len() - 1);
                    assert(q.len() > 0);
                    assert(d.len() > 0);
                    assert(d.last() == s[s.len() - 2]);
                    assert(r[k] == q.last());
                }
            }
        }
    }
}

/// "//" occurs nowhere in a single-slashed sequence.
proof fn lemma_single_slashed_has_no_double(s: Seq<char>)
    requires
        single_slashed(s),
    ensures
        !has_substring(s, seq!['/', '/']),
{
    if has_substring(s, seq!['/', '/']) {
        let i = choose|i: int| occurs_at(s, seq!['/', '/'], i);
        assert(s.subrange(i, i + 2)[0] == s[i]);
        assert(s.subrange(i, i + 2)[1] == s[i + 1]);
        assert(s[i] == '/');
    }
}

/// A collapsed path holds no `//`, so collapsing it again changes nothing.
pub proof fn law_collapsed_path_has_no_double_slash(path: Seq<char>)
    ensures
        spec_collapse(path) matches Some(c) ==> spec_collapse(c) is None,
{
    let q = squeeze(path);
    lemma_squeeze_single_slashed(path);
    let rooted = if q.len() > 0 && q[0] == '/' { q } else { root() + q };
    assert(single_slashed(rooted)) by {
        if !(q.len() > 0 && q[0] == '/') {
            assert forall|k: int| 0 <= k && k + 1 < rooted.len() implies !(#[trigger] rooted[k] == '/' && rooted[k + 1] == '/') by {
                if k == 0 {
                    assert(rooted[1] == q[0]);
                } else {
                    assert(rooted[k] == q[k - 1] && rooted[k + 1] == q[k]);
                }
            }
        }
    }
    let c = spec_collapsed(path);
    assert(single_slashed(c)) by {
        if rooted.len() > 1 && rooted.last() == '/' {
            assert forall|k: int| 0 <= k && k + 1 < c.len() implies !(#[trigger] c[k] == '/' && c[k + 1] == '/') by {
                assert(c[k] == rooted[k] && c[k + 1] == rooted[k + 1]);
            }
        }
    }
    lemma_single_slashed_has_no_double(c);
}

// ---------------------------------------------------------------------------
// Composition of joins
// ---------------------------------------------------------------------------

/// `a`, then (when `b` is not empty) a slash and `b`.
pub open spec fn slash_glue(a: Seq<char>, b: Seq<char>) -> Seq<char> {
    if b.len() > 0 {
        a + seq!['/'] + b
    } else {
        a
    }
}

/// A path rooted at `/`: the root for the empty text, else the text with a
/// `/` put in front unless it starts with one.
pub open spec fn rooted_path(s: Seq<char>) -> Seq<char> {
    if s.len() == 0 {
        root()
    } else if s[0] == '/' {
        s
    } else {
        root() + s
    }
}

/// `s` without leading or trailing slashes.
pub open spec fn inner_part(s: Seq<char>) -> Seq<char> {
    trim_end(trim_start(s, '/'), '/')
}

/// Trimming trailing slashes keeps a prefix followed by slashes only.
proof fn lemma_trim_end_split(s: Seq<char>)
    ensures
        trim_end(s, '/').len() <= s.len(),
        s == trim_end(s, '/') + s.subrange(trim_end(s, '/').len() as int, s.len() as int),
        forall|k: int| trim_end(s, '/').len() <= k < s.len() ==> s[k] == '/',
    decreases s.len(),
{
    if s.len() > 0 && s.last() == '/' {
        let d = s.drop_last();
        lemma_trim_end_split(d);
        let t = trim_end(s, '/');
        assert(t == trim_end(d, '/'));
        assert forall|k: int| t.len() <= k < s.len() implies s[k] == '/' by {
            if k < d.len() {
                assert(s[k] == d[k]);
            }
        }
        assert forall|i: int| 0 <= i < t.len() implies s[i] == t[i] by {
            assert(d[i] == (t + d.subrange(t.len() as int, d.len() as int))[i]);
            assert(s[i] == d[i]);
        }
        assert(s =~= t + s.subrange(t.len() as int, s.len() as int));
    } else {
        assert(s =~= s + s.subrange(s.len() as int, s.len() as int));
    }
}

/// Trimming leading slashes keeps a suffix preceded by slashes only.
proof fn lemma_trim_start_split(s: Seq<char>)
    ensures
        trim_start(s, '/').len() <= s.len(),
        s == s.subrange(0, s.len() - trim_start(s, '/').len()) + trim_start(s, '/'),
        forall|k: int| 0 <= k < s.len() - trim_start(s, '/').len() ==> s[k] == '/',
        trim_start(s, '/').len() == 0 || trim_start(s, '/')[0] != '/',
    decreases s.len(),
{
    if s.len() > 0 && s[0] == '/' {
        let d = s.drop_first();
        lemma_trim_start_split(d);
        let t = trim_start(s, '/');
        assert(t == trim_start(d, '/'));
        let n = s.len() - t.len();
        assert forall|k: int| 0 <= k < n implies s[k] == '/' by {
            if k > 0 {
                assert(s[k] == d[k - 1]);
            }
        }
        assert forall|i: int| 0 <= i < t.len() implies s[n + i] == t[i] by {
            assert(d[n - 1 + i] == (d.subrange(0, d.len() - t.len()) + t)[n - 1 + i]);
            assert(s[n + i] == d[n - 1 + i]);
        }
        assert(s =~= s.subrange(0, n) + t);
    } else {
        assert(s =~= s.subrange(0, 0) + s);
    }
}

/// Trailing slashes of a concatenation: those of the second part, or, when
/// the second part is only slashes, those of the first part too.
proof fn lemma_trim_end_concat(a: Seq<char>, b: Seq<char>)
    ensures
        trim_end(a + b, '/') == if trim_end(b, '/').len() > 0 {
            a + trim_end(b, '/')
        } else {
            trim_end(a, '/')
        },
    decreases b.len(),
{
    if b.len() == 0 {
        assert(a + b =~= a);
    } else if b.last() == '/' {
        assert((a + b).drop_last() =~= a + b.drop_last());
        lemma_trim_end_concat(a, b.drop_last());
    } else {
        assert((a + b).last() == b.last());
    }
}

/// Leading slashes of a concatenation: those of the first part, or, when the
/// first part is only slashes, those of the second part too.
proof fn lemma_trim_start_concat(a: Seq<char>, b: Seq<char>)
    ensures
        trim_start(a + b, '/') == if trim_start(a, '/').len() > 0 {
            trim_start(a, '/') + b
        } else {
            trim_start(b, '/')
        },
    decreases a.len(),
{
    if a.len() == 0 {
        assert(a + b =~= b);
    } else if a[0] == '/' {
        assert((a + b).drop_first() =~= a.drop_first() + b);
        lemma_trim_start_concat(a.drop_first(), b);
    } else {
        assert((a + b)[0] == a[0]);
    }
}

/// A text that does not end with a slash has nothing to trim at its end.
proof fn lemma_trim_end_none(s: Seq<char>)
    requires
        s.len() == 0 || s.last() != '/',
    ensures
        trim_end(s, '/') == s,
{
}

/// Trimming both ends gives the same text in either order.
proof fn lemma_trims_commute(s: Seq<char>)
    ensures
        trim_end(trim_start(s, '/'), '/') == trim_start(trim_end(s, '/'), '/'),
{
    let h = trim_end(s, '/');
    lemma_trim_end_split(s);
    let tail = s.subrange(h.len() as int, s.len() as int);
    lemma_trim_start_suffix(tail, '/', tail.len() as int);
    assert(tail.subrange(tail.len() as int, tail.len() as int) =~= Seq::<char>::empty());
    lemma_trim_end_prefix(tail, '/', 0);
    assert(tail.subrange(0, 0) =~= Seq::<char>::empty());
    lemma_trim_start_concat(h, tail);
    let lh = trim_start(h, '/');
    if lh.len() > 0 {
        lemma_trim_end_concat(lh, tail);
        lemma_trim_start_split(h);
        lemma_trim_end_shape(s, '/');
        assert(lh.last() == h.last());
        lemma_trim_end_none(lh);
    }
}

/// The inner part of a text neither starts nor ends with a slash.
proof fn lemma_inner_part_shape(s: Seq<char>)
    ensures
        inner_part(s).len() == 0 || (inner_part(s)[0] != '/' && inner_part(s).last() != '/'),
{
    let l = trim_start(s, '/');
    lemma_trim_start_split(s);
    lemma_trim_end_shape(l, '/');
    if inner_part(s).len() > 0 {
        assert(inner_part(s)[0] == l[0]);
    }
}

/// A text with a slash in front: the same text once slashes are trimmed from
/// the front.
proof fn lemma_trim_start_slash(s: Seq<char>)
    ensures
        trim_start(root() + s, '/') == trim_start(s, '/'),
{
    assert((root() + s).drop_first() =~= s);
}

/// Rooting a longer text roots its first part.
proof fn lemma_rooted_append(a: Seq<char>, r: Seq<char>)
    requires
        a.len() > 0,
    ensures
        rooted_path(a + r) == rooted_path(a) + r,
{
    assert((a + r)[0] == a[0]);
    if a[0] != '/' {
        assert(root() + (a + r) =~= (root() + a) + r);
    }
}

/// A joined path is the rooted glue of the prefix without trailing slashes
/// and the inner part of the path.
proof fn lemma_join_form(prefix: Seq<char>, path: Seq<char>)
    ensures
        spec_join(prefix, path) == rooted_path(slash_glue(trim_end(prefix, '/'), inner_part(path))),
{
    let head = trim_end(prefix, '/');
    let tail = trim_start(path, '/');
    let inner = inner_part(path);
    lemma_trim_end_shape(prefix, '/');
    lemma_trim_start_split(path);
    lemma_inner_part_shape(path);
    let combined = slash_glue(head, tail);
    let rooted = if combined.len() > 0 && combined[0] == '/' { combined } else { root() + combined };
    let glued = slash_glue(head, inner);
    if tail.len() > 0 {
        // The tail starts with something other than a slash, so its inner part is not empty.
        lemma_trim_end_split(tail);
        assert(tail[0] != '/');
        if inner.len() == 0 {
            assert(tail[0] == '/');
        }
        lemma_trim_end_concat(head + seq!['/'], tail);
        assert(trim_end(combined, '/') == glued);
        if combined[0] == '/' {
            assert(rooted == combined);
            assert(glued[0] == combined[0]);
        } else {
            lemma_trim_end_concat(root(), combined);
            assert(glued[0] == combined[0]);
            assert(trim_end(rooted, '/') == root() + glued);
        }
    } else {
        assert(inner.len() == 0) by {
            assert(tail =~= Seq::<char>::empty());
        }
        assert(combined == head);
        assert(glued == head);
        if head.len() == 0 {
            assert(rooted =~= root());
            assert(trim_end(root(), '/') == trim_end(Seq::<char>::empty(), '/')) by {
                assert(root().drop_last() =~= Seq::<char>::empty());
            }
        } else {
            if head[0] == '/' {
                lemma_trim_end_none(head);
            } else {
                assert((root() + head).last() == head.last());
                lemma_trim_end_none(root() + head);
            }
        }
    }
}

/// Joining under an inner prefix and then under an outer one gives what
/// joining once under the two prefixes joined gives: nested routers compose
/// their prefixes.
#[verifier::spinoff_prover]
#[verifier::rlimit(40)]
pub proof fn law_nested_prefixes_compose(outer: Seq<char>, inner: Seq<char>, path: Seq<char>)
    ensures
        spec_join(outer, spec_join(inner, path)) == spec_join(spec_join(outer, inner), path),
{
    let hp = trim_end(outer, '/');
    let hc = trim_end(inner, '/');
    let bc = inner_part(inner);
    let bx = inner_part(path);
    lemma_trim_end_shape(outer, '/');
    lemma_trim_end_shape(inner, '/');
    lemma_inner_part_shape(inner);
    lemma_inner_part_shape(path);
    lemma_trims_commute(inner);
    // The path joined under the inner prefix, and its inner part.
    let s1 = slash_glue(hc, bx);
    let j1 = spec_join(inner, path);
    lemma_join_form(inner, path);
    assert(j1 == rooted_path(s1));
    let b1 = inner_part(j1);
    if s1.len() == 0 {
        assert(j1 == root());
        assert(trim_start(root(), '/') == Seq::<char>::empty()) by {
            reveal_with_fuel(trim_start, 2);
            assert(root().drop_first() =~= Seq::<char>::empty());
        }
        assert(b1 == Seq::<char>::empty());
        assert(trim_start(hc, '/') == Seq::<char>::empty()) by {
            if bx.len() > 0 {
                assert(s1.len() > 0);
            }
            assert(hc.len() == 0);
        }
    } else {
        assert(s1.last() != '/');
        if s1[0] == '/' {
            assert(j1 == s1);
        } else {
            lemma_trim_start_slash(s1);
        }
        assert(trim_start(j1, '/') == trim_start(s1, '/'));
        lemma_trim_start_split(s1);
        let l1 = trim_start(s1, '/');
        if l1.len() > 0 {
            assert(l1.last() == s1.last());
        }
        lemma_trim_end_none(l1);
        assert(b1 == trim_start(s1, '/'));
        // The leading slashes of the glue are those of the inner prefix.
        if bx.len() > 0 {
            lemma_trim_start_concat(hc, seq!['/'] + bx);
            assert(hc + seq!['/'] + bx =~= hc + (seq!['/'] + bx));
            lemma_trim_start_slash(bx);
            assert(root() + bx =~= seq!['/'] + bx);
            lemma_trim_start_split(bx);
            assert(trim_start(bx, '/') == bx) by {
                if bx.len() > 0 {
                    assert(bx[0] != '/');
                }
            }
        }
    }
    // The inner part of the first join glues the inner prefix's and the path's.
    assert(b1 == if bc.len() == 0 { bx } else { slash_glue(bc, bx) });
    // The two prefixes joined, and that without trailing slashes.
    let u = slash_glue(hp, bc);
    let k = spec_join(outer, inner);
    lemma_join_form(outer, inner);
    assert(k == rooted_path(u));
    lemma_join_form(outer, j1);
    lemma_join_form(k, path);
    if u.len() == 0 {
        assert(k == root());
        assert(trim_end(root(), '/') == Seq::<char>::empty()) by {
            reveal_with_fuel(trim_end, 2);
            assert(root().drop_last() =~= Seq::<char>::empty());
        }
        assert(hp.len() == 0 && bc.len() == 0);
    } else {
        assert(u.last() != '/');
        assert(k.last() == u.last()) by {
            if u[0] != '/' {
                assert((root() + u).last() == u.last());
            }
        }
        lemma_trim_end_none(k);
        if bc.len() > 0 && bx.len() > 0 {
            lemma_rooted_append(hp + seq!['/'] + bc, seq!['/'] + bx);
            assert(hp + seq!['/'] + (bc + seq!['/'] + bx) =~= (hp + seq!['/'] + bc) + (seq!['/'] + bx));
            assert(k + seq!['/'] + bx =~= k + (seq!['/'] + bx));
        } else if bc.len() == 0 && bx.len() > 0 {
            lemma_rooted_append(hp, seq!['/'] + bx);
            assert(hp + seq!['/'] + bx =~= hp + (seq!['/'] + bx));
            assert(k + seq!['/'] + bx =~= k + (seq!['/'] + bx));
        }
    }
}

} // verus!
