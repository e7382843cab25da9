//! HTTP header value rules: which text a header value may carry, and the text
//! a received header value reads as.

use vstd::prelude::*;
use crate::text::{push_char, to_chars};

verus! {

/// A character a header value may carry: a tab, or anything from the space on
/// except DEL (characters beyond ASCII are encoded as bytes from 0x80 on, which
/// are accepted as opaque bytes).
pub open spec fn valid_header_char(c: char) -> bool {
    c == '\t' || (c >= ' ' && c != '\u{7f}')
}

/// Every character of `s` may stand in a header value (`HeaderValue::from_str`
/// succeeds exactly on such text).
pub open spec fn valid_header_text(s: Seq<char>) -> bool {
    forall|i: int| 0 <= i < s.len() ==> valid_header_char(#[trigger] s[i])
}

/// A byte that reads as text in a header value: visible ASCII or a tab.
pub open spec fn visible_ascii(b: u8) -> bool {
    (32 <= b && b < 127) || b == 9
}

/// The text of a sequence of ASCII bytes.
pub open spec fn ascii_text(bytes: Seq<u8>) -> Seq<char> {
    Seq::new(bytes.len(), |i: int| bytes[i] as char)
}

/// The text a received header value reads as (`HeaderValue::to_str`): present
/// only when every byte is visible ASCII or a tab.
pub open spec fn spec_header_text(bytes: Seq<u8>) -> Option<Seq<char>> {
    if forall|i: int| 0 <= i < bytes.len() ==> visible_ascii(#[trigger] bytes[i]) {
        Some(ascii_text(bytes))
    } else {
        None
    }
}

/// Whether `s` may be used as a header value.
pub fn header_value_ok(s: &str) -> (ok: bool)
    ensures
        ok == valid_header_text(s@),
{
    let chars = to_chars(s);
    let mut i: usize = 0;
    while i < chars.len()
        invariant
            chars@ == s@,
            i <= chars@.len(),
            forall|j: int| 0 <= j < i ==> valid_header_char(#[trigger] s@[j]),
        decreases chars.len() - i,
    {
        let c = chars[i];
        if !(c == '\t' || (c >= ' ' && c != '\u{7f}')) {
            return false;
        }
        i = i + 1;
    }
    true
}

/// Reads a received header value as text: `None` unless every byte is visible
/// ASCII or a tab.
pub fn header_text(bytes: &[u8]) -> (text: Option<String>)
    ensures
        match text {
            Some(t) => spec_header_text(bytes@) == Some(t@),
            None => spec_header_text(bytes@) is None,
        },
{
    let mut out = String::new();
    let mut i: usize = 0;
    while i < bytes.len()
        invariant
            i <= bytes@.len(),
            forall|j: int| 0 <= j < i ==> visible_ascii(#[trigger] bytes@[j]),
            out@ == ascii_text(bytes@.subrange(0, i as int)),
        decreases bytes.len() - i,
    {
        let b = bytes[i];
        if !((32 <= b && b < 127) || b == 9) {
            return None;
        }
        push_char(&mut out, b as char);
        i = i + 1;
        assert(out@ =~= ascii_text(bytes@.subrange(0, i as int)));
    }
    assert(bytes@.subrange(0, bytes@.len() as int) =~= bytes@);
    Some(out)
}

/// A header value read as text can be written back as a header value: every
/// character of the text it reads as may stand in one.
pub proof fn law_header_text_can_be_written_back(bytes: Seq<u8>)
    requires
        spec_header_text(bytes) is Some,
    ensures
        valid_header_text(spec_header_text(bytes)->0),
{
    assert forall|i: int| 0 <= i < ascii_text(bytes).len() implies valid_header_char(
        #[trigger] ascii_text(bytes)[i],
    ) by {
        assert(visible_ascii(bytes[i]));
        let b = bytes[i];
        assert(b == 9 ==> (b as char) == '\t');
    }
}

} // verus!
