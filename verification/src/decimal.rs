//! Decimal rendering and parsing of unsigned integers.

use vstd::prelude::*;
use crate::text::to_chars;

verus! {

/// The decimal digit character of `d` (`0..=9`).
pub open spec fn digit_char(d: nat) -> char {
    ((d + 48) as u8) as char
}

/// The decimal rendering of `n`, without leading zeros (`0` renders as `0`).
pub open spec fn decimal(n: nat) -> Seq<char>
    decreases n,
{
    if n < 10 {
        seq![digit_char(n)]
    } else {
        decimal(n / 10).push(digit_char(n % 10))
    }
}

/// `c` is an ASCII decimal digit.
pub open spec fn is_digit(c: char) -> bool {
    '0' <= c && c <= '9'
}

/// The value of a digit character.
pub open spec fn digit_value(c: char) -> nat {
    ((c as u32) - 48) as nat
}

/// The value of a sequence of digit characters.
pub open spec fn digits_value(s: Seq<char>) -> nat
    decreases s.len(),
{
    if s.len() == 0 {
        0
    } else {
        digits_value(s.drop_last()) * 10 + digit_value(s.last())
    }
}

/// The number an unsigned-integer parse of `s` yields (as `u64::from_str`
/// reads it): an optional `+`, then one or more decimal digits.
pub open spec fn parsed_value(s: Seq<char>) -> Option<nat> {
    let body = unsigned_body(s);
    if body.len() > 0 && all_digits(body) {
        Some(digits_value(body))
    } else {
        None
    }
}

/// `s` without one leading `+`.
pub open spec fn unsigned_body(s: Seq<char>) -> Seq<char> {
    if s.len() > 0 && s[0] == '+' { s.drop_first() } else { s }
}

/// Every character of `s` is a decimal digit.
pub open spec fn all_digits(s: Seq<char>) -> bool {
    forall|i: int| 0 <= i < s.len() ==> is_digit(#[trigger] s[i])
}

proof fn lemma_decimal_step(n: nat)
    requires
        n >= 10,
    ensures
        decimal(n) == decimal(n / 10).push(digit_char(n % 10)),
{
}

/// Renders `n` in decimal (`u64::to_string`).
pub fn u64_to_decimal(n: u64) -> (s: String)
    ensures
        s@ == decimal(n as nat),
{
    let mut digits: Vec<char> = Vec::new();
    let mut m: u64 = n;
    // Collect the digits least significant first.
    while m >= 10
        invariant
            decimal(n as nat) == decimal(m as nat) + digits@.reverse(),
        decreases m,
    {
        let d: u8 = (m % 10) as u8;
        let c: char = (d + 48) as char;
        proof {
            lemma_decimal_step(m as nat);
        }
        let ghost old_digits = digits@;
        digits.push(c);
        assert(digits@.reverse() =~= seq![c] + old_digits.reverse());
        assert(decimal(m as nat) =~= decimal((m / 10) as nat) + seq![c]);
        m = m / 10;
    }
    let d: u8 = m as u8;
    let c: char = (d + 48) as char;
    let ghost old_digits = digits@;
    digits.push(c);
    assert(digits@.reverse() =~= seq![c] + old_digits.reverse());
    assert(decimal(m as nat) =~= seq![c]);
    assert(decimal(n as nat) =~= digits@.reverse());
    let mut s = String::new();
    let mut k: usize = digits.len();
    while k > 0
        invariant
            k <= digits@.len(),
            s@ == digits@.reverse().subrange(0, (digits@.len() - k) as int),
        decreases k,
    {
        k = k - 1;
        crate::text::push_char(&mut s, digits[k]);
        assert(s@ =~= digits@.reverse().subrange(0, (digits@.len() - k) as int));
    }
    assert(digits@.reverse().subrange(0, digits@.len() as int) =~= digits@.reverse());
    s
}

/// Parses an unsigned decimal integer from characters (`u64::from_str`):
/// an optional `+` followed by one or more digits; `None` when the text is not
/// of that form or the value does not fit below or at `max`.
pub fn parse_decimal(s: &[char], max: u64) -> (r: Option<u64>)
    ensures
        match r {
            Some(v) => parsed_value(s@) == Some(v as nat) && v <= max,
            None => parsed_value(s@) is None || parsed_value(s@).unwrap() > max,
        },
{
    let start: usize = if s.len() > 0 && s[0] == '+' { 1 } else { 0 };
    let ghost body = unsigned_body(s@);
    assert(body =~= s@.subrange(start as int, s@.len() as int));
    if start >= s.len() {
        return None;
    }
    let mut value: u64 = 0;
    let mut i: usize = start;
    let mut overflow = false;
    while i < s.len()
        invariant
            start <= i <= s@.len(),
            body == s@.subrange(start as int, s@.len() as int),
            body == unsigned_body(s@),
            forall|k: int| start <= k < i ==> is_digit(#[trigger] s@[k]),
            !overflow ==> value as nat == digits_value(s@.subrange(start as int, i as int)) && value <= max,
            overflow ==> digits_value(s@.subrange(start as int, i as int)) > max,
        decreases s@.len() - i,
    {
        let c = s[i];
        if !('0' <= c && c <= '9') {
            assert(!is_digit(body[i - start]));
            assert(!all_digits(body));
            return None;
        }
        let d: u64 = (c as u64) - 48;
        let ghost prefix = s@.subrange(start as int, i as int);
        let ghost next = s@.subrange(start as int, i + 1);
        assert(next.drop_last() =~= prefix);
        assert(next.last() == c);
        proof {
            assert(digit_value(c) == d as nat);
            if overflow {
                assert(digits_value(next) == digits_value(prefix) * 10 + d) ;
                assert(digits_value(prefix) * 10 >= digits_value(prefix)) by (nonlinear_arith);
            }
        }
        if !overflow {
            if d > max || value > (max - d) / 10 {
                overflow = true;
                proof {
                    assert(digits_value(next) == value * 10 + d);
                    assert(value * 10 + d > max) by (nonlinear_arith)
                        requires d > max || value > (max - d) / 10, d <= 9, value >= 0;
                }
            } else {
                proof {
                    assert(value * 10 + d <= max) by (nonlinear_arith)
                        requires value <= (max - d) / 10, d <= max;
                }
                value = value * 10 + d;
            }
        }
        i = i + 1;
    }
    assert(s@.subrange(start as int, s@.len() as int) =~= body);
    if overflow {
        None
    } else {
        Some(value)
    }
}

/// The message `u64::from_str` gives for an empty text.
pub const PARSE_EMPTY_MESSAGE: &'static str = "cannot parse integer from empty string";
/// The message `u64::from_str` gives for a character that is not a digit.
pub const PARSE_INVALID_DIGIT_MESSAGE: &'static str = "invalid digit found in string";
/// The message `u64::from_str` gives for a value past `u64::MAX`.
pub const PARSE_OVERFLOW_MESSAGE: &'static str = "number too large to fit in target type";

/// Reading the digits of `d` from position `i` on, with `v` read so far:
/// the first character that is not a digit is an invalid digit, and the first
/// digit that takes the value past `u64::MAX` an overflow.
pub open spec fn scan_digits(d: Seq<char>, i: int, v: nat) -> Result<u64, Seq<char>>
    decreases d.len() - i,
{
    if i < 0 || i >= d.len() {
        Ok(v as u64)
    } else if !is_digit(d[i]) {
        Err(PARSE_INVALID_DIGIT_MESSAGE@)
    } else if v * 10 + digit_value(d[i]) > u64::MAX {
        Err(PARSE_OVERFLOW_MESSAGE@)
    } else {
        scan_digits(d, i + 1, v * 10 + digit_value(d[i]))
    }
}

/// What `u64::from_str` gives for `s`: the value of an optional `+` followed by
/// decimal digits, or the text of its error (empty text; a character that is
/// not a digit, or a lone `+`; a value past `u64::MAX`), whichever the
/// left-to-right reading meets first.
pub open spec fn spec_parse_u64(s: Seq<char>) -> Result<u64, Seq<char>> {
    if s.len() == 0 {
        Err(PARSE_EMPTY_MESSAGE@)
    } else if unsigned_body(s).len() == 0 {
        Err(PARSE_INVALID_DIGIT_MESSAGE@)
    } else {
        scan_digits(unsigned_body(s), 0, 0)
    }
}

/// Parses an unsigned 64-bit integer as `u64::from_str` does, with its error
/// messages.
pub fn parse_u64(s: &str) -> (r: Result<u64, String>)
    ensures
        match r {
            Ok(v) => spec_parse_u64(s@) == Ok::<u64, Seq<char>>(v),
            Err(e) => spec_parse_u64(s@) == Err::<u64, Seq<char>>(e@),
        },
{
    let chars = to_chars(s);
    if chars.len() == 0 {
        return Err(PARSE_EMPTY_MESSAGE.to_string());
    }
    let start: usize = if chars[0] == '+' { 1 } else { 0 };
    let ghost body = unsigned_body(s@);
    assert(body =~= chars@.subrange(start as int, chars@.len() as int));
    if start >= chars.len() {
        return Err(PARSE_INVALID_DIGIT_MESSAGE.to_string());
    }
    let mut value: u64 = 0;
    let mut i: usize = start;
    while i < chars.len()
        invariant
            start <= i <= chars@.len(),
            chars@ == s@,
            body == chars@.subrange(start as int, chars@.len() as int),
            body == unsigned_body(s@),
            s@.len() > 0,
            body.len() > 0,
            scan_digits(body, 0, 0) == scan_digits(body, i - start, value as nat),
        decreases chars@.len() - i,
    {
        let c = chars[i];
        assert(body[i - start] == c);
        if !('0' <= c && c <= '9') {
            assert(!is_digit(body[i - start]));
            assert(scan_digits(body, i - start, value as nat) == Err::<u64, Seq<char>>(PARSE_INVALID_DIGIT_MESSAGE@));
            return Err(PARSE_INVALID_DIGIT_MESSAGE.to_string());
        }
        let d: u64 = (c as u64) - 48;
        assert(digit_value(c) == d as nat);
        if value > (u64::MAX - d) / 10 {
            assert(value * 10 + d > u64::MAX) by (nonlinear_arith)
                requires value > (u64::MAX - d) / 10, d <= 9;
            assert(scan_digits(body, i - start, value as nat) == Err::<u64, Seq<char>>(PARSE_OVERFLOW_MESSAGE@));
            return Err(PARSE_OVERFLOW_MESSAGE.to_string());
        }
        assert(value * 10 + d <= u64::MAX) by (nonlinear_arith)
            requires value <= (u64::MAX - d) / 10, d <= 9;
        value = value * 10 + d;
        i = i + 1;
    }
    Ok(value)
}

pub proof fn lemma_decimal_digits(n: nat)
    ensures
        decimal(n).len() > 0,
        all_digits(decimal(n)),
        digits_value(decimal(n)) == n,
    decreases n,
{
    if n < 10 {
        assert(decimal(n) =~= seq![digit_char(n)]);
        assert(seq![digit_char(n)].drop_last() =~= Seq::<char>::empty());
        let b: u8 = (n + 48) as u8;
        assert(b as nat == n + 48);
        let c: char = b as char;
        assert(c as u32 == b as u32);
        assert(digit_value(digit_char(n)) == n);
        assert(digits_value(decimal(n)) == digits_value(Seq::<char>::empty()) * 10 + digit_value(digit_char(n)));
    } else {
        lemma_decimal_digits(n / 10);
        let d = decimal(n);
        assert(d.drop_last() =~= decimal(n / 10));
        assert(n == (n / 10) * 10 + n % 10);
    }
}

/// Reading back a rendered number gives the number: parsing the decimal
/// rendering of `n` yields `n`.
pub proof fn law_decimal_round_trip(n: nat)
    ensures
        parsed_value(decimal(n)) == Some(n),
{
    lemma_decimal_digits(n);
    assert(is_digit(decimal(n)[0]));
    assert(unsigned_body(decimal(n)) == decimal(n));
}

} // verus!
