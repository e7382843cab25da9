//! Server-Sent Events: events, their `text/event-stream` wire encoding, the
//! response configuration, and the per-frame decisions of the event stream.
//!
//! The streaming itself (the source stream, the timers, the semaphore that caps
//! concurrent streams) is driven by the caller; every decision it takes is made
//! here: how an event is encoded, which events are dropped for size, what ends
//! the stream and what the final frame is.

use vstd::prelude::*;
use crate::duration::Duration;
use crate::error::Error;
use crate::text::{push_char, push_str, text_of, to_chars};
use crate::decimal::{decimal, u64_to_decimal};

verus! {

/// Default heartbeat interval, in seconds.
pub const DEFAULT_HEARTBEAT_SECS: u64 = 15;

/// Default cap on one encoded event, in bytes.
pub const DEFAULT_MAX_EVENT_SIZE: usize = 262144;

/// The heartbeat frame: an SSE comment line.
pub const HEARTBEAT_FRAME: &'static str = ": ping\n\n";

/// Header that tells reverse proxies not to buffer the response.
pub const X_ACCEL_BUFFERING: &'static str = "x-accel-buffering";

/// Prefix of the message of the error reported when event data does not serialize.
pub const SERIALIZE_ERROR_PREFIX: &'static str = "failed to serialize SSE data: ";

// ---------------------------------------------------------------------------
// Wire format model
// ---------------------------------------------------------------------------

/// `s` with each line break followed by `prefix`: the text that writing every
/// line of `s` behind `prefix` produces, without the first prefix and the final
/// line break.
pub open spec fn expand_lines(s: Seq<char>, prefix: Seq<char>) -> Seq<char>
    decreases s.len(),
{
    if s.len() == 0 {
        Seq::empty()
    } else {
        expand_lines(s.drop_last(), prefix) + (if s.last() == '\n' {
            seq!['\n'] + prefix
        } else {
            seq![s.last()]
        })
    }
}

/// Every line of `value` (split at `\n`) written as `prefix`, the line, `\n`.
pub open spec fn field_lines(prefix: Seq<char>, value: Seq<char>) -> Seq<char> {
    prefix + expand_lines(value, prefix) + seq!['\n']
}

/// A character kept in a single-line field: no CR or LF, and no NUL when
/// `strip_nul` is set.
pub open spec fn kept_in_line(c: char, strip_nul: bool) -> bool {
    !(c == '\r' || c == '\n' || (strip_nul && c == '\0'))
}

/// `value` without the characters a single-line field may not carry.
pub open spec fn single_line(value: Seq<char>, strip_nul: bool) -> Seq<char>
    decreases value.len(),
{
    if value.len() == 0 {
        Seq::empty()
    } else {
        single_line(value.drop_last(), strip_nul) + (if kept_in_line(value.last(), strip_nul) {
            seq![value.last()]
        } else {
            Seq::empty()
        })
    }
}

/// The comment lines of an event.
pub open spec fn comment_part(comment: Option<Seq<char>>) -> Seq<char> {
    match comment {
        Some(c) => field_lines(": "@, c),
        None => Seq::empty(),
    }
}

/// The `event:` line of an event named `name`.
pub open spec fn event_part(name: Option<Seq<char>>) -> Seq<char> {
    match name {
        Some(n) => "event: "@ + single_line(n, false) + seq!['\n'],
        None => Seq::empty(),
    }
}

/// The `id:` line of an event.
pub open spec fn id_part(id: Option<Seq<char>>) -> Seq<char> {
    match id {
        Some(i) => "id: "@ + single_line(i, true) + seq!['\n'],
        None => Seq::empty(),
    }
}

/// The `retry:` line of an event.
pub open spec fn retry_part(retry: Option<u64>) -> Seq<char> {
    match retry {
        Some(r) => "retry: "@ + decimal(r as nat) + seq!['\n'],
        None => Seq::empty(),
    }
}

/// The `data:` lines of an event.
pub open spec fn data_part(data: Option<Seq<char>>) -> Seq<char> {
    match data {
        Some(d) => field_lines("data: "@, d),
        None => Seq::empty(),
    }
}

/// The encoding of one event, with `default_event` naming events that carry
/// no name of their own.
pub open spec fn spec_encode(
    data: Option<Seq<char>>,
    event: Option<Seq<char>>,
    id: Option<Seq<char>>,
    retry: Option<u64>,
    comment: Option<Seq<char>>,
    default_event: Option<Seq<char>>,
) -> Seq<char> {
    let name = match event {
        Some(e) => Some(e),
        None => default_event,
    };
    comment_part(comment) + event_part(name) + id_part(id) + retry_part(retry) + data_part(data)
        + seq!['\n']
}

/// Bytes of the UTF-8 encoding of one character.
pub open spec fn utf8_width(c: char) -> nat {
    if (c as u32) < 0x80 {
        1
    } else if (c as u32) < 0x800 {
        2
    } else if (c as u32) < 0x10000 {
        3
    } else {
        4
    }
}

/// Bytes of the UTF-8 encoding of a text.
pub open spec fn utf8_len(s: Seq<char>) -> nat
    decreases s.len(),
{
    if s.len() == 0 {
        0
    } else {
        utf8_len(s.drop_last()) + utf8_width(s.last())
    }
}

// ---------------------------------------------------------------------------
// Events
// ---------------------------------------------------------------------------

/// A single Server-Sent Event with optional metadata.
///
/// Built with [`SseEvent::new`] (a typed payload, serialized to JSON) or
/// [`SseEvent::raw`] (a pre-formatted string); there is no setter to add the
/// other afterwards.
pub struct SseEvent<T> {
    data: Option<T>,
    raw: Option<String>,
    event: Option<String>,
    id: Option<String>,
    retry: Option<u64>,
    comment: Option<String>,
}

impl<T> SseEvent<T> {
    /// The typed payload, if any.
    pub closed spec fn spec_data(&self) -> Option<T> {
        self.data
    }

    /// The pre-formatted payload, if any.
    pub closed spec fn spec_raw(&self) -> Option<Seq<char>> {
        text_of(self.raw)
    }

    /// The event name, if set.
    pub closed spec fn spec_event(&self) -> Option<Seq<char>> {
        text_of(self.event)
    }

    /// The event id, if set.
    pub closed spec fn spec_id(&self) -> Option<Seq<char>> {
        text_of(self.id)
    }

    /// The reconnection time in milliseconds, if set.
    pub closed spec fn spec_retry(&self) -> Option<u64> {
        self.retry
    }

    /// The comment, if set.
    pub closed spec fn spec_comment(&self) -> Option<Seq<char>> {
        text_of(self.comment)
    }

    /// Typed and pre-formatted payloads never both stand in one event.
    pub closed spec fn wf(&self) -> bool {
        !(self.data.is_some() && self.raw.is_some())
    }

    /// Creates an event whose `data` is a typed value, serialized to JSON.
    pub fn new(data: T) -> (ev: Self)
        ensures
            ev.wf(),
            ev.spec_data() == Some(data),
            ev.spec_raw() is None,
            ev.spec_event() is None,
            ev.spec_id() is None,
            ev.spec_retry() is None,
            ev.spec_comment() is None,
    {
        SseEvent { data: Some(data), raw: None, event: None, id: None, retry: None, comment: None }
    }

    /// Creates an event whose `data` is a pre-formatted string.
    pub fn raw(raw: &str) -> (ev: Self)
        ensures
            ev.wf(),
            ev.spec_data() is None,
            ev.spec_raw() == Some(raw@),
            ev.spec_event() is None,
            ev.spec_id() is None,
            ev.spec_retry() is None,
            ev.spec_comment() is None,
    {
        SseEvent {
            data: None,
            raw: Some(raw.to_string()),
            event: None,
            id: None,
            retry: None,
            comment: None,
        }
    }

    /// Sets the event name (`event:` line).
    pub fn event(self, name: &str) -> (ev: Self)
        ensures
            ev.wf() == self.wf(),
            ev.spec_data() == self.spec_data(),
            ev.spec_raw() == self.spec_raw(),
            ev.spec_event() == Some(name@),
            ev.spec_id() == self.spec_id(),
            ev.spec_retry() == self.spec_retry(),
            ev.spec_comment() == self.spec_comment(),
    {
        SseEvent { event: Some(name.to_string()), ..self }
    }

    /// Sets the event id (`id:` line).
    pub fn id(self, id: &str) -> (ev: Self)
        ensures
            ev.wf() == self.wf(),
            ev.spec_data() == self.spec_data(),
            ev.spec_raw() == self.spec_raw(),
            ev.spec_event() == self.spec_event(),
            ev.spec_id() == Some(id@),
            ev.spec_retry() == self.spec_retry(),
            ev.spec_comment() == self.spec_comment(),
    {
        SseEvent { id: Some(id.to_string()), ..self }
    }

    /// Sets the reconnection time in milliseconds (`retry:` line).
    pub fn retry_ms(self, ms: u64) -> (ev: Self)
        ensures
            ev.wf() == self.wf(),
            ev.spec_data() == self.spec_data(),
            ev.spec_raw() == self.spec_raw(),
            ev.spec_event() == self.spec_event(),
            ev.spec_id() == self.spec_id(),
            ev.spec_retry() == Some(ms),
            ev.spec_comment() == self.spec_comment(),
    {
        SseEvent { retry: Some(ms), ..self }
    }

    /// Sets a comment line (ignored by clients).
    pub fn comment(self, text: &str) -> (ev: Self)
        ensures
            ev.wf() == self.wf(),
            ev.spec_data() == self.spec_data(),
            ev.spec_raw() == self.spec_raw(),
            ev.spec_event() == self.spec_event(),
            ev.spec_id() == self.spec_id(),
            ev.spec_retry() == self.spec_retry(),
            ev.spec_comment() == Some(text@),
    {
        SseEvent { comment: Some(text.to_string()), ..self }
    }

    /// The typed payload, for the caller to serialize.
    pub fn data(&self) -> (data: Option<&T>)
        ensures
            match data {
                Some(d) => self.spec_data() == Some(*d),
                None => self.spec_data() is None,
            },
    {
        match &self.data {
            Some(d) => Some(d),
            None => None,
        }
    }

    /// The wire-ready event. `serialized` is what serializing the typed payload
    /// gave (the JSON text, or the serializer's error message); it is read only
    /// when the event has a typed payload.
    pub fn into_raw(self, serialized: Result<String, String>) -> (r: Result<RawEvent, Error>)
        ensures
            match (self.spec_data(), serialized) {
                (Some(_), Err(msg)) => r matches Err(e)
                    && e.fresh(crate::error::ErrorKind::Internal, SERIALIZE_ERROR_PREFIX@ + msg@),
                _ => r matches Ok(raw) && {
                    &&& text_of(raw.data) == match self.spec_data() {
                        Some(_) => match serialized {
                            Ok(json) => Some(json@),
                            Err(_) => None,
                        },
                        None => self.spec_raw(),
                    }
                    &&& text_of(raw.event) == self.spec_event()
                    &&& text_of(raw.id) == self.spec_id()
                    &&& raw.retry == self.spec_retry()
                    &&& text_of(raw.comment) == self.spec_comment()
                },
            },
    {
        let data = match self.data {
            Some(_) => match serialized {
                Ok(json) => Some(json),
                Err(msg) => {
                    let mut text = SERIALIZE_ERROR_PREFIX.to_string();
                    push_str(&mut text, msg.as_str());
                    return Err(Error::internal(text.as_str()));
                },
            },
            None => self.raw,
        };
        Ok(RawEvent { data, event: self.event, id: self.id, retry: self.retry, comment: self.comment })
    }
}

/// An event whose data is already text, ready to encode.
pub struct RawEvent {
    pub data: Option<String>,
    pub event: Option<String>,
    pub id: Option<String>,
    pub retry: Option<u64>,
    pub comment: Option<String>,
}

impl RawEvent {
    /// The encoding of this event under `default_event`.
    pub open spec fn spec_encoded(&self, default_event: Option<Seq<char>>) -> Seq<char> {
        spec_encode(
            text_of(self.data),
            text_of(self.event),
            text_of(self.id),
            self.retry,
            text_of(self.comment),
            default_event,
        )
    }
}

proof fn lemma_expand_step(s: Seq<char>, prefix: Seq<char>, i: int)
    requires
        0 <= i < s.len(),
    ensures
        expand_lines(s.subrange(0, i + 1), prefix) == expand_lines(s.subrange(0, i), prefix) + (
        if s[i] == '\n' {
            seq!['\n'] + prefix
        } else {
            seq![s[i]]
        }),
{
    assert(s.subrange(0, i + 1).drop_last() =~= s.subrange(0, i));
}

proof fn lemma_single_line_step(s: Seq<char>, strip_nul: bool, i: int)
    requires
        0 <= i < s.len(),
    ensures
        single_line(s.subrange(0, i + 1), strip_nul) == single_line(s.subrange(0, i), strip_nul) + (
        if kept_in_line(s[i], strip_nul) {
            seq![s[i]]
        } else {
            Seq::empty()
        }),
{
    assert(s.subrange(0, i + 1).drop_last() =~= s.subrange(0, i));
}

proof fn lemma_utf8_len_step(s: Seq<char>, i: int)
    requires
        0 <= i < s.len(),
    ensures
        utf8_len(s.subrange(0, i + 1)) == utf8_len(s.subrange(0, i)) + utf8_width(s[i]),
{
    assert(s.subrange(0, i + 1).drop_last() =~= s.subrange(0, i));
}

/// Appends every line of `value` as `prefix`, the line, `\n`.
fn push_field_lines(out: &mut String, prefix: &str, value: &str)
    ensures
        final(out)@ == old(out)@ + field_lines(prefix@, value@),
{
    let ghost start = out@;
    let chars = to_chars(value);
    push_str(out, prefix);
    let mut i: usize = 0;
    while i < chars.len()
        invariant
            chars@ == value@,
            i <= chars@.len(),
            out@ == start + prefix@ + expand_lines(value@.subrange(0, i as int), prefix@),
        decreases chars.len() - i,
    {
        let c = chars[i];
        proof {
            lemma_expand_step(value@, prefix@, i as int);
        }
        if c == '\n' {
            push_char(out, '\n');
            push_str(out, prefix);
            assert(out@ =~= start + prefix@ + expand_lines(value@.subrange(0, i + 1), prefix@));
        } else {
            push_char(out, c);
            assert(out@ =~= start + prefix@ + expand_lines(value@.subrange(0, i + 1), prefix@));
        }
        i = i + 1;
    }
    assert(value@.subrange(0, value@.len() as int) =~= value@);
    push_char(out, '\n');
    assert(out@ =~= old(out)@ + field_lines(prefix@, value@));
}

/// Appends a single-line field value, dropping CR and LF and, when `strip_nul`
/// is set, NUL: the characters that would let a value inject further fields or
/// end the event early.
pub fn push_single_line(out: &mut String, value: &str, strip_nul: bool)
    ensures
        final(out)@ == old(out)@ + single_line(value@, strip_nul),
{
    let ghost start = out@;
    let chars = to_chars(value);
    let mut i: usize = 0;
    while i < chars.len()
        invariant
            chars@ == value@,
            i <= chars@.len(),
            out@ == start + single_line(value@.subrange(0, i as int), strip_nul),
        decreases chars.len() - i,
    {
        let c = chars[i];
        proof {
            lemma_single_line_step(value@, strip_nul, i as int);
        }
        if !(c == '\r' || c == '\n' || (strip_nul && c == '\0')) {
            push_char(out, c);
        }
        assert(out@ =~= start + single_line(value@.subrange(0, i + 1), strip_nul));
        i = i + 1;
    }
    assert(value@.subrange(0, value@.len() as int) =~= value@);
}

/// Encodes an event to the SSE wire format, naming it `default_event` when it
/// carries no name. Multi-line data and comments are written one line each,
/// and the event ends with a blank line.
pub fn encode_event(event: &RawEvent, default_event: Option<&str>) -> (out: String)
    ensures
        out@ == event.spec_encoded(match default_event {
            Some(d) => Some(d@),
            None => None,
        }),
{
    let mut out = String::new();
    match &event.comment {
        Some(comment) => push_field_lines(&mut out, ": ", comment.as_str()),
        None => {},
    }
    let ghost p1 = out@;
    let name: Option<&str> = match &event.event {
        Some(n) => Some(n.as_str()),
        None => default_event,
    };
    push_event_line(&mut out, name);
    let ghost p2 = out@;
    push_id_line(&mut out, &event.id);
    let ghost p3 = out@;
    push_retry_line(&mut out, event.retry);
    let ghost p4 = out@;
    match &event.data {
        Some(data) => push_field_lines(&mut out, "data: ", data.as_str()),
        None => {},
    }
    let ghost p5 = out@;
    push_char(&mut out, '\n');
    proof {
        let d = match default_event {
            Some(d) => Some(d@),
            None => None,
        };
        let nm = match text_of(event.event) {
            Some(e) => Some(e),
            None => d,
        };
        assert(p1 == comment_part(text_of(event.comment)));
        assert(p2 == p1 + event_part(nm));
        assert(p3 == p2 + id_part(text_of(event.id)));
        assert(p4 == p3 + retry_part(event.retry));
        assert(p5 == p4 + data_part(text_of(event.data)));
        assert(out@ =~= event.spec_encoded(d));
    }
    out
}

/// Appends the `event:` line for `name`, if any.
fn push_event_line(out: &mut String, name: Option<&str>)
    ensures
        final(out)@ == old(out)@ + event_part(match name {
            Some(n) => Some(n@),
            None => None,
        }),
{
    if let Some(n) = name {
        push_str(out, "event: ");
        push_single_line(out, n, false);
        push_char(out, '\n');
    }
}

/// Appends the `id:` line, if any.
fn push_id_line(out: &mut String, id: &Option<String>)
    ensures
        final(out)@ == old(out)@ + id_part(text_of(*id)),
{
    if let Some(id) = id {
        push_str(out, "id: ");
        push_single_line(out, id.as_str(), true);
        push_char(out, '\n');
    }
}

/// Appends the `retry:` line, if any.
fn push_retry_line(out: &mut String, retry: Option<u64>)
    ensures
        final(out)@ == old(out)@ + retry_part(retry),
{
    if let Some(retry) = retry {
        push_str(out, "retry: ");
        let digits = u64_to_decimal(retry);
        push_str(out, digits.as_str());
        push_char(out, '\n');
    }
}

/// The number of bytes of the UTF-8 encoding of `s`, when it is at most `max`.
pub fn utf8_len_within(s: &str, max: usize) -> (n: Option<usize>)
    ensures
        match n {
            Some(k) => k == utf8_len(s@) && k <= max,
            None => utf8_len(s@) > max,
        },
{
    let chars = to_chars(s);
    let mut n: usize = 0;
    let mut i: usize = 0;
    while i < chars.len()
        invariant
            chars@ == s@,
            i <= chars@.len(),
            n == utf8_len(s@.subrange(0, i as int)),
            n <= max,
        decreases chars.len() - i,
    {
        proof {
            lemma_utf8_len_step(s@, i as int);
        }
        let c = chars[i];
        let w: usize = if (c as u32) < 0x80 {
            1
        } else if (c as u32) < 0x800 {
            2
        } else if (c as u32) < 0x10000 {
            3
        } else {
            4
        };
        if w > max - n {
            proof {
                lemma_utf8_len_prefix(s@, i + 1);
            }
            return None;
        }
        n = n + w;
        i = i + 1;
    }
    assert(s@.subrange(0, s@.len() as int) =~= s@);
    Some(n)
}

/// Whether the UTF-8 encoding of `s` takes more than `max` bytes.
pub fn utf8_len_exceeds(s: &str, max: usize) -> (exceeds: bool)
    ensures
        exceeds == (utf8_len(s@) > max),
{
    utf8_len_within(s, max).is_none()
}

proof fn lemma_utf8_len_prefix(s: Seq<char>, k: int)
    requires
        0 <= k <= s.len(),
    ensures
        utf8_len(s.subrange(0, k)) <= utf8_len(s),
    decreases s.len() - k,
{
    if k < s.len() {
        lemma_utf8_len_prefix(s, k + 1);
        lemma_utf8_len_step(s, k);
    } else {
        assert(s.subrange(0, k) =~= s);
    }
}

// ---------------------------------------------------------------------------
// Response configuration
// ---------------------------------------------------------------------------

/// Configuration of an SSE response.
pub struct SseConfig {
    /// Event name for events that carry none.
    pub default_event: Option<String>,
    /// Heartbeat interval; `None` disables heartbeats.
    pub heartbeat: Option<Duration>,
    /// Whether `Cache-Control: no-cache` is sent.
    pub no_cache: bool,
    /// Whether `X-Accel-Buffering: no` is sent.
    pub disable_proxy_buffering: bool,
    /// Events whose encoding exceeds this many bytes are dropped.
    pub max_event_size: Option<usize>,
    /// The stream ends once this much time has passed.
    pub client_timeout: Option<Duration>,
    /// A final raw `data:` event sent when the stream ends.
    pub done_event: Option<String>,
}

impl SseConfig {
    /// The defaults: no default event name, a heartbeat every 15 seconds, both
    /// caching headers on, events capped at 256 KiB, no timeout, no done event.
    pub fn new() -> (c: Self)
        ensures
            c.default_event is None,
            c.heartbeat matches Some(d) && d.wf() && d.spec_secs() == DEFAULT_HEARTBEAT_SECS
                && d.spec_subsec_nanos() == 0,
            c.no_cache,
            c.disable_proxy_buffering,
            c.max_event_size == Some(DEFAULT_MAX_EVENT_SIZE),
            c.client_timeout is None,
            c.done_event is None,
    {
        SseConfig {
            default_event: None,
            heartbeat: Some(Duration::from_secs(DEFAULT_HEARTBEAT_SECS)),
            no_cache: true,
            disable_proxy_buffering: true,
            max_event_size: Some(DEFAULT_MAX_EVENT_SIZE),
            client_timeout: None,
            done_event: None,
        }
    }

    /// Sets the default event name.
    pub fn event(self, default: &str) -> (c: Self)
        ensures
            text_of(c.default_event) == Some(default@),
            c.heartbeat == self.heartbeat,
            c.no_cache == self.no_cache,
            c.disable_proxy_buffering == self.disable_proxy_buffering,
            c.max_event_size == self.max_event_size,
            c.client_timeout == self.client_timeout,
            c.done_event == self.done_event,
    {
        SseConfig { default_event: Some(default.to_string()), ..self }
    }

    /// Sets the heartbeat interval.
    pub fn heartbeat(self, every: Duration) -> (c: Self)
        ensures
            c.default_event == self.default_event,
            c.heartbeat == Some(every),
            c.no_cache == self.no_cache,
            c.disable_proxy_buffering == self.disable_proxy_buffering,
            c.max_event_size == self.max_event_size,
            c.client_timeout == self.client_timeout,
            c.done_event == self.done_event,
    {
        SseConfig { heartbeat: Some(every), ..self }
    }

    /// Disables the heartbeat.
    pub fn no_heartbeat(self) -> (c: Self)
        ensures
            c.default_event == self.default_event,
            c.heartbeat is None,
            c.no_cache == self.no_cache,
            c.disable_proxy_buffering == self.disable_proxy_buffering,
            c.max_event_size == self.max_event_size,
            c.client_timeout == self.client_timeout,
            c.done_event == self.done_event,
    {
        SseConfig { heartbeat: None, ..self }
    }

    /// Turns the `Cache-Control: no-cache` header on or off.
    pub fn no_cache(self, on: bool) -> (c: Self)
        ensures
            c.default_event == self.default_event,
            c.heartbeat == self.heartbeat,
            c.no_cache == on,
            c.disable_proxy_buffering == self.disable_proxy_buffering,
            c.max_event_size == self.max_event_size,
            c.client_timeout == self.client_timeout,
            c.done_event == self.done_event,
    {
        SseConfig { no_cache: on, ..self }
    }

    /// Turns the `X-Accel-Buffering: no` header on or off.
    pub fn disable_proxy_buffering(self, on: bool) -> (c: Self)
        ensures
            c.default_event == self.default_event,
            c.heartbeat == self.heartbeat,
            c.no_cache == self.no_cache,
            c.disable_proxy_buffering == on,
            c.max_event_size == self.max_event_size,
            c.client_timeout == self.client_timeout,
            c.done_event == self.done_event,
    {
        SseConfig { disable_proxy_buffering: on, ..self }
    }

    /// Drops events whose encoding exceeds `bytes`.
    pub fn max_event_size(self, bytes: usize) -> (c: Self)
        ensures
            c.default_event == self.default_event,
            c.heartbeat == self.heartbeat,
            c.no_cache == self.no_cache,
            c.disable_proxy_buffering == self.disable_proxy_buffering,
            c.max_event_size == Some(bytes),
            c.client_timeout == self.client_timeout,
            c.done_event == self.done_event,
    {
        SseConfig { max_event_size: Some(bytes), ..self }
    }

    /// Ends the stream once `after` has passed.
    pub fn client_timeout(self, after: Duration) -> (c: Self)
        ensures
            c.default_event == self.default_event,
            c.heartbeat == self.heartbeat,
            c.no_cache == self.no_cache,
            c.disable_proxy_buffering == self.disable_proxy_buffering,
            c.max_event_size == self.max_event_size,
            c.client_timeout == Some(after),
            c.done_event == self.done_event,
    {
        SseConfig { client_timeout: Some(after), ..self }
    }

    /// Sends a final raw `data:` event with `marker` when the source ends.
    pub fn done_event(self, marker: &str) -> (c: Self)
        ensures
            c.default_event == self.default_event,
            c.heartbeat == self.heartbeat,
            c.no_cache == self.no_cache,
            c.disable_proxy_buffering == self.disable_proxy_buffering,
            c.max_event_size == self.max_event_size,
            c.client_timeout == self.client_timeout,
            text_of(c.done_event) == Some(marker@),
    {
        SseConfig { done_event: Some(marker.to_string()), ..self }
    }

    /// The headers of the response: the event-stream content type, then
    /// `Cache-Control: no-cache` and `X-Accel-Buffering: no` where enabled.
    pub fn response_headers(&self) -> (headers: Vec<(&'static str, &'static str)>)
        ensures
            headers@ == seq![("content-type", crate::constants::TEXT_EVENT_STREAM)]
                + (if self.no_cache { seq![("cache-control", "no-cache")] } else { Seq::empty() })
                + (if self.disable_proxy_buffering {
                    seq![(X_ACCEL_BUFFERING, "no")]
                } else {
                    Seq::empty()
                }),
    {
        let mut headers: Vec<(&'static str, &'static str)> = Vec::new();
        headers.push(("content-type", crate::constants::TEXT_EVENT_STREAM));
        if self.no_cache {
            headers.push(("cache-control", "no-cache"));
        }
        if self.disable_proxy_buffering {
            headers.push((X_ACCEL_BUFFERING, "no"));
        }
        proof {
            let h = seq![("content-type", crate::constants::TEXT_EVENT_STREAM)]
                + (if self.no_cache { seq![("cache-control", "no-cache")] } else { Seq::empty() })
                + (if self.disable_proxy_buffering {
                    seq![(X_ACCEL_BUFFERING, "no")]
                } else {
                    Seq::empty()
                });
            assert(headers@ =~= h);
        }
        headers
    }

    /// The final frame sent when the stream ends: the done marker as a raw
    /// `data:` event, named like any other event without a name.
    pub fn done_frame(&self) -> (frame: Option<String>)
        ensures
            match self.done_event {
                Some(marker) => frame matches Some(f) && f@ == spec_encode(
                    Some(marker@),
                    None,
                    None,
                    None,
                    None,
                    text_of(self.default_event),
                ),
                None => frame is None,
            },
    {
        match &self.done_event {
            Some(marker) => {
                let raw = RawEvent { data: Some(marker.clone()), event: None, id: None, retry: None, comment: None };
                let default: Option<&str> = match &self.default_event {
                    Some(d) => Some(d.as_str()),
                    None => None,
                };
                Some(encode_event(&raw, default))
            },
            None => None,
        }
    }
}

// ---------------------------------------------------------------------------
// The event stream
// ---------------------------------------------------------------------------

/// What the source stream produced when polled.
pub enum SourceItem {
    /// An event, ready to encode.
    Event(RawEvent),
    /// The source failed; the response status is already sent, so the stream ends.
    Failed,
    /// The source is exhausted.
    Ended,
}

/// What the stream does with a source item.
pub enum SseStep {
    /// Send this encoded event.
    Emit(String),
    /// Drop the event (it exceeds the size cap) and poll the source again.
    Skip,
    /// End the stream, after sending the final frame if there is one.
    Finish(Option<String>),
}

/// The state of a streaming SSE body.
pub struct SseStream {
    default_event: Option<String>,
    max_event_size: Option<usize>,
    done: Option<String>,
    finished: bool,
}

impl SseStream {
    /// The default event name.
    pub closed spec fn spec_default_event(&self) -> Option<Seq<char>> {
        text_of(self.default_event)
    }

    /// The size cap.
    pub closed spec fn spec_max_event_size(&self) -> Option<usize> {
        self.max_event_size
    }

    /// The final frame still to send, if any.
    pub closed spec fn spec_done(&self) -> Option<Seq<char>> {
        text_of(self.done)
    }

    /// Whether the stream has ended.
    pub closed spec fn spec_finished(&self) -> bool {
        self.finished
    }

    /// Starts a stream under `config`.
    pub fn start(config: &SseConfig) -> (s: Self)
        ensures
            !s.spec_finished(),
            s.spec_default_event() == text_of(config.default_event),
            s.spec_max_event_size() == config.max_event_size,
            s.spec_done() == match config.done_event {
                Some(marker) => Some(spec_encode(
                    Some(marker@),
                    None,
                    None,
                    None,
                    None,
                    text_of(config.default_event),
                )),
                None => None,
            },
    {
        let done = config.done_frame();
        let default_event = match &config.default_event {
            Some(d) => Some(d.clone()),
            None => None,
        };
        SseStream { default_event, max_event_size: config.max_event_size, done, finished: false }
    }

    /// Whether the stream has ended (every later poll yields nothing).
    pub fn is_finished(&self) -> (finished: bool)
        ensures
            finished == self.spec_finished(),
    {
        self.finished
    }

    /// Ends the stream (the source ended or failed, or the client timeout was
    /// reached) and hands out the final frame, once.
    pub fn finish(&mut self) -> (frame: Option<String>)
        ensures
            final(self).spec_finished(),
            text_of(frame) == old(self).spec_done(),
            final(self).spec_done() is None,
            final(self).spec_default_event() == old(self).spec_default_event(),
            final(self).spec_max_event_size() == old(self).spec_max_event_size(),
    {
        self.finished = true;
        let done = self.done.take();
        done
    }

    /// Takes one item from the source: an event is encoded and sent unless it
    /// exceeds the size cap; a failure or the end of the source ends the stream.
    pub fn on_item(&mut self, item: SourceItem) -> (step: SseStep)
        ensures
            match item {
                SourceItem::Event(ev) => {
                    let enc = ev.spec_encoded(old(self).spec_default_event());
                    &&& *final(self) == *old(self)
                    &&& match old(self).spec_max_event_size() {
                        Some(max) if utf8_len(enc) > max => step is Skip,
                        _ => step matches SseStep::Emit(bytes) && bytes@ == enc,
                    }
                },
                _ => {
                    &&& final(self).spec_finished()
                    &&& final(self).spec_done() is None
                    &&& final(self).spec_default_event() == old(self).spec_default_event()
                    &&& final(self).spec_max_event_size() == old(self).spec_max_event_size()
                    &&& step matches SseStep::Finish(frame) && text_of(frame) == old(self).spec_done()
                },
            },
    {
        match item {
            SourceItem::Event(ev) => {
                let default: Option<&str> = match &self.default_event {
                    Some(d) => Some(d.as_str()),
                    None => None,
                };
                let bytes = encode_event(&ev, default);
                match self.max_event_size {
                    Some(max) => {
                        if utf8_len_exceeds(bytes.as_str(), max) {
                            return SseStep::Skip;
                        }
                    },
                    None => {},
                }
                SseStep::Emit(bytes)
            },
            _ => SseStep::Finish(self.finish()),
        }
    }
}

/// A single-line field value can neither end its line nor start another
/// field: it holds no CR and no LF (and no NUL when `strip_nul` is set).
pub proof fn law_single_line_stays_on_one_line(value: Seq<char>, strip_nul: bool)
    ensures
        forall|i: int|
            0 <= i < single_line(value, strip_nul).len() ==> kept_in_line(
                #[trigger] single_line(value, strip_nul)[i],
                strip_nul,
            ),
    decreases value.len(),
{
    if value.len() > 0 {
        law_single_line_stays_on_one_line(value.drop_last(), strip_nul);
        let head = single_line(value.drop_last(), strip_nul);
        assert forall|i: int|
            0 <= i < single_line(value, strip_nul).len() implies kept_in_line(
            #[trigger] single_line(value, strip_nul)[i],
            strip_nul,
        ) by {
            if i < head.len() {
                assert(single_line(value, strip_nul)[i] == head[i]);
            }
        }
    }
}

/// A blank line starts at `i`: a line break directly followed by another.
pub open spec fn blank_at(s: Seq<char>, i: int) -> bool {
    s[i] == '\n' && s[i + 1] == '\n'
}

/// No line break in `s` is directly followed by another.
pub open spec fn blank_free(s: Seq<char>) -> bool {
    forall|i: int| 0 <= i < s.len() - 1 ==> !#[trigger] blank_at(s, i)
}

/// A run of whole lines: empty, or starting with something other than a line
/// break, ending with one, and holding no blank line.
pub open spec fn whole_lines(s: Seq<char>) -> bool {
    s.len() == 0 || (s[0] != '\n' && s.last() == '\n' && blank_free(s))
}

proof fn lemma_blank_free_concat(a: Seq<char>, b: Seq<char>)
    requires
        blank_free(a),
        blank_free(b),
        a.len() == 0 || b.len() == 0 || a.last() != '\n' || b[0] != '\n',
    ensures
        blank_free(a + b),
{
    let c = a + b;
    assert forall|i: int| 0 <= i < c.len() - 1 implies !#[trigger] blank_at(c, i) by {
        if i < a.len() - 1 {
            assert(c[i] == a[i] && c[i + 1] == a[i + 1]);
            assert(!blank_at(a, i));
        } else if i == a.len() - 1 {
            assert(c[i] == a.last() && c[i + 1] == b[0]);
        } else {
            let j = i - a.len();
            assert(c[i] == b[j] && c[i + 1] == b[j + 1]);
            assert(!blank_at(b, j));
        }
    }
}

proof fn lemma_whole_lines_concat(a: Seq<char>, b: Seq<char>)
    requires
        whole_lines(a),
        whole_lines(b),
    ensures
        whole_lines(a + b),
{
    if a.len() > 0 && b.len() > 0 {
        lemma_blank_free_concat(a, b);
        assert((a + b)[0] == a[0]);
        assert((a + b).last() == b.last());
    } else if a.len() == 0 {
        assert(a + b =~= b);
    } else {
        assert(a + b =~= a);
    }
}

/// A text whose only line break (if any) is its last character has no blank line.
proof fn lemma_single_break_blank_free(s: Seq<char>)
    requires
        forall|j: int| 0 <= j < s.len() - 1 ==> s[j] != '\n',
    ensures
        blank_free(s),
{
    assert forall|i: int| 0 <= i < s.len() - 1 implies !#[trigger] blank_at(s, i) by {
        assert(s[i] != '\n');
    }
}

/// `head`, a line body free of line breaks, then one line break: a whole line.
proof fn lemma_one_line(head: Seq<char>)
    requires
        head.len() > 0,
        head[0] != '\n',
        forall|j: int| 0 <= j < head.len() ==> head[j] != '\n',
    ensures
        whole_lines(head + seq!['\n']),
{
    let s = head + seq!['\n'];
    assert forall|j: int| 0 <= j < s.len() - 1 implies s[j] != '\n' by {
        assert(s[j] == head[j]);
    }
    lemma_single_break_blank_free(s);
}

/// Expanding line breaks behind a prefix free of line breaks leaves no blank line and never ends with a line break.
proof fn lemma_expand_blank_free(s: Seq<char>, prefix: Seq<char>)
    requires
        prefix.len() > 0,
        forall|j: int| 0 <= j < prefix.len() ==> prefix[j] != '\n',
    ensures
        blank_free(expand_lines(s, prefix)),
        expand_lines(s, prefix).len() > 0 ==> expand_lines(s, prefix).last() != '\n',
    decreases s.len(),
{
    if s.len() > 0 {
        lemma_expand_blank_free(s.drop_last(), prefix);
        let head = expand_lines(s.drop_last(), prefix);
        let piece = if s.last() == '\n' { seq!['\n'] + prefix } else { seq![s.last()] };
        if s.last() == '\n' {
            assert forall|i: int| 0 <= i < piece.len() - 1 implies !#[trigger] blank_at(piece, i) by {
                if i == 0 {
                    assert(piece[1] == prefix[0]);
                } else {
                    assert(piece[i] == prefix[i - 1]);
                }
            }
            assert(piece.last() == prefix[prefix.len() - 1]);
        } else {
            assert(blank_free(piece));
        }
        lemma_blank_free_concat(head, piece);
        assert(expand_lines(s, prefix) == head + piece);
        assert((head + piece).last() == piece.last());
    }
}

/// Every line of a value behind a prefix is a run of whole lines.
proof fn lemma_field_lines_whole(prefix: Seq<char>, value: Seq<char>)
    requires
        prefix.len() > 0,
        prefix[0] != '\n',
        prefix.last() != '\n',
        forall|j: int| 0 <= j < prefix.len() ==> prefix[j] != '\n',
    ensures
        whole_lines(field_lines(prefix, value)),
{
    let e = expand_lines(value, prefix);
    lemma_expand_blank_free(value, prefix);
    lemma_single_break_blank_free(prefix);
    lemma_blank_free_concat(prefix, e);
    let pe = prefix + e;
    assert(pe.last() != '\n') by {
        if e.len() > 0 {
            assert(pe.last() == e.last());
        } else {
            assert(pe =~= prefix);
        }
    }
    assert(blank_free(seq!['\n']));
    lemma_blank_free_concat(pe, seq!['\n']);
    assert(field_lines(prefix, value) == pe + seq!['\n']);
    assert((pe + seq!['\n'])[0] == prefix[0]);
}

/// A single-line field: its name, its cleaned value, then a line break.
proof fn lemma_single_field_whole(name: Seq<char>, value: Seq<char>, strip_nul: bool)
    requires
        name.len() > 0,
        name[0] != '\n',
        forall|j: int| 0 <= j < name.len() ==> name[j] != '\n',
    ensures
        whole_lines(name + single_line(value, strip_nul) + seq!['\n']),
{
    law_single_line_stays_on_one_line(value, strip_nul);
    let v = single_line(value, strip_nul);
    let head = name + v;
    assert forall|j: int| 0 <= j < head.len() implies head[j] != '\n' by {
        if j < name.len() {
            assert(head[j] == name[j]);
        } else {
            assert(head[j] == v[j - name.len()]);
            assert(kept_in_line(v[j - name.len()], strip_nul));
        }
    }
    lemma_one_line(head);
}

/// An encoded event holds no blank line before its end: no value a field
/// carries (an event name, an id, a comment, the data) can end the event early
/// or start another. Its last character is a line break.
pub proof fn law_event_ends_only_at_its_end(
    data: Option<Seq<char>>,
    event: Option<Seq<char>>,
    id: Option<Seq<char>>,
    retry: Option<u64>,
    comment: Option<Seq<char>>,
    default_event: Option<Seq<char>>,
)
    ensures
        ({
            let out = spec_encode(data, event, id, retry, comment, default_event);
            &&& out.len() > 0
            &&& out.last() == '\n'
            &&& forall|i: int| 0 <= i < out.len() - 2 ==> !#[trigger] blank_at(out, i)
        }),
{
    reveal_strlit(": ");
    reveal_strlit("event: ");
    reveal_strlit("id: ");
    reveal_strlit("retry: ");
    reveal_strlit("data: ");
    let name = match event {
        Some(e) => Some(e),
        None => default_event,
    };
    let c = comment_part(comment);
    let e = event_part(name);
    let i = id_part(id);
    let r = retry_part(retry);
    let d = data_part(data);
    if let Some(t) = comment {
        lemma_field_lines_whole(": "@, t);
    }
    if let Some(n) = name {
        lemma_single_field_whole("event: "@, n, false);
    }
    if let Some(t) = id {
        lemma_single_field_whole("id: "@, t, true);
    }
    if let Some(n) = retry {
        crate::decimal::lemma_decimal_digits(n as nat);
        let digits = decimal(n as nat);
        let head = "retry: "@ + digits;
        assert forall|j: int| 0 <= j < head.len() implies head[j] != '\n' by {
            if j >= 7 {
                assert(head[j] == digits[j - 7]);
                assert(crate::decimal::is_digit(digits[j - 7]));
            }
        }
        lemma_one_line(head);
        assert(r == head + seq!['\n']);
    }
    if let Some(t) = data {
        lemma_field_lines_whole("data: "@, t);
    }
    lemma_whole_lines_concat(c, e);
    lemma_whole_lines_concat(c + e, i);
    lemma_whole_lines_concat(c + e + i, r);
    lemma_whole_lines_concat(c + e + i + r, d);
    let p = c + e + i + r + d;
    let out = p + seq!['\n'];
    assert(out == spec_encode(data, event, id, retry, comment, default_event));
    assert forall|k: int| 0 <= k < out.len() - 2 implies !#[trigger] blank_at(out, k) by {
        assert(out[k] == p[k] && out[k + 1] == p[k + 1]);
        assert(!blank_at(p, k));
    }
}

} // verus!
