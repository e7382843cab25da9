//! What one log record holds and how it is written: the error summary a record
//! carries at each level of detail, the console line, and the field set of a
//! JSON line.
//!
//! The writers read the values (time, process id, the serialized fields) and
//! serialize the JSON object; the layout decided here is what they write.

use vstd::prelude::*;
use crate::decimal::{decimal, u64_to_decimal};
use crate::logging::{bounded_chain, level_color, ErrorLogDetail, Level, CHAIN_TRUNCATED, MAX_ERROR_CHAIN};
use crate::header::{header_text, spec_header_text};
use crate::text::{opt_str, push_char, push_str, str_eq, to_chars};

verus! {

/// The ANSI sequence that ends a colored span.
pub const RESET: &'static str = "\u{1b}[0m";

/// The key under which a JSON record carries its error.
pub const ERROR_KEY: &'static str = "error";

/// What a log record says of an error: its type name, and, depending on the
/// configured detail, its message and (bounded) source chain.
pub struct ErrorRecord {
    pub kind_name: String,
    pub message: Option<String>,
    pub chain: Option<Vec<String>>,
}

/// The text of a list of strings.
pub open spec fn texts(v: Seq<String>) -> Seq<Seq<char>> {
    v.map_values(|s: String| s@)
}

/// The logged form of a source chain: at most the first sixteen messages,
/// then the truncation marker when there were more.
pub open spec fn spec_bounded_chain(sources: Seq<Seq<char>>) -> Seq<Seq<char>> {
    if sources.len() <= MAX_ERROR_CHAIN {
        sources
    } else {
        sources.subrange(0, MAX_ERROR_CHAIN as int).push(CHAIN_TRUNCATED@)
    }
}

/// Summarizes an error for a log record. `sources` are the messages of the
/// error's source chain, outermost first. The chain is recorded only with full
/// detail, and only when the error has a source.
pub fn error_record(detail: ErrorLogDetail, kind_name: &str, message: &str, sources: Vec<String>) -> (r: ErrorRecord)
    ensures
        r.kind_name@ == kind_name@,
        match detail {
            ErrorLogDetail::TypeOnly => r.message is None && r.chain is None,
            ErrorLogDetail::MessageOnly => r.message matches Some(m) && m@ == message@ && r.chain is None,
            ErrorLogDetail::FullChain => r.message matches Some(m) && m@ == message@ && if sources@.len() == 0 {
                r.chain is None
            } else {
                r.chain matches Some(c) && texts(c@) == spec_bounded_chain(texts(sources@))
            },
        },
{
    let kind_name = kind_name.to_string();
    match detail {
        ErrorLogDetail::TypeOnly => ErrorRecord { kind_name, message: None, chain: None },
        ErrorLogDetail::MessageOnly => ErrorRecord { kind_name, message: Some(message.to_string()), chain: None },
        ErrorLogDetail::FullChain => {
            let ghost src = sources@;
            let chain = if sources.len() == 0 {
                None
            } else {
                let c = bounded_chain(sources);
                proof {
                    if src.len() > MAX_ERROR_CHAIN {
                        assert forall|i: int| 0 <= i < MAX_ERROR_CHAIN implies #[trigger] c@[i] == src[i] by {
                            assert(c@.subrange(0, MAX_ERROR_CHAIN as int)[i] == c@[i]);
                            assert(src.subrange(0, MAX_ERROR_CHAIN as int)[i] == src[i]);
                        }
                        assert(texts(c@) =~= texts(src).subrange(0, MAX_ERROR_CHAIN as int).push(CHAIN_TRUNCATED@));
                    } else {
                        assert(texts(c@) =~= texts(src));
                    }
                }
                Some(c)
            };
            ErrorRecord { kind_name, message: Some(message.to_string()), chain }
        },
    }
}

/// A level's name as records show it.
pub open spec fn level_name(level: Level) -> Seq<char> {
    match level {
        Level::Trace => "TRACE"@,
        Level::Debug => "DEBUG"@,
        Level::Info => "INFO"@,
        Level::Warn => "WARN"@,
        Level::Error => "ERROR"@,
    }
}

/// A level's name as records show it.
pub fn level_text(level: Level) -> (name: &'static str)
    ensures
        name@ == level_name(level),
{
    match level {
        Level::Trace => "TRACE",
        Level::Debug => "DEBUG",
        Level::Info => "INFO",
        Level::Warn => "WARN",
        Level::Error => "ERROR",
    }
}

/// `s` preceded by enough `c`s to make it `width` long (unchanged when it is
/// already that long).
pub open spec fn left_pad(s: Seq<char>, width: nat, c: char) -> Seq<char> {
    if s.len() >= width {
        s
    } else {
        Seq::new((width - s.len()) as nat, |i: int| c) + s
    }
}

/// A level's name right-aligned in five columns.
pub open spec fn level_label(level: Level) -> Seq<char> {
    left_pad(level_name(level), 5, ' ')
}

/// `s` with `c`s added in front up to `width` characters.
fn pad_front(s: &str, width: usize, c: char) -> (r: String)
    ensures
        r@ == left_pad(s@, width as nat, c),
{
    let chars = to_chars(s);
    let mut r = String::new();
    if chars.len() < width {
        let missing = width - chars.len();
        let mut i: usize = 0;
        while i < missing
            invariant
                i <= missing,
                r@ == Seq::new(i as nat, |j: int| c),
            decreases missing - i,
        {
            push_char(&mut r, c);
            i = i + 1;
            assert(r@ =~= Seq::new(i as nat, |j: int| c));
        }
    }
    push_str(&mut r, s);
    r
}

/// A number in decimal, zero-padded in front to `width` digits.
pub open spec fn zero_padded(n: nat, width: nat) -> Seq<char> {
    left_pad(decimal(n), width, '0')
}

/// A year as `{:04}` writes it: zero-padded to four characters, a minus sign
/// counting as one of them.
pub open spec fn year_text(year: int) -> Seq<char> {
    if year >= 0 {
        zero_padded(year as nat, 4)
    } else {
        seq!['-'] + zero_padded((-year) as nat, 3)
    }
}

/// The console timestamp: `MM/DD/YYYY, hh:mm:ss`, each part zero-padded.
pub open spec fn spec_console_timestamp(month: u8, day: u8, year: i32, hour: u8, minute: u8, second: u8) -> Seq<char> {
    zero_padded(month as nat, 2) + "/"@ + zero_padded(day as nat, 2) + "/"@ + year_text(year as int) + ", "@
        + zero_padded(hour as nat, 2) + ":"@ + zero_padded(minute as nat, 2) + ":"@ + zero_padded(
        second as nat,
        2,
    )
}

/// A number in decimal, zero-padded to `width` digits.
fn padded_number(n: u64, width: usize) -> (s: String)
    ensures
        s@ == zero_padded(n as nat, width as nat),
{
    let digits = u64_to_decimal(n);
    pad_front(digits.as_str(), width, '0')
}

/// Writes the console timestamp of a UTC date and time.
pub fn console_timestamp_text(month: u8, day: u8, year: i32, hour: u8, minute: u8, second: u8) -> (s: String)
    ensures
        s@ == spec_console_timestamp(month, day, year, hour, minute, second),
{
    let mut s = padded_number(month as u64, 2);
    push_str(&mut s, "/");
    let d = padded_number(day as u64, 2);
    push_str(&mut s, d.as_str());
    push_str(&mut s, "/");
    let y = if year >= 0 {
        padded_number(year as u64, 4)
    } else {
        let mut t = "-".to_string();
        let magnitude: i64 = -(year as i64);
        let digits = padded_number(magnitude as u64, 3);
        push_str(&mut t, digits.as_str());
        proof {
            reveal_strlit("-");
            assert(t@ =~= seq!['-'] + zero_padded((-year) as nat, 3));
        }
        t
    };
    assert(y@ == year_text(year as int));
    push_str(&mut s, y.as_str());
    push_str(&mut s, ", ");
    let h = padded_number(hour as u64, 2);
    push_str(&mut s, h.as_str());
    push_str(&mut s, ":");
    let mi = padded_number(minute as u64, 2);
    push_str(&mut s, mi.as_str());
    push_str(&mut s, ":");
    let se = padded_number(second as u64, 2);
    push_str(&mut s, se.as_str());
    proof {
        assert(s@ =~= spec_console_timestamp(month, day, year, hour, minute, second));
    }
    s
}

/// The inline ` key=value` pairs of a console line, in the given order.
pub open spec fn inline_fields(fields: Seq<(Seq<char>, Seq<char>)>) -> Seq<char>
    decreases fields.len(),
{
    if fields.len() == 0 {
        Seq::empty()
    } else {
        inline_fields(fields.drop_last()) + " "@ + fields.last().0 + "="@ + fields.last().1
    }
}

/// The text of a list of string pairs.
pub open spec fn pair_texts(v: Seq<(String, String)>) -> Seq<(Seq<char>, Seq<char>)> {
    v.map_values(|p: (String, String)| (p.0@, p.1@))
}

/// A console line: `[Tork] <pid>  - <timestamp>  <LEVEL> [<context>] <message>`,
/// then the inline fields, the error, and the milliseconds since the previous
/// line. The level is right-aligned in five columns and, with colors, wrapped
/// in its color. A record without a context shows its target; one without a
/// message shows nothing there.
pub open spec fn spec_console_line(
    pid: u32,
    timestamp: Seq<char>,
    level: Level,
    color: bool,
    context: Option<Seq<char>>,
    target: Seq<char>,
    message: Option<Seq<char>>,
    fields: Seq<(Seq<char>, Seq<char>)>,
    error: Option<Seq<char>>,
    delta_ms: u64,
) -> Seq<char> {
    let level_part = spec_level_part(level, color);
    let ctx = match context {
        Some(c) => c,
        None => target,
    };
    let msg = match message {
        Some(m) => m,
        None => Seq::empty(),
    };
    let err = match error {
        Some(e) => " error="@ + e,
        None => Seq::empty(),
    };
    "[Tork] "@ + decimal(pid as nat) + "  - "@ + timestamp + "  "@ + level_part + " ["@ + ctx + "] "@ + msg
        + inline_fields(fields) + err + " +"@ + decimal(delta_ms as nat) + "ms\n"@
}

/// The color sequence of a level, as text.
pub open spec fn level_color_text(level: Level) -> Seq<char> {
    match level {
        Level::Trace => "\u{1b}[90m"@,
        Level::Debug => "\u{1b}[36m"@,
        Level::Info => "\u{1b}[32m"@,
        Level::Warn => "\u{1b}[33m"@,
        Level::Error => "\u{1b}[31m"@,
    }
}

/// The level as a console line shows it: right-aligned in five columns and,
/// with colors, wrapped in the level's color.
pub open spec fn spec_level_part(level: Level, color: bool) -> Seq<char> {
    if color {
        level_color_text(level) + level_label(level) + RESET@
    } else {
        level_label(level)
    }
}

/// Writes the level as a console line shows it.
fn level_part(level: Level, color: bool) -> (s: String)
    ensures
        s@ == spec_level_part(level, color),
{
    let label = pad_front(level_text(level), 5, ' ');
    if color {
        let mut s = level_color(level).to_string();
        push_str(&mut s, label.as_str());
        push_str(&mut s, RESET);
        s
    } else {
        label
    }
}

/// Appends the inline ` key=value` pairs.
fn push_inline_fields(line: &mut String, fields: &[(String, String)])
    ensures
        final(line)@ == old(line)@ + inline_fields(pair_texts(fields@)),
{
    let ghost head = line@;
    let ghost fv = pair_texts(fields@);
    let mut i: usize = 0;
    while i < fields.len()
        invariant
            i <= fields@.len(),
            fv == pair_texts(fields@),
            line@ == head + inline_fields(fv.subrange(0, i as int)),
        decreases fields.len() - i,
    {
        push_str(line, " ");
        push_str(line, fields[i].0.as_str());
        push_str(line, "=");
        push_str(line, fields[i].1.as_str());
        proof {
            assert(fv.subrange(0, i + 1).drop_last() =~= fv.subrange(0, i as int));
        }
        i = i + 1;
    }
    assert(fv.subrange(0, fields@.len() as int) =~= fv);
}

/// Writes one console line.
pub fn console_line(
    pid: u32,
    timestamp: &str,
    level: Level,
    color: bool,
    context: Option<&str>,
    target: &str,
    message: Option<&str>,
    fields: &[(String, String)],
    error: Option<&str>,
    delta_ms: u64,
) -> (line: String)
    ensures
        line@ == spec_console_line(
            pid,
            timestamp@,
            level,
            color,
            opt_str(context),
            target@,
            opt_str(message),
            pair_texts(fields@),
            opt_str(error),
            delta_ms,
        ),
{
    let mut line = "[Tork] ".to_string();
    let pid_text = u64_to_decimal(pid as u64);
    push_str(&mut line, pid_text.as_str());
    push_str(&mut line, "  - ");
    push_str(&mut line, timestamp);
    push_str(&mut line, "  ");
    let level_part = level_part(level, color);
    push_str(&mut line, level_part.as_str());
    push_str(&mut line, " [");
    match context {
        Some(c) => push_str(&mut line, c),
        None => push_str(&mut line, target),
    }
    push_str(&mut line, "] ");
    match message {
        Some(m) => push_str(&mut line, m),
        None => {},
    }
    push_inline_fields(&mut line, fields);
    match error {
        Some(e) => {
            push_str(&mut line, " error=");
            push_str(&mut line, e);
        },
        None => {},
    }
    push_str(&mut line, " +");
    let delta_text = u64_to_decimal(delta_ms);
    push_str(&mut line, delta_text.as_str());
    push_str(&mut line, "ms\n");
    proof {
        reveal_strlit("ms\n");
        let ctx = match opt_str(context) {
            Some(c) => c,
            None => target@,
        };
        let msg = match opt_str(message) {
            Some(m) => m,
            None => Seq::<char>::empty(),
        };
        let err = match opt_str(error) {
            Some(e) => " error="@ + e,
            None => Seq::<char>::empty(),
        };
        assert(line@ =~= "[Tork] "@ + decimal(pid as nat) + "  - "@ + timestamp@ + "  "@ + level_part@ + " ["@
            + ctx + "] "@ + msg + inline_fields(pair_texts(fields@)) + err + " +"@ + decimal(delta_ms as nat)
            + "ms\n"@);
    }
    line
}

// ---------------------------------------------------------------------------
// JSON records
// ---------------------------------------------------------------------------

/// The first position of key `k` in an entry list, looking from `from` on.
pub open spec fn key_position<V>(m: Seq<(Seq<char>, V)>, k: Seq<char>, from: int) -> Option<int>
    decreases m.len() - from,
{
    if from < 0 || from >= m.len() {
        None
    } else if m[from].0 == k {
        Some(from)
    } else {
        key_position(m, k, from + 1)
    }
}

/// `m` with `(k, v)` added unless `k` is already a key of it.
pub open spec fn insert_absent<V>(m: Seq<(Seq<char>, V)>, k: Seq<char>, v: V) -> Seq<(Seq<char>, V)> {
    match key_position(m, k, 0) {
        Some(_) => m,
        None => m.push((k, v)),
    }
}

/// `m` with the value of `k` set to `v`, added at the end when `k` is new.
pub open spec fn insert_replace<V>(m: Seq<(Seq<char>, V)>, k: Seq<char>, v: V) -> Seq<(Seq<char>, V)> {
    match key_position(m, k, 0) {
        Some(i) => m.update(i, (k, v)),
        None => m.push((k, v)),
    }
}

/// `m` with each of `fields` added in order, each only when its key is new.
pub open spec fn merge_absent<V>(m: Seq<(Seq<char>, V)>, fields: Seq<(Seq<char>, V)>) -> Seq<(Seq<char>, V)>
    decreases fields.len(),
{
    if fields.len() == 0 {
        m
    } else {
        let before = merge_absent(m, fields.drop_last());
        insert_absent(before, fields.last().0, fields.last().1)
    }
}

/// The keys every JSON record carries before its fields.
pub open spec fn reserved_entries<V>(timestamp: V, level: V, service: V, context: V, message: V) -> Seq<(Seq<char>, V)> {
    seq![
        ("timestamp"@, timestamp),
        ("level"@, level),
        ("service"@, service),
        ("context"@, context),
        ("message"@, message),
    ]
}

/// The entries of a JSON record: the reserved keys, then each logger field
/// whose key is not already taken, then the error (which replaces a field of
/// the same name).
pub open spec fn spec_json_record<V>(reserved: Seq<(Seq<char>, V)>, fields: Seq<(Seq<char>, V)>, error: Option<V>) -> Seq<(Seq<char>, V)> {
    let merged = merge_absent(reserved, fields);
    match error {
        Some(e) => insert_replace(merged, ERROR_KEY@, e),
        None => merged,
    }
}

/// The key and value view of an entry list.
pub open spec fn entry_view<V>(v: Seq<(String, V)>) -> Seq<(Seq<char>, V)> {
    v.map_values(|p: (String, V)| (p.0@, p.1))
}

/// The position of `key` among the entries, or `entries.len()` when absent.
fn find_key<V>(entries: &Vec<(String, V)>, key: &str) -> (pos: usize)
    ensures
        pos <= entries@.len(),
        pos < entries@.len() ==> key_position(entry_view(entries@), key@, 0) == Some(pos as int),
        pos == entries@.len() ==> key_position(entry_view(entries@), key@, 0) is None,
{
    let ghost ev = entry_view(entries@);
    let mut i: usize = 0;
    while i < entries.len()
        invariant
            i <= entries@.len(),
            ev == entry_view(entries@),
            key_position(ev, key@, 0) == key_position(ev, key@, i as int),
        decreases entries.len() - i,
    {
        if str_eq(entries[i].0.as_str(), key) {
            return i;
        }
        i = i + 1;
    }
    i
}

/// Sets `key` to `value` among the entries: the entry of that name is replaced
/// in place, or the pair is added at the end.
pub fn set_entry<V>(entries: &mut Vec<(String, V)>, key: &str, value: V)
    ensures
        entry_view(final(entries)@) == insert_replace(entry_view(old(entries)@), key@, value),
{
    let ghost before = entry_view(entries@);
    let pos = find_key(entries, key);
    if pos < entries.len() {
        entries.remove(pos);
        entries.insert(pos, (key.to_string(), value));
        assert(entry_view(entries@) =~= before.update(pos as int, (key@, value)));
    } else {
        entries.push((key.to_string(), value));
        assert(entry_view(entries@) =~= before.push((key@, value)));
    }
}

/// The entries of one JSON log record, in the order they are added to the
/// record's object.
pub fn json_record<V>(
    timestamp: V,
    level: V,
    service: V,
    context: V,
    message: V,
    fields: Vec<(String, V)>,
    error: Option<V>,
) -> (entries: Vec<(String, V)>)
    ensures
        entry_view(entries@) == spec_json_record(
            reserved_entries(timestamp, level, service, context, message),
            entry_view(fields@),
            error,
        ),
{
    let ghost reserved = reserved_entries(timestamp, level, service, context, message);
    let ghost fv = entry_view(fields@);
    let mut entries: Vec<(String, V)> = Vec::new();
    entries.push(("timestamp".to_string(), timestamp));
    entries.push(("level".to_string(), level));
    entries.push(("service".to_string(), service));
    entries.push(("context".to_string(), context));
    entries.push(("message".to_string(), message));
    assert(entry_view(entries@) =~= reserved);
    let mut rest = fields;
    let ghost mut done: Seq<(Seq<char>, V)> = Seq::empty();
    // Move the fields out, front to back.
    while rest.len() > 0
        invariant
            fv == done + entry_view(rest@),
            reserved == reserved_entries(timestamp, level, service, context, message),
            entry_view(entries@) == merge_absent(reserved, done),
        decreases rest.len(),
    {
        let ghost rv = entry_view(rest@);
        let (k, v) = rest.remove(0);
        let ghost kv = k@;
        let ghost before = entry_view(entries@);
        let pos = find_key(&entries, k.as_str());
        if pos == entries.len() {
            entries.push((k, v));
            assert(entry_view(entries@) =~= before.push((kv, v)));
        }
        proof {
            let next = done.push((kv, v));
            assert(next.drop_last() =~= done);
            assert(next.last() == (kv, v));
            assert(merge_absent(reserved, next) == insert_absent(merge_absent(reserved, done), kv, v));
            assert(entry_view(entries@) == insert_absent(before, kv, v));
            done = next;
            assert(rv[0] == (kv, v));
            assert(entry_view(rest@) =~= rv.drop_first());
            assert(fv =~= done + entry_view(rest@));
        }
    }
    assert(fv =~= done);
    let ghost merged = entry_view(entries@);
    match error {
        Some(e) => {
            let pos = find_key(&entries, ERROR_KEY);
            if pos < entries.len() {
                entries.remove(pos);
                entries.insert(pos, (ERROR_KEY.to_string(), e));
                assert(entry_view(entries@) =~= merged.update(pos as int, (ERROR_KEY@, e)));
            } else {
                entries.push((ERROR_KEY.to_string(), e));
                assert(entry_view(entries@) =~= merged.push((ERROR_KEY@, e)));
            }
        },
        None => {},
    }
    entries
}

/// A found key sits at a position from `from` on, and holds that key.
proof fn lemma_key_position_found<V>(m: Seq<(Seq<char>, V)>, k: Seq<char>, from: int)
    requires
        key_position(m, k, from) is Some,
    ensures
        from <= key_position(m, k, from)->0 < m.len(),
        m[key_position(m, k, from)->0].0 == k,
    decreases m.len() - from,
{
    if m[from].0 != k {
        lemma_key_position_found(m, k, from + 1);
    }
}

/// Merging fields only ever appends: the entries already present stay, in place.
proof fn lemma_merge_keeps_prefix<V>(m: Seq<(Seq<char>, V)>, fields: Seq<(Seq<char>, V)>)
    ensures
        merge_absent(m, fields).len() >= m.len(),
        forall|i: int| 0 <= i < m.len() ==> #[trigger] merge_absent(m, fields)[i] == m[i],
    decreases fields.len(),
{
    if fields.len() > 0 {
        lemma_merge_keeps_prefix(m, fields.drop_last());
    }
}

/// A JSON record keeps its reserved entries (timestamp, level, service,
/// context, message) first and unchanged, whatever logger fields it carries;
/// and a record with an error carries that error under `error`.
pub proof fn law_fields_never_replace_reserved<V>(
    timestamp: V,
    level: V,
    service: V,
    context: V,
    message: V,
    fields: Seq<(Seq<char>, V)>,
    error: Option<V>,
)
    ensures
        ({
            let reserved = reserved_entries(timestamp, level, service, context, message);
            let r = spec_json_record(reserved, fields, error);
            &&& r.len() >= 5
            &&& r.subrange(0, 5) == reserved
            &&& (error matches Some(e) ==> r.contains((ERROR_KEY@, e)))
        }),
{
    let reserved = reserved_entries(timestamp, level, service, context, message);
    let merged = merge_absent(reserved, fields);
    lemma_merge_keeps_prefix(reserved, fields);
    reveal_strlit("timestamp");
    reveal_strlit("level");
    reveal_strlit("service");
    reveal_strlit("context");
    reveal_strlit("message");
    reveal_strlit("error");
    match error {
        Some(e) => {
            match key_position(merged, ERROR_KEY@, 0) {
                Some(j) => {
                    lemma_key_position_found(merged, ERROR_KEY@, 0);
                    assert(merged[j].0 == ERROR_KEY@);
                    if j < 5 {
                        assert(merged[j] == reserved[j]);
                        assert(reserved[j].0.len() != ERROR_KEY@.len() || reserved[j].0[0] != ERROR_KEY@[0]);
                    }
                    let r = merged.update(j, (ERROR_KEY@, e));
                    assert(r[j] == (ERROR_KEY@, e));
                    assert(r.subrange(0, 5) =~= reserved);
                },
                None => {
                    let r = merged.push((ERROR_KEY@, e));
                    assert(r[merged.len() as int] == (ERROR_KEY@, e));
                    assert(r.subrange(0, 5) =~= reserved);
                },
            }
        },
        None => {
            assert(merged.subrange(0, 5) =~= reserved);
        },
    }
}

// ---------------------------------------------------------------------------
// Logger fields
// ---------------------------------------------------------------------------

/// `m` with each of `fields` set in order, a later value of a key replacing
/// the earlier one in place.
pub open spec fn merge_replace<V>(m: Seq<(Seq<char>, V)>, fields: Seq<(Seq<char>, V)>) -> Seq<(Seq<char>, V)>
    decreases fields.len(),
{
    if fields.len() == 0 {
        m
    } else {
        let before = merge_replace(m, fields.drop_last());
        insert_replace(before, fields.last().0, fields.last().1)
    }
}

/// The key and value view of a list of fields with static keys.
pub open spec fn static_view<V>(v: Seq<(&'static str, V)>) -> Seq<(Seq<char>, V)> {
    v.map_values(|p: (&'static str, V)| (p.0@, p.1))
}

/// The field set a record starts with: a logger's base fields set in order
/// (a repeated key keeps its last value).
pub fn record_fields<V>(base: Vec<(&'static str, V)>) -> (fields: Vec<(String, V)>)
    ensures
        entry_view(fields@) == merge_replace(Seq::<(Seq<char>, V)>::empty(), static_view(base@)),
{
    let ghost bv = static_view(base@);
    let mut rest = base;
    let mut fields: Vec<(String, V)> = Vec::new();
    let ghost mut done: Seq<(Seq<char>, V)> = Seq::empty();
    while rest.len() > 0
        invariant
            bv == done + static_view(rest@),
            entry_view(fields@) == merge_replace(Seq::<(Seq<char>, V)>::empty(), done),
        decreases rest.len(),
    {
        let ghost rv = static_view(rest@);
        let (k, v) = rest.remove(0);
        let ghost before = entry_view(fields@);
        let pos = find_key(&fields, k);
        if pos < fields.len() {
            fields.remove(pos);
            fields.insert(pos, (k.to_string(), v));
            assert(entry_view(fields@) =~= before.update(pos as int, (k@, v)));
        } else {
            fields.push((k.to_string(), v));
            assert(entry_view(fields@) =~= before.push((k@, v)));
        }
        proof {
            let next = done.push((k@, v));
            assert(next.drop_last() =~= done);
            assert(next.last() == (k@, v));
            done = next;
            assert(rv[0] == (k@, v));
            assert(static_view(rest@) =~= rv.drop_first());
            assert(bv =~= done + static_view(rest@));
        }
    }
    assert(bv =~= done);
    fields
}

/// The base fields of a request's logger: the request id (when the header is
/// readable text), the method and the path.
pub open spec fn spec_request_fields(request_id: Option<Seq<u8>>, method: Seq<char>, path: Seq<char>) -> Seq<(Seq<char>, Seq<char>)> {
    let id = match request_id {
        Some(b) => match spec_header_text(b) {
            Some(t) => seq![("request_id"@, t)],
            None => Seq::empty(),
        },
        None => Seq::empty(),
    };
    id + seq![("method"@, method), ("path"@, path)]
}

/// The base fields of a request's logger, from the raw request-id header.
pub fn request_fields(request_id: Option<&[u8]>, method: &str, path: &str) -> (fields: Vec<(&'static str, String)>)
    ensures
        fields@.map_values(|p: (&'static str, String)| (p.0@, p.1@)) == spec_request_fields(
            match request_id {
                Some(b) => Some(b@),
                None => None,
            },
            method@,
            path@,
        ),
{
    let mut fields: Vec<(&'static str, String)> = Vec::new();
    match request_id {
        Some(bytes) => match header_text(bytes) {
            Some(t) => fields.push(("request_id", t)),
            None => {},
        },
        None => {},
    }
    fields.push(("method", method.to_string()));
    fields.push(("path", path.to_string()));
    let ghost id = match request_id {
        Some(b) => match spec_header_text(b@) {
            Some(t) => seq![("request_id"@, t)],
            None => Seq::<(Seq<char>, Seq<char>)>::empty(),
        },
        None => Seq::<(Seq<char>, Seq<char>)>::empty(),
    };
    assert(fields@.map_values(|p: (&'static str, String)| (p.0@, p.1@)) =~= id + seq![("method"@, method@), ("path"@, path@)]);
    fields
}

} // verus!
