//! Nested configuration values: tables of named entries whose leaves hold the
//! values themselves, and the insertion of a value at a dotted path.
//!
//! Secrets files (`db__password` becomes `db.password`) and explicit overrides
//! are layered into the configuration this way: every table on the path is
//! created when missing, a leaf found on the path is replaced by a table, and
//! whatever sat at the path itself is replaced by the value.

use vstd::prelude::*;
use crate::text::{lemma_occurs_shift, matches_at, occurs_at, push_char, str_eq, to_chars};

verus! {

/// A configuration value: a leaf, or a table of named entries.
pub enum ConfigValue<V> {
    Leaf(V),
    Table(Vec<(String, ConfigValue<V>)>),
}

/// The position of the first entry named `key`, looking from `from` on.
pub open spec fn entry_position<V>(entries: Seq<(String, ConfigValue<V>)>, key: Seq<char>, from: int) -> Option<int>
    decreases entries.len() - from,
{
    if from < 0 || from >= entries.len() {
        None
    } else if entries[from].0@ == key {
        Some(from)
    } else {
        entry_position(entries, key, from + 1)
    }
}

/// The value found by following `path` from `v`: `v` itself for the empty
/// path; nothing when a step meets a leaf or a table without that name.
pub open spec fn value_at<V>(v: ConfigValue<V>, path: Seq<Seq<char>>) -> Option<ConfigValue<V>>
    decreases path.len(), 1int,
{
    if path.len() == 0 {
        Some(v)
    } else {
        match v {
            ConfigValue::Leaf(_) => None,
            ConfigValue::Table(entries) => entries_at(entries@, path),
        }
    }
}

/// The value found by following a non-empty `path` from a table's entries:
/// the first entry named like its first segment, followed by the rest.
pub open spec fn entries_at<V>(entries: Seq<(String, ConfigValue<V>)>, path: Seq<Seq<char>>) -> Option<ConfigValue<V>>
    decreases path.len(), 0int,
{
    if path.len() == 0 {
        None
    } else {
        match entry_position(entries, path[0], 0) {
            Some(i) => value_at(entries[i].1, path.drop_first()),
            None => None,
        }
    }
}

/// `p` is a prefix of `q`.
pub open spec fn is_path_prefix(p: Seq<Seq<char>>, q: Seq<Seq<char>>) -> bool {
    p.len() <= q.len() && q.subrange(0, p.len() as int) == p
}

/// Two paths on separate branches: neither leads through the other.
pub open spec fn separate_paths(p: Seq<Seq<char>>, q: Seq<Seq<char>>) -> bool {
    !is_path_prefix(p, q) && !is_path_prefix(q, p)
}

/// The text of a list of path segments.
pub open spec fn segments(parts: Seq<String>) -> Seq<Seq<char>> {
    parts.map_values(|s: String| s@)
}

proof fn lemma_entry_position<V>(entries: Seq<(String, ConfigValue<V>)>, key: Seq<char>, from: int)
    requires
        0 <= from,
    ensures
        entry_position(entries, key, from) matches Some(i) ==> from <= i < entries.len() && entries[i].0@ == key,
        entry_position(entries, key, from) is None ==> forall|j: int|
            from <= j < entries.len() ==> #[trigger] entries[j].0@ != key,
    decreases entries.len() - from,
{
    if from < entries.len() && entries[from].0@ != key {
        lemma_entry_position(entries, key, from + 1);
    }
}

/// The first entry named `key`, or the number of entries when there is none.
fn find_entry<V>(entries: &Vec<(String, ConfigValue<V>)>, key: &str) -> (pos: usize)
    ensures
        pos <= entries@.len(),
        pos < entries@.len() ==> entry_position(entries@, key@, 0) == Some(pos as int),
        pos == entries@.len() ==> entry_position(entries@, key@, 0) is None,
{
    let mut i: usize = 0;
    while i < entries.len()
        invariant
            i <= entries@.len(),
            entry_position(entries@, key@, 0) == entry_position(entries@, key@, i as int),
        decreases entries.len() - i,
    {
        if str_eq(entries[i].0.as_str(), key) {
            return i;
        }
        i = i + 1;
    }
    i
}

/// Positions in a table are unchanged by replacing an entry with one of the
/// same name.
proof fn lemma_position_after_update<V>(
    entries: Seq<(String, ConfigValue<V>)>,
    at: int,
    entry: (String, ConfigValue<V>),
    key: Seq<char>,
    from: int,
)
    requires
        0 <= at < entries.len(),
        0 <= from,
        entry.0@ == entries[at].0@,
    ensures
        entry_position(entries.update(at, entry), key, from) == entry_position(entries, key, from),
    decreases entries.len() - from,
{
    if from < entries.len() {
        lemma_position_after_update(entries, at, entry, key, from + 1);
    }
}

/// Adding an entry at the end only finds it when no earlier entry has its name.
proof fn lemma_position_after_push<V>(
    entries: Seq<(String, ConfigValue<V>)>,
    entry: (String, ConfigValue<V>),
    key: Seq<char>,
    from: int,
)
    requires
        0 <= from <= entries.len(),
    ensures
        entry_position(entries.push(entry), key, from) == match entry_position(entries, key, from) {
            Some(i) => Some(i),
            None => if key == entry.0@ {
                Some(entries.len() as int)
            } else {
                None
            },
        },
    decreases entries.len() - from,
{
    let pushed = entries.push(entry);
    if from < entries.len() {
        assert(pushed[from] == entries[from]);
        lemma_position_after_push(entries, entry, key, from + 1);
    } else {
        assert(pushed[from] == entry);
        assert(entry_position(pushed, key, from + 1) is None);
    }
}

/// Sets `value` at the path `parts` under the table `entries`: each table on
/// the way is created when missing, a leaf met on the way is replaced by a
/// table, and whatever sat at the path itself is replaced. An empty path
/// changes nothing.
pub fn insert_nested<V>(entries: &mut Vec<(String, ConfigValue<V>)>, parts: &[String], value: V)
    ensures
        parts@.len() == 0 ==> *final(entries) == *old(entries),
        parts@.len() > 0 ==> entries_at(final(entries)@, segments(parts@)) == Some(ConfigValue::<V>::Leaf(value)),
        forall|q: Seq<Seq<char>>|
            separate_paths(segments(parts@), q) ==> #[trigger] entries_at(final(entries)@, q) == entries_at(
                old(entries)@,
                q,
            ),
    decreases parts@.len(),
{
    if parts.len() == 0 {
        return;
    }
    let ghost path = segments(parts@);
    let ghost before = entries@;
    let key = parts[0].as_str();
    let pos = find_entry(entries, key);
    let n = entries.len();
    let rest = vstd::slice::slice_subrange(parts, 1, parts.len());
    proof {
        assert(segments(rest@) =~= path.drop_first());
        lemma_entry_position(before, key@, 0);
    }
    if parts.len() == 1 {
        let entry = (parts[0].clone(), ConfigValue::Leaf(value));
        if pos < entries.len() {
            entries.remove(pos);
            entries.insert(pos, entry);
            proof {
                assert(entries@ =~= before.update(pos as int, entry));
                lemma_replaced_entry(before, pos as int, entry, path);
            }
        } else {
            entries.push(entry);
            proof {
                lemma_added_entry(before, entry, path);
            }
        }
        proof {
            let fin = entries@;
            assert forall|q: Seq<Seq<char>>| separate_paths(path, q) implies #[trigger] entries_at(fin, q)
                == entries_at(before, q) by {
                if q.len() == 0 {
                    assert(q.subrange(0, 0) =~= path.subrange(0, 0));
                } else if q[0] == path[0] {
                    assert(q.subrange(0, 1) =~= path);
                }
            }
        }
    } else {
        let mut sub: Vec<(String, ConfigValue<V>)> = if pos < entries.len() {
            let (_, previous) = entries.remove(pos);
            match previous {
                ConfigValue::Table(t) => t,
                ConfigValue::Leaf(_) => Vec::new(),
            }
        } else {
            Vec::new()
        };
        let ghost sub_before = sub@;
        proof {
            // What the path below the key held before, seen through the table now under it.
            assert forall|q: Seq<Seq<char>>| q.len() > 0 implies #[trigger] entries_at(sub_before, q)
                == (if pos < before.len() {
                value_at(before[pos as int].1, q)
            } else {
                None
            }) by {
                if pos < before.len() {
                    match before[pos as int].1 {
                        ConfigValue::Leaf(_) => {
                            assert(sub_before.len() == 0);
                        },
                        ConfigValue::Table(_) => {},
                    }
                }
            }
        }
        insert_nested(&mut sub, rest, value);
        let ghost sub_after = sub@;
        let entry = (parts[0].clone(), ConfigValue::Table(sub));
        if pos < n {
            entries.insert(pos, entry);
            proof {
                assert(entries@ =~= before.update(pos as int, entry));
                lemma_replaced_entry(before, pos as int, entry, path);
            }
        } else {
            entries.push(entry);
            proof {
                lemma_added_entry(before, entry, path);
            }
        }
        proof {
            let fin = entries@;
            assert forall|q: Seq<Seq<char>>| separate_paths(path, q) implies #[trigger] entries_at(fin, q)
                == entries_at(before, q) by {
                if q.len() == 0 {
                    assert(q.subrange(0, 0) =~= path.subrange(0, 0));
                } else if q[0] == path[0] {
                    lemma_separate_tails(path, q);
                    assert(entries_at(sub_after, q.drop_first()) == entries_at(sub_before, q.drop_first()));
                }
            }
        }
    }
}

/// Separate paths that share their first segment stay separate without it,
/// and neither is left empty.
proof fn lemma_separate_tails(p: Seq<Seq<char>>, q: Seq<Seq<char>>)
    requires
        separate_paths(p, q),
        p.len() > 0,
        q.len() > 0,
        p[0] == q[0],
    ensures
        separate_paths(p.drop_first(), q.drop_first()),
        p.drop_first().len() > 0,
        q.drop_first().len() > 0,
{
    let (p1, q1) = (p.drop_first(), q.drop_first());
    if p1.len() == 0 {
        assert(q.subrange(0, p.len() as int) =~= p);
    }
    if q1.len() == 0 {
        assert(p.subrange(0, q.len() as int) =~= q);
    }
    if is_path_prefix(p1, q1) {
        assert(q.subrange(0, p.len() as int) =~= seq![q[0]] + q1.subrange(0, p1.len() as int));
        assert(p =~= seq![p[0]] + p1);
    }
    if is_path_prefix(q1, p1) {
        assert(p.subrange(0, q.len() as int) =~= seq![p[0]] + p1.subrange(0, q1.len() as int));
        assert(q =~= seq![q[0]] + q1);
    }
}

/// Replacing the entry found for the path's first segment (keeping its name)
/// leaves every path on another branch where it was, and leads the path into
/// the new entry.
proof fn lemma_replaced_entry<V>(
    before: Seq<(String, ConfigValue<V>)>,
    pos: int,
    entry: (String, ConfigValue<V>),
    path: Seq<Seq<char>>,
)
    requires
        path.len() > 0,
        0 <= pos < before.len(),
        entry_position(before, path[0], 0) == Some(pos),
        entry.0@ == path[0],
    ensures
        entries_at(before.update(pos, entry), path) == value_at(entry.1, path.drop_first()),
        forall|q: Seq<Seq<char>>|
            q.len() > 0 && q[0] != path[0] ==> #[trigger] entries_at(before.update(pos, entry), q)
                == entries_at(before, q),
        forall|q: Seq<Seq<char>>|
            q.len() > 0 && q[0] == path[0] ==> #[trigger] entries_at(before.update(pos, entry), q)
                == value_at(entry.1, q.drop_first()),
{
    lemma_entry_position(before, path[0], 0);
    lemma_position_after_update(before, pos, entry, path[0], 0);
    assert forall|q: Seq<Seq<char>>| q.len() > 0 && q[0] != path[0] implies #[trigger] entries_at(before.update(pos, entry), q) == entries_at(before, q) by {
        lemma_position_after_update(before, pos, entry, q[0], 0);
        lemma_entry_position(before, q[0], 0);
    }
    assert forall|q: Seq<Seq<char>>| q.len() > 0 && q[0] == path[0] implies #[trigger] entries_at(before.update(pos, entry), q) == value_at(entry.1, q.drop_first()) by {
        lemma_position_after_update(before, pos, entry, q[0], 0);
    }
}

/// Adding an entry under the path's (absent) first segment leaves every path
/// on another branch where it was, and leads the path into the new entry.
proof fn lemma_added_entry<V>(before: Seq<(String, ConfigValue<V>)>, entry: (String, ConfigValue<V>), path: Seq<Seq<char>>)
    requires
        path.len() > 0,
        entry_position(before, path[0], 0) is None,
        entry.0@ == path[0],
    ensures
        entries_at(before.push(entry), path) == value_at(entry.1, path.drop_first()),
        forall|q: Seq<Seq<char>>|
            q.len() > 0 && q[0] != path[0] ==> #[trigger] entries_at(before.push(entry), q)
                == entries_at(before, q),
        forall|q: Seq<Seq<char>>|
            q.len() > 0 && q[0] == path[0] ==> #[trigger] entries_at(before.push(entry), q)
                == value_at(entry.1, q.drop_first()),
        forall|q: Seq<Seq<char>>|
            q.len() > 0 && q[0] == path[0] ==> #[trigger] entries_at(before, q) is None,
{
    lemma_position_after_push(before, entry, path[0], 0);
    assert forall|q: Seq<Seq<char>>| q.len() > 0 && q[0] != path[0] implies #[trigger] entries_at(before.push(entry), q) == entries_at(before, q) by {
        lemma_position_after_push(before, entry, q[0], 0);
        lemma_entry_position(before, q[0], 0);
    }
    assert forall|q: Seq<Seq<char>>| q.len() > 0 && q[0] == path[0] implies #[trigger] entries_at(before.push(entry), q) == value_at(entry.1, q.drop_first()) by {
        lemma_position_after_push(before, entry, q[0], 0);
    }
}

// ---------------------------------------------------------------------------
// Paths
// ---------------------------------------------------------------------------

/// The separator of nesting levels in a secrets file name.
pub const NESTING_SEPARATOR: &'static str = "__";

/// The pieces of `s` between the occurrences of `p`, found left to right
/// without overlap (as `str::split` finds them); `s` without any occurrence is
/// one piece, the empty text one empty piece.
pub open spec fn split_pattern(s: Seq<char>, p: Seq<char>) -> Seq<Seq<char>>
    decreases s.len(),
{
    if s.len() == 0 || p.len() == 0 {
        seq![s]
    } else if occurs_at(s, p, 0) {
        seq![Seq::empty()] + split_pattern(s.subrange(p.len() as int, s.len() as int), p)
    } else {
        let rest = split_pattern(s.drop_first(), p);
        rest.update(0, seq![s[0]] + rest[0])
    }
}

proof fn lemma_split_nonempty(s: Seq<char>, p: Seq<char>)
    ensures
        split_pattern(s, p).len() > 0,
    decreases s.len(),
{
    if s.len() > 0 && p.len() > 0 {
        if occurs_at(s, p, 0) {
            lemma_split_nonempty(s.subrange(p.len() as int, s.len() as int), p);
        } else {
            lemma_split_nonempty(s.drop_first(), p);
        }
    }
}

/// The pieces done so far, then the current piece glued to the first piece of
/// the rest.
pub open spec fn glued(done: Seq<Seq<char>>, current: Seq<char>, rest: Seq<Seq<char>>) -> Seq<Seq<char>> {
    done + seq![current + rest[0]] + rest.drop_first()
}

/// Splits `s` at each occurrence of the non-empty `pattern`.
fn split_on(s: &str, pattern: &str) -> (parts: Vec<String>)
    requires
        pattern@.len() > 0,
    ensures
        segments(parts@) == split_pattern(s@, pattern@),
{
    let chars = to_chars(s);
    let pat = to_chars(pattern);
    let n = chars.len();
    let mut parts: Vec<String> = Vec::new();
    let mut current = String::new();
    let mut i: usize = 0;
    proof {
        lemma_split_nonempty(s@, pattern@);
        assert(s@.subrange(0, n as int) =~= s@);
        let r = split_pattern(s@, pattern@);
        assert(glued(Seq::empty(), Seq::empty(), r) =~= r);
    }
    while i < n
        invariant
            n == chars@.len(),
            chars@ == s@,
            pat@ == pattern@,
            pattern@.len() > 0,
            i <= n,
            glued(segments(parts@), current@, split_pattern(s@.subrange(i as int, n as int), pattern@))
                == split_pattern(s@, pattern@),
        decreases n - i,
    {
        let ghost rest = s@.subrange(i as int, n as int);
        let ghost done = segments(parts@);
        proof {
            lemma_occurs_shift(s@, pattern@, i as int);
        }
        if matches_at(chars.as_slice(), pat.as_slice(), i) {
            let ghost next = s@.subrange(i + pattern@.len(), n as int);
            proof {
                assert(rest.subrange(pattern@.len() as int, rest.len() as int) =~= next);
                lemma_split_nonempty(next, pattern@);
            }
            let ghost cur = current@;
            parts.push(current);
            current = String::new();
            proof {
                let t = split_pattern(next, pattern@);
                assert(segments(parts@) =~= done.push(cur));
                assert(split_pattern(rest, pattern@) =~= seq![Seq::<char>::empty()] + t);
                assert(glued(segments(parts@), current@, t) =~= glued(done, cur, split_pattern(rest, pattern@)));
            }
            i = i + pat.len();
        } else {
            let ghost next = s@.subrange(i + 1, n as int);
            proof {
                assert(rest.drop_first() =~= next);
                lemma_split_nonempty(next, pattern@);
            }
            let ghost cur = current@;
            push_char(&mut current, chars[i]);
            proof {
                let t = split_pattern(next, pattern@);
                let c = chars@[i as int];
                assert(rest[0] == c);
                assert(!occurs_at(rest, pattern@, 0));
                assert(split_pattern(rest, pattern@) == t.update(0, seq![c] + t[0]));
                assert(current@ + t[0] =~= cur + (seq![c] + t[0]));
                assert(t.update(0, seq![c] + t[0]).drop_first() =~= t.drop_first());
                assert(glued(done, current@, t) =~= glued(done, cur, split_pattern(rest, pattern@)));
            }
            i = i + 1;
        }
    }
    proof {
        assert(s@.subrange(n as int, n as int) =~= Seq::<char>::empty());
    }
    let ghost cur = current@;
    let ghost done = segments(parts@);
    parts.push(current);
    assert(segments(parts@) =~= glued(done, cur, seq![Seq::<char>::empty()]));
    parts
}

/// The path an override key names: its dot-separated segments.
pub fn override_path(key: &str) -> (path: Vec<String>)
    ensures
        segments(path@) == split_pattern(key@, "."@),
{
    proof {
        reveal_strlit(".");
    }
    split_on(key, ".")
}

/// The lower-cased form of a text, as `str::to_lowercase` gives it (full
/// Unicode case mapping).
pub uninterp spec fn unicode_lowercase(s: Seq<char>) -> Seq<char>;

/// Lower-cases a text (`str::to_lowercase`).
///
/// Trusted: the result is the one named by `unicode_lowercase`.
#[verifier::external_body]
fn to_lowercase(s: &str) -> (lower: String)
    ensures
        lower@ == unicode_lowercase(s@),
{
    s.to_lowercase()
}

/// The path a secrets file name names: the lower-cased name, split at each
/// `__`.
pub fn secret_path(file_name: &str) -> (path: Vec<String>)
    ensures
        segments(path@) == split_pattern(unicode_lowercase(file_name@), NESTING_SEPARATOR@),
{
    let lower = to_lowercase(file_name);
    proof {
        reveal_strlit("__");
    }
    split_on(lower.as_str(), NESTING_SEPARATOR)
}

} // verus!
