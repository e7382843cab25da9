//! Middleware registration: duplicate detection and each built-in layer's
//! stable name.
//!
//! A middleware layer has a stable name and a [`DuplicatePolicy`] saying what
//! happens when a layer of the same name is registered again.
//! [`resolve_duplicates`] applies those policies to a registration list.

pub mod cors;
pub mod trusted_host;
pub mod https_redirect;
pub mod proxy_headers;
pub mod request_id;
pub mod timeout;
pub mod trace;
pub mod security_headers;
pub mod body_limit;
pub mod compression;

use vstd::prelude::*;
use crate::error::Error;
use crate::text::{occurs_at, push_str, string_of_range, to_chars, matches_at};

verus! {

/// Controls what happens when a middleware whose name already exists is
/// registered again.
#[derive(Debug, Clone, Copy, PartialEq, Eq, Structural)]
pub enum DuplicatePolicy {
    /// Keep every registration.
    Allow,
    /// Keep every registration, but log a warning.
    Warn,
    /// Reject the application configuration with an error.
    Reject,
    /// Keep only the most recent registration.
    Replace,
}

/// One middleware registration: its name and duplicate policy.
pub struct Registration {
    /// The stable name used for duplicate detection.
    pub name: String,
    /// What happens when the name is registered again.
    pub policy: DuplicatePolicy,
}

/// The outcome of resolving duplicates.
pub struct Resolution {
    /// Indices (into the registration list) of the layers kept, in chain order.
    pub kept: Vec<usize>,
    /// Indices of the registrations that were kept under the `Warn` policy
    /// although their name was already registered.
    pub warned: Vec<usize>,
}

/// The first position in `kept` whose registration has the name `name`,
/// scanning positions from `from` on.
pub open spec fn find_name(regs: Seq<Registration>, kept: Seq<usize>, name: Seq<char>, from: int) -> Option<int>
    decreases kept.len() - from,
{
    if from < 0 || from >= kept.len() {
        None
    } else if regs[kept[from] as int].name@ == name {
        Some(from)
    } else {
        find_name(regs, kept, name, from + 1)
    }
}

/// The kept and warned index lists after the first `n` registrations, or `None`
/// once a rejected duplicate is met.
pub open spec fn spec_resolve(regs: Seq<Registration>, n: int) -> Option<(Seq<usize>, Seq<usize>)>
    decreases n,
{
    if n <= 0 {
        Some((Seq::empty(), Seq::empty()))
    } else {
        match spec_resolve(regs, n - 1) {
            None => None,
            Some((kept, warned)) => {
                let entry = regs[n - 1];
                let idx = (n - 1) as usize;
                match find_name(regs, kept, entry.name@, 0) {
                    None => Some((kept.push(idx), warned)),
                    Some(pos) => match entry.policy {
                        DuplicatePolicy::Allow => Some((kept.push(idx), warned)),
                        DuplicatePolicy::Warn => Some((kept.push(idx), warned.push(idx))),
                        DuplicatePolicy::Replace => Some((kept.update(pos, idx), warned)),
                        DuplicatePolicy::Reject => None,
                    },
                }
            },
        }
    }
}

/// The message of the error for a middleware registered twice that allows no
/// duplicate, given its short name.
pub open spec fn duplicate_message(short: Seq<char>) -> Seq<char> {
    "Duplicate middleware detected: "@ + short + "\n"@ + short
        + " middleware can only be registered once per scope.\n"@ + "Already registered at app level."@
}

/// `e` is the error for the first registration that is a rejected duplicate:
/// an internal error coded `DUPLICATE_MIDDLEWARE`, naming that middleware.
pub open spec fn duplicate_rejection(regs: Seq<Registration>, e: Error) -> bool {
    exists|i: int|
        0 <= i < regs.len() && spec_resolve(regs, i) is Some && #[trigger] spec_resolve(regs, i + 1) is None
            && crate::multipart::coded(
            e,
            crate::error::ErrorKind::Internal,
            duplicate_message(spec_short_name(regs[i].name@)),
            "DUPLICATE_MIDDLEWARE"@,
        )
}

/// Every kept index points into the registration list.
pub open spec fn indices_in_range(kept: Seq<usize>, n: int) -> bool {
    forall|k: int| 0 <= k < kept.len() ==> #[trigger] kept[k] < n
}

proof fn lemma_find_name_bounds(regs: Seq<Registration>, kept: Seq<usize>, name: Seq<char>, from: int)
    ensures
        find_name(regs, kept, name, from) matches Some(p) ==> from <= p < kept.len() && 0 <= p,
    decreases kept.len() - from,
{
    if from >= 0 && from < kept.len() && regs[kept[from] as int].name@ != name {
        lemma_find_name_bounds(regs, kept, name, from + 1);
    }
}

/// Finds the first kept registration named like `regs[target]`.
fn find_position(regs: &[Registration], kept: &Vec<usize>, target: usize) -> (pos: Option<usize>)
    requires
        target < regs@.len(),
        indices_in_range(kept@, regs@.len() as int),
    ensures
        match pos {
            Some(p) => find_name(regs@, kept@, regs@[target as int].name@, 0) == Some(p as int),
            None => find_name(regs@, kept@, regs@[target as int].name@, 0) is None,
        },
{
    let name = &regs[target].name;
    let mut k: usize = 0;
    while k < kept.len()
        invariant
            k <= kept@.len(),
            target < regs@.len(),
            name@ == regs@[target as int].name@,
            indices_in_range(kept@, regs@.len() as int),
            find_name(regs@, kept@, regs@[target as int].name@, 0)
                == find_name(regs@, kept@, regs@[target as int].name@, k as int),
        decreases kept@.len() - k,
    {
        let idx = kept[k];
        if crate::text::str_eq(regs[idx].name.as_str(), name.as_str()) {
            return Some(k);
        }
        k = k + 1;
    }
    None
}

/// Returns the last `::`-separated segment of a type name.
pub open spec fn spec_short_name(name: Seq<char>) -> Seq<char> {
    match last_separator(name, name.len() - 2) {
        Some(i) => name.subrange(i + 2, name.len() as int),
        None => name,
    }
}

/// The largest position `<= i` where `::` occurs in `name`.
pub open spec fn last_separator(name: Seq<char>, i: int) -> Option<int>
    decreases i + 1,
{
    if i < 0 {
        None
    } else if occurs_at(name, "::"@, i) {
        Some(i)
    } else {
        last_separator(name, i - 1)
    }
}

proof fn lemma_last_separator_bounds(name: Seq<char>, i: int)
    ensures
        last_separator(name, i) matches Some(k) ==> 0 <= k <= i && occurs_at(name, "::"@, k),
    decreases i + 1,
{
    if i >= 0 && !occurs_at(name, "::"@, i) {
        lemma_last_separator_bounds(name, i - 1);
    }
}

/// Returns the last `::`-separated segment of a type name.
pub fn short_name(name: &str) -> (short: String)
    ensures
        short@ == spec_short_name(name@),
{
    let chars = to_chars(name);
    let sep = to_chars("::");
    let n = chars.len();
    if n < 2 {
        proof {
            reveal_strlit("::");
        }
        return crate::text::string_of(chars.as_slice());
    }
    let mut i: usize = n - 1;
    while i > 0
        invariant
            n == chars@.len(),
            chars@ == name@,
            sep@ == "::"@,
            i <= n - 1,
            last_separator(name@, n - 2) == last_separator(name@, i - 1),
        decreases i,
    {
        if matches_at(chars.as_slice(), sep.as_slice(), i - 1) {
            proof {
                lemma_last_separator_bounds(name@, (i - 1) as int);
            }
            return string_of_range(chars.as_slice(), i + 1, n);
        }
        i = i - 1;
    }
    crate::text::string_of(chars.as_slice())
}

/// Resolves duplicate registrations according to each registration's policy.
///
/// Registrations are taken in order. A name seen for the first time is kept.
/// A repeated name is kept again under `Allow` and `Warn` (and recorded as
/// warned under `Warn`), replaces the earlier kept registration in place under
/// `Replace`, and fails the whole resolution under `Reject` with the code
/// `DUPLICATE_MIDDLEWARE`.
pub fn resolve_duplicates(regs: &[Registration]) -> (r: Result<Resolution, Error>)
    ensures
        match r {
            Ok(res) => spec_resolve(regs@, regs@.len() as int) == Some((res.kept@, res.warned@)),
            Err(e) => spec_resolve(regs@, regs@.len() as int) is None && duplicate_rejection(regs@, e),
        },
{
    let mut kept: Vec<usize> = Vec::new();
    let mut warned: Vec<usize> = Vec::new();
    let mut i: usize = 0;
    while i < regs.len()
        invariant
            i <= regs@.len(),
            spec_resolve(regs@, i as int) == Some((kept@, warned@)),
            indices_in_range(kept@, i as int),
        decreases regs@.len() - i,
    {
        proof {
            lemma_find_name_bounds(regs@, kept@, regs@[i as int].name@, 0);
        }
        let found = find_position(regs, &kept, i);
        match found {
            None => {
                kept.push(i);
            },
            Some(pos) => {
                match regs[i].policy {
                    DuplicatePolicy::Allow => {
                        kept.push(i);
                    },
                    DuplicatePolicy::Warn => {
                        kept.push(i);
                        warned.push(i);
                    },
                    DuplicatePolicy::Replace => {
                        kept.set(pos, i);
                    },
                    DuplicatePolicy::Reject => {
                        let short = short_name(regs[i].name.as_str());
                        let mut message = String::new();
                        push_str(&mut message, "Duplicate middleware detected: ");
                        push_str(&mut message, short.as_str());
                        push_str(&mut message, "\n");
                        push_str(&mut message, short.as_str());
                        push_str(&mut message, " middleware can only be registered once per scope.\n");
                        push_str(&mut message, "Already registered at app level.");
                        proof {
                            assert(spec_resolve(regs@, i + 1) is None);
                            lemma_resolve_none_stays(regs@, i + 1, regs@.len() as int);
                            assert(message@ == duplicate_message(spec_short_name(regs@[i as int].name@)));
                        }
                        return Err(Error::internal(message.as_str()).with_code("DUPLICATE_MIDDLEWARE"));
                    },
                }
            },
        }
        i = i + 1;
        assert(indices_in_range(kept@, i as int));
    }
    Ok(Resolution { kept, warned })
}

/// Once a resolution fails it stays failed for every longer prefix.
proof fn lemma_resolve_none_stays(regs: Seq<Registration>, i: int, n: int)
    requires
        0 <= i <= n,
        spec_resolve(regs, i) is None,
    ensures
        spec_resolve(regs, n) is None,
    decreases n - i,
{
    if i < n {
        lemma_resolve_none_stays(regs, i, n - 1);
    }
}

/// Some kept registration is named `name`.
pub open spec fn has_name(regs: Seq<Registration>, kept: Seq<usize>, name: Seq<char>) -> bool {
    exists|k: int| 0 <= k < kept.len() && #[trigger] regs[kept[k] as int].name@ == name
}

proof fn lemma_find_name_complete(regs: Seq<Registration>, kept: Seq<usize>, name: Seq<char>, from: int)
    requires
        0 <= from,
        find_name(regs, kept, name, from) is None,
    ensures
        forall|k: int| from <= k < kept.len() ==> #[trigger] regs[kept[k] as int].name@ != name,
    decreases kept.len() - from,
{
    if from < kept.len() {
        lemma_find_name_complete(regs, kept, name, from + 1);
    }
}

proof fn lemma_find_name_sound(regs: Seq<Registration>, kept: Seq<usize>, name: Seq<char>, from: int)
    requires
        0 <= from,
    ensures
        find_name(regs, kept, name, from) matches Some(p) ==> 0 <= p < kept.len() && regs[kept[p] as int].name@
            == name,
    decreases kept.len() - from,
{
    if from < kept.len() && regs[kept[from] as int].name@ != name {
        lemma_find_name_sound(regs, kept, name, from + 1);
    }
}

/// While resolution succeeds, every kept position points into the list and
/// every registration seen so far has a kept registration of the same name.
proof fn lemma_names_stay_covered(regs: Seq<Registration>, m: int)
    requires
        0 <= m <= regs.len(),
        regs.len() <= usize::MAX,
        spec_resolve(regs, m) is Some,
    ensures
        indices_in_range((spec_resolve(regs, m)->0).0, m),
        forall|i: int| 0 <= i < m ==> has_name(regs, (spec_resolve(regs, m)->0).0, #[trigger] regs[i].name@),
    decreases m,
{
    if m > 0 {
        lemma_names_stay_covered(regs, m - 1);
        let (kept, warned) = spec_resolve(regs, m - 1)->0;
        let entry = regs[m - 1];
        let idx = (m - 1) as usize;
        assert(idx as int == m - 1);
        let next = (spec_resolve(regs, m)->0).0;
        lemma_find_name_sound(regs, kept, entry.name@, 0);
        assert(indices_in_range(next, m));
        assert forall|i: int| 0 <= i < m implies has_name(regs, next, #[trigger] regs[i].name@) by {
            if i == m - 1 {
                let w: int = match find_name(regs, kept, entry.name@, 0) {
                    Some(pos) => if entry.policy == DuplicatePolicy::Replace {
                        pos
                    } else {
                        kept.len() as int
                    },
                    None => kept.len() as int,
                };
                assert(next[w] == idx);
                assert(regs[next[w] as int].name@ == regs[i].name@);
            } else {
                assert(has_name(regs, kept, regs[i].name@));
                let k = choose|k: int| 0 <= k < kept.len() && #[trigger] regs[kept[k] as int].name@ == regs[i].name@;
                match find_name(regs, kept, entry.name@, 0) {
                    Some(pos) => {
                        if entry.policy == DuplicatePolicy::Replace && k == pos {
                            assert(next[pos] == idx);
                            assert(regs[next[k] as int].name@ == regs[i].name@);
                        } else {
                            assert(next[k] == kept[k]);
                            assert(regs[next[k] as int].name@ == regs[i].name@);
                        }
                    },
                    None => {
                        assert(next[k] == kept[k]);
                        assert(regs[next[k] as int].name@ == regs[i].name@);
                    },
                }
            }
        }
    }
}

/// A middleware that allows no duplicate, registered under a name already
/// registered before it, makes the whole resolution fail.
pub proof fn law_rejected_duplicate_fails(regs: Seq<Registration>, i: int, j: int)
    requires
        0 <= i < j < regs.len(),
        regs.len() <= usize::MAX,
        regs[i].name@ == regs[j].name@,
        regs[j].policy == DuplicatePolicy::Reject,
    ensures
        spec_resolve(regs, regs.len() as int) is None,
{
    if spec_resolve(regs, j) is Some {
        lemma_names_stay_covered(regs, j);
        let kept = (spec_resolve(regs, j)->0).0;
        assert(has_name(regs, kept, regs[i].name@));
        if find_name(regs, kept, regs[j].name@, 0) is None {
            lemma_find_name_complete(regs, kept, regs[j].name@, 0);
            let k = choose|k: int| 0 <= k < kept.len() && #[trigger] regs[kept[k] as int].name@ == regs[i].name@;
            assert(regs[kept[k] as int].name@ != regs[j].name@);
        }
        assert(spec_resolve(regs, j + 1) is None);
        lemma_resolve_none_stays(regs, j + 1, regs.len() as int);
    } else {
        lemma_resolve_none_stays(regs, j, regs.len() as int);
    }
}

} // verus!
