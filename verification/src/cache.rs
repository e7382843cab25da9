//! Cache policy: how entry lifetimes are chosen, how keys are namespaced in a
//! shared store, and the errors a typed cache reports.
//!
//! A zero time-to-live means "never expire".

use vstd::prelude::*;
use crate::duration::Duration;
use crate::error::{Error, ErrorKind};
use crate::text::push_str;

verus! {

/// The key prefix a shared (Redis) store uses unless told otherwise.
pub const DEFAULT_PREFIX: &'static str = "tork:";

/// Message of the error for a cache used without being configured.
pub const NOT_CONFIGURED_MESSAGE: &'static str = "cache is not configured; call `App::cache(...)` to enable it";

/// A time-to-live as stored: a zero span means no expiry.
pub open spec fn spec_normalize_ttl(ttl: Option<Duration>) -> Option<Duration> {
    match ttl {
        Some(t) => if t.total_nanos() == 0 {
            None
        } else {
            Some(t)
        },
        None => None,
    }
}

/// A time-to-live as stored: a zero span means no expiry.
pub fn normalize_ttl(ttl: Option<Duration>) -> (r: Option<Duration>)
    ensures
        r == spec_normalize_ttl(ttl),
{
    match ttl {
        Some(t) => if t.is_zero() {
            None
        } else {
            Some(t)
        },
        None => None,
    }
}

/// `prefix` followed by `key`: the key an entry has in a shared store.
pub fn prefixed(prefix: &str, key: &str) -> (k: String)
    ensures
        k@ == prefix@ + key@,
{
    let mut k = prefix.to_string();
    push_str(&mut k, key);
    k
}

/// The pattern matching every key under `prefix` (`prefix*`), so clearing the
/// cache never touches other data in the store.
pub fn clear_pattern(prefix: &str) -> (p: String)
    ensures
        p@ == prefix@ + seq!['*'],
{
    let mut p = prefix.to_string();
    crate::text::push_char(&mut p, '*');
    p
}

/// The lifetime policy of a typed cache.
pub struct CachePolicy {
    default_ttl: Option<Duration>,
}

impl CachePolicy {
    /// The lifetime of entries written without one.
    pub closed spec fn spec_default_ttl(&self) -> Option<Duration> {
        self.default_ttl
    }

    /// Entries never expire unless given a lifetime.
    pub fn new() -> (p: Self)
        ensures
            p.spec_default_ttl() is None,
    {
        CachePolicy { default_ttl: None }
    }

    /// Sets the lifetime of entries written without one (zero: never expire).
    pub fn default_ttl(self, ttl: Duration) -> (p: Self)
        ensures
            p.spec_default_ttl() == spec_normalize_ttl(Some(ttl)),
    {
        CachePolicy { default_ttl: normalize_ttl(Some(ttl)) }
    }

    /// The lifetime of an entry written by `set`: the default.
    pub fn ttl_for_set(&self) -> (ttl: Option<Duration>)
        ensures
            ttl == self.spec_default_ttl(),
    {
        self.default_ttl
    }

    /// The lifetime of an entry written by `set_ttl`.
    pub fn ttl_for_set_ttl(&self, ttl: Duration) -> (r: Option<Duration>)
        ensures
            r == spec_normalize_ttl(Some(ttl)),
    {
        normalize_ttl(Some(ttl))
    }

    /// The lifetime of an entry written by `get_or_set`: the one asked for, or
    /// else the default.
    pub fn ttl_for_get_or_set(&self, ttl: Option<Duration>) -> (r: Option<Duration>)
        ensures
            r == match ttl {
                Some(t) => spec_normalize_ttl(Some(t)),
                None => self.spec_default_ttl(),
            },
    {
        match ttl {
            Some(t) => normalize_ttl(Some(t)),
            None => self.default_ttl,
        }
    }
}

/// The error for a stored value that does not deserialize, with its cause.
pub fn deserialize_error(cause: &str) -> (e: Error)
    ensures
        e.fresh(ErrorKind::Internal, "cache value could not be deserialized: "@ + cause@),
{
    let mut msg = "cache value could not be deserialized: ".to_string();
    push_str(&mut msg, cause);
    Error::internal(msg.as_str())
}

/// The error for a value that does not serialize, with its cause.
pub fn serialize_error(cause: &str) -> (e: Error)
    ensures
        e.fresh(ErrorKind::Internal, "cache value could not be serialized: "@ + cause@),
{
    let mut msg = "cache value could not be serialized: ".to_string();
    push_str(&mut msg, cause);
    Error::internal(msg.as_str())
}

/// The error for a handler asking for a cache the application did not configure.
pub fn not_configured() -> (e: Error)
    ensures
        e.fresh(ErrorKind::Internal, NOT_CONFIGURED_MESSAGE@),
{
    Error::internal(NOT_CONFIGURED_MESSAGE)
}


/// Where a read-through lookup (`get_or_set`) stands.
#[derive(Clone, Copy, Debug, PartialEq, Eq, Structural)]
pub enum ReadThroughPhase {
    /// Waiting for the stored value under the key.
    Looking,
    /// The key was missing: waiting for the computed value.
    Computing,
    /// Waiting for the computed value to be written.
    Writing,
    /// Finished: the value is returned.
    Done,
}

/// What the caller of a read-through lookup does next.
#[derive(Clone, Copy, Debug, PartialEq, Eq, Structural)]
pub enum ReadThroughAction {
    /// Read the stored value under the key.
    Lookup,
    /// Return the stored value (decoded); nothing is computed or written.
    ReturnCached,
    /// Compute the value, once.
    RunInit,
    /// Write the computed value with this lifetime (`None`: never expire).
    Write(Option<Duration>),
    /// Return the computed value.
    ReturnComputed,
}

/// After the key was read: a hit is returned, a miss computed.
pub open spec fn spec_found(hit: bool) -> (ReadThroughPhase, ReadThroughAction) {
    if hit {
        (ReadThroughPhase::Done, ReadThroughAction::ReturnCached)
    } else {
        (ReadThroughPhase::Computing, ReadThroughAction::RunInit)
    }
}

/// After the value was computed: it is written with lifetime `ttl`.
pub open spec fn spec_computed(ttl: Option<Duration>) -> (ReadThroughPhase, ReadThroughAction) {
    (ReadThroughPhase::Writing, ReadThroughAction::Write(ttl))
}

/// After the value was written: it is returned.
pub open spec fn spec_written() -> (ReadThroughPhase, ReadThroughAction) {
    (ReadThroughPhase::Done, ReadThroughAction::ReturnComputed)
}

/// A read-through lookup: a hit returns the stored value without computing;
/// a miss computes the value once, writes it with the lifetime the policy
/// chooses, and returns it. A failing step ends the lookup with its error.
pub struct ReadThrough {
    phase: ReadThroughPhase,
    ttl: Option<Duration>,
}

impl ReadThrough {
    /// The current phase.
    pub closed spec fn spec_phase(&self) -> ReadThroughPhase {
        self.phase
    }

    /// The lifetime a computed value is written with.
    pub closed spec fn spec_ttl(&self) -> Option<Duration> {
        self.ttl
    }

    /// Starts a lookup asking for lifetime `ttl` (`None`: the policy's
    /// default): the first action is to read the key.
    pub fn start(policy: &CachePolicy, ttl: Option<Duration>) -> (r: (ReadThrough, ReadThroughAction))
        ensures
            r.0.spec_phase() == ReadThroughPhase::Looking,
            r.0.spec_ttl() == match ttl {
                Some(t) => spec_normalize_ttl(Some(t)),
                None => policy.spec_default_ttl(),
            },
            r.1 == ReadThroughAction::Lookup,
    {
        (ReadThrough { phase: ReadThroughPhase::Looking, ttl: policy.ttl_for_get_or_set(ttl) }, ReadThroughAction::Lookup)
    }

    /// The current phase.
    pub fn phase(&self) -> (p: ReadThroughPhase)
        ensures
            p == self.spec_phase(),
    {
        self.phase
    }

    /// The key was read: a hit is returned as it is; a miss is computed.
    pub fn found(&mut self, hit: bool) -> (action: ReadThroughAction)
        requires
            old(self).spec_phase() == ReadThroughPhase::Looking,
        ensures
            final(self).spec_ttl() == old(self).spec_ttl(),
            (final(self).spec_phase(), action) == spec_found(hit),
    {
        if hit {
            self.phase = ReadThroughPhase::Done;
            ReadThroughAction::ReturnCached
        } else {
            self.phase = ReadThroughPhase::Computing;
            ReadThroughAction::RunInit
        }
    }

    /// The value was computed: it is written with the chosen lifetime.
    pub fn computed(&mut self) -> (action: ReadThroughAction)
        requires
            old(self).spec_phase() == ReadThroughPhase::Computing,
        ensures
            final(self).spec_ttl() == old(self).spec_ttl(),
            (final(self).spec_phase(), action) == spec_computed(old(self).spec_ttl()),
    {
        self.phase = ReadThroughPhase::Writing;
        ReadThroughAction::Write(self.ttl)
    }

    /// The value was written: it is returned.
    pub fn written(&mut self) -> (action: ReadThroughAction)
        requires
            old(self).spec_phase() == ReadThroughPhase::Writing,
        ensures
            final(self).spec_ttl() == old(self).spec_ttl(),
            (final(self).spec_phase(), action) == spec_written(),
    {
        self.phase = ReadThroughPhase::Done;
        ReadThroughAction::ReturnComputed
    }
}

/// The actions of a read-through lookup that meets no failure, given whether
/// the key was found and the lifetime chosen: the steps are taken while the
/// lookup is not done.
pub open spec fn read_through_actions(hit: bool, ttl: Option<Duration>) -> Seq<ReadThroughAction> {
    let first = spec_found(hit);
    if first.0 == ReadThroughPhase::Done {
        seq![ReadThroughAction::Lookup, first.1]
    } else {
        let second = spec_computed(ttl);
        seq![ReadThroughAction::Lookup, first.1, second.1, spec_written().1]
    }
}

/// The number of times `a` occurs in `s`.
pub open spec fn occurrences(s: Seq<ReadThroughAction>, a: ReadThroughAction) -> nat
    decreases s.len(),
{
    if s.len() == 0 {
        0
    } else {
        occurrences(s.drop_last(), a) + if s.last() == a { 1nat } else { 0nat }
    }
}

/// Read-through is cache-aside in one call: a hit computes nothing and writes
/// nothing; a miss computes the value exactly once, and writes it once, with
/// the chosen lifetime, before returning it.
pub proof fn law_init_runs_once_and_only_on_a_miss(hit: bool, ttl: Option<Duration>)
    ensures
        occurrences(read_through_actions(hit, ttl), ReadThroughAction::RunInit) == if hit { 0nat } else { 1nat },
        occurrences(read_through_actions(hit, ttl), ReadThroughAction::Write(ttl)) == if hit { 0nat } else { 1nat },
        hit ==> read_through_actions(hit, ttl).last() == ReadThroughAction::ReturnCached,
        !hit ==> read_through_actions(hit, ttl).last() == ReadThroughAction::ReturnComputed,
{
    let s = read_through_actions(hit, ttl);
    reveal_with_fuel(occurrences, 5);
    if hit {
        assert(s.drop_last() =~= seq![ReadThroughAction::Lookup]);
        assert(s.drop_last().drop_last() =~= Seq::<ReadThroughAction>::empty());
    } else {
        assert(s.drop_last() =~= seq![ReadThroughAction::Lookup, ReadThroughAction::RunInit, ReadThroughAction::Write(ttl)]);
        assert(s.drop_last().drop_last() =~= seq![ReadThroughAction::Lookup, ReadThroughAction::RunInit]);
        assert(s.drop_last().drop_last().drop_last() =~= seq![ReadThroughAction::Lookup]);
        assert(s.drop_last().drop_last().drop_last().drop_last() =~= Seq::<ReadThroughAction>::empty());
    }
}

} // verus!
