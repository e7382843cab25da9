//! Path matching over the flattened route table.
//!
//! One path table is built per HTTP method, mapping a path pattern to an index
//! into the flat route table. A method-agnostic table of all paths is kept
//! alongside, so that a path which exists under another method is answered with
//! `405 Method Not Allowed` rather than `404 Not Found`. A request path that
//! does not match is retried with its trailing slashes trimmed, then with runs
//! of slashes collapsed.

use vstd::prelude::*;
use crate::error::{Error, ErrorKind};
use crate::extract::{entries_view, PathParams};
use crate::paths::{collapse_double_slashes, normalized_request_path, spec_collapse, spec_collapsed, spec_normalized};
use crate::routes::Route;
use crate::text::{find_char, has_substring, push_str, str_eq, to_chars};

verus! {

/// A path table: a `matchit` router from path patterns to route positions.
#[verifier::external_body]
pub struct PathTable {
    inner: matchit::Router<usize>,
}

/// A path table's entries: each pattern inserted successfully into a
/// `matchit::Router` and the value stored with it, in insertion order.
pub uninterp spec fn table_entries(table: PathTable) -> Seq<(Seq<char>, usize)>;

/// Every insertion ever attempted on a path table, successful or not, with its
/// pattern and value, in order. A failed insertion may still reshape the
/// router's tree, so what the table does next depends on these attempts.
pub uninterp spec fn table_attempts(table: PathTable) -> Seq<(Seq<char>, usize)>;

/// What inserting `pattern` into a table after the insertions `attempts` gives
/// (`matchit::Router::insert`): `None` when it is inserted, else the text of
/// the insertion error (an invalid pattern, or a conflict with a registered one).
pub uninterp spec fn insert_outcome(attempts: Seq<(Seq<char>, usize)>, pattern: Seq<char>) -> Option<Seq<char>>;

/// What looking up `path` in a table after the insertions `attempts` gives
/// (`matchit::Router::at`): the stored value of the matching pattern and the
/// parameters captured from the path, or `None` when no pattern matches.
pub uninterp spec fn lookup_outcome(attempts: Seq<(Seq<char>, usize)>, path: Seq<char>) -> Option<(usize, Seq<(Seq<char>, Seq<char>)>)>;

/// An empty path table (`matchit::Router::new`).
///
/// Trusted: the table holds no entries and has seen no insertion.
#[verifier::external_body]
fn table_new() -> (t: PathTable)
    ensures
        table_entries(t) == Seq::<(Seq<char>, usize)>::empty(),
        table_attempts(t) == Seq::<(Seq<char>, usize)>::empty(),
{
    PathTable { inner: matchit::Router::new() }
}

/// Inserts a pattern with its value (`matchit::Router::insert`); `None` on
/// success, the error's `Display` text on failure.
///
/// Trusted: the outcome is the one named by `insert_outcome` for the entries
/// held before; a successful insertion adds the entry at the end, a failed one
/// registers nothing. A non-empty parameterless pattern that is already
/// registered is refused (a conflict); the empty pattern is not covered, as
/// `matchit` overwrites it in a table holding nothing else. `matchit` panics on
/// a pattern with more than 25 parameters, so at most 25 `{` are allowed.
#[verifier::external_body]
fn table_insert(t: &mut PathTable, pattern: &str, value: usize) -> (err: Option<String>)
    requires
        open_braces(pattern@) <= MAX_OPEN_BRACES,
    ensures
        table_attempts(*final(t)) == table_attempts(*old(t)).push((pattern@, value)),
        match err {
            None => insert_outcome(table_attempts(*old(t)), pattern@) is None && table_entries(*final(t))
                == table_entries(*old(t)).push((pattern@, value)) && (static_pattern(pattern@) && pattern@.len() > 0 ==> forall|i: int|
                0 <= i < table_entries(*old(t)).len() ==> #[trigger] table_entries(*old(t))[i].0 != pattern@),
            Some(msg) => insert_outcome(table_attempts(*old(t)), pattern@) == Some(msg@)
                && table_entries(*final(t)) == table_entries(*old(t)),
        },
{
    match t.inner.insert(pattern, value) {
        Ok(()) => None,
        Err(error) => Some(error.to_string()),
    }
}

/// The most `{` a path pattern may hold: `matchit` names parameters `a` to
/// `y` and panics at the 26th.
pub const MAX_OPEN_BRACES: u64 = 25;

/// The number of `{` in a pattern.
pub open spec fn open_braces(p: Seq<char>) -> nat
    decreases p.len(),
{
    if p.len() == 0 {
        0
    } else {
        open_braces(p.drop_last()) + if p.last() == '{' { 1nat } else { 0nat }
    }
}

/// Every route path holds at most [`MAX_OPEN_BRACES`] `{`.
pub open spec fn params_within_limit<H, K: Clone, S>(routes: Seq<Route<H, K, S>>) -> bool {
    forall|i: int| 0 <= i < routes.len() ==> open_braces(#[trigger] routes[i].spec_path()) <= MAX_OPEN_BRACES
}

/// A pattern without parameters: no `{` and no `}` anywhere in it.
pub open spec fn static_pattern(p: Seq<char>) -> bool {
    forall|k: int| 0 <= k < p.len() ==> #[trigger] p[k] != '{' && p[k] != '}'
}

/// A parameterless pattern that starts with `/`.
pub open spec fn rooted_static(p: Seq<char>) -> bool {
    p.len() > 0 && p[0] == '/' && static_pattern(p)
}

/// Looks up a path (`matchit::Router::at`): the stored value and the captured
/// (name, value) parameters in pattern order.
///
/// Trusted: the outcome is the one named by `lookup_outcome`, and a value found
/// is one that was stored in the table. A path starting with `/` that is itself
/// a registered pattern without parameters finds that pattern's value and
/// captures nothing (`matchit` gives static segments priority over parameters).
#[verifier::external_body]
fn table_at(t: &PathTable, path: &str) -> (m: Option<(usize, Vec<(String, String)>)>)
    ensures
        match m {
            Some((v, params)) => lookup_outcome(table_attempts(*t), path@) == Some((v, entries_view(params@)))
                && (exists|i: int| 0 <= i < table_entries(*t).len() && #[trigger] table_entries(*t)[i].1 == v)
                && (rooted_static(path@) ==> forall|i: int|
                    0 <= i < table_entries(*t).len() && #[trigger] table_entries(*t)[i].0 == path@
                        ==> v == table_entries(*t)[i].1 && params@.len() == 0),
            None => lookup_outcome(table_attempts(*t), path@) is None && (rooted_static(path@) ==> forall|i: int|
                0 <= i < table_entries(*t).len() ==> #[trigger] table_entries(*t)[i].0 != path@),
        },
{
    match t.inner.at(path) {
        Ok(matched) => Some((
            *matched.value,
            matched.params.iter().map(|(k, v)| (k.to_string(), v.to_string())).collect(),
        )),
        Err(_) => None,
    }
}

/// Per-method tables: (method name, entries).
pub type TablesView = Seq<(Seq<char>, Seq<(Seq<char>, usize)>)>;

/// The position of the table for method `m`, scanning from `from`; the length
/// when there is none.
pub open spec fn table_index(tables: TablesView, m: Seq<char>, from: int) -> int
    decreases tables.len() - from,
{
    if from < 0 || from >= tables.len() {
        tables.len() as int
    } else if tables[from].0 == m {
        from
    } else {
        table_index(tables, m, from + 1)
    }
}

/// The entries of the table for method `m`, if there is one.
pub open spec fn table_for(tables: TablesView, m: Seq<char>) -> Option<Seq<(Seq<char>, usize)>> {
    let i = table_index(tables, m, 0);
    if i < tables.len() {
        Some(tables[i].1)
    } else {
        None
    }
}

/// `tables` with the table for `m` replaced by (or, when absent, extended with) `t`.
pub open spec fn with_table(tables: TablesView, m: Seq<char>, t: Seq<(Seq<char>, usize)>) -> TablesView {
    let i = table_index(tables, m, 0);
    if i < tables.len() {
        tables.update(i, (m, t))
    } else {
        tables.push((m, t))
    }
}

/// The message of the error a failed registration of `method` `path` gives.
pub open spec fn register_error(method: Seq<char>, path: Seq<char>, cause: Seq<char>) -> Seq<char> {
    "failed to register route "@ + method + " "@ + path + ": "@ + cause
}

/// The tables built from routes given as (method, path), in order: each route
/// is inserted into its method's table (the build fails on the first route
/// whose insertion fails) and into the table of all paths, which records every
/// attempt (a failed one, such as the same path under a second method, is
/// ignored).
pub open spec fn spec_build(rs: Seq<(Seq<char>, Seq<char>)>) -> Result<(TablesView, Seq<(Seq<char>, usize)>), Seq<char>>
    decreases rs.len(),
{
    if rs.len() == 0 {
        Ok((Seq::empty(), Seq::empty()))
    } else {
        match spec_build(rs.drop_last()) {
            Err(e) => Err(e),
            Ok((tables, all)) => {
                let (m, p) = rs.last();
                let idx = (rs.len() - 1) as usize;
                let t = match table_for(tables, m) {
                    Some(t) => t,
                    None => Seq::empty(),
                };
                match insert_outcome(t, p) {
                    Some(cause) => Err(register_error(m, p, cause)),
                    None => Ok((
                        with_table(tables, m, t.push((p, idx))),
                        all.push((p, idx)),
                    )),
                }
            },
        }
    }
}

/// The outcome of matching a request, in terms of text.
pub enum MatchOutcome {
    Found(usize, Seq<(Seq<char>, Seq<char>)>),
    MethodNotAllowed,
    NotFound,
}

/// A lookup as a match outcome.
pub open spec fn found(l: Option<(usize, Seq<(Seq<char>, Seq<char>)>)>) -> Option<MatchOutcome> {
    match l {
        Some((v, ps)) => Some(MatchOutcome::Found(v, ps)),
        None => None,
    }
}

/// Matching `path` in one method's table: as given, then with trailing slashes
/// trimmed, then with runs of slashes collapsed.
pub open spec fn spec_find_in(t: Seq<(Seq<char>, usize)>, path: Seq<char>) -> Option<MatchOutcome> {
    if lookup_outcome(t, path) is Some {
        found(lookup_outcome(t, path))
    } else if spec_normalized(path) is Some && lookup_outcome(t, spec_normalized(path)->0) is Some {
        found(lookup_outcome(t, spec_normalized(path)->0))
    } else if spec_collapse(path) is Some && lookup_outcome(t, spec_collapse(path)->0) is Some {
        found(lookup_outcome(t, spec_collapse(path)->0))
    } else {
        None
    }
}

/// Whether the path exists under some method: as given; else, when trimming
/// trailing slashes changes it, trimmed; else, when collapsing runs of slashes
/// changes it, collapsed.
pub open spec fn spec_any_method(all: Seq<(Seq<char>, usize)>, path: Seq<char>) -> bool {
    if lookup_outcome(all, path) is Some {
        true
    } else if spec_normalized(path) is Some {
        lookup_outcome(all, spec_normalized(path)->0) is Some
    } else if spec_collapse(path) is Some {
        lookup_outcome(all, spec_collapse(path)->0) is Some
    } else {
        false
    }
}

/// The outcome of matching `method` and `path`. A path holding a NUL is never
/// matched: nothing past the NUL may be interpreted.
pub open spec fn spec_find(tables: TablesView, all: Seq<(Seq<char>, usize)>, method: Seq<char>, path: Seq<char>) -> MatchOutcome {
    if path.contains('\0') {
        MatchOutcome::NotFound
    } else {
        let in_method = match table_for(tables, method) {
            Some(t) => spec_find_in(t, path),
            None => None,
        };
        match in_method {
            Some(m) => m,
            None => if spec_any_method(all, path) {
                MatchOutcome::MethodNotAllowed
            } else {
                MatchOutcome::NotFound
            },
        }
    }
}

/// Repeated slashes do not hide a route: a path holding `//` that the
/// method's table matches neither as it is nor with its trailing slashes
/// trimmed, but does match with its runs of slashes collapsed, finds that
/// route with the parameters the collapsed path captures.
pub proof fn law_double_slashes_do_not_hide_a_route(
    tables: TablesView,
    all: Seq<(Seq<char>, usize)>,
    method: Seq<char>,
    path: Seq<char>,
    t: Seq<(Seq<char>, usize)>,
    v: usize,
    ps: Seq<(Seq<char>, Seq<char>)>,
)
    requires
        !path.contains('\0'),
        table_for(tables, method) == Some(t),
        has_substring(path, seq!['/', '/']),
        lookup_outcome(t, path) is None,
        spec_normalized(path) matches Some(n) ==> lookup_outcome(t, n) is None,
        lookup_outcome(t, spec_collapsed(path)) == Some((v, ps)),
    ensures
        spec_find(tables, all, method, path) == MatchOutcome::Found(v, ps),
{
}

/// A request is matched exactly when the table of its method matches its path
/// as it is, with trailing slashes trimmed, or with runs of slashes collapsed;
/// the first of these that matches is the route found. Otherwise the answer is
/// `405` or `404`, never a route.
pub proof fn law_found_exactly_when_a_form_of_the_path_matches(
    tables: TablesView,
    all: Seq<(Seq<char>, usize)>,
    method: Seq<char>,
    path: Seq<char>,
)
    ensures
        ({
            let forms_match = !path.contains('\0') && match table_for(tables, method) {
                Some(t) => lookup_outcome(t, path) is Some || (match spec_normalized(path) {
                    Some(n) => lookup_outcome(t, n) is Some,
                    None => false,
                }) || (has_substring(path, seq!['/', '/']) && lookup_outcome(t, spec_collapsed(path)) is Some),
                None => false,
            };
            (spec_find(tables, all, method, path) is Found) == forms_match
        }),
        match table_for(tables, method) {
            Some(t) => match lookup_outcome(t, path) {
                Some((v, ps)) => !path.contains('\0') ==> spec_find(tables, all, method, path) == MatchOutcome::Found(
                    v,
                    ps,
                ),
                None => true,
            },
            None => true,
        },
{
}

/// The outcome of matching a request against the route table.
pub enum Match {
    /// The route at this position of the table matched, with the parameters
    /// captured from the path.
    Found { route: usize, params: PathParams },
    /// The path exists, but not for the requested method.
    MethodNotAllowed,
    /// No route matched the path.
    NotFound,
}

impl Match {
    /// The error answering a request that matched no route: `405` when the path
    /// exists under another method, `404` otherwise; none when a route matched.
    pub fn fallback_error(&self) -> (e: Option<Error>)
        ensures
            match self {
                Match::Found { .. } => e is None,
                Match::MethodNotAllowed => e matches Some(err) && err.fresh(
                    ErrorKind::MethodNotAllowed,
                    "method not allowed"@,
                ),
                Match::NotFound => e matches Some(err) && err.fresh(ErrorKind::NotFound, "resource not found"@),
            },
    {
        match self {
            Match::Found { .. } => None,
            Match::MethodNotAllowed => Some(Error::method_not_allowed("method not allowed")),
            Match::NotFound => Some(Error::not_found("resource not found")),
        }
    }

    /// The error answering a request whose handler panicked.
    pub fn handler_panicked() -> (e: Error)
        ensures
            e.fresh(ErrorKind::Internal, "handler panicked"@),
    {
        Error::internal("handler panicked")
    }

    /// The outcome in terms of text.
    pub open spec fn outcome(&self) -> MatchOutcome {
        match self {
            Match::Found { route, params } => MatchOutcome::Found(*route, params@),
            Match::MethodNotAllowed => MatchOutcome::MethodNotAllowed,
            Match::NotFound => MatchOutcome::NotFound,
        }
    }
}

/// The (method, path) of each route.
pub open spec fn route_keys<H, K: Clone, S>(routes: Seq<Route<H, K, S>>) -> Seq<(Seq<char>, Seq<char>)> {
    routes.map_values(|r: Route<H, K, S>| (r.spec_method(), r.spec_path()))
}

/// Every value of the entries is below `n`.
pub open spec fn values_below(entries: Seq<(Seq<char>, usize)>, n: int) -> bool {
    forall|k: int| 0 <= k < entries.len() ==> (#[trigger] entries[k]).1 < n
}

/// Every value of a method's entries is the position of a route registered
/// for that method.
pub open spec fn registered_for<H, K: Clone, S>(entries: Seq<(Seq<char>, usize)>, method: Seq<char>, routes: Seq<Route<H, K, S>>) -> bool {
    forall|k: int|
        0 <= k < entries.len() ==> (#[trigger] entries[k]).1 < routes.len() && routes[entries[k].1 as int].spec_method()
            == method
}

/// Route `i` is stored under its path in the table of its method.
pub open spec fn route_in_table<H, K: Clone, S>(tables: TablesView, routes: Seq<Route<H, K, S>>, i: int) -> bool {
    table_for(tables, routes[i].spec_method()) matches Some(t) && t.contains((routes[i].spec_path(), i as usize))
}

/// Compiled, per-method path matcher over a flat route table.
pub struct Matcher<H, K, S> {
    by_method: Vec<(String, PathTable)>,
    all_paths: PathTable,
    routes: Vec<Route<H, K, S>>,
}

/// The method tables as text.
pub open spec fn tables_view(v: Seq<(String, PathTable)>) -> TablesView {
    v.map_values(|e: (String, PathTable)| (e.0@, table_entries(e.1)))
}

/// The position of the table for `method` in `v`.
fn method_position(v: &Vec<(String, PathTable)>, method: &str) -> (i: usize)
    ensures
        i == table_index(tables_view(v@), method@, 0),
        i <= v@.len(),
{
    let ghost tv = tables_view(v@);
    let mut i: usize = 0;
    while i < v.len()
        invariant
            tv == tables_view(v@),
            i <= v@.len(),
            table_index(tv, method@, 0) == table_index(tv, method@, i as int),
        decreases v.len() - i,
    {
        if str_eq(v[i].0.as_str(), method) {
            return i;
        }
        i = i + 1;
    }
    i
}

impl<H, K: Clone, S> Matcher<H, K, S> {
    /// The route table.
    pub closed spec fn spec_routes(&self) -> Seq<Route<H, K, S>> {
        self.routes@
    }

    /// The per-method tables.
    pub closed spec fn spec_tables(&self) -> TablesView {
        tables_view(self.by_method@)
    }

    /// The table of all paths.
    pub closed spec fn spec_all(&self) -> Seq<(Seq<char>, usize)> {
        table_attempts(self.all_paths)
    }

    /// Every stored value is a position in the route table, a method's table
    /// holds only routes registered for that method, and every route is stored
    /// in the table of its method; no insertion into a method's table failed.
    pub closed spec fn wf(&self) -> bool {
        &&& forall|i: int|
            0 <= i < self.spec_tables().len() ==> registered_for(
                #[trigger] self.spec_tables()[i].1,
                self.spec_tables()[i].0,
                self.routes@,
            )
        &&& values_below(self.spec_all(), self.routes@.len() as int)
        &&& forall|i: int| 0 <= i < self.routes@.len() ==> #[trigger] route_in_table(self.spec_tables(), self.routes@, i)
        &&& forall|j: int|
            0 <= j < self.by_method@.len() ==> #[trigger] table_attempts(self.by_method@[j].1) == table_entries(
                self.by_method@[j].1,
            )
    }

    /// Builds the matcher from fully-qualified routes; fails with an internal
    /// error naming the route when a path is not a valid pattern or conflicts
    /// with one registered for the same method.
    pub fn build(routes: Vec<Route<H, K, S>>) -> (r: Result<Self, Error>)
        requires
            params_within_limit(routes@),
        ensures
            match spec_build(route_keys(routes@)) {
                Ok((tables, all)) => r matches Ok(m) && m.wf() && m.spec_routes() == routes@
                    && m.spec_tables() == tables && m.spec_all() == all,
                Err(msg) => r matches Err(e) && e.fresh(ErrorKind::Internal, msg),
            },
    {
        let ghost keys = route_keys(routes@);
        let mut by_method: Vec<(String, PathTable)> = Vec::new();
        let mut all_paths = table_new();
        proof {
            assert(tables_view(by_method@) =~= Seq::<(Seq<char>, Seq<(Seq<char>, usize)>)>::empty());
            assert(keys.subrange(0, 0) =~= Seq::<(Seq<char>, Seq<char>)>::empty());
        }
        let mut i: usize = 0;
        while i < routes.len()
            invariant
                i <= routes@.len(),
                keys == route_keys(routes@),
                params_within_limit(routes@),
                spec_build(keys.subrange(0, i as int)) == Ok::<(TablesView, Seq<(Seq<char>, usize)>), Seq<char>>(
                    (tables_view(by_method@), table_attempts(all_paths)),
                ),
                forall|j: int|
                    0 <= j < tables_view(by_method@).len() ==> values_below(
                        #[trigger] tables_view(by_method@)[j].1,
                        i as int,
                    ) && registered_for(tables_view(by_method@)[j].1, tables_view(by_method@)[j].0, routes@),
                values_below(table_attempts(all_paths), i as int),
                forall|j: int| 0 <= j < by_method@.len() ==> #[trigger] table_attempts(by_method@[j].1) == table_entries(by_method@[j].1),
                forall|k: int| 0 <= k < i ==> #[trigger] route_in_table(tables_view(by_method@), routes@, k),
            decreases routes.len() - i,
        {
            let method = routes[i].method();
            let path = routes[i].path();
            let ghost prev = keys.subrange(0, i as int);
            let ghost next = keys.subrange(0, i + 1);
            proof {
                assert(next.drop_last() =~= prev);
                assert(next.last() == (method@, path@));
            }
            let ghost tv0 = tables_view(by_method@);
            let j = method_position(&by_method, method);
            if j == by_method.len() {
                by_method.push((method.to_string(), table_new()));
                proof {
                    assert(tables_view(by_method@) =~= tv0.push((method@, Seq::empty())));
                }
            }
            let ghost bm0 = by_method@;
            let ghost tv1 = tables_view(bm0);
            proof {
                lemma_table_index(tv0, method@, 0);
                assert(tv1[j as int].0 == method@);
            }
            let (name, mut table) = by_method.remove(j);
            let ghost t0 = table_entries(table);
            proof {
                assert(t0 == tv1[j as int].1);
                assert(t0 == match table_for(tv0, method@) {
                    Some(t) => t,
                    None => Seq::<(Seq<char>, usize)>::empty(),
                });
            }
            match table_insert(&mut table, path, i) {
                Some(cause) => {
                    let mut msg = "failed to register route ".to_string();
                    push_str(&mut msg, method);
                    push_str(&mut msg, " ");
                    push_str(&mut msg, path);
                    push_str(&mut msg, ": ");
                    push_str(&mut msg, cause.as_str());
                    proof {
                        assert(spec_build(next) == Err::<(TablesView, Seq<(Seq<char>, usize)>), Seq<char>>(msg@));
                        lemma_build_err_persists(keys, i + 1, keys.len() as int);
                        assert(keys.subrange(0, keys.len() as int) =~= keys);
                    }
                    return Err(Error::internal(msg.as_str()));
                },
                None => {},
            }
            let _ = table_insert(&mut all_paths, path, i);
            by_method.insert(j, (name, table));
            proof {
                assert(by_method@ =~= bm0.update(j as int, (name, table)));
                assert(tables_view(by_method@) =~= tv1.update(j as int, (method@, t0.push((path@, i)))));
                assert(tables_view(by_method@) =~= with_table(tv0, method@, t0.push((path@, i))));
                assert forall|k: int|
                    0 <= k < tables_view(by_method@).len() implies values_below(
                    #[trigger] tables_view(by_method@)[k].1,
                    i + 1,
                ) && registered_for(tables_view(by_method@)[k].1, tables_view(by_method@)[k].0, routes@) by {
                    if k != j {
                        assert(tables_view(by_method@)[k] == tv1[k]);
                        if k < tv0.len() {
                            assert(tv1[k] == tv0[k]);
                        }
                    }
                }
                let tv2 = tables_view(by_method@);
                let t1 = t0.push((path@, i));
                assert forall|k: int| 0 <= k < i + 1 implies #[trigger] route_in_table(tv2, routes@, k) by {
                    let mk = routes@[k].spec_method();
                    lemma_with_table(tv0, method@, t1, mk);
                    if k < i {
                        assert(route_in_table(tv0, routes@, k));
                        if mk == method@ {
                            let x = (routes@[k].spec_path(), k as usize);
                            let w = choose|w: int| 0 <= w < t0.len() && t0[w] == x;
                            assert(t1[w] == x);
                        }
                    } else {
                        assert(routes@[k].spec_method() == method@);
                        assert(t1[t0.len() as int] == (path@, i));
                    }
                }
            }
            i = i + 1;
        }
        assert(keys.subrange(0, routes@.len() as int) =~= keys);
        Ok(Matcher { by_method, all_paths, routes })
    }

    /// Matches `method` and `path` against the route table.
    pub fn find(&self, method: &str, path: &str) -> (m: Match)
        requires
            self.wf(),
        ensures
            m.outcome() == spec_find(self.spec_tables(), self.spec_all(), method@, path@),
            m matches Match::Found { route, .. } ==> route < self.spec_routes().len()
                && self.spec_routes()[route as int].spec_method() == method@,
            forall|i: int|
                0 <= i < self.spec_routes().len() && #[trigger] self.spec_routes()[i].spec_method() == method@
                    && self.spec_routes()[i].spec_path() == path@ && rooted_static(path@) && !path@.contains('\0')
                    ==> (m matches Match::Found { route, params } && route == i && params@.len() == 0),
    {
        let chars = to_chars(path);
        let nul = find_char(chars.as_slice(), '\0');
        if nul < chars.len() {
            assert(path@.contains('\0')) by {
                assert(path@[nul as int] == '\0');
            }
            return Match::NotFound;
        }
        assert(!path@.contains('\0')) by {
            if path@.contains('\0') {
                let k = choose|k: int| 0 <= k < path@.len() && path@[k] == '\0';
                assert(chars@[k] != '\0');
            }
        }
        let j = method_position(&self.by_method, method);
        proof {
            lemma_table_index(self.spec_tables(), method@, 0);
            if j == self.by_method.len() {
                assert forall|i: int|
                    0 <= i < self.spec_routes().len() && #[trigger] self.spec_routes()[i].spec_method() == method@
                    implies false by {
                    assert(route_in_table(self.spec_tables(), self.routes@, i));
                }
            }
        }
        if j < self.by_method.len() {
            let table = &self.by_method[j].1;
            assert(table_entries(*table) == self.spec_tables()[j as int].1);
            assert(table_attempts(*table) == table_entries(*table));
            proof {
                lemma_table_index(self.spec_tables(), method@, 0);
                assert(registered_for(table_entries(*table), method@, self.routes@));
            }
            let exact = table_at(table, path);
            proof {
                assert forall|i: int|
                    0 <= i < self.spec_routes().len() && #[trigger] self.spec_routes()[i].spec_method() == method@
                        && self.spec_routes()[i].spec_path() == path@ && rooted_static(path@)
                    implies (exact matches Some((v, params)) && v == i && params@.len() == 0) by {
                    assert(route_in_table(self.spec_tables(), self.routes@, i));
                    assert(table_for(self.spec_tables(), method@) == Some(table_entries(*table)));
                    assert(self.routes@.len() == self.routes.len());
                    assert(i <= usize::MAX);
                    let x = (path@, i as usize);
                    assert(x.1 == i);
                    assert(table_entries(*table).contains(x));
                    let w = choose|w: int| 0 <= w < table_entries(*table).len() && table_entries(*table)[w] == x;
                    assert(table_entries(*table)[w].0 == path@);
                    assert(table_entries(*table)[w].1 == i);
                }
            }
            match exact {
                Some((v, params)) => {
                    proof {
                        lemma_registered_value(table_entries(*table), method@, self.routes@, v);
                    }
                    return Match::Found { route: v, params: PathParams::from_entries(params) };
                },
                None => {},
            }
            match normalized_request_path(path) {
                Some(n) => match table_at(table, n.as_str()) {
                    Some((v, params)) => {
                        proof {
                            lemma_registered_value(table_entries(*table), method@, self.routes@, v);
                        }
                        return Match::Found { route: v, params: PathParams::from_entries(params) };
                    },
                    None => {},
                },
                None => {},
            }
            match collapse_double_slashes(path) {
                Some(c) => match table_at(table, c.as_str()) {
                    Some((v, params)) => {
                        proof {
                            lemma_registered_value(table_entries(*table), method@, self.routes@, v);
                        }
                        return Match::Found { route: v, params: PathParams::from_entries(params) };
                    },
                    None => {},
                },
                None => {},
            }
        }
        let any = if table_at(&self.all_paths, path).is_some() {
            true
        } else {
            match normalized_request_path(path) {
                Some(n) => table_at(&self.all_paths, n.as_str()).is_some(),
                None => match collapse_double_slashes(path) {
                    Some(c) => table_at(&self.all_paths, c.as_str()).is_some(),
                    None => false,
                },
            }
        };
        if any {
            Match::MethodNotAllowed
        } else {
            Match::NotFound
        }
    }

    /// The flat route table.
    pub fn routes(&self) -> (routes: &[Route<H, K, S>])
        ensures
            routes@ == self.spec_routes(),
    {
        self.routes.as_slice()
    }
}

/// Replacing the table of `m` (or adding one) changes the table found for
/// `m` and no other.
proof fn lemma_with_table(tables: TablesView, m: Seq<char>, t: Seq<(Seq<char>, usize)>, other: Seq<char>)
    ensures
        table_for(with_table(tables, m, t), other) == if other == m {
            Some(t)
        } else {
            table_for(tables, other)
        },
{
    let i = table_index(tables, m, 0);
    lemma_table_index(tables, m, 0);
    if i < tables.len() {
        lemma_table_index_update(tables, i, (m, t), other, 0);
        lemma_table_index(tables, other, 0);
        let k = table_index(tables, other, 0);
        if other != m && k < tables.len() {
            assert(k != i);
        }
    } else {
        lemma_table_index_push(tables, (m, t), other, 0);
        lemma_table_index(tables, other, 0);
    }
}

/// Table positions by name are unchanged by replacing an entry whose name is kept.
proof fn lemma_table_index_update(
    tables: TablesView,
    i: int,
    entry: (Seq<char>, Seq<(Seq<char>, usize)>),
    m: Seq<char>,
    from: int,
)
    requires
        0 <= i < tables.len(),
        entry.0 == tables[i].0,
        0 <= from,
    ensures
        table_index(tables.update(i, entry), m, from) == table_index(tables, m, from),
    decreases tables.len() - from,
{
    if from < tables.len() {
        lemma_table_index_update(tables, i, entry, m, from + 1);
    }
}

/// Adding a table at the end finds it only for its name and only when no
/// earlier table has that name.
proof fn lemma_table_index_push(tables: TablesView, entry: (Seq<char>, Seq<(Seq<char>, usize)>), m: Seq<char>, from: int)
    requires
        0 <= from <= tables.len(),
    ensures
        table_index(tables.push(entry), m, from) == if table_index(tables, m, from) < tables.len() {
            table_index(tables, m, from)
        } else if entry.0 == m {
            tables.len() as int
        } else {
            tables.len() + 1int
        },
    decreases tables.len() - from,
{
    let pushed = tables.push(entry);
    if from < tables.len() {
        assert(pushed[from] == tables[from]);
        lemma_table_index_push(tables, entry, m, from + 1);
    } else {
        assert(pushed[from] == entry);
        assert(table_index(pushed, m, from + 1) == pushed.len());
    }
}

/// A value stored in a method's table is a route registered for that method.
proof fn lemma_registered_value<H, K: Clone, S>(
    entries: Seq<(Seq<char>, usize)>,
    method: Seq<char>,
    routes: Seq<Route<H, K, S>>,
    v: usize,
)
    requires
        registered_for(entries, method, routes),
        exists|i: int| 0 <= i < entries.len() && #[trigger] entries[i].1 == v,
    ensures
        v < routes.len(),
        routes[v as int].spec_method() == method,
{
    let i = choose|i: int| 0 <= i < entries.len() && #[trigger] entries[i].1 == v;
    assert(entries[i].1 < routes.len());
}

/// Once building fails, it fails the same way whatever routes follow.
proof fn lemma_build_err_persists(keys: Seq<(Seq<char>, Seq<char>)>, i: int, n: int)
    requires
        0 <= i <= n <= keys.len(),
        spec_build(keys.subrange(0, i)) is Err,
    ensures
        spec_build(keys.subrange(0, n)) == spec_build(keys.subrange(0, i)),
    decreases n - i,
{
    if n > i {
        lemma_build_err_persists(keys, i, n - 1);
        assert(keys.subrange(0, n).drop_last() =~= keys.subrange(0, n - 1));
    }
}

proof fn lemma_table_index(tables: TablesView, m: Seq<char>, from: int)
    requires
        0 <= from <= tables.len(),
    ensures
        from <= table_index(tables, m, from) <= tables.len(),
        table_index(tables, m, from) < tables.len() ==> tables[table_index(tables, m, from)].0 == m,
    decreases tables.len() - from,
{
    if from < tables.len() && tables[from].0 != m {
        lemma_table_index(tables, m, from + 1);
    }
}

} // verus!
