//! Assembling an application: routers are flattened into one route table,
//! documentation routes are added, the table is compiled into a matcher, and
//! the middleware registrations are resolved; a lifecycle that mixes lifespans
//! and event hooks is refused first.

use vstd::prelude::*;
use crate::error::{Error, ErrorKind};
use crate::lifecycle::{conflict_error, spec_conflict, LifecycleCounts, LIFECYCLE_CONFLICT, LIFECYCLE_CONFLICT_MESSAGE};
use crate::matcher::{open_braces, params_within_limit, route_keys, spec_build, Matcher, MAX_OPEN_BRACES};
use crate::middleware::{duplicate_rejection, resolve_duplicates, spec_resolve, Registration, Resolution};
use crate::multipart::coded;
use crate::routes::{resolved_under, Route, Router};

verus! {

/// The number of routes of the first `k` routers.
pub open spec fn route_count<H, K: Clone, S>(routers: Seq<Router<H, K, S>>, k: int) -> int
    decreases k,
{
    if k <= 0 {
        0
    } else {
        route_count(routers, k - 1) + routers[k - 1].spec_routes().len()
    }
}

/// `routes` is the flattened table of `routers`: each router's routes in
/// turn, each resolved under its router's prefix, tags and hooks.
pub open spec fn flattened<H, K: Clone, S>(routers: Seq<Router<H, K, S>>, routes: Seq<Route<H, K, S>>) -> bool {
    &&& routes.len() == route_count(routers, routers.len() as int)
    &&& forall|k: int, j: int|
        0 <= k < routers.len() && 0 <= j < routers[k].spec_routes().len() ==> resolved_under(
            #[trigger] routers[k].spec_routes()[j],
            routes[route_count(routers, k) + j],
            routers[k].spec_prefix(),
            routers[k].spec_tags(),
            routers[k].spec_hooks(),
        )
}

proof fn lemma_route_count_mono<H, K: Clone, S>(routers: Seq<Router<H, K, S>>, a: int, b: int)
    requires
        0 <= a <= b <= routers.len(),
    ensures
        route_count(routers, a) <= route_count(routers, b),
    decreases b - a,
{
    if a < b {
        lemma_route_count_mono(routers, a, b - 1);
    }
}

/// Flattens routers into one route table.
pub fn flatten_routers<H, K: Clone, S>(routers: Vec<Router<H, K, S>>) -> (routes: Vec<Route<H, K, S>>)
    ensures
        flattened(routers@, routes@),
{
    let ghost all = routers@;
    let count = routers.len();
    let mut routes: Vec<Route<H, K, S>> = Vec::new();
    let mut rest = routers;
    let mut k: usize = 0;
    while rest.len() > 0
        invariant
            all.len() == count,
            k <= all.len(),
            rest@ == all.subrange(k as int, all.len() as int),
            routes@.len() == route_count(all, k as int),
            forall|kk: int, j: int|
                0 <= kk < k && 0 <= j < all[kk].spec_routes().len() ==> resolved_under(
                    #[trigger] all[kk].spec_routes()[j],
                    routes@[route_count(all, kk) + j],
                    all[kk].spec_prefix(),
                    all[kk].spec_tags(),
                    all[kk].spec_hooks(),
                ),
        decreases rest.len(),
    {
        let router = rest.remove(0);
        proof {
            assert(router == all[k as int]);
            assert(rest@ =~= all.subrange(k + 1, all.len() as int));
        }
        let ghost before = routes@;
        let mut resolved = router.into_routes();
        let ghost res = resolved@;
        routes.append(&mut resolved);
        proof {
            assert(routes@ == before + res);
            assert(route_count(all, k + 1) == route_count(all, k as int) + all[k as int].spec_routes().len());
            assert forall|kk: int, j: int|
                0 <= kk < k + 1 && 0 <= j < all[kk].spec_routes().len() implies resolved_under(
                #[trigger] all[kk].spec_routes()[j],
                routes@[route_count(all, kk) + j],
                all[kk].spec_prefix(),
                all[kk].spec_tags(),
                all[kk].spec_hooks(),
            ) by {
                lemma_route_count_mono(all, 0, kk);
                if kk < k {
                    lemma_route_count_mono(all, kk + 1, k as int);
                    assert(route_count(all, kk + 1) == route_count(all, kk) + all[kk].spec_routes().len());
                    assert(route_count(all, kk) + j < before.len());
                    assert(routes@[route_count(all, kk) + j] == before[route_count(all, kk) + j]);
                } else {
                    assert(kk == k);
                    assert(routes@[route_count(all, kk) + j] == res[j]);
                }
            }
        }
        k = k + 1;
    }
    assert(k == all.len());
    routes
}

/// An application under assembly: its routers, its middleware registrations
/// (by name and duplicate policy), and how many lifecycle participants it has.
pub struct Application<H, K, S> {
    routers: Vec<Router<H, K, S>>,
    middleware: Vec<Registration>,
    counts: LifecycleCounts,
}

/// An assembled application: the compiled matcher and the middleware chain
/// (positions of the registrations kept).
pub struct Assembled<H, K, S> {
    pub matcher: Matcher<H, K, S>,
    pub middleware: Resolution,
}

impl<H, K: Clone, S> Application<H, K, S> {
    /// The routers, in registration order.
    pub closed spec fn spec_routers(&self) -> Seq<Router<H, K, S>> {
        self.routers@
    }

    /// The middleware registrations, in order.
    pub closed spec fn spec_middleware(&self) -> Seq<Registration> {
        self.middleware@
    }

    /// The lifecycle participant counts.
    pub closed spec fn spec_counts(&self) -> LifecycleCounts {
        self.counts
    }

    /// An empty application.
    pub fn new() -> (a: Self)
        ensures
            a.spec_routers().len() == 0,
            a.spec_middleware().len() == 0,
            a.spec_counts() == (LifecycleCounts { lifespans: 0, startup_hooks: 0, shutdown_hooks: 0, ready_hooks: 0 }),
    {
        Application {
            routers: Vec::new(),
            middleware: Vec::new(),
            counts: LifecycleCounts { lifespans: 0, startup_hooks: 0, shutdown_hooks: 0, ready_hooks: 0 },
        }
    }

    /// Mounts a router.
    pub fn include_router(self, router: Router<H, K, S>) -> (a: Self)
        ensures
            a.spec_routers() == self.spec_routers().push(router),
            a.spec_middleware() == self.spec_middleware(),
            a.spec_counts() == self.spec_counts(),
    {
        let mut s = self;
        s.routers.push(router);
        s
    }

    /// Registers a middleware layer (outermost first).
    pub fn middleware(self, registration: Registration) -> (a: Self)
        ensures
            a.spec_routers() == self.spec_routers(),
            a.spec_middleware() == self.spec_middleware().push(registration),
            a.spec_counts() == self.spec_counts(),
    {
        let mut s = self;
        s.middleware.push(registration);
        s
    }

    /// Records the number of lifespans and lifecycle hooks registered.
    pub fn lifecycle(self, counts: LifecycleCounts) -> (a: Self)
        ensures
            a.spec_routers() == self.spec_routers(),
            a.spec_middleware() == self.spec_middleware(),
            a.spec_counts() == counts,
    {
        Application { counts, ..self }
    }

    /// Assembles the application with `docs` (documentation routes) added after
    /// the routers' routes: refused when lifespans and event hooks are mixed,
    /// when the route table does not compile, or when a middleware that allows
    /// no duplicate is registered twice, in that order. Every route path, as
    /// resolved, holds at most [`MAX_OPEN_BRACES`] `{` (the route table panics
    /// past its parameter limit).
    pub fn build(self, docs: Vec<Route<H, K, S>>) -> (r: Result<Assembled<H, K, S>, Error>)
        requires
            forall|routes: Seq<Route<H, K, S>>|
                #[trigger] flattened(self.spec_routers(), routes) ==> params_within_limit(routes),
            params_within_limit(docs@),
        ensures
            spec_conflict(self.spec_counts()) ==> (r matches Err(e) && coded(
                e,
                ErrorKind::Internal,
                LIFECYCLE_CONFLICT_MESSAGE@,
                LIFECYCLE_CONFLICT@,
            )),
            !spec_conflict(self.spec_counts()) ==> exists|routes: Seq<Route<H, K, S>>|
                #[trigger] flattened(self.spec_routers(), routes) && match spec_build(
                    route_keys(routes + docs@),
                ) {
                    Err(msg) => r matches Err(e) && e.fresh(ErrorKind::Internal, msg),
                    Ok((tables, all)) => match spec_resolve(
                        self.spec_middleware(),
                        self.spec_middleware().len() as int,
                    ) {
                        None => r matches Err(e) && duplicate_rejection(self.spec_middleware(), e),
                        Some((kept, warned)) => r matches Ok(a) && a.matcher.wf() && a.matcher.spec_routes()
                            == routes + docs@ && a.matcher.spec_tables() == tables && a.matcher.spec_all()
                            == all && a.middleware.kept@ == kept && a.middleware.warned@ == warned,
                    },
                },
    {
        let Application { routers, middleware, counts } = self;
        if counts.lifespans > 0 && (counts.startup_hooks > 0 || counts.shutdown_hooks > 0) {
            return Err(conflict_error());
        }
        let mut routes = flatten_routers(routers);
        let ghost flat = routes@;
        let mut extra = docs;
        let ghost d = extra@;
        routes.append(&mut extra);
        proof {
            assert(flattened(self.spec_routers(), flat));
            assert(routes@ =~= flat + d);
            assert forall|i: int| 0 <= i < routes@.len() implies open_braces(
                #[trigger] routes@[i].spec_path(),
            ) <= MAX_OPEN_BRACES by {
                if i < flat.len() {
                    assert(routes@[i] == flat[i]);
                } else {
                    assert(routes@[i] == d[i - flat.len()]);
                }
            }
        }
        let matcher = match Matcher::build(routes) {
            Ok(m) => m,
            Err(e) => {
                assert(flattened(self.spec_routers(), flat));
                return Err(e);
            },
        };
        let resolution = match resolve_duplicates(middleware.as_slice()) {
            Ok(res) => res,
            Err(e) => {
                assert(flattened(self.spec_routers(), flat));
                return Err(e);
            },
        };
        assert(flattened(self.spec_routers(), flat));
        Ok(Assembled { matcher, middleware: resolution })
    }
}

} // verus!
