//! The router data model: routes, their metadata, and routers that group
//! routes under a common path prefix, tag set and hook list.
//!
//! Routers compose by nesting ([`Router::nest`]); the whole tree is
//! flattened into fully-qualified routes ([`Router::into_routes`]): every
//! route's path gets the router's prefix, its tags gain the router's tags, and
//! the router's hooks run before the route's own.
//!
//! A route is generic over its handler `H`, its hook type `K` and the schema
//! generator `S` its documentation uses; the routing logic only carries them.

use vstd::prelude::*;
use crate::error::valid_status;
use crate::paths::{join_paths, spec_join};
use crate::text::str_eq;

verus! {

/// How a route's request body is encoded.
#[derive(Clone, Copy, Debug, PartialEq, Eq, Structural)]
pub enum RequestBodyKind {
    Json,
    Form,
    Multipart,
}

/// A security requirement: an authentication scheme and the scopes it needs.
pub struct SecurityRequirement {
    pub scheme: String,
    pub scopes: Vec<String>,
}

/// The text of a list of strings.
pub open spec fn texts(v: Seq<String>) -> Seq<Seq<char>> {
    v.map_values(|s: String| s@)
}

/// Documentation and behavior metadata of a route.
pub struct RouteMeta<S> {
    pub summary: Option<String>,
    pub description: Option<String>,
    pub tags: Vec<String>,
    pub status_code: u16,
    pub response_model: Option<&'static str>,
    pub request_schema: Option<S>,
    pub request_kind: RequestBodyKind,
    pub response_schema: Option<S>,
    pub streaming: bool,
    pub websocket: bool,
    pub ws_incoming: Option<S>,
    pub ws_outgoing: Option<S>,
    pub security: Vec<SecurityRequirement>,
}

/// `tags` with `tag` added unless already present.
pub open spec fn add_tag(tags: Seq<Seq<char>>, tag: Seq<char>) -> Seq<Seq<char>> {
    if tags.contains(tag) {
        tags
    } else {
        tags.push(tag)
    }
}

/// `tags` with each of `extra` added in order, skipping those present.
pub open spec fn inherit_tags(tags: Seq<Seq<char>>, extra: Seq<Seq<char>>) -> Seq<Seq<char>>
    decreases extra.len(),
{
    if extra.len() == 0 {
        tags
    } else {
        add_tag(inherit_tags(tags, extra.drop_last()), extra.last())
    }
}

/// The schemes of a list of security requirements.
pub open spec fn schemes(reqs: Seq<SecurityRequirement>) -> Seq<Seq<char>> {
    reqs.map_values(|r: SecurityRequirement| r.scheme@)
}

/// `outer` hooks (each a clone) followed by the `inner` hooks.
pub open spec fn hooks_prepended<K: Clone>(outer: Seq<K>, inner: Seq<K>, result: Seq<K>) -> bool {
    &&& result.len() == outer.len() + inner.len()
    &&& forall|i: int| 0 <= i < outer.len() ==> cloned(outer[i], #[trigger] result[i])
    &&& forall|j: int| 0 <= j < inner.len() ==> #[trigger] result[outer.len() + j] == inner[j]
}

impl<S> RouteMeta<S> {
    /// The default metadata: no documentation, no tags, status 200, a JSON
    /// body, no schemas, not streaming, no security requirements.
    pub fn new() -> (m: Self)
        ensures
            m.is_default(),
    {
        RouteMeta {
            summary: None,
            description: None,
            tags: Vec::new(),
            status_code: 200,
            response_model: None,
            request_schema: None,
            request_kind: RequestBodyKind::Json,
            response_schema: None,
            streaming: false,
            websocket: false,
            ws_incoming: None,
            ws_outgoing: None,
            security: Vec::new(),
        }
    }

    /// The default metadata: no documentation, no tags, status 200, a JSON
    /// body, no schemas, not streaming, no security requirements.
    pub open spec fn is_default(&self) -> bool {
        &&& self.summary is None
        &&& self.description is None
        &&& self.tags@.len() == 0
        &&& self.status_code == 200
        &&& self.response_model is None
        &&& self.request_schema is None
        &&& self.request_kind == RequestBodyKind::Json
        &&& self.response_schema is None
        &&& !self.streaming
        &&& !self.websocket
        &&& self.ws_incoming is None
        &&& self.ws_outgoing is None
        &&& self.security@.len() == 0
    }

    /// Every field but the tags is the same in both.
    pub open spec fn same_but_tags(&self, other: &Self) -> bool {
        &&& self.summary == other.summary
        &&& self.description == other.description
        &&& self.status_code == other.status_code
        &&& self.response_model == other.response_model
        &&& self.request_schema == other.request_schema
        &&& self.request_kind == other.request_kind
        &&& self.response_schema == other.response_schema
        &&& self.streaming == other.streaming
        &&& self.websocket == other.websocket
        &&& self.ws_incoming == other.ws_incoming
        &&& self.ws_outgoing == other.ws_outgoing
        &&& self.security == other.security
    }
}

/// Whether `list` holds an entry equal to `s`.
fn contains_text(list: &Vec<String>, s: &str) -> (found: bool)
    ensures
        found == texts(list@).contains(s@),
{
    let ghost views = texts(list@);
    let mut i: usize = 0;
    while i < list.len()
        invariant
            views == texts(list@),
            i <= list@.len(),
            forall|j: int| 0 <= j < i ==> views[j] != s@,
        decreases list.len() - i,
    {
        if str_eq(list[i].as_str(), s) {
            assert(views[i as int] == s@);
            return true;
        }
        i = i + 1;
    }
    proof {
        if views.contains(s@) {
            let j = choose|j: int| 0 <= j < views.len() && views[j] == s@;
            assert(views[j] != s@);
        }
    }
    false
}

/// Adds `tag` to `tags` unless already present.
fn push_tag(tags: &mut Vec<String>, tag: &str)
    ensures
        texts(final(tags)@) == add_tag(texts(old(tags)@), tag@),
{
    if !contains_text(tags, tag) {
        let ghost before = tags@;
        tags.push(tag.to_string());
        assert(texts(tags@) =~= texts(before).push(tag@));
    }
}

/// One route: a method, a path pattern, a handler, metadata and hooks.
pub struct Route<H, K, S> {
    method: String,
    path: String,
    handler: H,
    meta: RouteMeta<S>,
    hooks: Vec<K>,
}

impl<H, K: Clone, S> Route<H, K, S> {
    /// The HTTP method (upper-case name).
    pub closed spec fn spec_method(&self) -> Seq<char> {
        self.method@
    }

    /// The path pattern.
    pub closed spec fn spec_path(&self) -> Seq<char> {
        self.path@
    }

    /// The handler.
    pub closed spec fn spec_handler(&self) -> H {
        self.handler
    }

    /// The metadata.
    pub closed spec fn spec_meta(&self) -> RouteMeta<S> {
        self.meta
    }

    /// The hooks, outermost first.
    pub closed spec fn spec_hooks(&self) -> Seq<K> {
        self.hooks@
    }

    /// The route's tags.
    pub open spec fn spec_tags(&self) -> Seq<Seq<char>> {
        texts(self.spec_meta().tags@)
    }

    /// A route for `method` and `path` with default metadata and no hooks.
    pub fn new(method: &str, path: &str, handler: H) -> (r: Self)
        ensures
            r.spec_method() == method@,
            r.spec_path() == path@,
            r.spec_handler() == handler,
            r.spec_meta().is_default(),
            r.spec_hooks().len() == 0,
    {
        Route {
            method: method.to_string(),
            path: path.to_string(),
            handler,
            meta: RouteMeta::new(),
            hooks: Vec::new(),
        }
    }

    /// Attaches a hook to this route (run after any router hooks).
    pub fn hook(self, hook: K) -> (r: Self)
        ensures
            r.spec_method() == self.spec_method(),
            r.spec_path() == self.spec_path(),
            r.spec_handler() == self.spec_handler(),
            r.spec_meta() == self.spec_meta(),
            r.spec_hooks() == self.spec_hooks().push(hook),
    {
        let mut s = self;
        s.hooks.push(hook);
        s
    }

    /// Sets the summary.
    pub fn summary(self, summary: &str) -> (r: Self)
        ensures
            r.spec_method() == self.spec_method(),
            r.spec_path() == self.spec_path(),
            r.spec_handler() == self.spec_handler(),
            r.spec_hooks() == self.spec_hooks(),
            r.spec_meta().summary matches Some(s) && s@ == summary@,
            r.spec_meta().tags == self.spec_meta().tags,
            r.spec_meta().description == self.spec_meta().description,
            r.spec_meta().status_code == self.spec_meta().status_code,
    {
        let mut s = self;
        s.meta.summary = Some(summary.to_string());
        s
    }

    /// Sets the description.
    pub fn description(self, description: &str) -> (r: Self)
        ensures
            r.spec_method() == self.spec_method(),
            r.spec_path() == self.spec_path(),
            r.spec_handler() == self.spec_handler(),
            r.spec_hooks() == self.spec_hooks(),
            r.spec_meta().description matches Some(d) && d@ == description@,
            r.spec_meta().tags == self.spec_meta().tags,
            r.spec_meta().summary == self.spec_meta().summary,
            r.spec_meta().status_code == self.spec_meta().status_code,
    {
        let mut s = self;
        s.meta.description = Some(description.to_string());
        s
    }

    /// Adds a tag, unless the route already has it.
    pub fn tag(self, tag: &str) -> (r: Self)
        ensures
            r.spec_method() == self.spec_method(),
            r.spec_path() == self.spec_path(),
            r.spec_handler() == self.spec_handler(),
            r.spec_hooks() == self.spec_hooks(),
            r.spec_tags() == add_tag(self.spec_tags(), tag@),
            r.spec_meta().same_but_tags(&self.spec_meta()),
    {
        let mut s = self;
        push_tag(&mut s.meta.tags, tag);
        s
    }

    /// Sets the success status code.
    pub fn status_code(self, status_code: u16) -> (r: Self)
        requires
            valid_status(status_code),
        ensures
            r.spec_method() == self.spec_method(),
            r.spec_path() == self.spec_path(),
            r.spec_handler() == self.spec_handler(),
            r.spec_hooks() == self.spec_hooks(),
            r.spec_meta().status_code == status_code,
            r.spec_meta().tags == self.spec_meta().tags,
            r.spec_meta().summary == self.spec_meta().summary,
    {
        let mut s = self;
        s.meta.status_code = status_code;
        s
    }

    /// Adds a security requirement, unless one for the same scheme exists.
    pub fn security(self, scheme: &str, scopes: &[&str]) -> (r: Self)
        ensures
            r.spec_method() == self.spec_method(),
            r.spec_path() == self.spec_path(),
            r.spec_handler() == self.spec_handler(),
            r.spec_hooks() == self.spec_hooks(),
            r.spec_meta().tags == self.spec_meta().tags,
            if schemes(self.spec_meta().security@).contains(scheme@) {
                r.spec_meta().security@ == self.spec_meta().security@
            } else {
                &&& r.spec_meta().security@.len() == self.spec_meta().security@.len() + 1
                &&& r.spec_meta().security@.drop_last() == self.spec_meta().security@
                &&& r.spec_meta().security@.last().scheme@ == scheme@
                &&& texts(r.spec_meta().security@.last().scopes@) == scopes@.map_values(
                    |s: &str| s@,
                )
            },
    {
        let mut s = self;
        if !has_scheme(&s.meta.security, scheme) {
            let list = strings_of(scopes);
            let ghost before = s.meta.security@;
            s.meta.security.push(SecurityRequirement { scheme: scheme.to_string(), scopes: list });
            assert(s.meta.security@.drop_last() =~= before);
        }
        s
    }

    /// Records the name of the response model.
    pub fn response_model(self, name: &'static str) -> (r: Self)
        ensures
            r.spec_method() == self.spec_method(),
            r.spec_path() == self.spec_path(),
            r.spec_handler() == self.spec_handler(),
            r.spec_hooks() == self.spec_hooks(),
            r.spec_meta().response_model == Some(name),
            r.spec_meta().tags == self.spec_meta().tags,
    {
        let mut s = self;
        s.meta.response_model = Some(name);
        s
    }

    /// Sets the request body schema generator.
    pub fn request_schema_fn(self, thunk: S) -> (r: Self)
        ensures
            r.spec_method() == self.spec_method(),
            r.spec_path() == self.spec_path(),
            r.spec_handler() == self.spec_handler(),
            r.spec_hooks() == self.spec_hooks(),
            r.spec_meta().request_schema == Some(thunk),
            r.spec_meta().tags == self.spec_meta().tags,
    {
        let mut s = self;
        s.meta.request_schema = Some(thunk);
        s
    }

    /// Sets the response body schema generator.
    pub fn response_schema_fn(self, thunk: S) -> (r: Self)
        ensures
            r.spec_method() == self.spec_method(),
            r.spec_path() == self.spec_path(),
            r.spec_handler() == self.spec_handler(),
            r.spec_hooks() == self.spec_hooks(),
            r.spec_meta().response_schema == Some(thunk),
            r.spec_meta().tags == self.spec_meta().tags,
    {
        let mut s = self;
        s.meta.response_schema = Some(thunk);
        s
    }

    /// Sets the schema generators of a websocket's incoming and outgoing messages.
    pub fn ws_schemas_fn(self, incoming: Option<S>, outgoing: Option<S>) -> (r: Self)
        ensures
            r.spec_method() == self.spec_method(),
            r.spec_path() == self.spec_path(),
            r.spec_handler() == self.spec_handler(),
            r.spec_hooks() == self.spec_hooks(),
            r.spec_meta().ws_incoming == incoming,
            r.spec_meta().ws_outgoing == outgoing,
            r.spec_meta().tags == self.spec_meta().tags,
    {
        let mut s = self;
        s.meta.ws_incoming = incoming;
        s.meta.ws_outgoing = outgoing;
        s
    }

    /// Sets how the request body is encoded.
    pub fn request_kind(self, kind: RequestBodyKind) -> (r: Self)
        ensures
            r.spec_method() == self.spec_method(),
            r.spec_path() == self.spec_path(),
            r.spec_handler() == self.spec_handler(),
            r.spec_hooks() == self.spec_hooks(),
            r.spec_meta().request_kind == kind,
            r.spec_meta().tags == self.spec_meta().tags,
    {
        let mut s = self;
        s.meta.request_kind = kind;
        s
    }

    /// Marks the route as streaming its response.
    pub fn streaming(self) -> (r: Self)
        ensures
            r.spec_method() == self.spec_method(),
            r.spec_path() == self.spec_path(),
            r.spec_handler() == self.spec_handler(),
            r.spec_hooks() == self.spec_hooks(),
            r.spec_meta().streaming,
            r.spec_meta().tags == self.spec_meta().tags,
    {
        let mut s = self;
        s.meta.streaming = true;
        s
    }

    /// Marks the route as a websocket endpoint.
    pub fn websocket(self) -> (r: Self)
        ensures
            r.spec_method() == self.spec_method(),
            r.spec_path() == self.spec_path(),
            r.spec_handler() == self.spec_handler(),
            r.spec_hooks() == self.spec_hooks(),
            r.spec_meta().websocket,
            r.spec_meta().tags == self.spec_meta().tags,
    {
        let mut s = self;
        s.meta.websocket = true;
        s
    }

    /// The HTTP method.
    pub fn method(&self) -> (m: &str)
        ensures
            m@ == self.spec_method(),
    {
        self.method.as_str()
    }

    /// The path pattern.
    pub fn path(&self) -> (p: &str)
        ensures
            p@ == self.spec_path(),
    {
        self.path.as_str()
    }

    /// The metadata.
    pub fn meta(&self) -> (m: &RouteMeta<S>)
        ensures
            *m == self.spec_meta(),
    {
        &self.meta
    }

    /// The handler.
    pub fn handler(&self) -> (h: &H)
        ensures
            *h == self.spec_handler(),
    {
        &self.handler
    }

    /// The hooks, outermost first.
    pub fn hooks(&self) -> (h: &[K])
        ensures
            h@ == self.spec_hooks(),
    {
        self.hooks.as_slice()
    }

    /// Whether any hook is attached.
    pub fn has_hooks(&self) -> (any: bool)
        ensures
            any == (self.spec_hooks().len() > 0),
    {
        self.hooks.len() > 0
    }

    /// The route as resolved under a router with `prefix`, `tags` and `hooks`.
    fn resolve(self, prefix: &str, tags: &Vec<String>, hooks: &Vec<K>) -> (r: Self)
        ensures
            r.spec_method() == self.spec_method(),
            r.spec_path() == spec_join(prefix@, self.spec_path()),
            r.spec_handler() == self.spec_handler(),
            r.spec_tags() == inherit_tags(self.spec_tags(), texts(tags@)),
            r.spec_meta().same_but_tags(&self.spec_meta()),
            hooks_prepended(hooks@, self.spec_hooks(), r.spec_hooks()),
    {
        let mut s = self;
        s.path = join_paths(prefix, s.path.as_str());
        inherit_into(&mut s.meta.tags, tags);
        let mut own = Vec::new();
        std::mem::swap(&mut own, &mut s.hooks);
        s.hooks = prepend_clones(hooks, own);
        s
    }
}

/// Adds each of `extra` to `tags` in order, skipping those present.
fn inherit_into(tags: &mut Vec<String>, extra: &Vec<String>)
    ensures
        texts(final(tags)@) == inherit_tags(texts(old(tags)@), texts(extra@)),
{
    let ghost start = texts(tags@);
    let mut i: usize = 0;
    while i < extra.len()
        invariant
            i <= extra@.len(),
            texts(tags@) == inherit_tags(start, texts(extra@).subrange(0, i as int)),
        decreases extra.len() - i,
    {
        push_tag(tags, extra[i].as_str());
        proof {
            assert(texts(extra@).subrange(0, i + 1).drop_last() =~= texts(extra@).subrange(0, i as int));
        }
        i = i + 1;
    }
    assert(texts(extra@).subrange(0, extra@.len() as int) =~= texts(extra@));
}

/// Clones of the `outer` hooks followed by the `inner` hooks.
fn prepend_clones<K: Clone>(outer: &Vec<K>, inner: Vec<K>) -> (all: Vec<K>)
    ensures
        hooks_prepended(outer@, inner@, all@),
{
    let mut all: Vec<K> = Vec::new();
    let mut j: usize = 0;
    while j < outer.len()
        invariant
            j <= outer@.len(),
            all@.len() == j,
            forall|k: int| 0 <= k < j ==> cloned(outer@[k], #[trigger] all@[k]),
        decreases outer.len() - j,
    {
        all.push(outer[j].clone());
        j = j + 1;
    }
    let ghost front = all@;
    let mut rest = inner;
    let ghost back = rest@;
    all.append(&mut rest);
    assert(all@ =~= front + back);
    all
}

/// Whether a requirement for `scheme` is in the list.
fn has_scheme(list: &Vec<SecurityRequirement>, scheme: &str) -> (found: bool)
    ensures
        found == schemes(list@).contains(scheme@),
{
    let mut i: usize = 0;
    while i < list.len()
        invariant
            i <= list@.len(),
            forall|j: int| 0 <= j < i ==> schemes(list@)[j] != scheme@,
        decreases list.len() - i,
    {
        if str_eq(list[i].scheme.as_str(), scheme) {
            assert(schemes(list@)[i as int] == scheme@);
            return true;
        }
        i = i + 1;
    }
    proof {
        if schemes(list@).contains(scheme@) {
            let j = choose|j: int| 0 <= j < schemes(list@).len() && schemes(list@)[j] == scheme@;
            assert(schemes(list@)[j] != scheme@);
        }
    }
    false
}

/// The owned copies of a list of strings.
pub fn strings_of(items: &[&str]) -> (v: Vec<String>)
    ensures
        texts(v@) == items@.map_values(|s: &str| s@),
{
    let mut v: Vec<String> = Vec::new();
    let mut k: usize = 0;
    while k < items.len()
        invariant
            k <= items@.len(),
            texts(v@) == items@.subrange(0, k as int).map_values(|s: &str| s@),
        decreases items.len() - k,
    {
        let item: &str = items[k];
        let owned = item.to_string();
        let ghost before = v@;
        v.push(owned);
        proof {
            assert(texts(v@) =~= texts(before).push(item@));
            assert(items@.subrange(0, k + 1) =~= items@.subrange(0, k as int).push(item));
            assert(items@.subrange(0, k + 1).map_values(|s: &str| s@) =~= items@.subrange(
                0,
                k as int,
            ).map_values(|s: &str| s@).push(item@));
        }
        k = k + 1;
    }
    assert(items@.subrange(0, items@.len() as int) =~= items@);
    v
}

/// `res` is `orig` as resolved under a router with `prefix`, `tags` and
/// `hooks`: the path joined under the prefix, the router's tags added, the
/// router's hooks run first, everything else kept.
pub open spec fn resolved_under<H, K: Clone, S>(
    orig: Route<H, K, S>,
    res: Route<H, K, S>,
    prefix: Seq<char>,
    tags: Seq<Seq<char>>,
    hooks: Seq<K>,
) -> bool {
    &&& res.spec_method() == orig.spec_method()
    &&& res.spec_path() == spec_join(prefix, orig.spec_path())
    &&& res.spec_handler() == orig.spec_handler()
    &&& res.spec_tags() == inherit_tags(orig.spec_tags(), tags)
    &&& res.spec_meta().same_but_tags(&orig.spec_meta())
    &&& hooks_prepended(hooks, orig.spec_hooks(), res.spec_hooks())
}

/// A group of routes under a common prefix, tag set and hook list.
pub struct Router<H, K, S> {
    prefix: String,
    tags: Vec<String>,
    routes: Vec<Route<H, K, S>>,
    hooks: Vec<K>,
}

impl<H, K: Clone, S> Router<H, K, S> {
    /// The path prefix.
    pub closed spec fn spec_prefix(&self) -> Seq<char> {
        self.prefix@
    }

    /// The tags every route inherits.
    pub closed spec fn spec_tags(&self) -> Seq<Seq<char>> {
        texts(self.tags@)
    }

    /// The routes, each relative to this router.
    pub closed spec fn spec_routes(&self) -> Seq<Route<H, K, S>> {
        self.routes@
    }

    /// The hooks every route runs first.
    pub closed spec fn spec_hooks(&self) -> Seq<K> {
        self.hooks@
    }

    /// An empty router: no prefix, tags, routes or hooks.
    pub fn new() -> (r: Self)
        ensures
            r.spec_prefix().len() == 0,
            r.spec_tags().len() == 0,
            r.spec_routes().len() == 0,
            r.spec_hooks().len() == 0,
    {
        Router { prefix: String::new(), tags: Vec::new(), routes: Vec::new(), hooks: Vec::new() }
    }

    /// Sets the path prefix.
    pub fn prefix(self, prefix: &str) -> (r: Self)
        ensures
            r.spec_prefix() == prefix@,
            r.spec_tags() == self.spec_tags(),
            r.spec_routes() == self.spec_routes(),
            r.spec_hooks() == self.spec_hooks(),
    {
        Router { prefix: prefix.to_string(), ..self }
    }

    /// Sets the tags every route inherits.
    pub fn tags(self, tags: &[&str]) -> (r: Self)
        ensures
            r.spec_prefix() == self.spec_prefix(),
            r.spec_tags() == tags@.map_values(|s: &str| s@),
            r.spec_routes() == self.spec_routes(),
            r.spec_hooks() == self.spec_hooks(),
    {
        Router { tags: strings_of(tags), ..self }
    }

    /// Adds a route.
    pub fn route(self, route: Route<H, K, S>) -> (r: Self)
        ensures
            r.spec_prefix() == self.spec_prefix(),
            r.spec_tags() == self.spec_tags(),
            r.spec_routes() == self.spec_routes().push(route),
            r.spec_hooks() == self.spec_hooks(),
    {
        let mut s = self;
        s.routes.push(route);
        s
    }

    /// Adds a hook that every route of this router runs (before its own).
    pub fn hook(self, hook: K) -> (r: Self)
        ensures
            r.spec_prefix() == self.spec_prefix(),
            r.spec_tags() == self.spec_tags(),
            r.spec_routes() == self.spec_routes(),
            r.spec_hooks() == self.spec_hooks().push(hook),
    {
        let mut s = self;
        s.hooks.push(hook);
        s
    }

    /// Nests a child router: its routes, resolved under the child's own prefix,
    /// tags and hooks, become routes of this router.
    pub fn nest(self, child: Router<H, K, S>) -> (r: Self)
        ensures
            r.spec_prefix() == self.spec_prefix(),
            r.spec_tags() == self.spec_tags(),
            r.spec_hooks() == self.spec_hooks(),
            r.spec_routes().len() == self.spec_routes().len() + child.spec_routes().len(),
            forall|i: int| 0 <= i < self.spec_routes().len() ==> #[trigger] r.spec_routes()[i] == self.spec_routes()[i],
            forall|j: int|
                0 <= j < child.spec_routes().len() ==> resolved_under(
                    child.spec_routes()[j],
                    #[trigger] r.spec_routes()[self.spec_routes().len() + j],
                    child.spec_prefix(),
                    child.spec_tags(),
                    child.spec_hooks(),
                ),
    {
        let ghost child_routes = child.spec_routes();
        let ghost child_prefix = child.spec_prefix();
        let ghost child_tags = child.spec_tags();
        let ghost child_hooks = child.spec_hooks();
        let mut s = self;
        let ghost before = s.routes@;
        let mut resolved = child.into_routes();
        s.routes.append(&mut resolved);
        assert forall|j: int| 0 <= j < child_routes.len() implies resolved_under(
            child_routes[j],
            #[trigger] s.routes@[before.len() + j],
            child_prefix,
            child_tags,
            child_hooks,
        ) by {
            assert(s.routes@[before.len() + j] == s.routes@[before.len() + j]);
        }
        s
    }

    /// Flattens the router into fully-qualified routes: each route's path gets
    /// the prefix, its tags gain the router's tags, and the router's hooks run
    /// before the route's own.
    pub fn into_routes(self) -> (routes: Vec<Route<H, K, S>>)
        ensures
            routes@.len() == self.spec_routes().len(),
            forall|i: int|
                0 <= i < routes@.len() ==> resolved_under(
                    self.spec_routes()[i],
                    #[trigger] routes@[i],
                    self.spec_prefix(),
                    self.spec_tags(),
                    self.spec_hooks(),
                ),
    {
        let Router { prefix, tags, routes, hooks } = self;
        let ghost orig = routes@;
        let mut out: Vec<Route<H, K, S>> = Vec::new();
        let mut rest = routes;
        while rest.len() > 0
            invariant
                rest@.len() + out@.len() == orig.len(),
                rest@ == orig.subrange(out@.len() as int, orig.len() as int),
                forall|k: int|
                    0 <= k < out@.len() ==> resolved_under(
                        orig[k],
                        #[trigger] out@[k],
                        prefix@,
                        texts(tags@),
                        hooks@,
                    ),
            decreases rest.len(),
        {
            let route = rest.remove(0);
            proof {
                assert(route == orig[out@.len() as int]);
                assert(rest@ =~= orig.subrange(out@.len() as int + 1, orig.len() as int));
            }
            let r = route.resolve(prefix.as_str(), &tags, &hooks);
            out.push(r);
        }
        out
    }

    /// The routes, each relative to this router.
    pub fn routes(&self) -> (routes: &[Route<H, K, S>])
        ensures
            routes@ == self.spec_routes(),
    {
        self.routes.as_slice()
    }
}

/// No tag appears twice.
pub open spec fn distinct_tags(tags: Seq<Seq<char>>) -> bool {
    forall|i: int, j: int| 0 <= i < j < tags.len() ==> tags[i] != tags[j]
}

/// Adding tags, directly or inherited from routers, never lists a tag twice.
pub proof fn law_tags_stay_distinct(tags: Seq<Seq<char>>, extra: Seq<Seq<char>>)
    requires
        distinct_tags(tags),
    ensures
        distinct_tags(inherit_tags(tags, extra)),
    decreases extra.len(),
{
    if extra.len() > 0 {
        law_tags_stay_distinct(tags, extra.drop_last());
        let t = inherit_tags(tags, extra.drop_last());
        if !t.contains(extra.last()) {
            assert forall|i: int, j: int| 0 <= i < j < t.push(extra.last()).len() implies t.push(
                extra.last(),
            )[i] != t.push(extra.last())[j] by {
                if j == t.len() {
                    assert(t[i] == t.push(extra.last())[i]);
                }
            }
        }
    }
}

/// A route nested twice (resolved under an inner router, then under an outer
/// one) lands on the path that one router with the two prefixes joined would
/// give it, keeps its method and handler, and gains the inner router's tags,
/// then the outer router's.
pub proof fn law_nesting_joins_prefixes<H, K: Clone, S>(
    original: Route<H, K, S>,
    nested: Route<H, K, S>,
    resolved: Route<H, K, S>,
    inner_prefix: Seq<char>,
    inner_tags: Seq<Seq<char>>,
    inner_hooks: Seq<K>,
    outer_prefix: Seq<char>,
    outer_tags: Seq<Seq<char>>,
    outer_hooks: Seq<K>,
)
    requires
        resolved_under(original, nested, inner_prefix, inner_tags, inner_hooks),
        resolved_under(nested, resolved, outer_prefix, outer_tags, outer_hooks),
    ensures
        resolved.spec_path() == spec_join(spec_join(outer_prefix, inner_prefix), original.spec_path()),
        resolved.spec_method() == original.spec_method(),
        resolved.spec_handler() == original.spec_handler(),
        resolved.spec_tags() == inherit_tags(inherit_tags(original.spec_tags(), inner_tags), outer_tags),
{
    crate::paths::law_nested_prefixes_compose(outer_prefix, inner_prefix, original.spec_path());
}

} // verus!
