use tork_core::error::ErrorKind;
use tork_core::matcher::{Match, Matcher};
use tork_core::routes::{RequestBodyKind, Route, RouteMeta, Router};

type TestRoute = Route<(), &'static str, ()>;

fn get(path: &str) -> TestRoute {
    Route::new("GET", path, ())
}

fn matcher() -> Matcher<(), &'static str, ()> {
    match Matcher::build(vec![get("/users/{user_id}")]) {
        Ok(m) => m,
        Err(_) => panic!("the route table should build"),
    }
}

#[test]
fn matches_and_captures_params() {
    match matcher().find("GET", "/users/42") {
        Match::Found { params, .. } => assert_eq!(params.get("user_id"), Some("42")),
        _ => panic!("expected a match"),
    }
}

#[test]
fn trailing_slash_is_ignored() {
    assert!(matches!(matcher().find("GET", "/users/42/"), Match::Found { .. }));
}

#[test]
fn wrong_method_is_method_not_allowed() {
    assert!(matches!(matcher().find("POST", "/users/42"), Match::MethodNotAllowed));
}

#[test]
fn unknown_path_is_not_found() {
    assert!(matches!(matcher().find("GET", "/unknown"), Match::NotFound));
}

#[test]
fn build_rejects_duplicate_same_method_and_path() {
    let routes = vec![get("/users/{user_id}"), get("/users/{user_id}")];
    let err = match Matcher::build(routes) {
        Ok(_) => panic!("expected duplicate route registration to fail"),
        Err(err) => err,
    };
    assert_eq!(err.kind(), ErrorKind::Internal);
    assert!(err
        .to_display_string()
        .contains("failed to register route GET /users/{user_id}"));
}

#[test]
fn root_path_matches_and_method_not_allowed_uses_all_paths() {
    let routes = vec![get("/"), Route::new("POST", "/users", ())];
    let matcher = match Matcher::build(routes) {
        Ok(m) => m,
        Err(_) => panic!("the route table should build"),
    };
    assert!(matches!(matcher.find("GET", "/"), Match::Found { .. }));
    assert!(matches!(matcher.find("POST", "/"), Match::MethodNotAllowed));
    assert!(matches!(matcher.find("GET", "/users/"), Match::MethodNotAllowed));
}

#[test]
fn found_reports_the_index_of_the_matching_route() {
    let routes = vec![get("/a"), get("/b"), Route::new("POST", "/b", ())];
    let matcher = match Matcher::build(routes) {
        Ok(m) => m,
        Err(_) => panic!("the route table should build"),
    };
    match matcher.find("POST", "/b") {
        Match::Found { route, params } => {
            assert_eq!(route, 2);
            assert!(params.is_empty());
        }
        _ => panic!("expected a match"),
    }
    assert_eq!(matcher.routes().len(), 3);
}

#[test]
fn fallback_errors_follow_the_match() {
    let not_found = Match::NotFound.fallback_error().expect("an error");
    assert_eq!(not_found.kind(), ErrorKind::NotFound);
    let not_allowed = Match::MethodNotAllowed.fallback_error().expect("an error");
    assert_eq!(not_allowed.kind(), ErrorKind::MethodNotAllowed);
    assert_eq!(Match::handler_panicked().kind(), ErrorKind::Internal);
}

#[test]
fn prefix_is_prepended_to_routes() {
    let routes = Router::<(), &'static str, ()>::new()
        .prefix("/users")
        .tags(&["users"])
        .route(get("/{user_id}"))
        .into_routes();

    assert_eq!(routes.len(), 1);
    assert_eq!(routes[0].path(), "/users/{user_id}");
    assert_eq!(routes[0].meta().tags, vec!["users".to_owned()]);
}

#[test]
fn root_route_drops_trailing_slash() {
    let routes = Router::<(), &'static str, ()>::new().prefix("/users").route(get("/")).into_routes();

    assert_eq!(routes[0].path(), "/users");
}

#[test]
fn nested_include_composes_prefixes_and_tags() {
    let orders = Router::new().prefix("/{user_id}/orders").tags(&["orders"]).route(get("/"));

    let routes = Router::<(), &'static str, ()>::new()
        .prefix("/users")
        .tags(&["users"])
        .nest(orders)
        .into_routes();

    assert_eq!(routes[0].path(), "/users/{user_id}/orders");
    assert_eq!(routes[0].meta().tags, vec!["orders".to_owned(), "users".to_owned()]);
}

#[test]
fn route_tag_deduplicates_repeated_tags() {
    let route = get("/x").tag("a").tag("a").tag("b");
    assert_eq!(route.meta().tags, vec!["a".to_owned(), "b".to_owned()]);
}

#[test]
fn route_meta_default_has_empty_collections() {
    let meta = RouteMeta::<()>::new();
    assert!(meta.summary.is_none());
    assert!(meta.description.is_none());
    assert!(meta.tags.is_empty());
    assert!(meta.request_schema.is_none());
    assert!(meta.response_schema.is_none());
    assert_eq!(meta.status_code, 200);
    assert_eq!(meta.request_kind, RequestBodyKind::Json);
}

#[test]
fn router_hooks_propagate_to_routes_outer_to_inner() {
    let inner = Router::<(), &'static str, ()>::new().route(get("/x")).hook("inner");
    let outer = Router::new().hook("outer").nest(inner);

    let routes = outer.into_routes();
    assert_eq!(routes.len(), 1);
    let hooks = routes[0].hooks();
    assert_eq!(hooks.len(), 2, "both router hooks attach to the route");
    assert_eq!(hooks, &["outer", "inner"]);
}

#[test]
fn route_builders_record_documentation() {
    let route = get("/x")
        .summary("List")
        .description("Lists things")
        .status_code(201)
        .security("bearer", &["read"])
        .request_kind(RequestBodyKind::Form)
        .streaming();
    let meta = route.meta();
    assert_eq!(meta.summary.as_deref(), Some("List"));
    assert_eq!(meta.description.as_deref(), Some("Lists things"));
    assert_eq!(meta.status_code, 201);
    assert_eq!(meta.security.len(), 1);
    assert_eq!(meta.security[0].scheme, "bearer");
    assert_eq!(meta.security[0].scopes, vec!["read".to_owned()]);
    assert_eq!(meta.request_kind, RequestBodyKind::Form);
    assert!(meta.streaming);
    assert_eq!(route.method(), "GET");
}

#[test]
fn nesting_matches_a_single_router_under_the_joined_prefix() {
    for (outer, inner, path) in [("/users", "/{user_id}/orders", "/"), ("api/", "//v1", "items/"), ("", "/", "")] {
        let nested = Router::<(), &'static str, ()>::new()
            .prefix(outer)
            .nest(Router::new().prefix(inner).route(get(path)))
            .into_routes();
        let joined = tork_core::paths::join_paths(outer, inner);
        let single = Router::<(), &'static str, ()>::new().prefix(&joined).route(get(path)).into_routes();
        assert_eq!(nested[0].path(), single[0].path());
    }
}

#[test]
fn a_registered_static_path_wins_over_a_parameter_route() {
    let routes = vec![get("/users/{user_id}"), get("/users/me")];
    let matcher = match Matcher::build(routes) {
        Ok(m) => m,
        Err(_) => panic!("the route table should build"),
    };
    match matcher.find("GET", "/users/me") {
        Match::Found { route, params } => {
            assert_eq!(route, 1);
            assert!(params.is_empty());
        }
        _ => panic!("expected a match"),
    }
    match matcher.find("GET", "/users/7") {
        Match::Found { route, params } => {
            assert_eq!(route, 0);
            assert_eq!(params.get("user_id"), Some("7"));
        }
        _ => panic!("expected a match"),
    }
}
