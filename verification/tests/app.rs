use tork_core::application::Application;
use tork_core::duration::Duration;
use tork_core::error::{Error, ErrorDetail, ErrorKind};
use tork_core::extract::{parsed_path_param, path_param, BearerToken, LastEventId, PathParams, RequestContext, SseResume};
use tork_core::hooks::{ErrorContext, ErrorEvent, PanicEvent, RequestEvent, RequestInfo, ResponseEvent, ValidationErrorEvent};
use tork_core::lifecycle::{validate_lifecycle, Lifecycle, LifecycleCounts, LifespanContext, Step};
use tork_core::middleware::{DuplicatePolicy, Registration};
use tork_core::routes::{Route, Router};

fn info() -> RequestInfo {
    RequestInfo::new(
        "GET".to_owned(),
        "/users/7".to_owned(),
        Some("/users/{id}".to_owned()),
        Some("req-1".to_owned()),
    )
}

#[test]
fn shared_accessors_expose_request_metadata() {
    let event = RequestEvent::new(info());
    assert_eq!(event.method(), "GET");
    assert_eq!(event.path(), "/users/7");
    assert_eq!(event.route(), Some("/users/{id}"));
    assert_eq!(event.request_id(), Some("req-1"));
}

#[test]
fn response_event_carries_status_and_elapsed() {
    let event = ResponseEvent::new(info(), 200, Duration::from_millis(5));
    assert_eq!(event.status(), 200);
    assert_eq!(event.elapsed(), Duration::from_millis(5));
}

#[test]
fn error_event_carries_status_code_and_message() {
    let event = ErrorEvent::new(info(), 404, "NOT_FOUND", "missing".to_owned());
    assert_eq!(event.status(), 404);
    assert_eq!(event.code(), "NOT_FOUND");
    assert_eq!(event.message(), "missing");
}

#[test]
fn validation_event_carries_details() {
    let event = ValidationErrorEvent::new(info(), vec![ErrorDetail::new("name", "TOO_SHORT", "too short")]);
    assert_eq!(event.details().len(), 1);
    assert_eq!(event.details()[0].field, "name");
}

#[test]
fn panic_event_carries_message() {
    let event = PanicEvent::new(info(), "boom".to_owned());
    assert_eq!(event.message(), "boom");
}

#[test]
fn error_context_exposes_route() {
    let ctx = ErrorContext::new(info());
    assert_eq!(ctx.route(), Some("/users/{id}"));
}

#[test]
fn path_param_lookup_and_parse() {
    let mut params = PathParams::new();
    params.push("user_id".to_owned(), "42".to_owned());
    let raw = path_param(&params, "user_id").ok().unwrap();
    let parsed: i64 = parsed_path_param("user_id", raw.parse::<i64>().ok()).ok().unwrap();
    assert_eq!(parsed, 42);
}

#[test]
fn invalid_path_param_is_unprocessable() {
    let mut params = PathParams::new();
    params.push("user_id".to_owned(), "not-a-number".to_owned());
    let raw = path_param(&params, "user_id").ok().unwrap();
    let error = parsed_path_param::<i64>("user_id", raw.parse::<i64>().ok()).err().unwrap();
    assert_eq!(error.kind(), ErrorKind::Unprocessable);
}

#[test]
fn missing_param_is_internal_router_error() {
    let error = path_param(&PathParams::new(), "user_id").err().unwrap();
    assert_eq!(error.kind(), ErrorKind::Internal);
    assert_eq!(error.message(), "path parameter `user_id` was not captured by the router");
}

#[test]
fn invalid_param_is_unprocessable() {
    let error = parsed_path_param::<i64>("user_id", "abc".parse::<i64>().ok()).err().unwrap();
    assert_eq!(error.kind(), ErrorKind::Unprocessable);
    assert_eq!(error.message(), "invalid value for path parameter `user_id`");
}

#[test]
fn path_params_keep_the_first_capture() {
    let params = PathParams::from_entries(vec![("a".to_owned(), "1".to_owned()), ("a".to_owned(), "2".to_owned())]);
    assert_eq!(params.get("a"), Some("1"));
    assert_eq!(params.get("b"), None);
    assert_eq!(params.len(), 2);
}

fn context_with(header: Option<(&str, &[u8])>) -> RequestContext<(), ()> {
    let headers = match header {
        Some((name, value)) => vec![(name.to_owned(), value.to_vec())],
        None => Vec::new(),
    };
    RequestContext::new("GET".to_owned(), headers, None, None, PathParams::new(), (), None)
}

#[test]
fn bearer_token_happy_path() {
    let ctx = context_with(Some(("Authorization", b"Bearer abc123")));
    let token = BearerToken::from_request(&ctx).ok().unwrap();
    assert_eq!(token.token(), "abc123");
}

#[test]
fn bearer_token_missing_header_is_unauthorized() {
    let ctx = context_with(None);
    let error = match BearerToken::from_request(&ctx) {
        Ok(_) => panic!("missing header must fail"),
        Err(e) => e,
    };
    assert_eq!(error.kind(), ErrorKind::Unauthorized);
    assert_eq!(error.message(), "missing Authorization header");
}

#[test]
fn bearer_token_invalid_utf8_header_is_unauthorized() {
    let ctx = context_with(Some(("Authorization", &[0xFF, 0xFE])));
    let error = match BearerToken::from_request(&ctx) {
        Ok(_) => panic!("non-utf8 must fail"),
        Err(e) => e,
    };
    assert_eq!(error.kind(), ErrorKind::Unauthorized);
    assert_eq!(error.message(), "invalid Authorization header");
}

#[test]
fn bearer_token_wrong_scheme_is_unauthorized() {
    for scheme in ["Basic dXNlcjpwYXNz", "Token xyz", "BearerLower xyz", ""] {
        let ctx = context_with(Some(("Authorization", scheme.as_bytes())));
        let error = match BearerToken::from_request(&ctx) {
            Ok(_) => panic!("scheme `{scheme}` must fail"),
            Err(e) => e,
        };
        assert_eq!(error.kind(), ErrorKind::Unauthorized);
        assert_eq!(error.message(), "expected a bearer token");
    }
}

#[test]
fn last_event_id_reads_the_header() {
    let ctx = context_with(Some(("last-event-id", b"42")));
    let id = LastEventId::from_request(&ctx);
    assert_eq!(id.as_str(), Some("42"));
}

#[test]
fn last_event_id_is_none_when_absent() {
    let ctx = context_with(None);
    let id = LastEventId::from_request(&ctx);
    assert_eq!(id.into_inner(), None);
}

#[test]
fn last_event_id_into_inner_some_branch() {
    let ctx = context_with(Some(("last-event-id", b"hello")));
    let id = LastEventId::from_request(&ctx);
    assert_eq!(id.into_inner(), Some("hello".to_owned()));
}

fn resume_from<T: std::str::FromStr>(ctx: &RequestContext<(), ()>) -> SseResume<T> {
    SseResume::new(LastEventId::from_request(ctx).as_str().and_then(|value| value.parse::<T>().ok()))
}

#[test]
fn sse_resume_parses_a_typed_cursor() {
    let ctx = context_with(Some(("last-event-id", b"42")));
    let resume = resume_from::<i64>(&ctx);
    assert_eq!(resume.last_id().copied(), Some(42));

    // A non-numeric value yields None for an i64 cursor.
    let ctx = context_with(Some(("last-event-id", b"abc")));
    let resume = resume_from::<i64>(&ctx);
    assert_eq!(resume.into_inner(), None);
}

#[test]
fn sse_resume_missing_header_yields_none() {
    let ctx = context_with(None);
    let resume = resume_from::<u32>(&ctx);
    assert_eq!(resume.last_id(), None);
    assert_eq!(resume.into_inner(), None);
}

#[test]
fn sse_resume_valid_value_is_accessible_via_both_accessors() {
    let ctx = context_with(Some(("last-event-id", b"42")));
    let resume = resume_from::<u32>(&ctx);
    assert_eq!(resume.last_id().copied(), Some(42));
    assert_eq!(resume.into_inner(), Some(42));
}

#[test]
fn missing_env_is_an_error() {
    let ctx = LifespanContext::new();
    let error = ctx.env("TORK_DEFINITELY_MISSING_VARIABLE_XYZ", None).err().unwrap();
    assert_eq!(error.code(), "MISSING_ENV");
    assert_eq!(ctx.env("HOME", Some("/root".to_owned())).ok(), Some("/root".to_owned()));
}

fn counts(lifespans: usize, startup_hooks: usize, shutdown_hooks: usize, ready_hooks: usize) -> LifecycleCounts {
    LifecycleCounts { lifespans, startup_hooks, shutdown_hooks, ready_hooks }
}

#[test]
fn lifespan_with_event_hooks_is_a_conflict() {
    let error = Application::<(), &'static str, ()>::new()
        .lifecycle(counts(1, 1, 0, 0))
        .build(Vec::new())
        .err()
        .expect("lifespan plus on_startup should conflict");

    assert_eq!(error.code(), "LIFECYCLE_CONFLICT");
    assert!(error.message().contains("Use either lifespan or event hooks"), "message: {}", error.message());
    assert!(validate_lifecycle(counts(2, 0, 0, 3)).is_ok());
}

#[test]
fn application_builds_routes_and_middleware() {
    let router = Router::new().prefix("/api").route(Route::new("GET", "/items", ()));
    let assembled = Application::<(), &'static str, ()>::new()
        .include_router(router)
        .middleware(Registration { name: "Cors".to_owned(), policy: DuplicatePolicy::Reject })
        .middleware(Registration { name: "Trace".to_owned(), policy: DuplicatePolicy::Reject })
        .build(vec![Route::new("GET", "/docs", ())])
        .ok()
        .unwrap();
    assert_eq!(assembled.matcher.routes().len(), 2);
    assert_eq!(assembled.matcher.routes()[0].path(), "/api/items");
    assert_eq!(assembled.middleware.kept, vec![0, 1]);
}

#[test]
fn serve_runs_startup_then_shutdown() {
    let mut lifecycle = Lifecycle::new(counts(2, 0, 0, 1));
    assert!(matches!(lifecycle.start(), Step::StartLifespan(0)));
    assert!(matches!(lifecycle.advance(Ok(())), Step::StartLifespan(1)));
    assert!(matches!(lifecycle.advance(Ok(())), Step::Build));
    assert!(matches!(lifecycle.advance(Ok(())), Step::RunReadyHook(0)));
    assert!(matches!(lifecycle.advance(Ok(())), Step::Serve));
    assert!(matches!(lifecycle.advance(Ok(())), Step::StopLifespan(1)));
    assert!(matches!(lifecycle.advance(Ok(())), Step::StopLifespan(0)));
    assert!(matches!(lifecycle.advance(Ok(())), Step::Finish(Ok(()))));
}

#[test]
fn failed_startup_rolls_back_started_lifespans() {
    let mut lifecycle = Lifecycle::new(counts(3, 0, 0, 0));
    assert!(matches!(lifecycle.start(), Step::StartLifespan(0)));
    assert!(matches!(lifecycle.advance(Ok(())), Step::StartLifespan(1)));
    assert!(matches!(lifecycle.advance(Ok(())), Step::StartLifespan(2)));
    assert!(matches!(lifecycle.advance(Err(Error::internal("db down"))), Step::RollBackLifespan(1)));
    assert!(matches!(lifecycle.advance(Ok(())), Step::RollBackLifespan(0)));
    match lifecycle.advance(Ok(())) {
        Step::Finish(Err(e)) => assert_eq!(e.message(), "db down"),
        _ => panic!("the startup error is reported after the rollback"),
    }
}

#[test]
fn shutdown_hooks_run_in_registration_order() {
    let mut lifecycle = Lifecycle::new(counts(0, 1, 2, 0));
    assert!(matches!(lifecycle.start(), Step::RunStartupHook(0)));
    assert!(matches!(lifecycle.advance(Ok(())), Step::Build));
    assert!(matches!(lifecycle.advance(Ok(())), Step::Serve));
    assert!(matches!(lifecycle.advance(Ok(())), Step::RunShutdownHook(0)));
    assert!(matches!(lifecycle.advance(Err(Error::internal("ignored"))), Step::RunShutdownHook(1)));
    assert!(matches!(lifecycle.advance(Ok(())), Step::Finish(Ok(()))));
}
