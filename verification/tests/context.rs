use tork_core::error::ErrorKind;
use tork_core::extract::{PathParams, RequestContext, RequestScheme};
use tork_core::middleware::proxy_headers::IpAddress;

fn test_context(params: PathParams, body: &str) -> RequestContext<Vec<u8>, ()> {
    RequestContext::new(
        "GET".to_owned(),
        vec![("content-type".to_owned(), b"application/json".to_vec())],
        None,
        None,
        params,
        body.as_bytes().to_vec(),
        None,
    )
}

#[test]
fn take_upgrade_errors_without_an_upgrade() {
    let mut ctx = test_context(PathParams::new(), "");
    let error = ctx.take_upgrade().err().expect("should error without an upgrade");
    assert_eq!(error.code(), "NOT_AN_UPGRADE");
}

#[test]
fn body_can_only_be_taken_once() {
    let mut ctx = test_context(PathParams::new(), "hello");

    assert!(ctx.take_body().is_ok());
    let error = ctx.take_body().unwrap_err();
    assert_eq!(error.kind(), ErrorKind::BadRequest);
}

#[test]
fn an_upgrade_is_handed_out_once() {
    let mut ctx: RequestContext<Vec<u8>, u32> = RequestContext::new(
        "GET".to_owned(),
        Vec::new(),
        Some(IpAddress::v4_loopback()),
        Some(RequestScheme::Https),
        PathParams::new(),
        Vec::new(),
        Some(7),
    );
    assert_eq!(ctx.take_upgrade().ok(), Some(7));
    assert_eq!(ctx.take_upgrade().err().map(|e| e.status()), Some(400));
    assert_eq!(ctx.take_body().ok(), Some(Vec::new()));
    assert_eq!(ctx.scheme(), Some("https"));
    assert_eq!(ctx.peer_addr(), Some(IpAddress::v4_loopback()));
}

#[test]
fn headers_are_found_ignoring_case_and_params_by_name() {
    let mut params = PathParams::new();
    params.push("user_id".to_owned(), "42".to_owned());
    let ctx = test_context(params, "");
    assert_eq!(ctx.header("Content-Type"), Some(&b"application/json"[..]));
    assert_eq!(ctx.header("accept"), None);
    assert_eq!(ctx.path_param("user_id"), Some("42"));
    assert_eq!(ctx.path_param("missing"), None);
    assert_eq!(ctx.method(), "GET");
    assert_eq!(ctx.headers().len(), 1);
}
