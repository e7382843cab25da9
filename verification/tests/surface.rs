use tork_core::body::body_unreadable;
use tork_core::cache::not_configured;
use tork_core::error::{Error, ErrorKind};
use tork_core::middleware::cors::{Cors, CorsPlan};
use tork_core::middleware::security_headers::SecurityHeaders;
use tork_core::middleware::timeout::Timeout;
use tork_core::middleware::trace::Trace;
use tork_core::multipart::{FilePart, MultipartForm, UploadConfig};
use tork_core::settings::{load_failed, validation_failed, SecretString};

#[test]
fn extended_constructors_carry_their_status_and_code() {
    let cases = [
        (Error::payment_required("m"), 402, "PAYMENT_REQUIRED"),
        (Error::not_acceptable("m"), 406, "NOT_ACCEPTABLE"),
        (Error::request_timeout("m"), 408, "REQUEST_TIMEOUT"),
        (Error::precondition_failed("m"), 412, "PRECONDITION_FAILED"),
        (Error::unsupported_media_type("m"), 415, "UNSUPPORTED_MEDIA_TYPE"),
        (Error::locked("m"), 423, "LOCKED"),
        (Error::not_implemented("m"), 501, "NOT_IMPLEMENTED"),
        (Error::loop_detected("m"), 508, "LOOP_DETECTED"),
        (Error::network_authentication_required("m"), 511, "NETWORK_AUTHENTICATION_REQUIRED"),
    ];
    for (error, status, code) in cases {
        assert_eq!(error.status(), status);
        assert_eq!(error.code(), code);
        assert!(!error.is_validation());
    }
}

#[test]
fn fixed_errors_have_their_kind_and_message() {
    let unreadable = body_unreadable();
    assert_eq!(unreadable.kind(), ErrorKind::BadRequest);
    assert_eq!(unreadable.message(), "request body could not be read");
    let cache = not_configured();
    assert_eq!(cache.kind(), ErrorKind::Internal);
    assert_eq!(cache.status(), 500);
    let timed_out = Timeout::timed_out();
    assert_eq!(timed_out.kind(), ErrorKind::GatewayTimeout);
    assert_eq!(timed_out.message(), "request timed out");
}

#[test]
fn trace_logs_the_status_of_the_outcome() {
    assert_eq!(Trace::outcome_status(Ok(201)), 201);
    let error = Error::not_found("missing");
    assert_eq!(Trace::outcome_status(Err(&error)), 404);
    assert_eq!(Trace::log_line("GET", "/users/7", 200), "GET /users/7 200");
}

#[test]
fn exposed_headers_are_added_to_actual_responses_only() {
    let cors = Cors::new().allow_origin("https://a.example").expose_headers(&["x-total", "x-page"]);
    match cors.plan(Some(b"https://a.example"), false, false) {
        CorsPlan::Actual(headers) => {
            assert!(headers.contains(&("access-control-expose-headers", "x-total, x-page".to_owned())));
        }
        CorsPlan::Preflight(_) => panic!("expected an actual answer"),
    }
    match cors.plan(Some(b"https://a.example"), true, true) {
        CorsPlan::Preflight(headers) => {
            assert!(headers.iter().all(|(name, _)| *name != "access-control-expose-headers"));
        }
        CorsPlan::Actual(_) => panic!("expected a preflight answer"),
    }
}

#[test]
fn security_headers_can_all_be_switched_off() {
    let mw = SecurityHeaders::new().without_hsts().without_frame_options().without_content_type_options();
    let items = mw.configured();
    assert_eq!(items[0].1, None);
    assert_eq!(items[1].1, None);
    assert_eq!(items[2].1, None);
    let missing = mw.missing(&[]);
    assert_eq!(missing, vec![("referrer-policy", "no-referrer".to_owned())]);
}

#[test]
fn upload_limits_in_mebibytes_and_taking_all_files_of_a_name() {
    let config = UploadConfig::new().max_body_size_mb(2);
    assert_eq!(config.max_body_size, Some(2 * 1024 * 1024));
    let part = |name: &str, storage: u8| FilePart {
        name: name.to_owned(),
        filename: None,
        content_type: None,
        storage,
        size: 1,
    };
    let mut form = MultipartForm::new(Vec::new(), vec![part("a", 1), part("b", 2), part("a", 3)]);
    let taken = form.take_files("a");
    assert_eq!(taken.iter().map(|p| p.storage).collect::<Vec<_>>(), vec![1, 3]);
    assert!(form.take_files("a").is_empty());
    assert_eq!(form.take_files("b").len(), 1);
}

#[test]
fn configuration_errors_name_their_cause() {
    let failed = load_failed("bad toml");
    assert_eq!(failed.code(), "CONFIG_LOAD_FAILED");
    assert_eq!(failed.message(), "failed to load configuration: bad toml");
    let invalid = validation_failed(&vec![("items".to_owned(), "too large".to_owned())]);
    assert_eq!(invalid.status(), 422);
    assert_eq!(invalid.code(), "CONFIG_VALIDATION_ERROR");
    assert_eq!(invalid.details().len(), 1);
    assert_eq!(SecretString::from_string("shh".to_owned()).expose(), "shh");
}
