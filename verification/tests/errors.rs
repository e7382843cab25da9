use tork_core::constants::INTERNAL_ERROR_MESSAGE;
use tork_core::error::{classify_issue, Error, ErrorDetail, ErrorKind};

#[test]
fn code_mapping_covers_every_kind() {
    assert_eq!(ErrorKind::BadRequest.code(), "BAD_REQUEST");
    assert_eq!(ErrorKind::Unauthorized.code(), "UNAUTHORIZED");
    assert_eq!(ErrorKind::Forbidden.code(), "FORBIDDEN");
    assert_eq!(ErrorKind::NotFound.code(), "NOT_FOUND");
    assert_eq!(ErrorKind::MethodNotAllowed.code(), "METHOD_NOT_ALLOWED");
    assert_eq!(ErrorKind::Conflict.code(), "CONFLICT");
    assert_eq!(ErrorKind::Unprocessable.code(), "UNPROCESSABLE_ENTITY");
    assert_eq!(ErrorKind::PayloadTooLarge.code(), "PAYLOAD_TOO_LARGE");
    assert_eq!(ErrorKind::TooManyRequests.code(), "TOO_MANY_REQUESTS");
    assert_eq!(ErrorKind::Internal.code(), "INTERNAL_SERVER_ERROR");
    assert_eq!(ErrorKind::ServiceUnavailable.code(), "SERVICE_UNAVAILABLE");
    assert_eq!(ErrorKind::GatewayTimeout.code(), "GATEWAY_TIMEOUT");
}

#[test]
fn status_mapping_covers_every_kind() {
    assert_eq!(ErrorKind::BadRequest.status(), 400);
    assert_eq!(ErrorKind::Unauthorized.status(), 401);
    assert_eq!(ErrorKind::Forbidden.status(), 403);
    assert_eq!(ErrorKind::NotFound.status(), 404);
    assert_eq!(ErrorKind::MethodNotAllowed.status(), 405);
    assert_eq!(ErrorKind::Conflict.status(), 409);
    assert_eq!(ErrorKind::Unprocessable.status(), 422);
    assert_eq!(ErrorKind::PayloadTooLarge.status(), 413);
    assert_eq!(ErrorKind::TooManyRequests.status(), 429);
    assert_eq!(ErrorKind::Internal.status(), 500);
    assert_eq!(ErrorKind::ServiceUnavailable.status(), 503);
    assert_eq!(ErrorKind::GatewayTimeout.status(), 504);
}

#[test]
fn status_mapping_matches_kind() {
    assert_eq!(ErrorKind::Forbidden.status(), 403);
    assert_eq!(ErrorKind::NotFound.status(), 404);
    assert_eq!(ErrorKind::Internal.status(), 500);
    assert_eq!(ErrorKind::PayloadTooLarge.status(), 413);
    assert_eq!(ErrorKind::GatewayTimeout.status(), 504);
}

#[test]
fn method_not_allowed_constructor_uses_method_not_allowed_kind() {
    let error = Error::method_not_allowed("GET not allowed");
    assert_eq!(error.kind(), ErrorKind::MethodNotAllowed);
    assert_eq!(error.message(), "GET not allowed");
}

#[test]
fn conflict_constructor_uses_conflict_kind() {
    let error = Error::conflict("duplicate key");
    assert_eq!(error.kind(), ErrorKind::Conflict);
    assert_eq!(error.message(), "duplicate key");
}

#[test]
fn too_many_requests_constructor_uses_too_many_requests_kind() {
    let error = Error::too_many_requests("slow down");
    assert_eq!(error.kind(), ErrorKind::TooManyRequests);
    assert_eq!(error.message(), "slow down");
}

#[test]
fn service_unavailable_constructor_uses_service_unavailable_kind() {
    let error = Error::service_unavailable("maintenance");
    assert_eq!(error.kind(), ErrorKind::ServiceUnavailable);
    assert_eq!(error.message(), "maintenance");
}

#[derive(Debug, PartialEq)]
struct SampleCause(&'static str);

impl std::fmt::Display for SampleCause {
    fn fmt(&self, f: &mut std::fmt::Formatter<'_>) -> std::fmt::Result {
        f.write_str(self.0)
    }
}

#[derive(Debug)]
struct OtherCause;

impl std::fmt::Display for OtherCause {
    fn fmt(&self, f: &mut std::fmt::Formatter<'_>) -> std::fmt::Result {
        f.write_str("other")
    }
}

#[test]
fn sample_cause_display_formats_inner_message() {
    assert_eq!(SampleCause("payload").to_string(), "payload");
}

#[test]
fn other_cause_display_formats_inner_message() {
    assert_eq!(OtherCause.to_string(), "other");
}

#[test]
fn classify_issue_recognizes_email_format() {
    assert_eq!(classify_issue("email is not valid"), "INVALID_FORMAT");
    assert_eq!(classify_issue("Email is invalid"), "INVALID_FORMAT");
}

#[test]
fn classify_issue_recognizes_too_long() {
    assert_eq!(classify_issue("length is greater than 10"), "TOO_LONG");
}

#[test]
fn classify_issue_recognizes_strict_numeric_bounds() {
    assert_eq!(classify_issue("value must be greater than 0"), "TOO_SMALL");
    assert_eq!(classify_issue("value must be less than 100"), "TOO_LARGE");
}

#[test]
fn classify_issue_falls_back_to_generic() {
    assert_eq!(classify_issue("something unrelated"), "INVALID");
    assert_eq!(classify_issue(""), "INVALID");
}

#[test]
fn client_error_payload_keeps_message_and_title() {
    let payload = Error::forbidden("Access denied").into_payload();
    assert_eq!(payload.status, 403);
    assert_eq!(payload.code, "FORBIDDEN");
    assert_eq!(payload.title, "Forbidden");
    assert_eq!(payload.message, "Access denied");
    assert!(payload.details.is_empty());
}

#[test]
fn server_error_payload_is_redacted() {
    let payload = Error::internal("database password is hunter2").into_payload();
    assert_eq!(payload.status, 500);
    assert_eq!(payload.code, "INTERNAL_SERVER_ERROR");
    assert_eq!(payload.message, INTERNAL_ERROR_MESSAGE);
    assert!(!payload.message.contains("hunter2"));
}

#[test]
fn http_payload_uses_the_explicit_status_and_its_reason() {
    let payload = Error::http(418, "I'm a teapot").into_payload();
    assert_eq!(payload.status, 418);
    assert_eq!(payload.title, "I'm a teapot");
    assert_eq!(payload.message, "I'm a teapot");
}

#[test]
fn http_reuses_known_kind_codes_and_allows_override() {
    assert_eq!(Error::http(404, "gone").into_payload().code, "NOT_FOUND");
    assert_eq!(Error::http(418, "teapot").with_code("TEAPOT").into_payload().code, "TEAPOT");
}

#[test]
fn http_out_of_range_status_falls_back_to_500() {
    let error = Error::http(42, "odd");
    assert_eq!(error.status(), 500);
    assert_eq!(error.kind(), ErrorKind::Internal);
    let error = Error::http(418, "teapot");
    assert_eq!(error.kind(), ErrorKind::BadRequest);
    assert_eq!(error.code(), "BAD_REQUEST");
}

#[test]
fn extended_constructors_set_status_code_and_title() {
    let cases = [
        (Error::im_a_teapot("no coffee"), 418, "IM_A_TEAPOT", "I'm a teapot"),
        (Error::unavailable_for_legal_reasons("blocked"), 451, "UNAVAILABLE_FOR_LEGAL_REASONS", "Unavailable For Legal Reasons"),
        (Error::too_early("retry later"), 425, "TOO_EARLY", "Too Early"),
        (Error::bad_gateway("upstream"), 502, "BAD_GATEWAY", "Bad Gateway"),
    ];
    for (error, status, code, title) in cases {
        let payload = error.into_payload();
        assert_eq!(payload.status, status);
        assert_eq!(payload.code, code);
        assert_eq!(payload.title, title);
    }
}

#[test]
fn http_server_status_payload_is_redacted() {
    let payload = Error::http(503, "upstream pool exhausted: secret-host").into_payload();
    assert_eq!(payload.status, 503);
    assert_eq!(payload.message, INTERNAL_ERROR_MESSAGE);
    assert!(!payload.message.contains("secret-host"));
}

#[test]
fn validation_details_reach_the_payload() {
    let payload = Error::unprocessable("The submitted data failed validation.")
        .with_code("VALIDATION_ERROR")
        .with_details(vec![ErrorDetail::new("price", "TOO_SMALL", "must be greater than 0")])
        .into_payload();
    assert_eq!(payload.status, 422);
    assert_eq!(payload.code, "VALIDATION_ERROR");
    assert_eq!(payload.details[0].field, "price");
    assert_eq!(payload.details[0].issue, "TOO_SMALL");
    assert_eq!(payload.details[0].message, "must be greater than 0");
}

#[test]
fn server_errors_drop_details() {
    let payload = Error::internal("boom")
        .with_details(vec![ErrorDetail::new("x", "INVALID", "bad")])
        .into_payload();
    assert!(payload.details.is_empty());
}

#[test]
fn validation_issues_are_classified() {
    let issues = vec![("name".to_string(), "length is lower than 3".to_string())];
    let error = Error::from_validation_issues(&issues);
    assert_eq!(error.kind(), ErrorKind::Unprocessable);
    assert_eq!(error.code(), "VALIDATION_ERROR");
    assert_eq!(error.details().len(), 1);
    assert_eq!(error.details()[0].field, "name");
    assert_eq!(error.details()[0].issue, "TOO_SHORT");
}

#[test]
fn from_status_maps_known_statuses() {
    assert_eq!(ErrorKind::from_status(404), Some(ErrorKind::NotFound));
    assert_eq!(ErrorKind::from_status(418), None);
}

#[test]
fn display_string_joins_code_and_message() {
    assert_eq!(Error::not_found("nope").to_display_string(), "NOT_FOUND: nope");
}

#[test]
fn payload_titles_come_from_the_reason_phrase() {
    let payload = Error::not_found("gone").payload_with_reason(Some("Not Found"));
    assert_eq!(payload.title, "Not Found");
    assert_eq!(payload.message, "gone");
    let untitled = Error::http(599, "odd").payload_with_reason(None);
    assert_eq!(untitled.title, "Error");
    assert_eq!(untitled.message, INTERNAL_ERROR_MESSAGE);
}

#[test]
fn trace_ids_are_fresh_request_ids() {
    let first = tork_core::error::generate_trace_id();
    let second = tork_core::error::generate_trace_id();
    assert_eq!(first.len(), 40);
    assert!(first.starts_with("req-"));
    assert_ne!(first, second);
}

#[test]
fn from_garde_report_classifies_field_errors() {
    let mut report = garde::Report::new();
    report.append(garde::Path::new("name"), garde::Error::new("length is lower than 3"));
    let error = Error::from_garde_report(report);
    assert_eq!(error.kind(), ErrorKind::Unprocessable);
    assert_eq!(error.code(), "VALIDATION_ERROR");
    assert_eq!(error.details().len(), 1);
    assert_eq!(error.details()[0].field, "name");
    assert_eq!(error.details()[0].issue, "TOO_SHORT");
}
