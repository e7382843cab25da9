use tork_core::decimal::parse_u64;
use tork_core::bench::flag_from;
use tork_core::bench::{assert_expected_response, assert_invalid_validation_response, check_response, parse_flag, Backend, BufferedResponse, LoadTally, Scenario};
use tork_core::body::{BufferedBody, EmittedBytes};
use tork_core::constants::MAX_BODY_BYTES;
use tork_core::decimal::u64_to_decimal;
use tork_core::error::ErrorKind;
use tork_core::logging::{bounded_chain, level_color, Level, LogFormat, LoggerConfig, OutputFormat};

#[test]
fn build_format_honors_explicit_json_and_console_preferences() {
    let json = LoggerConfig::new().format(LogFormat::Json).service_name("svc");
    assert_eq!(json.output_format(true), OutputFormat::Json);
    assert_eq!(json.service_name, "svc");

    let console = LoggerConfig::new().format(LogFormat::Pretty).color(false);
    assert_eq!(console.output_format(true), OutputFormat::Console { color: false });

    let compact = LoggerConfig::new().format(LogFormat::Compact);
    assert!(matches!(compact.output_format(false), OutputFormat::Console { .. }));

    let auto = LoggerConfig::new();
    assert_eq!(auto.output_format(false), OutputFormat::Json);
    assert_eq!(auto.output_format(true), OutputFormat::Console { color: true });
}

#[test]
fn error_chain_is_truncated_at_the_cap() {
    let sources: Vec<String> = (0..20).map(|i| format!("cause {i}")).collect();
    let chain = bounded_chain(sources.clone());
    assert_eq!(chain.len(), 17);
    assert_eq!(chain[..16], sources[..16]);
    assert_eq!(chain[16], "... (chain truncated)");
    let short = vec!["only".to_owned()];
    assert_eq!(bounded_chain(short.clone()), short);
}

#[test]
fn levels_have_distinct_colors() {
    assert_eq!(level_color(Level::Error), "\u{1b}[31m");
    assert_eq!(level_color(Level::Info), "\u{1b}[32m");
}

#[test]
fn scenarios_and_backends_round_trip_their_names() {
    for scenario in [Scenario::JsonOk, Scenario::PathParam, Scenario::JsonValidate, Scenario::MiddlewareStack, Scenario::TypedError] {
        assert_eq!(Scenario::parse(scenario.as_str()), Ok(scenario));
    }
    assert_eq!(Backend::parse("axum"), Ok(Backend::Axum));
    assert_eq!(Backend::parse("rocket"), Err("unknown backend `rocket`".to_owned()));
    assert_eq!(Scenario::parse("nope"), Err("unknown scenario `nope`".to_owned()));
    assert_eq!(Scenario::JsonValidate.method(), "POST");
    assert_eq!(Scenario::TypedError.expected_status(), 503);
    assert_eq!("tork".parse::<Backend>(), Ok(Backend::Tork));
    assert_eq!("typed_error".parse::<Scenario>(), Ok(Scenario::TypedError));
    assert!("Tork".parse::<Backend>().is_err());
}

#[test]
fn parity_scenarios_match_expected_contract() {
    let headers = vec![
        ("x-request-id".to_owned(), "bench-request".to_owned()),
        ("x-bench-stack".to_owned(), "enabled".to_owned()),
    ];
    let expected = Scenario::MiddlewareStack.expected_headers();
    let actual: Vec<(String, String)> = expected.iter().map(|(n, v)| (n.to_string(), v.to_string())).collect();
    assert!(check_response(Scenario::MiddlewareStack, 200, &actual, true));
    assert!(!check_response(Scenario::MiddlewareStack, 500, &actual, true));
    assert!(!check_response(Scenario::MiddlewareStack, 200, &Vec::new(), true));
    assert!(!check_response(Scenario::JsonOk, 200, &headers, false));
    assert!(check_response(Scenario::JsonOk, 200, &Vec::new(), true));
}

#[test]
fn flags_parse_with_defaults_and_errors() {
    let args: Vec<String> = ["--concurrency", "8", "--seconds", "x", "--last"].iter().map(|s| s.to_string()).collect();
    assert_eq!(parse_flag(&args, "--concurrency", 1), Ok(8));
    assert_eq!(parse_flag(&args, "--absent", 3), Ok(3));
    assert_eq!(parse_flag(&args, "--last", 3), Err("missing value for `--last`".to_owned()));
    let error = parse_flag(&args, "--seconds", 3).unwrap_err();
    assert!(error.starts_with("invalid value for `--seconds`: "));
    assert!(error.len() > "invalid value for `--seconds`: ".len());
}

#[test]
fn tallies_add_up_worker_counts() {
    let mut tally = LoadTally::new();
    tally.absorb(3, 1, vec![10, 20]);
    tally.absorb(2, 0, vec![5]);
    tally.record(true, Some(7));
    tally.record(true, None);
    tally.record(false, Some(9));
    assert_eq!(tally.success_count, 7);
    assert_eq!(tally.error_count, 2);
    assert_eq!(tally.latencies_us, vec![10, 20, 5, 7]);
}

#[test]
fn reads_body_within_limit() {
    let mut body = BufferedBody::new();
    assert!(body.take(10).is_ok());
    assert_eq!(body.len(), 10);
}

#[test]
fn rejects_body_over_limit() {
    let mut body = BufferedBody::new();
    assert!(body.take(MAX_BODY_BYTES).is_ok());
    let error = body.take(1).err().unwrap();
    assert_eq!(error.kind(), ErrorKind::BadRequest);
    assert_eq!(body.len(), MAX_BODY_BYTES);
}

#[test]
fn capped_stream_errors_once_it_exceeds_the_limit() {
    let mut emitted = EmittedBytes::new(4);
    assert!(emitted.on_data(3).is_ok());
    assert_eq!(emitted.on_data(2), Err("response body exceeded the 4-byte limit".to_owned()));
}

#[test]
fn decimals_render_without_leading_zeros() {
    assert_eq!(u64_to_decimal(0), "0");
    assert_eq!(u64_to_decimal(40), "40");
    assert_eq!(u64_to_decimal(u64::MAX), "18446744073709551615");
}

#[test]
fn flag_errors_name_the_flag() {
    assert_eq!(flag_from("--n", Ok(3)), Ok(3));
    assert_eq!(flag_from("--n", Err("bad digit".to_owned())), Err("invalid value for `--n`: bad digit".to_owned()));
}

#[test]
fn integer_parsing_agrees_with_std() {
    let inputs = [
        "", "+", "-", "0", "+0", "42", "+42", "-5", "4x2", "18446744073709551615", "18446744073709551616",
        "99999999999999999999x", "00000000000000000000000012", "1 ", "٣", "++1",
    ];
    for input in inputs {
        let expected = input.parse::<u64>().map_err(|error| error.to_string());
        assert_eq!(parse_u64(input), expected, "input {input:?}");
    }
}

fn answer(status: u16, headers: Vec<(&str, &str)>, body: &str) -> BufferedResponse {
    BufferedResponse {
        status,
        headers: headers.into_iter().map(|(n, v)| (n.to_owned(), v.to_owned())).collect(),
        body: body.as_bytes().to_vec(),
    }
}

#[test]
fn expected_answers_are_compared_as_json() {
    let ok = answer(200, vec![], r#"{ "message" : "ok" }"#);
    assert_eq!(assert_expected_response(Scenario::JsonOk, &ok), Ok(()));
    let reordered = answer(200, vec![], r#"{"message":"user","id":42}"#);
    assert_eq!(assert_expected_response(Scenario::PathParam, &reordered), Ok(()));
    let wrong = answer(200, vec![], r#"{"message":"nope"}"#);
    assert_eq!(assert_expected_response(Scenario::JsonOk, &wrong), Err("unexpected response for `json_ok`".to_owned()));
    let garbled = answer(200, vec![], "not json");
    assert!(assert_expected_response(Scenario::JsonOk, &garbled).is_err());
    let stack = answer(200, vec![("x-request-id", "bench-request"), ("x-bench-stack", "enabled")], r#"{"message":"middleware_ok"}"#);
    assert_eq!(assert_expected_response(Scenario::MiddlewareStack, &stack), Ok(()));
    let bare = answer(200, vec![], r#"{"message":"middleware_ok"}"#);
    assert!(assert_expected_response(Scenario::MiddlewareStack, &bare).is_err());
    let created = answer(201, vec![], r#"{"name":"widget","count":3}"#);
    assert_eq!(assert_expected_response(Scenario::JsonValidate, &created), Ok(()));
    assert!(assert_expected_response(Scenario::TypedError, &created).is_err());
}

#[test]
fn validation_failure_answers_are_checked() {
    let body = r#"{"status":422,"code":"VALIDATION_ERROR","message":"The submitted data failed validation.","details":[{"field":"count"},{"field":"name","issue":"TOO_SHORT"}]}"#;
    assert_eq!(assert_invalid_validation_response(&answer(422, vec![], body)), Ok(()));
    assert!(assert_invalid_validation_response(&answer(400, vec![], body)).is_err());
    let no_name = r#"{"status":422,"code":"VALIDATION_ERROR","message":"The submitted data failed validation.","details":[{"field":"count"}]}"#;
    assert!(assert_invalid_validation_response(&answer(422, vec![], no_name)).is_err());
    assert!(assert_invalid_validation_response(&answer(422, vec![], "[]")).is_err());
}
