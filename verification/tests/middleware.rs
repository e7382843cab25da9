use tork_core::error::ErrorKind;
use tork_core::extract::RequestScheme;
use tork_core::middleware::body_limit::{BodyBudget, BodyLimit};
use tork_core::middleware::compression::{accepts_gzip, is_event_stream, Compression, ResponseParts};
use tork_core::middleware::cors::{join, Cors, CorsPlan};
use tork_core::middleware::https_redirect::{is_https, HttpsRedirect, RedirectPlan};
use tork_core::middleware::proxy_headers::{forwarded_value, IpAddress, IpNetwork, ProxyHeaders};
use tork_core::middleware::request_id::RequestId;
use tork_core::middleware::security_headers::SecurityHeaders;
use tork_core::middleware::trusted_host::TrustedHost;
use tork_core::middleware::{resolve_duplicates, DuplicatePolicy, Registration};

#[test]
fn join_builds_header_values_or_none() {
    assert_eq!(join(&["GET", "POST"]).unwrap(), "GET, POST");
    assert!(join(&[]).is_none());
}

#[test]
fn wildcard_without_credentials_returns_star() {
    let cors = Cors::new().allow_origin("*");
    let value = cors.allow_origin_value(Some(b"https://app.example.com"));
    assert_eq!(value.unwrap(), "*");
}

#[test]
fn wildcard_with_credentials_echoes_origin() {
    let cors = Cors::new().allow_origin("*").allow_credentials(true);
    let value = cors.allow_origin_value(Some(b"https://app.example.com"));
    assert_eq!(value.unwrap(), "https://app.example.com");
}

#[test]
fn exact_allow_list_rejects_unknown_origin() {
    let cors = Cors::new().allow_origin("https://good.example.com");
    assert!(cors.allow_origin_value(Some(b"https://evil.example.com")).is_none());
    assert!(cors.allow_origin_value(None).is_none());
}

#[test]
fn preflight_lists_methods_and_headers() {
    let cors = Cors::new()
        .allow_origin("https://good.example.com")
        .allow_methods(&["GET", "POST"])
        .allow_headers(&["content-type"])
        .max_age(600);
    match cors.plan(Some(b"https://good.example.com"), true, true) {
        CorsPlan::Preflight(headers) => {
            let find = |name: &str| headers.iter().find(|(n, _)| *n == name).map(|(_, v)| v.clone());
            assert_eq!(find("access-control-allow-origin"), Some("https://good.example.com".to_owned()));
            assert_eq!(find("access-control-allow-methods"), Some("GET, POST".to_owned()));
            assert_eq!(find("access-control-allow-headers"), Some("content-type".to_owned()));
            assert_eq!(find("access-control-max-age"), Some("600".to_owned()));
        }
        CorsPlan::Actual(_) => panic!("expected a preflight answer"),
    }
    assert!(matches!(cors.plan(Some(b"https://good.example.com"), false, false), CorsPlan::Actual(_)));
}

#[test]
fn trusted_scheme_extension_takes_priority() {
    assert!(is_https(Some(RequestScheme::Https), None));
    assert!(!is_https(Some(RequestScheme::Http), Some("https")));
}

#[test]
fn uri_scheme_is_used_without_proxy_header() {
    assert!(is_https(None, Some("https")));
    assert!(!is_https(None, Some("http")));
    assert!(!is_https(None, None));
}

#[test]
fn plain_requests_are_redirected_to_https() {
    assert_eq!(HttpsRedirect::location(Some(b"example.com"), Some("/path?q=1")), "https://example.com/path?q=1");
    assert_eq!(HttpsRedirect::location(None, None), "https:///");
    assert!(matches!(
        HttpsRedirect::new().plan(Some(RequestScheme::Https), None, Some(b"example.com"), Some("/")),
        RedirectPlan::Forward
    ));
}

#[test]
fn resolve_duplicates_applies_each_policy() {
    let reg = |name: &str, policy: DuplicatePolicy| Registration { name: name.to_owned(), policy };

    let allowed = resolve_duplicates(&[reg("a", DuplicatePolicy::Allow), reg("a", DuplicatePolicy::Allow)]).ok().unwrap();
    assert_eq!(allowed.kept.len(), 2);

    let replaced =
        resolve_duplicates(&[reg("b", DuplicatePolicy::Replace), reg("b", DuplicatePolicy::Replace)]).ok().unwrap();
    assert_eq!(replaced.kept.len(), 1);
    assert_eq!(replaced.kept, vec![1]);

    let rejected = resolve_duplicates(&[reg("c", DuplicatePolicy::Reject), reg("c", DuplicatePolicy::Reject)]);
    let error = match rejected {
        Ok(_) => panic!("a rejected duplicate fails"),
        Err(e) => e,
    };
    assert_eq!(error.code(), "DUPLICATE_MIDDLEWARE");
    assert_eq!(error.kind(), ErrorKind::Internal);

    let distinct = resolve_duplicates(&[reg("x", DuplicatePolicy::Reject), reg("y", DuplicatePolicy::Reject)]).ok().unwrap();
    assert_eq!(distinct.kept.len(), 2);

    let warned = resolve_duplicates(&[reg("w", DuplicatePolicy::Warn), reg("w", DuplicatePolicy::Warn)]).ok().unwrap();
    assert_eq!(warned.kept, vec![0, 1]);
    assert_eq!(warned.warned, vec![1]);
}

#[test]
fn proxy_headers_builtin_metadata_is_stable() {
    let middleware = ProxyHeaders::new();
    assert_eq!(middleware.name(), "ProxyHeaders");
    assert_eq!(middleware.duplicate_policy(), DuplicatePolicy::Reject);
}

#[test]
fn default_impl_uses_new() {
    let middleware = ProxyHeaders::new();
    assert!(!middleware.is_trusted(Some(IpAddress::v4(127, 0, 0, 1))));
    assert!(!middleware.is_trusted(None));
}

#[test]
fn trust_builders_register_expected_networks() {
    let network = IpNetwork::new(IpAddress::v4(10, 0, 0, 0), 24).expect("a valid network");
    let middleware = ProxyHeaders::new()
        .trust_proxy(IpAddress::v4(10, 0, 0, 1))
        .trust_cidr(network)
        .trust_loopback();

    assert!(middleware.is_trusted(Some(IpAddress::v4(10, 0, 0, 1))));
    assert!(middleware.is_trusted(Some(IpAddress::v4(10, 0, 0, 200))));
    assert!(middleware.is_trusted(Some(IpAddress::v4(127, 0, 0, 1))));
    assert!(middleware.is_trusted(Some(IpAddress::v6_loopback())));
    assert!(!middleware.is_trusted(Some(IpAddress::v4(10, 0, 1, 1))));
}

#[test]
fn networks_reject_oversized_prefixes() {
    assert!(IpNetwork::new(IpAddress::v4(10, 0, 0, 0), 33).is_none());
    let all = IpNetwork::new(IpAddress::v4(0, 0, 0, 0), 0).expect("a valid network");
    assert!(all.contains(IpAddress::v4(192, 168, 1, 1)));
    assert!(!all.contains(IpAddress::v6_loopback()));
}

#[test]
fn forwarded_values_take_the_first_entry() {
    assert_eq!(forwarded_value(Some(b" example.com , proxy")), Some("example.com".to_owned()));
    assert_eq!(forwarded_value(None), None);
}

#[test]
fn trusted_proxies_rewrite_host_and_scheme() {
    let middleware = ProxyHeaders::new().trust_loopback();
    let plan = middleware.plan(Some(IpAddress::v4_loopback()), Some(b"api.example.com"), Some(b"https"));
    assert_eq!(plan.host, Some("api.example.com".to_owned()));
    assert_eq!(plan.scheme, Some(RequestScheme::Https));
    let untrusted = middleware.plan(Some(IpAddress::v4(8, 8, 8, 8)), Some(b"api.example.com"), Some(b"https"));
    assert_eq!(untrusted.host, None);
    assert_eq!(untrusted.scheme, None);
}

#[test]
fn header_name_builder_replaces_default_header() {
    let request_id = RequestId::new().header_name("x-correlation-id");
    assert_eq!(request_id.header(), "x-correlation-id");
    assert_eq!(RequestId::new().header(), "x-request-id");
}

#[test]
fn request_ids_reuse_valid_incoming_values() {
    let request_id = RequestId::new();
    assert_eq!(request_id.request_id(Some(b"abc-123")), "abc-123");
    let generated = request_id.request_id(None);
    assert_eq!(generated.len(), 40);
    assert!(generated.starts_with("req-"));
    assert_ne!(generated, request_id.request_id(None));
}

#[test]
fn defaults_set_the_baseline_headers() {
    let mw = SecurityHeaders::new();
    let items = mw.configured();
    assert_eq!(items[0], ("strict-transport-security", Some("max-age=31536000; includeSubDomains".to_owned())));
    assert_eq!(items[1], ("x-content-type-options", Some("nosniff".to_owned())));
    assert_eq!(items[2], ("x-frame-options", Some("DENY".to_owned())));
    assert_eq!(items[3], ("referrer-policy", Some("no-referrer".to_owned())));
    assert_eq!(items[4], ("content-security-policy", None));
}

#[test]
fn builders_customize_and_disable_headers() {
    let mw = SecurityHeaders::new()
        .hsts_max_age(60, false)
        .frame_options("SAMEORIGIN")
        .content_security_policy("default-src 'self'")
        .without_referrer_policy();
    let items = mw.configured();
    assert_eq!(items[0].1.as_deref(), Some("max-age=60"));
    assert_eq!(items[2].1.as_deref(), Some("SAMEORIGIN"));
    assert_eq!(items[4].1.as_deref(), Some("default-src 'self'"));
    assert_eq!(items[3].1, None);
    let missing = mw.missing(&["x-frame-options"]);
    assert!(missing.iter().all(|(name, _)| *name != "x-frame-options"));
    assert_eq!(missing.len(), 3);
}

#[test]
fn constructors_scale_bytes_kb_and_mb() {
    assert_eq!(BodyLimit::bytes(7).limit(), 7);
    assert_eq!(BodyLimit::kb(2).limit(), 2 * 1024);
    assert_eq!(BodyLimit::mb(3).limit(), 3 * 1024 * 1024);
}

#[test]
fn read_body_with_limit_errors_after_crossing_limit() {
    let mut budget = BodyBudget::new(4);
    assert!(budget.take(2).is_ok());
    let error = match budget.take(3) {
        Ok(()) => panic!("the limit was crossed"),
        Err(e) => e,
    };
    assert_eq!(error.kind(), ErrorKind::PayloadTooLarge);
}

#[test]
fn declared_length_over_the_limit_is_rejected() {
    let limit = BodyLimit::bytes(10);
    assert!(limit.check_declared(Some(b"5")).is_ok());
    assert!(limit.check_declared(None).is_ok());
    let error = limit.check_declared(Some(b"11")).err().unwrap();
    assert_eq!(error.kind(), ErrorKind::PayloadTooLarge);
}

#[test]
fn event_stream_is_detected_and_bypasses_compression() {
    assert!(is_event_stream(Some(b"text/event-stream")));
    assert!(!is_event_stream(Some(b"application/json")));
    assert!(!is_event_stream(None));
}

#[test]
fn gzip_is_negotiated_and_round_trips() {
    assert!(accepts_gzip(Some(b"deflate, gzip;q=1.0")));
    assert!(!accepts_gzip(Some(b"br")));
    let body = vec![b'a'; 4096];
    let compression = Compression::new().gzip().minimum_size(1024);
    assert!(!compression.passes_through(true, false, false));
    assert!(compression.passes_through(true, false, true));
    let compressed = compression.compress(&body).expect("large bodies are compressed");
    assert_ne!(compressed.body, body);
    assert!(compressed.body.len() < body.len());
    assert_eq!(compressed.content_length, compressed.body.len().to_string());
    let mut decoder = flate2::read::GzDecoder::new(compressed.body.as_slice());
    let mut out = Vec::new();
    std::io::Read::read_to_end(&mut decoder, &mut out).unwrap();
    assert_eq!(out, body);
    assert!(compression.compress(b"tiny").is_none());
}

#[test]
fn trusted_hosts_ignore_case_and_ports() {
    let hosts = TrustedHost::new(&["example.com", "*.example.org"]);
    assert!(hosts.check(Some(b"EXAMPLE.com:8080")).is_ok());
    assert!(hosts.check(Some(b"api.example.org")).is_ok());
    let error = hosts.check(Some(b"evil.com")).err().unwrap();
    assert_eq!(error.kind(), ErrorKind::BadRequest);
}

fn json_response(body: Vec<u8>) -> ResponseParts {
    ResponseParts {
        status: 201,
        headers: vec![
            ("content-type".to_owned(), b"application/json".to_vec()),
            ("content-length".to_owned(), body.len().to_string().into_bytes()),
            ("vary".to_owned(), b"Origin".to_vec()),
        ],
        body,
    }
}

#[test]
fn compressed_responses_declare_their_encoding() {
    let body = vec![b'x'; 2048];
    let compression = Compression::new().gzip().minimum_size(1024);
    let out = compression.respond(Some(b"GZIP, br"), json_response(body.clone()));
    assert_eq!(out.status, 201);
    let header = |name: &str| -> Vec<Vec<u8>> {
        out.headers.iter().filter(|(n, _)| n == name).map(|(_, v)| v.clone()).collect()
    };
    assert_eq!(header("content-encoding"), vec![b"gzip".to_vec()]);
    assert_eq!(header("content-length"), vec![out.body.len().to_string().into_bytes()]);
    assert_eq!(header("vary"), vec![b"Origin".to_vec(), b"Accept-Encoding".to_vec()]);
    assert_eq!(header("content-type"), vec![b"application/json".to_vec()]);
    let mut decoder = flate2::read::GzDecoder::new(out.body.as_slice());
    let mut plain = Vec::new();
    std::io::Read::read_to_end(&mut decoder, &mut plain).unwrap();
    assert_eq!(plain, body);
}

#[test]
fn other_responses_pass_through_unchanged() {
    let body = vec![b'x'; 2048];
    let cases = [
        (Compression::new().minimum_size(1024), Some(&b"gzip"[..]), json_response(body.clone())),
        (Compression::new().gzip(), Some(&b"br"[..]), json_response(body.clone())),
        (Compression::new().gzip(), None, json_response(body.clone())),
        (Compression::new().gzip().minimum_size(4096), Some(&b"gzip"[..]), json_response(body.clone())),
    ];
    for (compression, accept, response) in cases {
        let out = compression.respond(accept, response);
        assert_eq!(out.status, 201);
        assert_eq!(out.body, body);
        assert_eq!(out.headers, json_response(body.clone()).headers);
    }
    let mut encoded = json_response(body.clone());
    encoded.headers.push(("Content-Encoding".to_owned(), b"br".to_vec()));
    let headers = encoded.headers.clone();
    let out = Compression::new().gzip().respond(Some(b"gzip"), encoded);
    assert_eq!((out.headers, out.body), (headers, body.clone()));
    let mut stream = json_response(body.clone());
    stream.headers[0].1 = b"text/event-stream".to_vec();
    let headers = stream.headers.clone();
    let out = Compression::new().gzip().respond(Some(b"gzip"), stream);
    assert_eq!((out.headers, out.body), (headers, body));
}
