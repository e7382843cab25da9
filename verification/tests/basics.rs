use tork_core::cache::{clear_pattern, normalize_ttl, prefixed, CachePolicy, ReadThrough, ReadThroughAction, ReadThroughPhase};
use tork_core::duration::Duration;
use tork_core::logging::{FileLogConfig, LogFormat, LoggerConfig, Rotation};
use tork_core::middleware::timeout::Timeout;
use tork_core::middleware::trace::Trace;
use tork_core::middleware::DuplicatePolicy;
use tork_core::multipart::UploadConfig;
use tork_core::paths::{collapse_double_slashes, join_paths, normalized_request_path};
use tork_core::security::constant_time_eq;
use tork_core::settings::SecretString;

#[test]
fn keys_are_namespaced_with_the_prefix() {
    assert_eq!(prefixed("tork:", "user:1"), "tork:user:1");
    assert_eq!(prefixed("", "k"), "k");
}

#[test]
fn clear_pattern_matches_every_prefixed_key() {
    assert_eq!(clear_pattern("tork:"), "tork:*");
}

#[test]
fn a_zero_ttl_never_expires() {
    assert_eq!(normalize_ttl(Some(Duration::from_secs(0))), None);
    assert_eq!(normalize_ttl(Some(Duration::from_millis(5))), Some(Duration::from_millis(5)));
    assert_eq!(normalize_ttl(None), None);
}

#[test]
fn default_ttl_applies_to_plain_set() {
    let policy = CachePolicy::new().default_ttl(Duration::from_secs(60));
    assert_eq!(policy.ttl_for_set(), Some(Duration::from_secs(60)));
    assert_eq!(policy.ttl_for_get_or_set(None), Some(Duration::from_secs(60)));
    assert_eq!(policy.ttl_for_set_ttl(Duration::from_secs(0)), None);
    assert_eq!(CachePolicy::new().ttl_for_set(), None);
}

#[test]
fn defaults_are_sensible() {
    let config = LoggerConfig::new();
    assert_eq!(config.level, "info");
    assert_eq!(config.format, LogFormat::Auto);
    assert!(config.color);
    assert!(config.request_logs);
    assert!(config.file.is_none());
    assert!(config.telemetry.is_none());
}

#[test]
fn builders_set_fields() {
    let config = LoggerConfig::new()
        .level("debug")
        .format(LogFormat::Json)
        .service_name("tork-api")
        .request_logs(false)
        .file(FileLogConfig::new("./logs").prefix("api").rotation(Rotation::Hourly));

    assert_eq!(config.level, "debug");
    assert_eq!(config.format, LogFormat::Json);
    assert_eq!(config.service_name, "tork-api");
    assert!(!config.request_logs);
    let file = config.file.expect("file sink");
    assert_eq!(file.prefix, "api");
    assert_eq!(file.rotation, Rotation::Hourly);
}

#[test]
fn constructors_preserve_requested_duration() {
    assert_eq!(Timeout::new(Duration::from_secs(3)).duration(), Duration::from_secs(3));
    assert_eq!(Timeout::seconds(2).duration(), Duration::from_secs(2));
    assert_eq!(Timeout::millis(25).duration(), Duration::from_millis(25));
}

#[test]
fn trace_builtin_metadata_is_stable() {
    let middleware = Trace::new();
    assert_eq!(middleware.name(), "Trace");
    assert_eq!(middleware.duplicate_policy(), DuplicatePolicy::Reject);
}

#[test]
fn config_merge_prefers_route_over_app() {
    let app = UploadConfig::new().max_file_size_mb(10).max_files(5);
    let route = UploadConfig::new().max_file_size_mb(50);
    let merged = route.merge(&app);
    assert_eq!(merged.resolve().max_file_size, 50 * 1024 * 1024);
    assert_eq!(merged.resolve().max_files, 5);
}

#[test]
fn normalized_request_path_covers_root_and_trailing_slashes() {
    assert_eq!(normalized_request_path("/"), None);
    assert_eq!(normalized_request_path("/users"), None);
    assert_eq!(normalized_request_path("/users/"), Some("/users".to_string()));
    assert_eq!(normalized_request_path("/users///"), Some("/users".to_string()));
}

#[test]
fn double_slashes_collapse_to_one() {
    assert_eq!(collapse_double_slashes("//api//users"), Some("/api/users".to_string()));
    assert_eq!(collapse_double_slashes("/api/users"), None);
}

#[test]
fn joined_paths_have_one_separator() {
    assert_eq!(join_paths("/api", "/users"), "/api/users");
    assert_eq!(join_paths("/api/", "users"), "/api/users");
    assert_eq!(join_paths("", "/"), "/");
}

#[test]
fn equal_values_match_and_others_do_not() {
    assert!(constant_time_eq(b"token-abc", b"token-abc"));
    assert!(constant_time_eq(b"\x00\x01\x02".as_slice(), b"\x00\x01\x02".as_slice()));
    assert!(!constant_time_eq(b"token-abc", b"token-abd"));
    // A length mismatch (including a prefix) is not equal.
    assert!(!constant_time_eq(b"token", b"token-abc"));
    assert!(!constant_time_eq(b"", b"x"));
    assert!(constant_time_eq(b"", b""));
}

#[test]
fn secret_string_is_masked_but_exposable() {
    let secret = SecretString::new("super-secret");
    assert_eq!(secret.debug_text(), "SecretString(\"********\")");
    assert_eq!(secret.masked(), "********");
    assert_eq!(secret.expose(), "super-secret");
}

#[test]
fn collapsing_and_normalizing_twice_changes_nothing() {
    for path in ["//api//users", "a//b///", "///", "/x//"] {
        let once = collapse_double_slashes(path).expect("the path holds a double slash");
        assert_eq!(collapse_double_slashes(&once), None);
    }
    for path in ["/users/", "/users///", "//"] {
        let once = normalized_request_path(path).expect("the path ends with a slash");
        assert_eq!(normalized_request_path(&once), None);
    }
}

#[test]
fn read_through_computes_only_on_a_miss() {
    let policy = CachePolicy::new().default_ttl(Duration::from_secs(60));
    let (mut hit, first) = ReadThrough::start(&policy, None);
    assert_eq!(first, ReadThroughAction::Lookup);
    assert_eq!(hit.found(true), ReadThroughAction::ReturnCached);
    assert_eq!(hit.phase(), ReadThroughPhase::Done);

    let (mut miss, _) = ReadThrough::start(&policy, Some(Duration::from_secs(0)));
    assert_eq!(miss.found(false), ReadThroughAction::RunInit);
    assert_eq!(miss.computed(), ReadThroughAction::Write(None));
    assert_eq!(miss.written(), ReadThroughAction::ReturnComputed);

    let (mut defaulted, _) = ReadThrough::start(&policy, None);
    defaulted.found(false);
    assert_eq!(defaulted.computed(), ReadThroughAction::Write(Some(Duration::from_secs(60))));
}
