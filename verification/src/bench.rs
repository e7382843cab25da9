//! The HTTP parity benchmark: which backend serves which scenario, what a
//! correct answer looks like, how worker tallies combine, and how the load
//! driver's command-line flags are read.

use vstd::prelude::*;
use crate::decimal::{parse_u64, spec_parse_u64};
use crate::duration::Duration;
use crate::error::{VALIDATION_ERROR_CODE, VALIDATION_ERROR_MESSAGE};
use crate::extract::{entries_view, lookup, PathParams};
use crate::text::{push_str, str_eq, text_of, to_chars};

verus! {

/// The request id the middleware scenario stamps on requests and responses.
pub const BENCH_REQUEST_ID: &'static str = "bench-request";
/// The value of the header the middleware scenario adds.
pub const BENCH_STACK_VALUE: &'static str = "enabled";

/// A server implementation under test.
#[derive(Clone, Copy, Debug, PartialEq, Eq, Structural)]
pub enum Backend {
    Tork,
    Axum,
}

/// A benchmark scenario: one endpoint and its expected answer.
#[derive(Clone, Copy, Debug, PartialEq, Eq, Structural)]
pub enum Scenario {
    JsonOk,
    PathParam,
    JsonValidate,
    MiddlewareStack,
    TypedError,
}

/// The name of a backend.
pub open spec fn backend_name(b: Backend) -> Seq<char> {
    match b {
        Backend::Tork => "tork"@,
        Backend::Axum => "axum"@,
    }
}

/// The name of a scenario.
pub open spec fn scenario_name(s: Scenario) -> Seq<char> {
    match s {
        Scenario::JsonOk => "json_ok"@,
        Scenario::PathParam => "path_param"@,
        Scenario::JsonValidate => "json_validate"@,
        Scenario::MiddlewareStack => "middleware_stack"@,
        Scenario::TypedError => "typed_error"@,
    }
}

/// `prefix`, then `name`, then a closing backquote.
pub open spec fn unknown_message(prefix: Seq<char>, name: Seq<char>) -> Seq<char> {
    prefix + name + "`"@
}

impl Backend {
    /// The backend's name.
    pub fn as_str(self) -> (name: &'static str)
        ensures
            name@ == backend_name(self),
    {
        match self {
            Backend::Tork => "tork",
            Backend::Axum => "axum",
        }
    }

    /// The backend a name denotes, or the message for an unknown name.
    pub fn parse(value: &str) -> (r: Result<Backend, String>)
        ensures
            match r {
                Ok(b) => backend_name(b) == value@,
                Err(msg) => value@ != "tork"@ && value@ != "axum"@ && msg@ == unknown_message(
                    "unknown backend `"@,
                    value@,
                ),
            },
    {
        if str_eq(value, "tork") {
            Ok(Backend::Tork)
        } else if str_eq(value, "axum") {
            Ok(Backend::Axum)
        } else {
            let mut msg = "unknown backend `".to_string();
            push_str(&mut msg, value);
            push_str(&mut msg, "`");
            Err(msg)
        }
    }
}

impl Scenario {
    /// The scenario's name.
    pub fn as_str(self) -> (name: &'static str)
        ensures
            name@ == scenario_name(self),
    {
        match self {
            Scenario::JsonOk => "json_ok",
            Scenario::PathParam => "path_param",
            Scenario::JsonValidate => "json_validate",
            Scenario::MiddlewareStack => "middleware_stack",
            Scenario::TypedError => "typed_error",
        }
    }

    /// The HTTP method of the scenario's request.
    pub fn method(self) -> (m: &'static str)
        ensures
            m@ == match self {
                Scenario::JsonValidate => "POST"@,
                _ => "GET"@,
            },
    {
        match self {
            Scenario::JsonValidate => "POST",
            _ => "GET",
        }
    }

    /// The path of the scenario's request.
    pub fn path(self) -> (p: &'static str)
        ensures
            p@ == match self {
                Scenario::JsonOk => "/json"@,
                Scenario::PathParam => "/users/42"@,
                Scenario::JsonValidate => "/items"@,
                Scenario::MiddlewareStack => "/middleware"@,
                Scenario::TypedError => "/db"@,
            },
    {
        match self {
            Scenario::JsonOk => "/json",
            Scenario::PathParam => "/users/42",
            Scenario::JsonValidate => "/items",
            Scenario::MiddlewareStack => "/middleware",
            Scenario::TypedError => "/db",
        }
    }

    /// The status a correct answer carries.
    pub open spec fn expected_status_spec(self) -> u16 {
        match self {
            Scenario::JsonValidate => 201u16,
            Scenario::TypedError => 503u16,
            _ => 200u16,
        }
    }

    /// The headers a correct answer must carry.
    pub open spec fn expected_headers_spec(self) -> Seq<(&'static str, &'static str)> {
        match self {
            Scenario::MiddlewareStack => seq![
                ("x-request-id", BENCH_REQUEST_ID),
                ("x-bench-stack", BENCH_STACK_VALUE),
            ],
            _ => Seq::empty(),
        }
    }

    /// The status a correct answer carries.
    pub fn expected_status(self) -> (status: u16)
        ensures
            status == self.expected_status_spec(),
    {
        match self {
            Scenario::JsonValidate => 201,
            Scenario::TypedError => 503,
            _ => 200,
        }
    }

    /// The headers (name, value) a correct answer must carry.
    pub fn expected_headers(self) -> (headers: Vec<(&'static str, &'static str)>)
        ensures
            headers@ == self.expected_headers_spec(),
    {
        let mut headers: Vec<(&'static str, &'static str)> = Vec::new();
        match self {
            Scenario::MiddlewareStack => {
                headers.push(("x-request-id", BENCH_REQUEST_ID));
                headers.push(("x-bench-stack", BENCH_STACK_VALUE));
                assert(headers@ =~= seq![
                    ("x-request-id", BENCH_REQUEST_ID),
                    ("x-bench-stack", BENCH_STACK_VALUE),
                ]);
            },
            _ => {
                assert(headers@ =~= Seq::<(&'static str, &'static str)>::empty());
            },
        }
        headers
    }

    /// The JSON text of the body a correct answer carries.
    pub open spec fn expected_body_spec(self) -> Seq<char> {
        match self {
            Scenario::JsonOk => "{\"message\":\"ok\"}"@,
            Scenario::PathParam => "{\"id\":42,\"message\":\"user\"}"@,
            Scenario::JsonValidate => "{\"name\":\"widget\",\"count\":3}"@,
            Scenario::MiddlewareStack => "{\"message\":\"middleware_ok\"}"@,
            Scenario::TypedError => "{\"code\":\"DB_TIMEOUT\",\"message\":\"database timed out\"}"@,
        }
    }

    /// The JSON body a correct answer carries.
    pub fn expected_body(self) -> (body: &'static str)
        ensures
            body@ == self.expected_body_spec(),
    {
        match self {
            Scenario::JsonOk => "{\"message\":\"ok\"}",
            Scenario::PathParam => "{\"id\":42,\"message\":\"user\"}",
            Scenario::JsonValidate => "{\"name\":\"widget\",\"count\":3}",
            Scenario::MiddlewareStack => "{\"message\":\"middleware_ok\"}",
            Scenario::TypedError => "{\"code\":\"DB_TIMEOUT\",\"message\":\"database timed out\"}",
        }
    }

    /// The scenario a name denotes, or the message for an unknown name.
    pub fn parse(value: &str) -> (r: Result<Scenario, String>)
        ensures
            match r {
                Ok(s) => scenario_name(s) == value@,
                Err(msg) => value@ != "json_ok"@ && value@ != "path_param"@ && value@
                    != "json_validate"@ && value@ != "middleware_stack"@ && value@ != "typed_error"@
                    && msg@ == unknown_message("unknown scenario `"@, value@),
            },
    {
        if str_eq(value, "json_ok") {
            Ok(Scenario::JsonOk)
        } else if str_eq(value, "path_param") {
            Ok(Scenario::PathParam)
        } else if str_eq(value, "json_validate") {
            Ok(Scenario::JsonValidate)
        } else if str_eq(value, "middleware_stack") {
            Ok(Scenario::MiddlewareStack)
        } else if str_eq(value, "typed_error") {
            Ok(Scenario::TypedError)
        } else {
            let mut msg = "unknown scenario `".to_string();
            push_str(&mut msg, value);
            push_str(&mut msg, "`");
            Err(msg)
        }
    }
}

impl std::str::FromStr for Backend {
    type Err = String;

    fn from_str(value: &str) -> Result<Backend, String> {
        Backend::parse(value)
    }
}

impl std::str::FromStr for Scenario {
    type Err = String;

    fn from_str(value: &str) -> Result<Scenario, String> {
        Scenario::parse(value)
    }
}

/// Whether a buffered answer is the expected one for its scenario: the
/// expected status, each expected header's first value (read as text) equal
/// to the expected one, and a body equal, as JSON, to the expected one (the
/// comparison is the caller's: `body_matches`).
pub open spec fn spec_response_ok(
    scenario: Scenario,
    status: u16,
    headers: Seq<(Seq<char>, Seq<char>)>,
    expected: Seq<(&'static str, &'static str)>,
    expected_status: u16,
    body_matches: bool,
) -> bool {
    &&& status == expected_status
    &&& body_matches
    &&& forall|i: int|
        0 <= i < expected.len() ==> lookup(headers, (#[trigger] expected[i]).0@, 0) == Some(
            expected[i].1@,
        )
}

/// Checks a buffered answer against its scenario; `headers` are the answer's
/// headers as (lower-case name, text value) pairs, in order.
pub fn check_response(scenario: Scenario, status: u16, headers: &Vec<(String, String)>, body_matches: bool) -> (ok: bool)
    ensures
        ok == spec_response_ok(
            scenario,
            status,
            entries_view(headers@),
            scenario.expected_headers_spec(),
            scenario.expected_status_spec(),
            body_matches,
        ),
{
    let expected = scenario.expected_headers();
    if status != scenario.expected_status() || !body_matches {
        return false;
    }
    let params = PathParams::from_entries(clone_pairs(headers));
    let mut i: usize = 0;
    while i < expected.len()
        invariant
            i <= expected@.len(),
            expected@ == scenario.expected_headers_spec(),
            params@ == entries_view(headers@),
            forall|j: int|
                0 <= j < i ==> lookup(params@, (#[trigger] expected@[j]).0@, 0) == Some(expected@[j].1@),
        decreases expected.len() - i,
    {
        let (name, value) = expected[i];
        match params.get(name) {
            Some(v) => if !str_eq(v, value) {
                return false;
            },
            None => return false,
        }
        i = i + 1;
    }
    true
}

/// A buffered answer: status, headers as (lower-case name, text) pairs, body.
pub struct BufferedResponse {
    pub status: u16,
    pub headers: Vec<(String, String)>,
    pub body: Vec<u8>,
}

/// Whether a JSON text and a body hold equal JSON values (`serde_json`'s
/// `Value` equality); `None` when either fails to parse.
pub uninterp spec fn json_equal(expected: Seq<char>, actual: Seq<u8>) -> Option<bool>;

/// Compares a JSON text with a body as JSON values (`serde_json::from_str`
/// and `from_slice` into `Value`, then `==`).
///
/// Trusted: the result is the one named by `json_equal`.
#[verifier::external_body]
fn json_values_equal(expected: &str, actual: &[u8]) -> (eq: Option<bool>)
    ensures
        eq == json_equal(expected@, actual@),
{
    match (serde_json::from_str::<serde_json::Value>(expected), serde_json::from_slice::<serde_json::Value>(actual)) {
        (Ok(e), Ok(a)) => Some(e == a),
        _ => None,
    }
}

/// The message of a failed response check.
pub open spec fn unexpected_message(scenario: Scenario) -> Seq<char> {
    "unexpected response for `"@ + scenario_name(scenario) + "`"@
}

/// Checks a buffered answer against its scenario: the expected status, the
/// expected headers, and a body equal, as JSON, to the expected one.
pub fn assert_expected_response(scenario: Scenario, response: &BufferedResponse) -> (r: Result<(), String>)
    ensures
        r is Ok <==> spec_response_ok(
            scenario,
            response.status,
            entries_view(response.headers@),
            scenario.expected_headers_spec(),
            scenario.expected_status_spec(),
            json_equal(scenario.expected_body_spec(), response.body@) == Some(true),
        ),
        r matches Err(msg) ==> msg@ == unexpected_message(scenario),
{
    let same = json_values_equal(scenario.expected_body(), response.body.as_slice());
    let body_matches = match same {
        Some(b) => b,
        None => false,
    };
    if check_response(scenario, response.status, &response.headers, body_matches) {
        Ok(())
    } else {
        let mut msg = "unexpected response for `".to_string();
        push_str(&mut msg, scenario.as_str());
        push_str(&mut msg, "`");
        Err(msg)
    }
}

/// What an error body reads as (`serde_json`'s `Value` indexing): its
/// `status` as an integer, its `code` and `message` as text, and the `field`
/// text of each entry of its `details` array; `None` when it is not JSON.
pub uninterp spec fn error_body_fields(actual: Seq<u8>) -> Option<
    (Option<int>, Option<Seq<char>>, Option<Seq<char>>, Option<Seq<Option<Seq<char>>>>),
>;

/// The texts of a list of optional strings.
pub open spec fn fields_view(v: Option<Vec<Option<String>>>) -> Option<Seq<Option<Seq<char>>>> {
    match v {
        Some(items) => Some(items@.map_values(|f: Option<String>| text_of(f))),
        None => None,
    }
}

/// Reads an error body (`serde_json::from_slice` into `Value`, then
/// `as_i64` / `as_str` / `as_array` on its fields).
///
/// Trusted: the result is the one named by `error_body_fields`.
#[verifier::external_body]
fn read_error_body(actual: &[u8]) -> (fields: Option<(Option<i64>, Option<String>, Option<String>, Option<Vec<Option<String>>>)>)
    ensures
        match fields {
            Some((status, code, message, details)) => error_body_fields(actual@) == Some(
                (
                    match status {
                        Some(n) => Some(n as int),
                        None => None,
                    },
                    text_of(code),
                    text_of(message),
                    fields_view(details),
                ),
            ),
            None => error_body_fields(actual@) is None,
        },
{
    match serde_json::from_slice::<serde_json::Value>(actual) {
        Ok(v) => Some((
            v["status"].as_i64(),
            v["code"].as_str().map(str::to_owned),
            v["message"].as_str().map(str::to_owned),
            v["details"].as_array().map(|ds| ds.iter().map(|d| d["field"].as_str().map(str::to_owned)).collect()),
        )),
        Err(_) => None,
    }
}

/// Whether an answer is the validation failure for an invalid create-item
/// request: status 422, and a JSON body with status 422, the validation code
/// and message, and a detail for the field `name`.
pub open spec fn spec_validation_failure_ok(status: u16, body: Seq<u8>) -> bool {
    &&& status == 422
    &&& error_body_fields(body) matches Some((Some(s), Some(code), Some(message), Some(details)))
    &&& s == 422
    &&& code == VALIDATION_ERROR_CODE@
    &&& message == VALIDATION_ERROR_MESSAGE@
    &&& details.contains(Some("name"@))
}

/// The message of a failed validation-failure check.
pub const UNEXPECTED_VALIDATION_MESSAGE: &'static str = "unexpected validation failure answer";

/// Checks the answer to an invalid create-item request.
pub fn assert_invalid_validation_response(response: &BufferedResponse) -> (r: Result<(), String>)
    ensures
        r is Ok <==> spec_validation_failure_ok(response.status, response.body@),
        r matches Err(msg) ==> msg@ == UNEXPECTED_VALIDATION_MESSAGE@,
{
    let ok = match read_error_body(response.body.as_slice()) {
        Some((Some(s), Some(code), Some(message), Some(details))) => {
            let mut named = false;
            let mut i: usize = 0;
            let ghost dv = details@.map_values(|f: Option<String>| text_of(f));
            proof {
                reveal_strlit("name");
            }
            while i < details.len()
                invariant
                    i <= details@.len(),
                    dv == details@.map_values(|f: Option<String>| text_of(f)),
                    named == exists|j: int| 0 <= j < i && #[trigger] dv[j] == Some("name"@),
                decreases details.len() - i,
            {
                let hit = match &details[i] {
                    Some(f) => str_eq(f.as_str(), "name"),
                    None => false,
                };
                assert(hit == (dv[i as int] == Some("name"@)));
                named = named || hit;
                i = i + 1;
            }
            proof {
                if named {
                    let j = choose|j: int| 0 <= j < details@.len() && #[trigger] dv[j] == Some("name"@);
                    assert(dv.contains(Some("name"@)));
                }
                if dv.contains(Some("name"@)) {
                    let j = choose|j: int| 0 <= j < dv.len() && dv[j] == Some("name"@);
                    assert(dv[j] == Some("name"@));
                }
            }
            response.status == 422 && s == 422 && str_eq(code.as_str(), VALIDATION_ERROR_CODE) && str_eq(
                message.as_str(),
                VALIDATION_ERROR_MESSAGE,
            ) && named
        },
        _ => false,
    };
    if ok {
        Ok(())
    } else {
        Err(UNEXPECTED_VALIDATION_MESSAGE.to_string())
    }
}

/// A copy of a list of string pairs.
fn clone_pairs(v: &Vec<(String, String)>) -> (c: Vec<(String, String)>)
    ensures
        entries_view(c@) == entries_view(v@),
{
    let mut c: Vec<(String, String)> = Vec::new();
    let mut i: usize = 0;
    while i < v.len()
        invariant
            i <= v@.len(),
            entries_view(c@) == entries_view(v@.subrange(0, i as int)),
        decreases v.len() - i,
    {
        let ghost before = c@;
        let a = v[i].0.clone();
        let b = v[i].1.clone();
        assert(a@ == v@[i as int].0@ && b@ == v@[i as int].1@);
        c.push((a, b));
        proof {
            assert(v@.subrange(0, i + 1) =~= v@.subrange(0, i as int).push(v@[i as int]));
            assert(entries_view(c@) =~= entries_view(before).push((a@, b@)));
            assert(entries_view(v@.subrange(0, i + 1)) =~= entries_view(v@.subrange(0, i as int)).push(
                (v@[i as int].0@, v@[i as int].1@),
            ));
        }
        i = i + 1;
    }
    assert(v@.subrange(0, v@.len() as int) =~= v@);
    c
}

/// How long and how hard to drive load.
pub struct LoadConfig {
    pub warmup: Duration,
    pub measure: Duration,
    pub concurrency: usize,
}

impl LoadConfig {
    /// Five seconds of warm-up, twenty measured, sixteen workers.
    pub fn new() -> (c: Self)
        ensures
            c.warmup.wf() && c.warmup.spec_secs() == 5 && c.warmup.spec_subsec_nanos() == 0,
            c.measure.wf() && c.measure.spec_secs() == 20 && c.measure.spec_subsec_nanos() == 0,
            c.concurrency == 16,
    {
        LoadConfig { warmup: Duration::from_secs(5), measure: Duration::from_secs(20), concurrency: 16 }
    }
}

/// What the workers of one load phase counted together.
pub struct LoadTally {
    pub success_count: u64,
    pub error_count: u64,
    pub latencies_us: Vec<u64>,
}

impl LoadTally {
    /// Nothing counted yet.
    pub fn new() -> (t: Self)
        ensures
            t.success_count == 0,
            t.error_count == 0,
            t.latencies_us@.len() == 0,
    {
        LoadTally { success_count: 0, error_count: 0, latencies_us: Vec::new() }
    }

    /// Counts one request: a correct answer adds a success (and its latency,
    /// when latencies are recorded), anything else an error.
    pub fn record(&mut self, correct: bool, latency_us: Option<u64>)
        requires
            old(self).success_count < u64::MAX,
            old(self).error_count < u64::MAX,
        ensures
            correct ==> final(self).success_count == old(self).success_count + 1
                && final(self).error_count == old(self).error_count && final(self).latencies_us@ == match latency_us {
                Some(l) => old(self).latencies_us@.push(l),
                None => old(self).latencies_us@,
            },
            !correct ==> final(self).success_count == old(self).success_count && final(self).error_count
                == old(self).error_count + 1 && final(self).latencies_us@ == old(self).latencies_us@,
    {
        if correct {
            self.success_count = self.success_count + 1;
            if let Some(l) = latency_us {
                self.latencies_us.push(l);
            }
        } else {
            self.error_count = self.error_count + 1;
        }
    }

    /// Adds one worker's counts; its latencies follow those already collected.
    pub fn absorb(&mut self, success: u64, errors: u64, latencies: Vec<u64>)
        requires
            old(self).success_count + success <= u64::MAX,
            old(self).error_count + errors <= u64::MAX,
        ensures
            final(self).success_count == old(self).success_count + success,
            final(self).error_count == old(self).error_count + errors,
            final(self).latencies_us@ == old(self).latencies_us@ + latencies@,
    {
        self.success_count = self.success_count + success;
        self.error_count = self.error_count + errors;
        let mut l = latencies;
        self.latencies_us.append(&mut l);
    }
}

/// The value of the flag `name` in `args` (the argument after it), parsed as an
/// unsigned integer; `default` when the flag is absent.
pub open spec fn spec_flag(args: Seq<Seq<char>>, name: Seq<char>, default: u64) -> Result<u64, Seq<char>> {
    if !args.contains(name) {
        Ok(default)
    } else {
        let i = crate::multipart::first_named(args, name, 0);
        if i + 1 >= args.len() {
            Err("missing value for `"@ + name + "`"@)
        } else {
            match spec_parse_u64(args[i + 1]) {
                Ok(v) => Ok(v),
                Err(cause) => Err("invalid value for `"@ + name + "`: "@ + cause),
            }
        }
    }
}

/// A flag's value from what parsing its text gave: the number, or the
/// message naming the flag and the parser's complaint.
pub fn flag_from(name: &str, parsed: Result<u64, String>) -> (r: Result<u64, String>)
    ensures
        match parsed {
            Ok(v) => r == Ok::<u64, String>(v),
            Err(cause) => r matches Err(msg) && msg@ == "invalid value for `"@ + name@ + "`: "@ + cause@,
        },
{
    match parsed {
        Ok(v) => Ok(v),
        Err(cause) => {
            let mut msg = "invalid value for `".to_string();
            push_str(&mut msg, name);
            push_str(&mut msg, "`: ");
            push_str(&mut msg, cause.as_str());
            Err(msg)
        },
    }
}

/// Reads a numeric command-line flag.
pub fn parse_flag(args: &[String], name: &str, default: u64) -> (r: Result<u64, String>)
    ensures
        match r {
            Ok(v) => spec_flag(args@.map_values(|a: String| a@), name@, default) == Ok::<u64, Seq<char>>(v),
            Err(msg) => spec_flag(args@.map_values(|a: String| a@), name@, default) == Err::<u64, Seq<char>>(msg@),
        },
{
    let ghost views = args@.map_values(|a: String| a@);
    let mut i: usize = 0;
    while i < args.len()
        invariant
            i <= args@.len(),
            views == args@.map_values(|a: String| a@),
            crate::multipart::first_named(views, name@, 0) == crate::multipart::first_named(views, name@, i as int),
            forall|j: int| 0 <= j < i ==> views[j] != name@,
        decreases args.len() - i,
    {
        if str_eq(args[i].as_str(), name) {
            assert(views.contains(name@)) by {
                assert(views[i as int] == name@);
            }
            if i + 1 >= args.len() {
                let mut msg = "missing value for `".to_string();
                push_str(&mut msg, name);
                push_str(&mut msg, "`");
                return Err(msg);
            }
            return flag_from(name, parse_u64(args[i + 1].as_str()));
        }
        i = i + 1;
    }
    assert(!views.contains(name@)) by {
        if views.contains(name@) {
            let j = choose|j: int| 0 <= j < views.len() && views[j] == name@;
            assert(views[j] != name@);
        }
    }
    Ok(default)
}

/// The body of the plain JSON scenarios.
pub struct MessageBody {
    pub message: String,
}

/// The body of the path-parameter scenario.
pub struct UserBody {
    pub id: i64,
    pub message: String,
}

/// The body of the validation scenario; `name` must not be empty.
pub struct CreateItem {
    pub name: String,
    pub count: i64,
}

/// The body of the typed-error scenario.
pub struct ErrorBody {
    pub code: String,
    pub message: String,
}

/// What one load run measured.
pub struct LoadReport {
    pub backend: Backend,
    pub scenario: Scenario,
    pub concurrency: usize,
    pub elapsed: Duration,
    pub success_count: u64,
    pub error_count: u64,
    pub latencies_us: Vec<u64>,
}

impl LoadReport {
    /// The report of a run: its configuration, how long the measured phase
    /// took, and what its workers counted.
    pub fn new(backend: Backend, scenario: Scenario, concurrency: usize, elapsed: Duration, tally: LoadTally) -> (r: Self)
        ensures
            r.backend == backend,
            r.scenario == scenario,
            r.concurrency == concurrency,
            r.elapsed == elapsed,
            r.success_count == tally.success_count,
            r.error_count == tally.error_count,
            r.latencies_us@ == tally.latencies_us@,
    {
        LoadReport {
            backend,
            scenario,
            concurrency,
            elapsed,
            success_count: tally.success_count,
            error_count: tally.error_count,
            latencies_us: tally.latencies_us,
        }
    }
}

} // verus!
