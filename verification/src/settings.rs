//! Layered configuration support: secrets that stay out of logs, the
//! environment a configuration is loaded for, file paths that name that
//! environment, and the errors a failed load reports.

use vstd::prelude::*;
use crate::error::{Error, ErrorKind};
use crate::multipart::coded;
use crate::text::{lemma_occurs_shift, matches_at, occurs_at, push_char, push_str, to_chars};

verus! {

/// What a secret is rendered as.
pub const REDACTED: &'static str = "********";
/// The environment used when none is set.
pub const DEFAULT_ENVIRONMENT: &'static str = "development";
/// The token in a file path that stands for the environment name.
pub const ENV_PLACEHOLDER: &'static str = "{env}";
/// The separator that marks a nesting level in a variable or secret name.
pub const NESTING_SEPARATOR: &'static str = "__";
pub const CONFIG_LOAD_FAILED: &'static str = "CONFIG_LOAD_FAILED";
pub const CONFIG_VALIDATION_ERROR: &'static str = "CONFIG_VALIDATION_ERROR";

/// A string whose value is kept out of logs and debug output; it is read only
/// through [`SecretString::expose`].
pub struct SecretString(String);

impl SecretString {
    /// The secret value.
    pub closed spec fn spec_value(&self) -> Seq<char> {
        self.0@
    }

    /// Wraps a value as a secret.
    pub fn new(value: &str) -> (s: Self)
        ensures
            s.spec_value() == value@,
    {
        SecretString(value.to_string())
    }

    /// Wraps an owned value as a secret.
    pub fn from_string(value: String) -> (s: Self)
        ensures
            s.spec_value() == value@,
    {
        SecretString(value)
    }

    /// The value; the only way to read a secret.
    pub fn expose(&self) -> (v: &str)
        ensures
            v@ == self.spec_value(),
    {
        self.0.as_str()
    }

    /// The displayed form: the mask, whatever the value.
    pub fn masked(&self) -> (text: &'static str)
        ensures
            text@ == REDACTED@,
    {
        REDACTED
    }

    /// The debug form: the type name around the quoted mask.
    pub fn debug_text(&self) -> (text: String)
        ensures
            text@ == "SecretString(\""@ + REDACTED@ + "\")"@,
    {
        let mut t = "SecretString(\"".to_string();
        push_str(&mut t, REDACTED);
        push_str(&mut t, "\")");
        t
    }
}

/// The variable naming the environment: `PREFIX_ENV`, or `ENV` without a prefix.
pub fn environment_variable(prefix: Option<&str>) -> (name: String)
    ensures
        name@ == match prefix {
            Some(p) => p@ + "_ENV"@,
            None => "ENV"@,
        },
{
    match prefix {
        Some(p) => {
            let mut n = p.to_string();
            push_str(&mut n, "_ENV");
            n
        },
        None => "ENV".to_string(),
    }
}

/// The environment name: the variable's value, or `development` when unset.
pub fn environment_name(value: Option<String>) -> (name: String)
    ensures
        name@ == match value {
            Some(v) => v@,
            None => DEFAULT_ENVIRONMENT@,
        },
{
    match value {
        Some(v) => v,
        None => DEFAULT_ENVIRONMENT.to_string(),
    }
}

/// The prefix environment variables are read under: `PREFIX_`, or none.
pub fn variable_prefix(prefix: Option<&str>) -> (p: Option<String>)
    ensures
        match prefix {
            Some(q) => p matches Some(v) && v@ == q@ + "_"@,
            None => p is None,
        },
{
    match prefix {
        Some(q) => {
            let mut v = q.to_string();
            push_str(&mut v, "_");
            Some(v)
        },
        None => None,
    }
}

/// `s` with every occurrence of the non-empty `pattern` replaced by `with`,
/// scanning left to right (`str::replace`).
pub open spec fn replace_all(s: Seq<char>, pattern: Seq<char>, with: Seq<char>) -> Seq<char>
    decreases s.len(),
{
    if s.len() == 0 || pattern.len() == 0 {
        s
    } else if occurs_at(s, pattern, 0) {
        with + replace_all(s.subrange(pattern.len() as int, s.len() as int), pattern, with)
    } else {
        seq![s[0]] + replace_all(s.subrange(1, s.len() as int), pattern, with)
    }
}

/// Replaces every occurrence of `pattern` (non-empty) in `s` with `with`.
fn replace_all_exec(s: &str, pattern: &str, with: &str) -> (r: String)
    requires
        pattern@.len() > 0,
    ensures
        r@ == replace_all(s@, pattern@, with@),
{
    let chars = to_chars(s);
    let pat = to_chars(pattern);
    let n = chars.len();
    let mut out = String::new();
    let mut i: usize = 0;
    proof {
        assert(s@.subrange(0, n as int) =~= s@);
        assert(out@ + replace_all(s@, pattern@, with@) =~= replace_all(s@, pattern@, with@));
    }
    while i < n
        invariant
            n == chars@.len(),
            chars@ == s@,
            pat@ == pattern@,
            pattern@.len() > 0,
            i <= n,
            out@ + replace_all(s@.subrange(i as int, n as int), pattern@, with@) == replace_all(
                s@,
                pattern@,
                with@,
            ),
        decreases n - i,
    {
        let ghost rest = s@.subrange(i as int, n as int);
        proof {
            lemma_occurs_shift(s@, pattern@, i as int);
        }
        if matches_at(chars.as_slice(), pat.as_slice(), i) {
            let ghost before = out@;
            push_str(&mut out, with);
            proof {
                assert(rest.subrange(pattern@.len() as int, rest.len() as int) =~= s@.subrange(
                    i + pattern@.len(),
                    n as int,
                ));
                assert(out@ + replace_all(s@.subrange(i + pattern@.len(), n as int), pattern@, with@)
                    =~= before + replace_all(rest, pattern@, with@));
            }
            i = i + pat.len();
        } else {
            let ghost before = out@;
            push_char(&mut out, chars[i]);
            proof {
                assert(rest.subrange(1, rest.len() as int) =~= s@.subrange(i + 1, n as int));
                assert(out@ + replace_all(s@.subrange(i + 1, n as int), pattern@, with@) =~= before
                    + replace_all(rest, pattern@, with@));
            }
            i = i + 1;
        }
    }
    proof {
        assert(s@.subrange(n as int, n as int) =~= Seq::<char>::empty());
        assert(out@ + Seq::<char>::empty() =~= out@);
    }
    out
}

/// A configuration file path with `{env}` replaced by the environment name.
pub fn resolve_file_path(path: &str, environment: &str) -> (r: String)
    ensures
        r@ == replace_all(path@, ENV_PLACEHOLDER@, environment@),
{
    proof {
        reveal_strlit("{env}");
    }
    replace_all_exec(path, ENV_PLACEHOLDER, environment)
}

/// The error for configuration sources that failed to load, with the cause.
pub fn load_failed(cause: &str) -> (e: Error)
    ensures
        coded(e, ErrorKind::Internal, "failed to load configuration: "@ + cause@, CONFIG_LOAD_FAILED@),
{
    let mut msg = "failed to load configuration: ".to_string();
    push_str(&mut msg, cause);
    Error::internal(msg.as_str()).with_code(CONFIG_LOAD_FAILED)
}

/// The error for a loaded configuration that failed validation, with the
/// validation issues as (field path, message) pairs.
pub fn validation_failed(issues: &Vec<(String, String)>) -> (e: Error)
    ensures
        e.wf(),
        e.spec_kind() == ErrorKind::Unprocessable,
        e.spec_message() == crate::error::VALIDATION_ERROR_MESSAGE@,
        e.spec_status_override() is None,
        e.spec_code_override() == Some(CONFIG_VALIDATION_ERROR@),
        e.spec_details().len() == issues@.len(),
        forall|i: int| 0 <= i < issues@.len() ==> #[trigger] e.spec_details()[i] == (
            issues@[i].0@,
            crate::error::spec_classify_issue(issues@[i].1@),
            issues@[i].1@,
        ),
{
    Error::from_validation_issues(issues).with_code(CONFIG_VALIDATION_ERROR)
}

} // verus!
