//! Multipart and form uploads: the limits an upload is held to, the budget a
//! multipart body is parsed under, file validation rules, and the parsed form
//! that typed fields are taken out of.
//!
//! Reading the body, spooling files and parsing field values into user types
//! happen in the caller; every limit and every rule is decided here.

use vstd::prelude::*;
use crate::error::{Error, ErrorKind};
use crate::header::{header_text, spec_header_text};
use crate::sse::{utf8_len, utf8_len_within};
use crate::text::{lower_seq, opt_str, str_eq, eq_ignore_ascii_case, push_str, text_of};

verus! {

/// Default cap on the total decoded size of a multipart body (16 MiB).
pub const DEFAULT_MAX_BODY_SIZE: usize = 16777216;
/// Default cap on a single uploaded file (8 MiB).
pub const DEFAULT_MAX_FILE_SIZE: usize = 8388608;
/// Default size a file may reach in memory before spilling to disk (1 MiB).
pub const DEFAULT_MEMORY_THRESHOLD: usize = 1048576;
/// Default cap on the number of file parts in one request.
pub const DEFAULT_MAX_FILES: usize = 32;
/// Bytes in a mebibyte.
pub const MIB: usize = 1048576;

pub const FILE_TOO_LARGE: &'static str = "FILE_TOO_LARGE";
pub const TOO_MANY_FILES: &'static str = "TOO_MANY_FILES";
pub const UNSUPPORTED_MEDIA_TYPE: &'static str = "UNSUPPORTED_MEDIA_TYPE";
pub const FILE_TOO_LARGE_MESSAGE: &'static str = "uploaded file is too large";
pub const BODY_TOO_LARGE_MESSAGE: &'static str = "request body is too large";
pub const TOO_MANY_FILES_MESSAGE: &'static str = "too many file fields";
pub const DECLARED_TYPE_MESSAGE: &'static str = "unsupported file content type";
pub const SNIFFED_TYPE_MESSAGE: &'static str = "file content does not match the declared type";

/// Limits and temp-file behavior for multipart uploads. Unset fields fall back
/// to the defaults; a route's configuration overrides the application's.
pub struct UploadConfig {
    pub max_body_size: Option<usize>,
    pub max_file_size: Option<usize>,
    pub memory_threshold: Option<usize>,
    pub max_files: Option<usize>,
    pub temp_dir: Option<String>,
}

/// Every limit of an upload configuration, defaults applied.
#[derive(Clone, Copy, Debug, PartialEq, Eq, Structural)]
pub struct ResolvedConfig {
    pub max_body_size: usize,
    pub max_file_size: usize,
    pub memory_threshold: usize,
    pub max_files: usize,
}

/// The value, or `default` when unset.
pub open spec fn or_default(v: Option<usize>, default: usize) -> usize {
    match v {
        Some(x) => x,
        None => default,
    }
}

/// The first value that is set.
pub open spec fn first_set<T>(a: Option<T>, b: Option<T>) -> Option<T> {
    match a {
        Some(x) => Some(x),
        None => b,
    }
}

impl UploadConfig {
    /// A configuration with every field unset.
    pub fn new() -> (c: Self)
        ensures
            c.max_body_size is None,
            c.max_file_size is None,
            c.memory_threshold is None,
            c.max_files is None,
            c.temp_dir is None,
    {
        UploadConfig { max_body_size: None, max_file_size: None, memory_threshold: None, max_files: None, temp_dir: None }
    }

    /// Sets the maximum total body size, in bytes.
    pub fn max_body_size(self, bytes: usize) -> (c: Self)
        ensures
            c.max_body_size == Some(bytes),
            c.max_file_size == self.max_file_size,
            c.memory_threshold == self.memory_threshold,
            c.max_files == self.max_files,
            c.temp_dir == self.temp_dir,
    {
        UploadConfig { max_body_size: Some(bytes), ..self }
    }

    /// Sets the maximum total body size, in mebibytes.
    pub fn max_body_size_mb(self, mb: usize) -> (c: Self)
        requires
            mb * MIB <= usize::MAX,
        ensures
            c.max_body_size == Some((mb * MIB) as usize),
            c.max_file_size == self.max_file_size,
            c.memory_threshold == self.memory_threshold,
            c.max_files == self.max_files,
            c.temp_dir == self.temp_dir,
    {
        self.max_body_size(mb * MIB)
    }

    /// Sets the maximum size of one file, in bytes.
    pub fn max_file_size(self, bytes: usize) -> (c: Self)
        ensures
            c.max_body_size == self.max_body_size,
            c.max_file_size == Some(bytes),
            c.memory_threshold == self.memory_threshold,
            c.max_files == self.max_files,
            c.temp_dir == self.temp_dir,
    {
        UploadConfig { max_file_size: Some(bytes), ..self }
    }

    /// Sets the maximum size of one file, in mebibytes.
    pub fn max_file_size_mb(self, mb: usize) -> (c: Self)
        requires
            mb * MIB <= usize::MAX,
        ensures
            c.max_body_size == self.max_body_size,
            c.max_file_size == Some((mb * MIB) as usize),
            c.memory_threshold == self.memory_threshold,
            c.max_files == self.max_files,
            c.temp_dir == self.temp_dir,
    {
        self.max_file_size(mb * MIB)
    }

    /// Sets the size a file may reach in memory before spilling to disk.
    pub fn memory_threshold(self, bytes: usize) -> (c: Self)
        ensures
            c.max_body_size == self.max_body_size,
            c.max_file_size == self.max_file_size,
            c.memory_threshold == Some(bytes),
            c.max_files == self.max_files,
            c.temp_dir == self.temp_dir,
    {
        UploadConfig { memory_threshold: Some(bytes), ..self }
    }

    /// Sets the maximum number of file parts per request.
    pub fn max_files(self, count: usize) -> (c: Self)
        ensures
            c.max_body_size == self.max_body_size,
            c.max_file_size == self.max_file_size,
            c.memory_threshold == self.memory_threshold,
            c.max_files == Some(count),
            c.temp_dir == self.temp_dir,
    {
        UploadConfig { max_files: Some(count), ..self }
    }

    /// Sets the directory for spilled temporary files.
    pub fn temp_dir(self, dir: &str) -> (c: Self)
        ensures
            c.max_body_size == self.max_body_size,
            c.max_file_size == self.max_file_size,
            c.memory_threshold == self.memory_threshold,
            c.max_files == self.max_files,
            text_of(c.temp_dir) == Some(dir@),
    {
        UploadConfig { temp_dir: Some(dir.to_string()), ..self }
    }

    /// This configuration with each unset field taken from `base` (a route's
    /// configuration over the application's).
    pub fn merge(self, base: &UploadConfig) -> (c: Self)
        ensures
            c.max_body_size == first_set(self.max_body_size, base.max_body_size),
            c.max_file_size == first_set(self.max_file_size, base.max_file_size),
            c.memory_threshold == first_set(self.memory_threshold, base.memory_threshold),
            c.max_files == first_set(self.max_files, base.max_files),
            text_of(c.temp_dir) == first_set(text_of(self.temp_dir), text_of(base.temp_dir)),
    {
        let temp_dir = match self.temp_dir {
            Some(d) => Some(d),
            None => match &base.temp_dir {
                Some(d) => Some(d.clone()),
                None => None,
            },
        };
        UploadConfig {
            max_body_size: match self.max_body_size {
                Some(x) => Some(x),
                None => base.max_body_size,
            },
            max_file_size: match self.max_file_size {
                Some(x) => Some(x),
                None => base.max_file_size,
            },
            memory_threshold: match self.memory_threshold {
                Some(x) => Some(x),
                None => base.memory_threshold,
            },
            max_files: match self.max_files {
                Some(x) => Some(x),
                None => base.max_files,
            },
            temp_dir,
        }
    }

    /// Every limit, defaults applied.
    pub fn resolve(&self) -> (r: ResolvedConfig)
        ensures
            r.max_body_size == or_default(self.max_body_size, DEFAULT_MAX_BODY_SIZE),
            r.max_file_size == or_default(self.max_file_size, DEFAULT_MAX_FILE_SIZE),
            r.memory_threshold == or_default(self.memory_threshold, DEFAULT_MEMORY_THRESHOLD),
            r.max_files == or_default(self.max_files, DEFAULT_MAX_FILES),
    {
        ResolvedConfig {
            max_body_size: match self.max_body_size {
                Some(x) => x,
                None => DEFAULT_MAX_BODY_SIZE,
            },
            max_file_size: match self.max_file_size {
                Some(x) => x,
                None => DEFAULT_MAX_FILE_SIZE,
            },
            memory_threshold: match self.memory_threshold {
                Some(x) => x,
                None => DEFAULT_MEMORY_THRESHOLD,
            },
            max_files: match self.max_files {
                Some(x) => x,
                None => DEFAULT_MAX_FILES,
            },
        }
    }
}

/// An error of the given kind and message carrying a machine-readable code.
pub open spec fn coded(e: Error, kind: ErrorKind, message: Seq<char>, code: Seq<char>) -> bool {
    &&& e.wf()
    &&& e.spec_kind() == kind
    &&& e.spec_message() == message
    &&& e.spec_status_override() is None
    &&& e.spec_code_override() == Some(code)
    &&& e.spec_details().len() == 0
}

/// The error for a file over its size limit.
fn file_too_large() -> (e: Error)
    ensures
        coded(e, ErrorKind::PayloadTooLarge, FILE_TOO_LARGE_MESSAGE@, FILE_TOO_LARGE@),
{
    Error::payload_too_large(FILE_TOO_LARGE_MESSAGE).with_code(FILE_TOO_LARGE)
}

/// The running totals a multipart body is parsed under: bytes decoded so far
/// and file parts accepted, against the resolved limits.
pub struct UploadBudget {
    config: ResolvedConfig,
    total: usize,
    files: usize,
}

/// The size of the file part being read.
pub struct FileProgress {
    size: u64,
}

impl FileProgress {
    /// Bytes read of this file so far.
    pub closed spec fn spec_size(&self) -> nat {
        self.size as nat
    }

    /// Bytes read of this file so far.
    pub fn size(&self) -> (size: u64)
        ensures
            size == self.spec_size(),
    {
        self.size
    }
}

impl UploadBudget {
    /// The limits.
    pub closed spec fn spec_config(&self) -> ResolvedConfig {
        self.config
    }

    /// Bytes decoded so far (text fields and file chunks).
    pub closed spec fn spec_total(&self) -> nat {
        self.total as nat
    }

    /// File parts accepted so far.
    pub closed spec fn spec_files(&self) -> nat {
        self.files as nat
    }

    /// The totals stay within the limits.
    pub closed spec fn wf(&self) -> bool {
        self.total <= self.config.max_body_size
    }

    /// A fresh budget under `config`.
    pub fn new(config: ResolvedConfig) -> (b: Self)
        ensures
            b.wf(),
            b.spec_config() == config,
            b.spec_total() == 0,
            b.spec_files() == 0,
    {
        UploadBudget { config, total: 0, files: 0 }
    }

    /// Starts a file part: rejected once the file count has reached its cap.
    pub fn begin_file(&mut self) -> (r: Result<FileProgress, Error>)
        requires
            old(self).wf(),
        ensures
            final(self).wf(),
            final(self).spec_config() == old(self).spec_config(),
            final(self).spec_total() == old(self).spec_total(),
            match r {
                Ok(p) => old(self).spec_files() < old(self).spec_config().max_files && p.spec_size() == 0
                    && final(self).spec_files() == old(self).spec_files() + 1,
                Err(e) => old(self).spec_files() >= old(self).spec_config().max_files && coded(
                    e,
                    ErrorKind::BadRequest,
                    TOO_MANY_FILES_MESSAGE@,
                    TOO_MANY_FILES@,
                ),
            },
    {
        if self.files >= self.config.max_files {
            return Err(Error::bad_request(TOO_MANY_FILES_MESSAGE).with_code(TOO_MANY_FILES));
        }
        self.files = self.files + 1;
        Ok(FileProgress { size: 0 })
    }

    /// Counts a chunk of `len` bytes of the current file: rejected when the file
    /// passes its size limit, or else when the body passes its total limit.
    pub fn file_chunk(&mut self, file: &mut FileProgress, len: usize) -> (r: Result<(), Error>)
        requires
            old(self).wf(),
            old(file).spec_size() <= old(self).spec_config().max_file_size,
        ensures
            final(self).wf(),
            final(self).spec_config() == old(self).spec_config(),
            final(self).spec_files() == old(self).spec_files(),
            ({
                let size = old(file).spec_size() + len;
                let total = old(self).spec_total() + len;
                match r {
                    Ok(()) => size <= old(self).spec_config().max_file_size && total
                        <= old(self).spec_config().max_body_size && final(file).spec_size() == size
                        && final(self).spec_total() == total,
                    Err(e) => if size > old(self).spec_config().max_file_size {
                        coded(e, ErrorKind::PayloadTooLarge, FILE_TOO_LARGE_MESSAGE@, FILE_TOO_LARGE@)
                    } else {
                        total > old(self).spec_config().max_body_size && e.fresh(
                            ErrorKind::PayloadTooLarge,
                            BODY_TOO_LARGE_MESSAGE@,
                        )
                    },
                }
            }),
    {
        let room = (self.config.max_file_size as u64) - file.size;
        if (len as u64) > room {
            return Err(file_too_large());
        }
        if len > self.config.max_body_size - self.total {
            return Err(Error::payload_too_large(BODY_TOO_LARGE_MESSAGE));
        }
        file.size = file.size + len as u64;
        self.total = self.total + len;
        Ok(())
    }

    /// Counts a text field of `len` bytes: rejected when the body passes its
    /// total limit.
    pub fn text_field(&mut self, len: usize) -> (r: Result<(), Error>)
        requires
            old(self).wf(),
        ensures
            final(self).wf(),
            final(self).spec_config() == old(self).spec_config(),
            final(self).spec_files() == old(self).spec_files(),
            match r {
                Ok(()) => old(self).spec_total() + len <= old(self).spec_config().max_body_size
                    && final(self).spec_total() == old(self).spec_total() + len,
                Err(e) => old(self).spec_total() + len > old(self).spec_config().max_body_size && e.fresh(
                    ErrorKind::PayloadTooLarge,
                    BODY_TOO_LARGE_MESSAGE@,
                ),
            },
    {
        if len > self.config.max_body_size - self.total {
            return Err(Error::payload_too_large(BODY_TOO_LARGE_MESSAGE));
        }
        self.total = self.total + len;
        Ok(())
    }
}

// ---------------------------------------------------------------------------
// File validation
// ---------------------------------------------------------------------------

/// The essence (`type/subtype`, without parameters) of a content type, as the
/// `mime` crate parses it; `None` when the text is not a valid media type.
pub uninterp spec fn mime_essence(content_type: Seq<char>) -> Option<Seq<char>>;

/// The media type the `infer` crate detects from a file's leading bytes, if any.
pub uninterp spec fn sniffed_type(bytes: Seq<u8>) -> Option<Seq<char>>;

/// Parses a content type and gives its essence (`str::parse::<mime::Mime>`,
/// then `Mime::essence_str`).
///
/// Trusted: the result is the one named by `mime_essence`.
#[verifier::external_body]
fn essence_of(content_type: &str) -> (essence: Option<String>)
    ensures
        text_of(essence) == mime_essence(content_type@),
{
    match content_type.parse::<mime::Mime>() {
        Ok(m) => Some(m.essence_str().to_string()),
        Err(_) => None,
    }
}

/// Detects a file's media type from its leading bytes (`infer::get`, then
/// `Type::mime_type`).
///
/// Trusted: the result is the one named by `sniffed_type`.
#[verifier::external_body]
fn sniff(bytes: &[u8]) -> (detected: Option<&'static str>)
    ensures
        match detected {
            Some(t) => sniffed_type(bytes@) == Some(t@),
            None => sniffed_type(bytes@) is None,
        },
{
    match infer::get(bytes) {
        Some(kind) => Some(kind.mime_type()),
        None => None,
    }
}

/// Validation rules for one file field.
pub struct FileRule {
    pub max_size: Option<usize>,
    pub content_types: &'static [&'static str],
    pub sniff: bool,
}

/// Whether one of `allowed` equals `t`, ignoring ASCII case.
pub open spec fn allows_type(allowed: Seq<&'static str>, t: Seq<char>) -> bool {
    exists|i: int| 0 <= i < allowed.len() && lower_seq(#[trigger] allowed[i]@) == lower_seq(t)
}

/// Whether one of `allowed` equals `t`, ignoring ASCII case.
fn any_allowed(allowed: &[&'static str], t: &str) -> (found: bool)
    ensures
        found == allows_type(allowed@, t@),
{
    let mut i: usize = 0;
    while i < allowed.len()
        invariant
            i <= allowed@.len(),
            forall|j: int| 0 <= j < i ==> lower_seq(#[trigger] allowed@[j]@) != lower_seq(t@),
        decreases allowed.len() - i,
    {
        if eq_ignore_ascii_case(allowed[i], t) {
            return true;
        }
        i = i + 1;
    }
    false
}

/// Rejects a file over the rule's size limit.
pub fn check_size(size: usize, rule: &FileRule) -> (r: Result<(), Error>)
    ensures
        match rule.max_size {
            Some(max) if size > max => r matches Err(e) && coded(
                e,
                ErrorKind::PayloadTooLarge,
                FILE_TOO_LARGE_MESSAGE@,
                FILE_TOO_LARGE@,
            ),
            _ => r is Ok,
        },
{
    if let Some(max) = rule.max_size {
        if size > max {
            return Err(file_too_large());
        }
    }
    Ok(())
}

/// Whether the declared content type passes the rule: any type when the rule
/// lists none, else a parsable type whose essence is listed.
pub open spec fn declared_type_ok(declared: Option<Seq<char>>, rule: &FileRule) -> bool {
    rule.content_types@.len() == 0 || match declared {
        Some(t) => match mime_essence(t) {
            Some(e) => allows_type(rule.content_types@, e),
            None => false,
        },
        None => false,
    }
}

/// Whether a parsed essence passes the rule: any type when the rule lists
/// none, else a parsable type whose essence is listed.
pub open spec fn essence_ok(essence: Option<Seq<char>>, rule: &FileRule) -> bool {
    rule.content_types@.len() == 0 || match essence {
        Some(e) => allows_type(rule.content_types@, e),
        None => false,
    }
}

/// Judges a declared content type by its parsed essence (`None` when there
/// was no type or it did not parse).
pub fn check_declared_essence(essence: Option<&str>, rule: &FileRule) -> (r: Result<(), Error>)
    ensures
        if essence_ok(opt_str(essence), rule) {
            r is Ok
        } else {
            r matches Err(e) && coded(e, ErrorKind::Unprocessable, DECLARED_TYPE_MESSAGE@, UNSUPPORTED_MEDIA_TYPE@)
        },
{
    if rule.content_types.len() == 0 {
        return Ok(());
    }
    let allowed = match essence {
        Some(e) => any_allowed(rule.content_types, e),
        None => false,
    };
    if !allowed {
        return Err(Error::unprocessable(DECLARED_TYPE_MESSAGE).with_code(UNSUPPORTED_MEDIA_TYPE));
    }
    Ok(())
}

/// Rejects a file whose declared content type the rule does not allow.
pub fn check_declared_type(declared: Option<&str>, rule: &FileRule) -> (r: Result<(), Error>)
    ensures
        ({
            let d = match declared {
                Some(t) => Some(t@),
                None => None,
            };
            if declared_type_ok(d, rule) {
                r is Ok
            } else {
                r matches Err(e) && coded(e, ErrorKind::Unprocessable, DECLARED_TYPE_MESSAGE@, UNSUPPORTED_MEDIA_TYPE@)
            }
        }),
{
    let essence = match declared {
        Some(t) => essence_of(t),
        None => None,
    };
    let e: Option<&str> = match &essence {
        Some(s) => Some(s.as_str()),
        None => None,
    };
    check_declared_essence(e, rule)
}

/// Whether the detected type passes the rule: any content when the rule lists
/// no types or nothing is detected, else the detected type must be listed.
pub open spec fn sniffed_type_ok(bytes: Seq<u8>, rule: &FileRule) -> bool {
    rule.content_types@.len() == 0 || match sniffed_type(bytes) {
        Some(t) => allows_type(rule.content_types@, t),
        None => true,
    }
}

/// Whether a detected type passes the rule: any content when the rule lists
/// no types or nothing was detected, else the detected type must be listed.
pub open spec fn detected_ok(detected: Option<Seq<char>>, rule: &FileRule) -> bool {
    rule.content_types@.len() == 0 || match detected {
        Some(t) => allows_type(rule.content_types@, t),
        None => true,
    }
}

/// Judges the type detected from a file's leading bytes (`None` when nothing
/// was detected).
pub fn check_detected_type(detected: Option<&str>, rule: &FileRule) -> (r: Result<(), Error>)
    ensures
        if detected_ok(opt_str(detected), rule) {
            r is Ok
        } else {
            r matches Err(e) && coded(e, ErrorKind::Unprocessable, SNIFFED_TYPE_MESSAGE@, UNSUPPORTED_MEDIA_TYPE@)
        },
{
    if rule.content_types.len() == 0 {
        return Ok(());
    }
    if let Some(t) = detected {
        if !any_allowed(rule.content_types, t) {
            return Err(Error::unprocessable(SNIFFED_TYPE_MESSAGE).with_code(UNSUPPORTED_MEDIA_TYPE));
        }
    }
    Ok(())
}

/// Rejects a file whose detected (magic-byte) type the rule does not allow.
pub fn check_sniffed_type(bytes: &[u8], rule: &FileRule) -> (r: Result<(), Error>)
    ensures
        if sniffed_type_ok(bytes@, rule) {
            r is Ok
        } else {
            r matches Err(e) && coded(e, ErrorKind::Unprocessable, SNIFFED_TYPE_MESSAGE@, UNSUPPORTED_MEDIA_TYPE@)
        },
{
    let detected = sniff(bytes);
    check_detected_type(detected, rule)
}

/// Sniffing only judges what it detects: content whose leading bytes match no
/// known type passes the sniff check whatever the rule lists, and a detected
/// type passes exactly when the rule lists no types or lists that type
/// (ignoring ASCII case). So a file that passes the size and declared-type
/// checks and whose type is not detected is accepted.
pub proof fn law_undetected_content_passes_the_sniff(
    bytes: Seq<u8>,
    rule: &FileRule,
    detected: Option<Seq<char>>,
    size: nat,
    declared: Option<Seq<char>>,
)
    ensures
        sniffed_type(bytes) is None ==> sniffed_type_ok(bytes, rule),
        match sniffed_type(bytes) {
            Some(t) => sniffed_type_ok(bytes, rule) == (rule.content_types@.len() == 0 || exists|i: int|
                0 <= i < rule.content_types@.len() && lower_seq(#[trigger] rule.content_types@[i]@) == lower_seq(t)),
            None => true,
        },
        detected is None ==> detected_ok(detected, rule),
        match detected {
            Some(t) => detected_ok(detected, rule) == (rule.content_types@.len() == 0 || exists|i: int|
                0 <= i < rule.content_types@.len() && lower_seq(#[trigger] rule.content_types@[i]@) == lower_seq(t)),
            None => true,
        },
        sniffed_type(bytes) is None && declared_type_ok(declared, rule) && (match rule.max_size {
            Some(max) => size <= max,
            None => true,
        }) ==> first_violation(size, declared, bytes, rule) is None,
{
}

/// The first rule a file breaks, in the order size, declared type, detected
/// type (the last only when the rule asks for sniffing); `None` when it passes.
pub open spec fn first_violation(size: nat, declared: Option<Seq<char>>, sniff_bytes: Seq<u8>, rule: &FileRule) -> Option<Seq<char>> {
    if (match rule.max_size {
        Some(max) => size > max,
        None => false,
    }) {
        Some(FILE_TOO_LARGE_MESSAGE@)
    } else if !declared_type_ok(declared, rule) {
        Some(DECLARED_TYPE_MESSAGE@)
    } else if rule.sniff && !sniffed_type_ok(sniff_bytes, rule) {
        Some(SNIFFED_TYPE_MESSAGE@)
    } else {
        None
    }
}

/// The error a violated rule gives: `413` with `FILE_TOO_LARGE` for the size,
/// `422` with `UNSUPPORTED_MEDIA_TYPE` for a type.
pub open spec fn violation_error(e: Error, message: Seq<char>) -> bool {
    if message == FILE_TOO_LARGE_MESSAGE@ {
        coded(e, ErrorKind::PayloadTooLarge, message, FILE_TOO_LARGE@)
    } else {
        coded(e, ErrorKind::Unprocessable, message, UNSUPPORTED_MEDIA_TYPE@)
    }
}

/// Validates a file of `size` bytes with a declared content type against its
/// rule; `sniff_bytes` are the leading bytes sniffed when the rule asks for it.
pub fn validate_file(size: usize, declared: Option<&str>, sniff_bytes: &[u8], rule: &FileRule) -> (r: Result<(), Error>)
    ensures
        match first_violation(size as nat, match declared {
            Some(t) => Some(t@),
            None => None,
        }, sniff_bytes@, rule) {
            None => r is Ok,
            Some(msg) => r matches Err(e) && violation_error(e, msg),
        },
{
    proof {
        reveal_strlit("uploaded file is too large");
        reveal_strlit("unsupported file content type");
        reveal_strlit("file content does not match the declared type");
        assert(DECLARED_TYPE_MESSAGE@.len() != FILE_TOO_LARGE_MESSAGE@.len());
        assert(SNIFFED_TYPE_MESSAGE@.len() != FILE_TOO_LARGE_MESSAGE@.len());
    }
    check_size(size, rule)?;
    check_declared_type(declared, rule)?;
    if rule.sniff {
        check_sniffed_type(sniff_bytes, rule)?;
    }
    Ok(())
}

// ---------------------------------------------------------------------------
// Parsed forms
// ---------------------------------------------------------------------------

/// A buffered uploaded file, held entirely in memory.
pub struct FileBytes {
    bytes: Vec<u8>,
    filename: Option<String>,
    content_type: Option<String>,
}

impl FileBytes {
    /// The contents.
    pub closed spec fn spec_bytes(&self) -> Seq<u8> {
        self.bytes@
    }

    /// The client-provided filename.
    pub closed spec fn spec_filename(&self) -> Option<Seq<char>> {
        text_of(self.filename)
    }

    /// The declared content type.
    pub closed spec fn spec_content_type(&self) -> Option<Seq<char>> {
        text_of(self.content_type)
    }

    /// A file with these contents, filename and declared content type.
    pub fn new(bytes: Vec<u8>, filename: Option<String>, content_type: Option<String>) -> (f: Self)
        ensures
            f.spec_bytes() == bytes@,
            f.spec_filename() == text_of(filename),
            f.spec_content_type() == text_of(content_type),
    {
        FileBytes { bytes, filename, content_type }
    }

    /// The size in bytes.
    pub fn len(&self) -> (n: usize)
        ensures
            n == self.spec_bytes().len(),
    {
        self.bytes.len()
    }

    /// Whether the file is empty.
    pub fn is_empty(&self) -> (empty: bool)
        ensures
            empty == (self.spec_bytes().len() == 0),
    {
        self.bytes.len() == 0
    }

    /// The contents.
    pub fn bytes(&self) -> (b: &[u8])
        ensures
            b@ == self.spec_bytes(),
    {
        self.bytes.as_slice()
    }

    /// The contents, consuming the file.
    pub fn into_bytes(self) -> (b: Vec<u8>)
        ensures
            b@ == self.spec_bytes(),
    {
        self.bytes
    }

    /// The client-provided filename, if any.
    pub fn filename(&self) -> (name: Option<&str>)
        ensures
            match name {
                Some(n) => self.spec_filename() == Some(n@),
                None => self.spec_filename() is None,
            },
    {
        match &self.filename {
            Some(n) => Some(n.as_str()),
            None => None,
        }
    }

    /// The declared content type, if any.
    pub fn content_type(&self) -> (t: Option<&str>)
        ensures
            match t {
                Some(n) => self.spec_content_type() == Some(n@),
                None => self.spec_content_type() is None,
            },
    {
        match &self.content_type {
            Some(n) => Some(n.as_str()),
            None => None,
        }
    }

    /// Validates the file against its rule, sniffing its own leading bytes.
    pub fn validate(&self, rule: &FileRule) -> (r: Result<(), Error>)
        ensures
            match first_violation(self.spec_bytes().len(), self.spec_content_type(), self.spec_bytes(), rule) {
                None => r is Ok,
                Some(msg) => r matches Err(e) && violation_error(e, msg),
            },
    {
        validate_file(self.bytes.len(), self.content_type(), self.bytes.as_slice(), rule)
    }
}

/// One file part of a parsed multipart body, its contents in storage `F`.
pub struct FilePart<F> {
    pub name: String,
    pub filename: Option<String>,
    pub content_type: Option<String>,
    pub storage: F,
    pub size: u64,
}

/// An uploaded file whose contents sit in storage `F` (spooled to disk past a
/// threshold by the caller).
pub struct UploadFile<F> {
    filename: Option<String>,
    content_type: Option<String>,
    size: u64,
    storage: Option<F>,
}

/// Message of the error for an upload whose storage was taken and not returned.
pub const STORAGE_CONSUMED_MESSAGE: &'static str = "upload file storage was already consumed";

impl<F> UploadFile<F> {
    /// The client-provided filename.
    pub closed spec fn spec_filename(&self) -> Option<Seq<char>> {
        text_of(self.filename)
    }

    /// The declared content type.
    pub closed spec fn spec_content_type(&self) -> Option<Seq<char>> {
        text_of(self.content_type)
    }

    /// The size in bytes.
    pub closed spec fn spec_size(&self) -> u64 {
        self.size
    }

    /// The storage, unless it is currently taken.
    pub closed spec fn spec_storage(&self) -> Option<F> {
        self.storage
    }

    /// The upload of a parsed file part.
    pub fn from_part(part: FilePart<F>) -> (u: Self)
        ensures
            u.spec_filename() == text_of(part.filename),
            u.spec_content_type() == text_of(part.content_type),
            u.spec_size() == part.size,
            u.spec_storage() == Some(part.storage),
    {
        UploadFile {
            filename: part.filename,
            content_type: part.content_type,
            size: part.size,
            storage: Some(part.storage),
        }
    }

    /// The client-provided filename, if any.
    pub fn filename(&self) -> (name: Option<&str>)
        ensures
            match name {
                Some(n) => self.spec_filename() == Some(n@),
                None => self.spec_filename() is None,
            },
    {
        match &self.filename {
            Some(n) => Some(n.as_str()),
            None => None,
        }
    }

    /// The declared content type, if any.
    pub fn content_type(&self) -> (t: Option<&str>)
        ensures
            match t {
                Some(n) => self.spec_content_type() == Some(n@),
                None => self.spec_content_type() is None,
            },
    {
        match &self.content_type {
            Some(n) => Some(n.as_str()),
            None => None,
        }
    }

    /// The size in bytes.
    pub fn size(&self) -> (size: u64)
        ensures
            size == self.spec_size(),
    {
        self.size
    }

    /// Takes the storage out for an operation; an internal error when it is
    /// already out.
    pub fn take_storage(&mut self) -> (r: Result<F, Error>)
        ensures
            final(self).spec_filename() == old(self).spec_filename(),
            final(self).spec_content_type() == old(self).spec_content_type(),
            final(self).spec_size() == old(self).spec_size(),
            final(self).spec_storage() is None,
            match old(self).spec_storage() {
                Some(s) => r == Ok::<F, Error>(s),
                None => r matches Err(e) && e.fresh(ErrorKind::Internal, STORAGE_CONSUMED_MESSAGE@),
            },
    {
        match self.storage.take() {
            Some(s) => Ok(s),
            None => Err(Error::internal(STORAGE_CONSUMED_MESSAGE)),
        }
    }

    /// Puts the storage back after an operation.
    pub fn restore_storage(&mut self, storage: F)
        ensures
            final(self).spec_filename() == old(self).spec_filename(),
            final(self).spec_content_type() == old(self).spec_content_type(),
            final(self).spec_size() == old(self).spec_size(),
            final(self).spec_storage() == Some(storage),
    {
        self.storage = Some(storage);
    }

    /// Validates the upload against its rule; `prefix` holds its leading bytes
    /// (read when the rule asks for sniffing).
    pub fn validate(&self, prefix: &[u8], rule: &FileRule) -> (r: Result<(), Error>)
        requires
            self.spec_size() <= usize::MAX,
        ensures
            match first_violation(self.spec_size() as nat, self.spec_content_type(), prefix@, rule) {
                None => r is Ok,
                Some(msg) => r matches Err(e) && violation_error(e, msg),
            },
    {
        validate_file(self.size as usize, self.content_type(), prefix, rule)
    }
}

/// The position of the first entry named `name`, from `from` on; the length
/// when there is none.
pub open spec fn first_named(names: Seq<Seq<char>>, name: Seq<char>, from: int) -> int
    decreases names.len() - from,
{
    if from < 0 || from >= names.len() {
        names.len() as int
    } else if names[from] == name {
        from
    } else {
        first_named(names, name, from + 1)
    }
}

proof fn lemma_first_named(names: Seq<Seq<char>>, name: Seq<char>, from: int)
    requires
        0 <= from <= names.len(),
    ensures
        from <= first_named(names, name, from) <= names.len(),
        first_named(names, name, from) < names.len() ==> names[first_named(names, name, from)] == name,
    decreases names.len() - from,
{
    if from < names.len() && names[from] != name {
        lemma_first_named(names, name, from + 1);
    }
}

/// The names of a form's text fields.
pub open spec fn text_names(v: Seq<(String, String)>) -> Seq<Seq<char>> {
    v.map_values(|e: (String, String)| e.0@)
}

/// The names of a form's file parts.
pub open spec fn file_names<F>(v: Seq<FilePart<F>>) -> Seq<Seq<char>> {
    v.map_values(|p: FilePart<F>| p.name@)
}

/// A parsed multipart body: its text fields and its file parts, in order.
pub struct MultipartForm<F> {
    texts: Vec<(String, String)>,
    files: Vec<FilePart<F>>,
}

/// The message of the error for a text field whose value does not parse.
pub open spec fn invalid_field_message(name: Seq<char>) -> Seq<char> {
    "form field `"@ + name + "` has an invalid value"@
}

impl<F> MultipartForm<F> {
    /// The text fields.
    pub closed spec fn spec_texts(&self) -> Seq<(String, String)> {
        self.texts@
    }

    /// The file parts.
    pub closed spec fn spec_files(&self) -> Seq<FilePart<F>> {
        self.files@
    }

    /// A form with these fields.
    pub fn new(texts: Vec<(String, String)>, files: Vec<FilePart<F>>) -> (f: Self)
        ensures
            f.spec_texts() == texts@,
            f.spec_files() == files@,
    {
        MultipartForm { texts, files }
    }

    /// Adds a text field as the body is read: counted against the budget (its
    /// UTF-8 length), then appended after the fields read so far; when it
    /// passes the body limit it is rejected and the form is left as it was.
    pub fn add_text(&mut self, budget: &mut UploadBudget, name: String, value: String) -> (r: Result<(), Error>)
        requires
            old(budget).wf(),
        ensures
            final(budget).wf(),
            final(budget).spec_config() == old(budget).spec_config(),
            final(budget).spec_files() == old(budget).spec_files(),
            final(self).spec_files() == old(self).spec_files(),
            ({
                let total = old(budget).spec_total() + utf8_len(value@);
                match r {
                    Ok(()) => total <= old(budget).spec_config().max_body_size && final(budget).spec_total() == total
                        && final(self).spec_texts() == old(self).spec_texts().push((name, value)),
                    Err(e) => total > old(budget).spec_config().max_body_size && e.fresh(
                        ErrorKind::PayloadTooLarge,
                        BODY_TOO_LARGE_MESSAGE@,
                    ) && final(self).spec_texts() == old(self).spec_texts() && final(budget).spec_total()
                        == old(budget).spec_total(),
                }
            }),
    {
        let room = budget.config.max_body_size - budget.total;
        match utf8_len_within(value.as_str(), room) {
            None => Err(Error::payload_too_large(BODY_TOO_LARGE_MESSAGE)),
            Some(n) => {
                budget.total = budget.total + n;
                self.texts.push((name, value));
                Ok(())
            },
        }
    }

    /// Adds a file part once all of it was read: it is appended after the
    /// file parts read so far, with the size its progress counted.
    pub fn add_file(
        &mut self,
        name: String,
        filename: Option<String>,
        content_type: Option<String>,
        storage: F,
        progress: &FileProgress,
    )
        ensures
            final(self).spec_texts() == old(self).spec_texts(),
            final(self).spec_files() == old(self).spec_files().push(
                FilePart { name, filename, content_type, storage, size: progress.spec_size() as u64 },
            ),
    {
        let size = progress.size();
        self.files.push(FilePart { name, filename, content_type, storage, size });
    }

    /// Removes the first text field named `name` and gives its raw value.
    pub fn take_form_text(&mut self, name: &str) -> (value: Option<String>)
        ensures
            final(self).spec_files() == old(self).spec_files(),
            ({
                let pos = first_named(text_names(old(self).spec_texts()), name@, 0);
                if pos < old(self).spec_texts().len() {
                    value matches Some(v) && v@ == old(self).spec_texts()[pos].1@
                        && final(self).spec_texts() == old(self).spec_texts().remove(pos)
                } else {
                    value is None && final(self).spec_texts() == old(self).spec_texts()
                }
            }),
    {
        let ghost names = text_names(self.texts@);
        proof {
            lemma_first_named(names, name@, 0);
        }
        let mut i: usize = 0;
        while i < self.texts.len()
            invariant
                i <= self.texts@.len(),
                names == text_names(self.texts@),
                self.texts@ == old(self).texts@,
                self.files@ == old(self).files@,
                first_named(names, name@, 0) == first_named(names, name@, i as int),
            decreases self.texts.len() - i,
        {
            if str_eq(self.texts[i].0.as_str(), name) {
                let (_, v) = self.texts.remove(i);
                return Some(v);
            }
            i = i + 1;
        }
        None
    }

    /// Removes every text field named `name` and gives their raw values, in order.
    pub fn take_form_texts(&mut self, name: &str) -> (values: Vec<String>)
        ensures
            final(self).spec_files() == old(self).spec_files(),
            values@.map_values(|v: String| v@) == old(self).spec_texts().filter(
                |e: (String, String)| e.0@ == name@,
            ).map_values(|e: (String, String)| e.1@),
            final(self).spec_texts() == old(self).spec_texts().filter(|e: (String, String)| e.0@ != name@),
    {
        let ghost orig = self.texts@;
        let count = self.texts.len();
        assert(orig.len() == count);
        let mut values: Vec<String> = Vec::new();
        let mut kept: Vec<(String, String)> = Vec::new();
        let mut rest: Vec<(String, String)> = Vec::new();
        std::mem::swap(&mut rest, &mut self.texts);
        let mut i: usize = 0;
        while rest.len() > 0
            invariant
                rest@ == orig.subrange(i as int, orig.len() as int),
                i <= orig.len(),
                orig.len() <= usize::MAX,
                values@.map_values(|v: String| v@) == orig.subrange(0, i as int).filter(
                    |e: (String, String)| e.0@ == name@,
                ).map_values(|e: (String, String)| e.1@),
                kept@ == orig.subrange(0, i as int).filter(|e: (String, String)| e.0@ != name@),
                self.files@ == old(self).files@,
            decreases rest.len(),
        {
            let e = rest.remove(0);
            let ghost gv = values@;
            let ghost gk = kept@;
            proof {
                assert(e == orig[i as int]);
                assert(orig.subrange(0, i + 1).drop_last() =~= orig.subrange(0, i as int));
                reveal_with_fuel(Seq::filter, 1);
            }
            if str_eq(e.0.as_str(), name) {
                values.push(e.1);
                proof {
                    assert(values@.map_values(|v: String| v@) =~= gv.map_values(|v: String| v@).push(e.1@));
                }
            } else {
                kept.push(e);
            }
            i = i + 1;
            proof {
                assert(rest@ =~= orig.subrange(i as int, orig.len() as int));
            }
        }
        assert(orig.subrange(0, orig.len() as int) =~= orig);
        self.texts = kept;
        values
    }

    /// Removes the first file part named `name`.
    pub fn take_file(&mut self, name: &str) -> (part: Option<FilePart<F>>)
        ensures
            final(self).spec_texts() == old(self).spec_texts(),
            ({
                let pos = first_named(file_names(old(self).spec_files()), name@, 0);
                if pos < old(self).spec_files().len() {
                    part == Some(old(self).spec_files()[pos]) && final(self).spec_files() == old(
                        self,
                    ).spec_files().remove(pos)
                } else {
                    part is None && final(self).spec_files() == old(self).spec_files()
                }
            }),
    {
        let ghost names = file_names(self.files@);
        proof {
            lemma_first_named(names, name@, 0);
        }
        let mut i: usize = 0;
        while i < self.files.len()
            invariant
                i <= self.files@.len(),
                names == file_names(self.files@),
                self.texts@ == old(self).texts@,
                self.files@ == old(self).files@,
                first_named(names, name@, 0) == first_named(names, name@, i as int),
            decreases self.files.len() - i,
        {
            if str_eq(self.files[i].name.as_str(), name) {
                let p = self.files.remove(i);
                return Some(p);
            }
            i = i + 1;
        }
        None
    }

    /// Removes every file part named `name`, in order.
    pub fn take_files(&mut self, name: &str) -> (parts: Vec<FilePart<F>>)
        ensures
            final(self).spec_texts() == old(self).spec_texts(),
            parts@ == old(self).spec_files().filter(|p: FilePart<F>| p.name@ == name@),
            final(self).spec_files() == old(self).spec_files().filter(|p: FilePart<F>| p.name@ != name@),
    {
        let ghost orig = self.files@;
        let count = self.files.len();
        assert(orig.len() == count);
        let mut taken: Vec<FilePart<F>> = Vec::new();
        let mut kept: Vec<FilePart<F>> = Vec::new();
        let mut rest: Vec<FilePart<F>> = Vec::new();
        std::mem::swap(&mut rest, &mut self.files);
        let mut i: usize = 0;
        while rest.len() > 0
            invariant
                rest@ == orig.subrange(i as int, orig.len() as int),
                i <= orig.len(),
                orig.len() <= usize::MAX,
                taken@ == orig.subrange(0, i as int).filter(|p: FilePart<F>| p.name@ == name@),
                kept@ == orig.subrange(0, i as int).filter(|p: FilePart<F>| p.name@ != name@),
                self.texts@ == old(self).texts@,
            decreases rest.len(),
        {
            let p = rest.remove(0);
            proof {
                assert(p == orig[i as int]);
                assert(orig.subrange(0, i + 1).drop_last() =~= orig.subrange(0, i as int));
                reveal_with_fuel(Seq::filter, 1);
            }
            if str_eq(p.name.as_str(), name) {
                taken.push(p);
            } else {
                kept.push(p);
            }
            i = i + 1;
            proof {
                assert(rest@ =~= orig.subrange(i as int, orig.len() as int));
            }
        }
        assert(orig.subrange(0, orig.len() as int) =~= orig);
        self.files = kept;
        taken
    }
}

/// The error for a text field whose raw value does not parse.
pub fn invalid_form_value(name: &str) -> (e: Error)
    ensures
        e.fresh(ErrorKind::Unprocessable, invalid_field_message(name@)),
{
    let mut msg = "form field `".to_string();
    push_str(&mut msg, name);
    push_str(&mut msg, "` has an invalid value");
    Error::unprocessable(msg.as_str())
}

/// The error for a multipart body the parser rejected, with its description.
pub fn multipart_parse_error(detail: &str) -> (e: Error)
    ensures
        e.fresh(ErrorKind::BadRequest, "multipart parse error: "@ + detail@),
{
    let mut msg = "multipart parse error: ".to_string();
    push_str(&mut msg, detail);
    Error::bad_request(msg.as_str())
}

/// The boundary a `multipart/form-data` content type names (`multer::parse_boundary`):
/// `None` when the text is not such a media type or names no boundary.
pub uninterp spec fn multipart_boundary(content_type: Seq<char>) -> Option<Seq<char>>;

/// Extracts the multipart boundary from a content type (`multer::parse_boundary`).
///
/// Trusted: the result is the one named by `multipart_boundary`.
#[verifier::external_body]
fn parse_boundary(content_type: &str) -> (boundary: Option<String>)
    ensures
        text_of(boundary) == multipart_boundary(content_type@),
{
    multer::parse_boundary(content_type).ok()
}

/// Message of the error for a multipart request without a readable content type.
pub const MISSING_CONTENT_TYPE_MESSAGE: &'static str = "missing Content-Type for multipart form";
/// Message of the error for a content type that names no multipart boundary.
pub const INVALID_BOUNDARY_MESSAGE: &'static str = "invalid or missing multipart boundary";

/// The boundary of a multipart request, from its `Content-Type` header (raw
/// bytes): a missing or unreadable header, or one naming no boundary, is a bad
/// request.
pub fn request_boundary(content_type: Option<&[u8]>) -> (r: Result<String, Error>)
    ensures
        match content_type {
            None => r matches Err(e) && e.fresh(ErrorKind::BadRequest, MISSING_CONTENT_TYPE_MESSAGE@),
            Some(b) => match spec_header_text(b@) {
                None => r matches Err(e) && e.fresh(ErrorKind::BadRequest, MISSING_CONTENT_TYPE_MESSAGE@),
                Some(t) => match multipart_boundary(t) {
                    Some(bd) => r matches Ok(s) && s@ == bd,
                    None => r matches Err(e) && e.fresh(ErrorKind::BadRequest, INVALID_BOUNDARY_MESSAGE@),
                },
            },
        },
{
    let text = match content_type {
        Some(bytes) => match header_text(bytes) {
            Some(t) => t,
            None => return Err(Error::bad_request(MISSING_CONTENT_TYPE_MESSAGE)),
        },
        None => return Err(Error::bad_request(MISSING_CONTENT_TYPE_MESSAGE)),
    };
    boundary_from(parse_boundary(text.as_str()))
}

/// The boundary a content type names, or the bad-request error when it names
/// none.
pub fn boundary_from(parsed: Option<String>) -> (r: Result<String, Error>)
    ensures
        match parsed {
            Some(b) => r matches Ok(s) && s@ == b@,
            None => r matches Err(e) && e.fresh(ErrorKind::BadRequest, INVALID_BOUNDARY_MESSAGE@),
        },
{
    match parsed {
        Some(b) => Ok(b),
        None => Err(Error::bad_request(INVALID_BOUNDARY_MESSAGE)),
    }
}

/// The error for a form body that does not decode.
pub fn invalid_form_body() -> (e: Error)
    ensures
        e.fresh(ErrorKind::Unprocessable, "request body is not a valid form"@),
{
    Error::unprocessable("request body is not a valid form")
}

/// An `application/x-www-form-urlencoded` body, decoded and validated.
pub struct Form<T>(pub T);

impl<T> Form<T> {
    /// The decoded value.
    pub fn into_inner(self) -> (v: T)
        ensures
            v == self.0,
    {
        self.0
    }
}

/// A `multipart/form-data` body bound to a form model.
pub struct Multipart<T>(pub T);

impl<T> Multipart<T> {
    /// The bound value.
    pub fn into_inner(self) -> (v: T)
        ensures
            v == self.0,
    {
        self.0
    }
}

/// Taking every text field of a name leaves no field of that name behind,
/// and keeps the others in order.
pub proof fn law_taking_all_leaves_none(texts: Seq<(String, String)>, name: Seq<char>)
    ensures
        forall|i: int|
            0 <= i < without_name(texts, name).len() ==> (#[trigger] without_name(texts, name)[i]).0@ != name,
{
    broadcast use vstd::seq_lib::group_filter_ensures;
    let pred = |e: (String, String)| e.0@ != name;
    assert forall|i: int| 0 <= i < texts.filter(pred).len() implies pred(#[trigger] texts.filter(pred)[i]) by {}
}

/// The text fields not named `name`, in order.
pub open spec fn without_name(texts: Seq<(String, String)>, name: Seq<char>) -> Seq<(String, String)> {
    texts.filter(|e: (String, String)| e.0@ != name)
}

} // verus!
