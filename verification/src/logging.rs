//! Logging configuration: the level, the output format, request logging, and
//! the optional file and telemetry sinks; plus the decisions the log writers
//! take from it (which format to write, level colors, bounded error chains).

use vstd::prelude::*;

verus! {

/// The level logged when none is configured.
pub const DEFAULT_LEVEL: &'static str = "info";
/// The service name recorded when none is configured.
pub const DEFAULT_SERVICE_NAME: &'static str = "app";
/// The file-name prefix of log files when none is configured.
pub const DEFAULT_FILE_PREFIX: &'static str = "app";
/// At most this many entries of an error's source chain are logged.
pub const MAX_ERROR_CHAIN: usize = 16;
/// The entry that marks a truncated error chain.
pub const CHAIN_TRUNCATED: &'static str = "... (chain truncated)";

/// The output format of console logs.
#[derive(Clone, Copy, Debug, PartialEq, Eq, Structural)]
pub enum LogFormat {
    /// Human-readable on a terminal, JSON otherwise.
    Auto,
    Pretty,
    Compact,
    Json,
}

/// How often log files roll over.
#[derive(Clone, Copy, Debug, PartialEq, Eq, Structural)]
pub enum Rotation {
    Never,
    Hourly,
    Daily,
}

/// How much of an error goes into a log record.
#[derive(Clone, Copy, Debug, PartialEq, Eq, Structural)]
pub enum ErrorLogDetail {
    /// Only the error's type name.
    TypeOnly,
    /// The type name and the top-level message.
    MessageOnly,
    /// The type name, the message and the (bounded) source chain.
    FullChain,
}

/// A log level.
#[derive(Clone, Copy, Debug, PartialEq, Eq, Structural)]
pub enum Level {
    Trace,
    Debug,
    Info,
    Warn,
    Error,
}

/// A rolling log-file sink.
pub struct FileLogConfig {
    pub directory: String,
    pub prefix: String,
    pub rotation: Rotation,
    pub non_blocking: bool,
}

impl FileLogConfig {
    /// A sink writing into `directory`, prefix `app`, rolling daily, non-blocking.
    pub fn new(directory: &str) -> (f: Self)
        ensures
            f.directory@ == directory@,
            f.prefix@ == DEFAULT_FILE_PREFIX@,
            f.rotation == Rotation::Daily,
            f.non_blocking,
    {
        FileLogConfig {
            directory: directory.to_string(),
            prefix: DEFAULT_FILE_PREFIX.to_string(),
            rotation: Rotation::Daily,
            non_blocking: true,
        }
    }

    /// Sets the file-name prefix.
    pub fn prefix(self, prefix: &str) -> (f: Self)
        ensures
            f.directory == self.directory,
            f.prefix@ == prefix@,
            f.rotation == self.rotation,
            f.non_blocking == self.non_blocking,
    {
        FileLogConfig { prefix: prefix.to_string(), ..self }
    }

    /// Sets the rotation.
    pub fn rotation(self, rotation: Rotation) -> (f: Self)
        ensures
            f.directory == self.directory,
            f.prefix == self.prefix,
            f.rotation == rotation,
            f.non_blocking == self.non_blocking,
    {
        FileLogConfig { rotation, ..self }
    }

    /// Sets whether writes go through a background worker.
    pub fn non_blocking(self, non_blocking: bool) -> (f: Self)
        ensures
            f.directory == self.directory,
            f.prefix == self.prefix,
            f.rotation == self.rotation,
            f.non_blocking == non_blocking,
    {
        FileLogConfig { non_blocking, ..self }
    }
}

/// An OpenTelemetry (OTLP) export sink.
pub struct TelemetryConfig {
    pub enabled: bool,
    pub otlp_endpoint: String,
    pub service_name: String,
}

impl TelemetryConfig {
    /// Export to `otlp_endpoint`, enabled, as service `app`.
    pub fn new(otlp_endpoint: &str) -> (t: Self)
        ensures
            t.enabled,
            t.otlp_endpoint@ == otlp_endpoint@,
            t.service_name@ == DEFAULT_SERVICE_NAME@,
    {
        TelemetryConfig {
            enabled: true,
            otlp_endpoint: otlp_endpoint.to_string(),
            service_name: DEFAULT_SERVICE_NAME.to_string(),
        }
    }

    /// Sets the service name.
    pub fn service_name(self, name: &str) -> (t: Self)
        ensures
            t.enabled == self.enabled,
            t.otlp_endpoint == self.otlp_endpoint,
            t.service_name@ == name@,
    {
        TelemetryConfig { service_name: name.to_string(), ..self }
    }

    /// Turns the export on or off.
    pub fn enabled(self, enabled: bool) -> (t: Self)
        ensures
            t.enabled == enabled,
            t.otlp_endpoint == self.otlp_endpoint,
            t.service_name == self.service_name,
    {
        TelemetryConfig { enabled, ..self }
    }
}

/// How the application logs.
pub struct LoggerConfig {
    pub level: String,
    pub format: LogFormat,
    pub color: bool,
    pub service_name: String,
    pub request_logs: bool,
    pub include_source: bool,
    pub include_thread_ids: bool,
    pub non_blocking: bool,
    pub file: Option<FileLogConfig>,
    pub telemetry: Option<TelemetryConfig>,
}

impl LoggerConfig {
    /// The defaults: level `info`, automatic format, colors on, service `app`,
    /// request logs on, no source locations or thread ids, blocking writes, no
    /// file or telemetry sink.
    pub fn new() -> (c: Self)
        ensures
            c.level@ == DEFAULT_LEVEL@,
            c.format == LogFormat::Auto,
            c.color,
            c.service_name@ == DEFAULT_SERVICE_NAME@,
            c.request_logs,
            !c.include_source,
            !c.include_thread_ids,
            !c.non_blocking,
            c.file is None,
            c.telemetry is None,
    {
        LoggerConfig {
            level: DEFAULT_LEVEL.to_string(),
            format: LogFormat::Auto,
            color: true,
            service_name: DEFAULT_SERVICE_NAME.to_string(),
            request_logs: true,
            include_source: false,
            include_thread_ids: false,
            non_blocking: false,
            file: None,
            telemetry: None,
        }
    }

    /// Sets the level (a filter directive such as `debug`).
    pub fn level(self, level: &str) -> (c: Self)
        ensures
            c.level@ == level@,
            c.format == self.format,
            c.color == self.color,
            c.service_name == self.service_name,
            c.request_logs == self.request_logs,
            c.include_source == self.include_source,
            c.include_thread_ids == self.include_thread_ids,
            c.non_blocking == self.non_blocking,
            c.file == self.file,
            c.telemetry == self.telemetry,
    {
        LoggerConfig { level: level.to_string(), ..self }
    }

    /// Sets the output format.
    pub fn format(self, format: LogFormat) -> (c: Self)
        ensures
            c.level == self.level,
            c.format == format,
            c.color == self.color,
            c.service_name == self.service_name,
            c.request_logs == self.request_logs,
            c.include_source == self.include_source,
            c.include_thread_ids == self.include_thread_ids,
            c.non_blocking == self.non_blocking,
            c.file == self.file,
            c.telemetry == self.telemetry,
    {
        LoggerConfig { format, ..self }
    }

    /// Turns console colors on or off.
    pub fn color(self, color: bool) -> (c: Self)
        ensures
            c.level == self.level,
            c.format == self.format,
            c.color == color,
            c.service_name == self.service_name,
            c.request_logs == self.request_logs,
            c.include_source == self.include_source,
            c.include_thread_ids == self.include_thread_ids,
            c.non_blocking == self.non_blocking,
            c.file == self.file,
            c.telemetry == self.telemetry,
    {
        LoggerConfig { color, ..self }
    }

    /// Sets the service name.
    pub fn service_name(self, name: &str) -> (c: Self)
        ensures
            c.level == self.level,
            c.format == self.format,
            c.color == self.color,
            c.service_name@ == name@,
            c.request_logs == self.request_logs,
            c.include_source == self.include_source,
            c.include_thread_ids == self.include_thread_ids,
            c.non_blocking == self.non_blocking,
            c.file == self.file,
            c.telemetry == self.telemetry,
    {
        LoggerConfig { service_name: name.to_string(), ..self }
    }

    /// Turns HTTP request logs on or off.
    pub fn request_logs(self, enabled: bool) -> (c: Self)
        ensures
            c.level == self.level,
            c.format == self.format,
            c.color == self.color,
            c.service_name == self.service_name,
            c.request_logs == enabled,
            c.include_source == self.include_source,
            c.include_thread_ids == self.include_thread_ids,
            c.non_blocking == self.non_blocking,
            c.file == self.file,
            c.telemetry == self.telemetry,
    {
        LoggerConfig { request_logs: enabled, ..self }
    }

    /// Records source locations.
    pub fn include_source(self, on: bool) -> (c: Self)
        ensures
            c.level == self.level,
            c.format == self.format,
            c.color == self.color,
            c.service_name == self.service_name,
            c.request_logs == self.request_logs,
            c.include_source == on,
            c.include_thread_ids == self.include_thread_ids,
            c.non_blocking == self.non_blocking,
            c.file == self.file,
            c.telemetry == self.telemetry,
    {
        LoggerConfig { include_source: on, ..self }
    }

    /// Records thread ids.
    pub fn include_thread_ids(self, on: bool) -> (c: Self)
        ensures
            c.level == self.level,
            c.format == self.format,
            c.color == self.color,
            c.service_name == self.service_name,
            c.request_logs == self.request_logs,
            c.include_source == self.include_source,
            c.include_thread_ids == on,
            c.non_blocking == self.non_blocking,
            c.file == self.file,
            c.telemetry == self.telemetry,
    {
        LoggerConfig { include_thread_ids: on, ..self }
    }

    /// Sets whether console writes go through a background worker.
    pub fn non_blocking(self, non_blocking: bool) -> (c: Self)
        ensures
            c.level == self.level,
            c.format == self.format,
            c.color == self.color,
            c.service_name == self.service_name,
            c.request_logs == self.request_logs,
            c.include_source == self.include_source,
            c.include_thread_ids == self.include_thread_ids,
            c.non_blocking == non_blocking,
            c.file == self.file,
            c.telemetry == self.telemetry,
    {
        LoggerConfig { non_blocking, ..self }
    }

    /// Adds a rolling file sink.
    pub fn file(self, file: FileLogConfig) -> (c: Self)
        ensures
            c.level == self.level,
            c.format == self.format,
            c.color == self.color,
            c.service_name == self.service_name,
            c.request_logs == self.request_logs,
            c.include_source == self.include_source,
            c.include_thread_ids == self.include_thread_ids,
            c.non_blocking == self.non_blocking,
            c.file == Some(file),
            c.telemetry == self.telemetry,
    {
        LoggerConfig { file: Some(file), ..self }
    }

    /// Adds an OpenTelemetry sink.
    pub fn telemetry(self, telemetry: TelemetryConfig) -> (c: Self)
        ensures
            c.level == self.level,
            c.format == self.format,
            c.color == self.color,
            c.service_name == self.service_name,
            c.request_logs == self.request_logs,
            c.include_source == self.include_source,
            c.include_thread_ids == self.include_thread_ids,
            c.non_blocking == self.non_blocking,
            c.file == self.file,
            c.telemetry == Some(telemetry),
    {
        LoggerConfig { telemetry: Some(telemetry), ..self }
    }

    /// The format console logs are written in, given whether standard output
    /// is a terminal: JSON when asked for or, for `Auto`, off a terminal;
    /// otherwise the console format, colored only when colors are on and the
    /// output is a terminal.
    pub fn output_format(&self, stdout_is_terminal: bool) -> (f: OutputFormat)
        ensures
            f == spec_output_format(self.format, self.color, stdout_is_terminal),
    {
        let json = match self.format {
            LogFormat::Json => true,
            LogFormat::Pretty | LogFormat::Compact => false,
            LogFormat::Auto => !stdout_is_terminal,
        };
        if json {
            OutputFormat::Json
        } else {
            OutputFormat::Console { color: self.color && stdout_is_terminal }
        }
    }
}

/// The concrete format log records are written in.
#[derive(Clone, Copy, Debug, PartialEq, Eq, Structural)]
pub enum OutputFormat {
    Json,
    Console { color: bool },
}

/// The format console logs are written in.
pub open spec fn spec_output_format(format: LogFormat, color: bool, terminal: bool) -> OutputFormat {
    let json = match format {
        LogFormat::Json => true,
        LogFormat::Pretty | LogFormat::Compact => false,
        LogFormat::Auto => !terminal,
    };
    if json {
        OutputFormat::Json
    } else {
        OutputFormat::Console { color: color && terminal }
    }
}

/// The ANSI color sequence a level is shown in.
pub fn level_color(level: Level) -> (code: &'static str)
    ensures
        code@ == match level {
            Level::Trace => "\u{1b}[90m"@,
            Level::Debug => "\u{1b}[36m"@,
            Level::Info => "\u{1b}[32m"@,
            Level::Warn => "\u{1b}[33m"@,
            Level::Error => "\u{1b}[31m"@,
        },
{
    match level {
        Level::Trace => "\u{1b}[90m",
        Level::Debug => "\u{1b}[36m",
        Level::Info => "\u{1b}[32m",
        Level::Warn => "\u{1b}[33m",
        Level::Error => "\u{1b}[31m",
    }
}

/// The logged form of an error's source chain (messages, outermost first): at
/// most the first sixteen, followed by a truncation marker when there were more.
pub fn bounded_chain(sources: Vec<String>) -> (chain: Vec<String>)
    ensures
        sources@.len() <= MAX_ERROR_CHAIN ==> chain@ == sources@,
        sources@.len() > MAX_ERROR_CHAIN ==> chain@.len() == MAX_ERROR_CHAIN + 1
            && chain@.subrange(0, MAX_ERROR_CHAIN as int) == sources@.subrange(0, MAX_ERROR_CHAIN as int)
            && chain@[MAX_ERROR_CHAIN as int]@ == CHAIN_TRUNCATED@,
{
    if sources.len() <= MAX_ERROR_CHAIN {
        return sources;
    }
    let mut chain = sources;
    chain.truncate(MAX_ERROR_CHAIN);
    chain.push(CHAIN_TRUNCATED.to_string());
    chain
}

} // verus!
