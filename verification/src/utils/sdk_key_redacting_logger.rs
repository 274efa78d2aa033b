//! Log lines without keys.
//!
//! Requests carry keys in their paths and queries, and the web server logs paths
//! and queries that it has no route for. So every line is redacted on its way out,
//! and keeps the shape that the web server gives its lines.

use crate::servers::sdk_key_normalizer;
use crate::text;
use std::borrow::Cow;
use vstd::prelude::*;

verus! {

/// How important a record is.
#[derive(Debug, Clone, Copy, PartialEq, Eq, Structural)]
pub enum LogLevel {
    Error,
    Warn,
    Info,
    Debug,
    Trace,
}

/// The least important records that are logged.
#[derive(Debug, Clone, Copy, PartialEq, Eq, Structural)]
pub enum LogLevelFilter {
    Off,
    UpTo(LogLevel),
}

/// A record to log.
#[derive(Debug)]
pub struct LogRecord {
    pub level: LogLevel,
    pub target: String,
    pub source_module: Option<String>,
    pub file: Option<String>,
    pub line: Option<u32>,
    pub message: String,
}

/// Where lines go. A sink is given lines of records alone, from which the keys are
/// gone.
pub trait LogSink {
    fn write_line(&self, line: &str)
        requires
            exists|r: LogRecord| line@ == #[trigger] line_of(r),
    ;
}

/// Logs records without keys.
pub struct SdkKeyRedactingLogger<S: LogSink> {
    sink: S,
}

/// The order of levels, the most important first.
pub open spec fn rank(level: LogLevel) -> int {
    match level {
        LogLevel::Error => 1,
        LogLevel::Warn => 2,
        LogLevel::Info => 3,
        LogLevel::Debug => 4,
        LogLevel::Trace => 5,
    }
}

/// The order of filters, the strictest first.
pub open spec fn filter_rank(filter: LogLevelFilter) -> int {
    match filter {
        LogLevelFilter::Off => 0,
        LogLevelFilter::UpTo(level) => rank(level),
    }
}

/// Whether a module is about transport.
pub open spec fn is_transport(source_module: Option<Seq<char>>) -> bool {
    match source_module {
        Some(m) => text::has_prefix(m, "hyper"@) || text::has_prefix(m, "rustls"@)
            || text::has_prefix(m, "r2d2"@),
        None => false,
    }
}

/// Whether a record is left out: transport is logged only where everything is.
pub open spec fn is_hidden(r: LogRecord, max_level: LogLevelFilter) -> bool {
    filter_rank(max_level) < rank(LogLevel::Trace) && is_transport(text::text_option(r.source_module))
}

/// The line of a record. A target that ends in an underscore marks a line that
/// continues the one before.
pub open spec fn line_of(r: LogRecord) -> Seq<char> {
    let message = sdk_key_normalizer::redacted(r.message@);
    if text::has_suffix(r.target@, "_"@) {
        "   >> "@ + message
    } else {
        match r.level {
            LogLevel::Error => "Error: "@ + message,
            LogLevel::Warn => "Warning: "@ + message,
            LogLevel::Debug => match (r.file, r.line) {
                (Some(file), Some(line)) => "--> "@ + file@ + ":"@ + text::decimal(line as nat)
                    + "\n\t"@ + message,
                _ => message,
            },
            _ => message,
        }
    }
}

fn rank_of(level: LogLevel) -> (r: u8)
    ensures
        r == rank(level),
{
    match level {
        LogLevel::Error => 1,
        LogLevel::Warn => 2,
        LogLevel::Info => 3,
        LogLevel::Debug => 4,
        LogLevel::Trace => 5,
    }
}

fn filter_rank_of(filter: LogLevelFilter) -> (r: u8)
    ensures
        r == filter_rank(filter),
{
    match filter {
        LogLevelFilter::Off => 0,
        LogLevelFilter::UpTo(level) => rank_of(level),
    }
}

/// Whether records of a level are logged.
pub fn is_enabled(level: LogLevel, max_level: LogLevelFilter) -> (r: bool)
    ensures
        r == (rank(level) <= filter_rank(max_level)),
{
    rank_of(level) <= filter_rank_of(max_level)
}

/// The line to log for a record, if any.
pub fn format_record(record: &LogRecord, max_level: LogLevelFilter) -> (r: Option<String>)
    ensures
        text::text_option(r) == if is_hidden(*record, max_level) {
            None
        } else {
            Some(line_of(*record))
        },
{
    if filter_rank_of(max_level) < rank_of(LogLevel::Trace) {
        if let Some(m) = &record.source_module {
            if text::starts_with(m.as_str(), "hyper") || text::starts_with(m.as_str(), "rustls")
                || text::starts_with(m.as_str(), "r2d2") {
                return None;
            }
        }
    }
    let redacted = sdk_key_normalizer::redact_sdk_keys(record.message.as_str());
    let indented = text::ends_with(record.target.as_str(), "_");
    let mut line = String::new();
    if indented {
        line.append("   >> ");
    } else {
        match record.level {
            LogLevel::Error => line.append("Error: "),
            LogLevel::Warn => line.append("Warning: "),
            LogLevel::Debug => {
                if let (Some(file), Some(number)) = (&record.file, record.line) {
                    line.append("--> ");
                    line.append(file.as_str());
                    line.append(":");
                    text::push_decimal(&mut line, number as u64);
                    line.append("\n\t");
                }
            },
            _ => {},
        }
    }
    match redacted {
        Cow::Borrowed(message) => line.append(message),
        Cow::Owned(message) => line.append(message.as_str()),
    }
    assert(line@ =~= line_of(*record));
    Some(line)
}

impl<S: LogSink> SdkKeyRedactingLogger<S> {
    pub closed spec fn sink(&self) -> S {
        self.sink
    }

    pub fn new(sink: S) -> (r: Self)
        ensures
            r.sink() == sink,
    {
        SdkKeyRedactingLogger { sink }
    }

    /// Writes the line of a record, and tells whether there was one.
    pub fn log(&self, record: &LogRecord, max_level: LogLevelFilter) -> (r: bool)
        ensures
            r == !is_hidden(*record, max_level),
    {
        match format_record(record, max_level) {
            Some(line) => {
                self.sink.write_line(line.as_str());
                true
            },
            None => false,
        }
    }
}

/// Levels are ordered from errors to traces, and nothing is let through where logs are off.
pub proof fn law_levels_are_ordered(level: LogLevel)
    ensures
        rank(LogLevel::Error) < rank(LogLevel::Warn) < rank(LogLevel::Info) < rank(
            LogLevel::Debug,
        ) < rank(LogLevel::Trace),
        filter_rank(LogLevelFilter::Off) < rank(level),
        filter_rank(LogLevelFilter::UpTo(level)) == rank(level),
{
}

/// The modules of the transport are hidden unless everything is traced, and no other module
/// ever is.
pub proof fn law_the_transport_is_hidden(r: LogRecord, max_level: LogLevelFilter, rest: Seq<char>)
    ensures
        is_hidden(r, LogLevelFilter::UpTo(LogLevel::Trace)) == false,
        max_level != LogLevelFilter::UpTo(LogLevel::Trace) ==> (is_hidden(r, max_level)
            <==> is_transport(text::text_option(r.source_module))),
        is_transport(Some("hyper"@ + rest)),
        is_transport(Some("rustls"@ + rest)),
        is_transport(Some("r2d2"@ + rest)),
        !is_transport(None),
{
    text::law_texts_start_and_end("hyper"@, rest, rest);
    text::law_texts_start_and_end("rustls"@, rest, rest);
    text::law_texts_start_and_end("r2d2"@, rest, rest);
}

/// A line ends with its message, in which keys are redacted, and errors and warnings are
/// marked as such.
pub proof fn law_lines_end_with_the_redacted_message(r: LogRecord)
    ensures
        text::has_suffix(line_of(r), sdk_key_normalizer::redacted(r.message@)),
        r.level == LogLevel::Error && !text::has_suffix(r.target@, "_"@) ==> line_of(r) == "Error: "@
            + sdk_key_normalizer::redacted(r.message@),
        r.level == LogLevel::Warn && !text::has_suffix(r.target@, "_"@) ==> line_of(r)
            == "Warning: "@ + sdk_key_normalizer::redacted(r.message@),
        (r.level == LogLevel::Info || r.level == LogLevel::Trace) && !text::has_suffix(
            r.target@,
            "_"@,
        ) ==> line_of(r) == sdk_key_normalizer::redacted(r.message@),
{
    let m = sdk_key_normalizer::redacted(r.message@);
    let l = line_of(r);
    assert(l.skip(l.len() - m.len()) =~= m);
}

} // verus!
