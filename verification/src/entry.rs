//! Log records and the frame that carries one to a viewer.

use vstd::prelude::*;
use vstd::string::*;
use crate::json::{encode_items, items_text, json_string, json_string_text};
use crate::level::LogLevel;
use crate::number::is_digit;
use crate::stack::{build_clean_stacktrace, capture_frames, clean_trace_text, has_external, StackFrame};
use crate::text::{decimal_text, push_decimal};
use crate::value::StructuredValue;

verus! {

/// Where a log call was made, and by which service.
#[derive(Debug, Clone)]
pub struct LogMetadata {
    pub file: Option<String>,
    pub line: Option<u32>,
    pub function: Option<String>,
    pub lang: String,
    pub service: String,
}

/// One log record, as it is sent to the connected viewers.
#[derive(Debug, Clone)]
pub struct LogEntry {
    pub id: String,
    pub timestamp: String,
    pub level: LogLevel,
    pub args: Vec<StructuredValue>,
    pub stacktrace: Option<String>,
    pub metadata: LogMetadata,
}

/// The characters of an optional string.
pub open spec fn text_of(s: Option<String>) -> Option<Seq<char>> {
    match s {
        Some(t) => Some(t@),
        None => None,
    }
}

/// The characters of an optional string slice.
pub open spec fn slice_text_of(s: Option<&str>) -> Option<Seq<char>> {
    match s {
        Some(t) => Some(t@),
        None => None,
    }
}

/// The JSON text of an optional string: its literal, or `null`.
pub open spec fn optional_string_text(s: Option<Seq<char>>) -> Seq<char> {
    match s {
        Some(t) => json_string_text(t),
        None => "null"@,
    }
}

/// The JSON text of an optional line number: its numeral, or `null`.
pub open spec fn optional_line_text(line: Option<u32>) -> Seq<char> {
    match line {
        Some(l) => decimal_text(l as nat),
        None => "null"@,
    }
}

impl LogMetadata {
    /// The metadata of a call made by `service` at the given place.
    pub open spec fn describes(
        self,
        service: Seq<char>,
        file: Option<Seq<char>>,
        line: Option<u32>,
        function: Option<Seq<char>>,
    ) -> bool {
        &&& text_of(self.file) == file
        &&& self.line == line
        &&& text_of(self.function) == function
        &&& self.lang@ == "rust"@
        &&& self.service@ == service
    }

    /// The JSON object that carries the metadata.
    pub open spec fn json_text(self) -> Seq<char> {
        "{\"file\":"@ + optional_string_text(text_of(self.file)) + ",\"line\":"@
            + optional_line_text(self.line) + ",\"func\":"@ + optional_string_text(
            text_of(self.function),
        ) + ",\"lang\":"@ + json_string_text(self.lang@) + ",\"service\":"@ + json_string_text(
            self.service@,
        ) + "}"@
    }

    /// Encodes the metadata as a JSON object.
    pub fn to_json(&self) -> (r: String)
        ensures
            r@ == self.json_text(),
    {
        let mut out = String::from_str("{\"file\":");
        push_optional_string(&mut out, &self.file);
        out.append(",\"line\":");
        match self.line {
            Some(l) => push_decimal(&mut out, l as u64),
            None => out.append("null"),
        }
        out.append(",\"func\":");
        push_optional_string(&mut out, &self.function);
        out.append(",\"lang\":");
        push_string(&mut out, self.lang.as_str());
        out.append(",\"service\":");
        push_string(&mut out, self.service.as_str());
        out.append("}");
        assert(out@ =~= self.json_text());
        out
    }
}

/// Appends the JSON string literal of `s` to `out`.
pub fn push_string(out: &mut String, s: &str)
    ensures
        final(out)@ == old(out)@ + json_string_text(s@),
{
    let literal = json_string(s);
    out.append(literal.as_str());
}

/// Appends the JSON text of an optional string to `out`.
pub fn push_optional_string(out: &mut String, s: &Option<String>)
    ensures
        final(out)@ == old(out)@ + optional_string_text(text_of(*s)),
{
    match s {
        Some(t) => push_string(out, t.as_str()),
        None => out.append("null"),
    }
}

/// A lower-case hexadecimal digit.
pub open spec fn is_lower_hex(c: char) -> bool {
    is_digit(c) || c == 'a' || c == 'b' || c == 'c' || c == 'd' || c == 'e' || c == 'f'
}

/// The text of a random identifier: 32 lower-case hexadecimal digits in
/// groups of 8, 4, 4, 4 and 12 with hyphens between them, where the third
/// group begins with the version, 4, and the fourth with the variant, one of
/// 8, 9, a and b.
pub open spec fn is_identifier_text(s: Seq<char>) -> bool {
    &&& s.len() == 36
    &&& forall|i: int|
        0 <= i < 36 ==> if i == 8 || i == 13 || i == 18 || i == 23 {
            #[trigger] s[i] == '-'
        } else {
            is_lower_hex(s[i])
        }
    &&& s[14] == '4'
    &&& (s[19] == '8' || s[19] == '9' || s[19] == 'a' || s[19] == 'b')
}

/// The text of a time in UTC to the millisecond: a year of four characters
/// or more, then `-MM-DDTHH:MM:SS.mmmZ`.
pub open spec fn is_timestamp_text(s: Seq<char>) -> bool {
    let n = s.len() as int;
    &&& n >= 24
    &&& s[n - 20] == '-'
    &&& is_digit(s[n - 19]) && is_digit(s[n - 18])
    &&& s[n - 17] == '-'
    &&& is_digit(s[n - 16]) && is_digit(s[n - 15])
    &&& s[n - 14] == 'T'
    &&& is_digit(s[n - 13]) && is_digit(s[n - 12])
    &&& s[n - 11] == ':'
    &&& is_digit(s[n - 10]) && is_digit(s[n - 9])
    &&& s[n - 8] == ':'
    &&& is_digit(s[n - 7]) && is_digit(s[n - 6])
    &&& s[n - 5] == '.'
    &&& is_digit(s[n - 4]) && is_digit(s[n - 3]) && is_digit(s[n - 2])
    &&& s[n - 1] == 'Z'
}

/// Draws a random identifier with `uuid::Uuid::new_v4` and renders it with
/// `to_string`: in the hyphenated lower-case form, with the version and the
/// variant that `new_v4` sets. Which digits the other places hold depends
/// on chance. The call panics where the system gives no random bytes.
#[verifier::external_body]
fn fresh_id() -> (id: String)
    ensures
        is_identifier_text(id@),
{
    uuid::Uuid::new_v4().to_string()
}

/// Reads the clock with `chrono::Utc::now` and renders the time with
/// `to_rfc3339_opts`, to the millisecond and with `Z` for the offset: the
/// year, then month, day, hour, minute and second of two digits each, three
/// digits of milliseconds, and `Z`. Which time it is depends on the clock.
/// The call panics where the clock stands before the Unix epoch.
#[verifier::external_body]
fn timestamp_now() -> (text: String)
    ensures
        is_timestamp_text(text@),
{
    chrono::Utc::now().to_rfc3339_opts(chrono::SecondsFormat::Millis, true)
}

/// An owned copy of an optional string slice.
pub fn owned_text(s: Option<&str>) -> (r: Option<String>)
    ensures
        text_of(r) == slice_text_of(s),
{
    match s {
        Some(t) => Some(String::from_str(t)),
        None => None,
    }
}

impl LogEntry {
    /// The record holds the given level and arguments, and the metadata of a
    /// call made by `service` at the given place.
    pub open spec fn records(
        self,
        level: LogLevel,
        args: Vec<StructuredValue>,
        service: Seq<char>,
        file: Option<Seq<char>>,
        line: Option<u32>,
        function: Option<Seq<char>>,
    ) -> bool {
        &&& self.level == level
        &&& self.args == args
        &&& self.metadata.describes(service, file, line, function)
    }

    /// The part of the frame that carries the stack trace: empty where there
    /// is none.
    pub open spec fn stacktrace_text(self) -> Seq<char> {
        match self.stacktrace {
            Some(t) => ",\"stacktrace\":"@ + json_string_text(t@),
            None => Seq::empty(),
        }
    }

    /// The frame of the record: one compact JSON document.
    pub open spec fn frame_text(self) -> Seq<char> {
        "{\"id\":"@ + json_string_text(self.id@) + ",\"timestamp\":"@ + json_string_text(
            self.timestamp@,
        ) + ",\"level\":\""@ + self.level.name() + "\",\"args\":["@ + items_text(
            self.args@,
        ) + "]"@ + self.stacktrace_text() + ",\"metadata\":"@ + self.metadata.json_text() + "}"@
    }

    /// Puts a record together from its parts.
    pub fn assemble(
        level: LogLevel,
        args: Vec<StructuredValue>,
        service_name: &str,
        file: Option<&str>,
        line: Option<u32>,
        function: Option<&str>,
        id: String,
        timestamp: String,
        stacktrace: String,
    ) -> (r: LogEntry)
        ensures
            r.records(
                level,
                args,
                service_name@,
                slice_text_of(file),
                line,
                slice_text_of(function),
            ),
            r.id == id,
            r.timestamp == timestamp,
            r.stacktrace == Some(stacktrace),
    {
        LogEntry {
            id,
            timestamp,
            level,
            args,
            stacktrace: Some(stacktrace),
            metadata: LogMetadata {
                file: owned_text(file),
                line,
                function: owned_text(function),
                lang: String::from_str("rust"),
                service: String::from_str(service_name),
            },
        }
    }

    /// Creates a record for a log call made now, whose captured stack is
    /// `frames`: with a fresh identifier, the current time, and the clean
    /// trace of the stack; where the stack has no frame to show, the trace
    /// is that of a second capture, unfiltered.
    pub fn with_frames(
        frames: &Vec<StackFrame>,
        level: LogLevel,
        args: Vec<StructuredValue>,
        service_name: &str,
        file: Option<&str>,
        line: Option<u32>,
        function: Option<&str>,
    ) -> (r: LogEntry)
        ensures
            r.records(
                level,
                args,
                service_name@,
                slice_text_of(file),
                line,
                slice_text_of(function),
            ),
            is_identifier_text(r.id@),
            is_timestamp_text(r.timestamp@),
            r.stacktrace is Some,
            has_external(frames@) ==> r.stacktrace->0@ == clean_trace_text(frames@),
    {
        let stacktrace = build_clean_stacktrace(frames);
        let id = fresh_id();
        let timestamp = timestamp_now();
        LogEntry::assemble(
            level,
            args,
            service_name,
            file,
            line,
            function,
            id,
            timestamp,
            stacktrace,
        )
    }

    /// Creates a record for a log call made now: with a fresh identifier, the
    /// current time and the clean stack trace of the caller.
    pub fn new(
        level: LogLevel,
        args: Vec<StructuredValue>,
        service_name: &str,
        file: Option<&str>,
        line: Option<u32>,
        function: Option<&str>,
    ) -> (r: LogEntry)
        ensures
            r.records(
                level,
                args,
                service_name@,
                slice_text_of(file),
                line,
                slice_text_of(function),
            ),
            is_identifier_text(r.id@),
            is_timestamp_text(r.timestamp@),
            r.stacktrace is Some,
    {
        let frames = capture_frames();
        LogEntry::with_frames(&frames, level, args, service_name, file, line, function)
    }

    /// Encodes the record as its frame.
    pub fn to_frame(&self) -> (r: String)
        ensures
            r@ == self.frame_text(),
    {
        let mut out = String::from_str("{\"id\":");
        push_string(&mut out, self.id.as_str());
        out.append(",\"timestamp\":");
        push_string(&mut out, self.timestamp.as_str());
        out.append(",\"level\":\"");
        out.append(self.level.as_str());
        out.append("\",\"args\":[");
        let args = encode_items(&self.args);
        out.append(args.as_str());
        out.append("]");
        match &self.stacktrace {
            Some(t) => {
                out.append(",\"stacktrace\":");
                push_string(&mut out, t.as_str());
            },
            None => {},
        }
        out.append(",\"metadata\":");
        let metadata = self.metadata.to_json();
        out.append(metadata.as_str());
        out.append("}");
        assert(out@ =~= self.frame_text());
        out
    }
}

} // verus!
