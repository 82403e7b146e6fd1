//! Requests as a caller sends them, with every field as text, and the
//! responses that go back.

use crate::engine::{
    format_or_default, instant_of_numeral, read_epoch, render_instant, rendered,
    time_to_timestamp, time_to_timestamp_text, timestamp_to_time, timestamp_to_time_text,
    whole_seconds, ErrorKind, Unit,
};
use crate::instant::Instant;
use crate::registry::{format_name_text, format_of_text, FormatName};
use crate::text::{decimal_of, decimal_text, same_text, string_of};
use vstd::prelude::*;
use vstd::string::StringExecFns;

verus! {

/// Which way a request converts.
#[derive(Clone, Copy, Debug, PartialEq, Eq, Structural)]
pub enum Mode {
    TimestampToTime,
    TimeToTimestamp,
}

pub struct TimestampConversionRequest {
    pub input: String,
    pub mode: String,
    pub unit: String,
    pub format: Option<String>,
}

pub struct TimestampConversionResponse {
    pub success: bool,
    pub result: Option<String>,
    pub error: Option<String>,
}

pub open spec fn unit_of_text(text: Seq<char>) -> Option<Unit> {
    if text == "seconds"@ {
        Some(Unit::Seconds)
    } else if text == "milliseconds"@ {
        Some(Unit::Milliseconds)
    } else {
        None
    }
}

pub open spec fn mode_of_text(text: Seq<char>) -> Option<Mode> {
    if text == "timestamp-to-time"@ {
        Some(Mode::TimestampToTime)
    } else if text == "time-to-timestamp"@ {
        Some(Mode::TimeToTimestamp)
    } else {
        None
    }
}

/// The format that a request declares: none where it names none, and an error
/// where the name is none of those known.
pub open spec fn declared_format(format: Option<Seq<char>>) -> Result<
    Option<FormatName>,
    ErrorKind,
> {
    match format {
        None => Ok(None),
        Some(text) => match format_of_text(text) {
            Some(name) => Ok(Some(name)),
            None => Err(ErrorKind::InvalidFormat),
        },
    }
}

/// The message that a response carries for an error.
pub open spec fn message_text(e: ErrorKind) -> Seq<char> {
    match e {
        ErrorKind::InvalidNumber => "Invalid number"@,
        ErrorKind::InvalidUnit => "Invalid unit"@,
        ErrorKind::InvalidMode => "Invalid mode"@,
        ErrorKind::InvalidFormat => "Invalid format"@,
        ErrorKind::OutOfRange => "Timestamp out of range"@,
        ErrorKind::FormatMismatch(name) => "Input does not match format "@ + format_name_text(
            name,
        ),
        ErrorKind::UnrecognizedFormat =>
            "Unrecognized date format; supported: local-readable, utc-readable, rfc3339, iso8601-basic, iso8601-extended, rfc2822, and dates with strokes"@,
    }
}

/// What a request comes to: the mode is looked at first, then the unit, then
/// the format name, and only then the input.
pub open spec fn outcome(
    input: Seq<char>,
    mode: Seq<char>,
    unit: Seq<char>,
    format: Option<Seq<char>>,
    local_offset_seconds: int,
) -> Result<Seq<char>, ErrorKind> {
    match mode_of_text(mode) {
        None => Err(ErrorKind::InvalidMode),
        Some(m) => match unit_of_text(unit) {
            None => Err(ErrorKind::InvalidUnit),
            Some(u) => match declared_format(format) {
                Err(e) => Err(e),
                Ok(f) => match m {
                    Mode::TimestampToTime => timestamp_to_time_text(
                        input,
                        u,
                        f,
                        local_offset_seconds,
                    ),
                    Mode::TimeToTimestamp => time_to_timestamp_text(input, u, f),
                },
            },
        },
    }
}

/// What `current_time` returns: the bare epoch value for the units `seconds`
/// and `milliseconds`, and the text of the moment for the unit `formatted`.
pub open spec fn current_time_text(
    now_millis: int,
    unit: Seq<char>,
    format: Option<Seq<char>>,
    local_offset_seconds: int,
) -> Result<Seq<char>, ErrorKind> {
    if unit == "seconds"@ {
        Ok(decimal_text(whole_seconds(now_millis)))
    } else if unit == "milliseconds"@ {
        Ok(decimal_text(now_millis))
    } else if unit == "formatted"@ {
        match declared_format(format) {
            Err(e) => Err(e),
            Ok(Some(name)) => rendered(now_millis, name, local_offset_seconds),
            Ok(None) => rendered(now_millis, FormatName::LocalReadable, local_offset_seconds),
        }
    } else {
        Err(ErrorKind::InvalidUnit)
    }
}

pub open spec fn text_of_option(s: Option<String>) -> Option<Seq<char>> {
    match s {
        Some(s) => Some(s@),
        None => None,
    }
}

pub open spec fn text_of_str(s: Option<&str>) -> Option<Seq<char>> {
    match s {
        Some(s) => Some(s@),
        None => None,
    }
}

impl TimestampConversionResponse {
    /// Exactly one of the result and the error is there, the result on success.
    pub open spec fn well_formed(self) -> bool {
        &&& self.success == self.result.is_some()
        &&& self.success == self.error.is_none()
    }

    /// The response for an outcome: the text on success, the error's message otherwise.
    pub open spec fn answers(self, outcome: Result<Seq<char>, ErrorKind>) -> bool {
        match outcome {
            Ok(text) => self.success && text_of_option(self.result) == Some(text)
                && self.error.is_none(),
            Err(e) => !self.success && self.result.is_none() && text_of_option(self.error)
                == Some(message_text(e)),
        }
    }

    pub fn from_result(r: Result<String, ErrorKind>) -> (response: TimestampConversionResponse)
        ensures
            response.well_formed(),
            response.answers(crate::engine::text_of(r)),
    {
        match r {
            Ok(text) => TimestampConversionResponse {
                success: true,
                result: Some(text),
                error: None,
            },
            Err(e) => TimestampConversionResponse {
                success: false,
                result: None,
                error: Some(e.message()),
            },
        }
    }
}

impl Unit {
    pub fn from_name(text: &str) -> (r: Option<Unit>)
        ensures
            r == unit_of_text(text@),
    {
        if same_text(text, "seconds") {
            Some(Unit::Seconds)
        } else if same_text(text, "milliseconds") {
            Some(Unit::Milliseconds)
        } else {
            None
        }
    }
}

impl Mode {
    pub fn from_name(text: &str) -> (r: Option<Mode>)
        ensures
            r == mode_of_text(text@),
    {
        if same_text(text, "timestamp-to-time") {
            Some(Mode::TimestampToTime)
        } else if same_text(text, "time-to-timestamp") {
            Some(Mode::TimeToTimestamp)
        } else {
            None
        }
    }
}

impl ErrorKind {
    /// The message that a response carries for this error.
    pub fn message(&self) -> (s: String)
        ensures
            s@ == message_text(*self),
    {
        match self {
            ErrorKind::InvalidNumber => "Invalid number".to_owned(),
            ErrorKind::InvalidUnit => "Invalid unit".to_owned(),
            ErrorKind::InvalidMode => "Invalid mode".to_owned(),
            ErrorKind::InvalidFormat => "Invalid format".to_owned(),
            ErrorKind::OutOfRange => "Timestamp out of range".to_owned(),
            ErrorKind::FormatMismatch(name) => {
                let mut s: String = "Input does not match format ".to_owned();
                s.append(name.name());
                s
            },
            ErrorKind::UnrecognizedFormat =>
                "Unrecognized date format; supported: local-readable, utc-readable, rfc3339, iso8601-basic, iso8601-extended, rfc2822, and dates with strokes".to_owned(),
        }
    }
}

/// The format that a request declares.
pub fn declared(format: Option<&str>) -> (r: Result<Option<FormatName>, ErrorKind>)
    ensures
        r == declared_format(text_of_str(format)),
{
    match format {
        None => Ok(None),
        Some(text) => match FormatName::from_name(text) {
            Some(name) => Ok(Some(name)),
            None => Err(ErrorKind::InvalidFormat),
        },
    }
}

fn seconds_of_any(millis: i64) -> (r: i64)
    ensures
        r == whole_seconds(millis as int),
{
    if millis >= 0 {
        millis / 1000
    } else {
        let size: u64 = (-(millis + 1)) as u64 + 1;
        -((size / 1000) as i64)
    }
}

/// The moment `now_millis`, read from a clock by the caller, as a bare epoch
/// value in seconds or milliseconds, or as text in a format.
pub fn current_time(
    now_millis: i64,
    unit: &str,
    format: Option<&str>,
    local_offset_seconds: i32,
) -> (r: Result<String, ErrorKind>)
    ensures
        crate::engine::text_of(r) == current_time_text(
            now_millis as int,
            unit@,
            text_of_str(format),
            local_offset_seconds as int,
        ),
{
    if same_text(unit, "seconds") {
        Ok(string_of(&decimal_of(seconds_of_any(now_millis))))
    } else if same_text(unit, "milliseconds") {
        Ok(string_of(&decimal_of(now_millis)))
    } else if same_text(unit, "formatted") {
        let name: FormatName = match declared(format) {
            Err(e) => {
                return Err(e);
            },
            Ok(Some(name)) => name,
            Ok(None) => FormatName::LocalReadable,
        };
        match Instant::from_millis(now_millis) {
            Some(t) => render_instant(&t, name, local_offset_seconds),
            None => Err(ErrorKind::OutOfRange),
        }
    } else {
        Err(ErrorKind::InvalidUnit)
    }
}

fn as_text(s: &Option<String>) -> (r: Option<&str>)
    ensures
        text_of_str(r) == text_of_option(*s),
{
    match s {
        Some(s) => Some(s.as_str()),
        None => None,
    }
}

/// Answers a request for the current time.
pub fn get_current_time(
    now_millis: i64,
    local_offset_seconds: i32,
    unit: String,
    format: Option<String>,
) -> (response: TimestampConversionResponse)
    ensures
        response.well_formed(),
        response.answers(
            current_time_text(
                now_millis as int,
                unit@,
                text_of_option(format),
                local_offset_seconds as int,
            ),
        ),
{
    TimestampConversionResponse::from_result(
        current_time(now_millis, unit.as_str(), as_text(&format), local_offset_seconds),
    )
}

/// What a request comes to.
pub fn convert(request: &TimestampConversionRequest, local_offset_seconds: i32) -> (r: Result<
    String,
    ErrorKind,
>)
    ensures
        crate::engine::text_of(r) == outcome(
            request.input@,
            request.mode@,
            request.unit@,
            text_of_option(request.format),
            local_offset_seconds as int,
        ),
{
    let mode: Mode = match Mode::from_name(request.mode.as_str()) {
        Some(mode) => mode,
        None => {
            return Err(ErrorKind::InvalidMode);
        },
    };
    let unit: Unit = match Unit::from_name(request.unit.as_str()) {
        Some(unit) => unit,
        None => {
            return Err(ErrorKind::InvalidUnit);
        },
    };
    let format: Option<FormatName> = match declared(as_text(&request.format)) {
        Ok(format) => format,
        Err(e) => {
            return Err(e);
        },
    };
    match mode {
        Mode::TimestampToTime => timestamp_to_time(
            request.input.as_str(),
            unit,
            format,
            local_offset_seconds,
        ),
        Mode::TimeToTimestamp => time_to_timestamp(request.input.as_str(), unit, format),
    }
}

/// Answers a conversion request. Nothing but a response leaves: every error
/// becomes a response that carries its message.
pub fn convert_timestamp(request: TimestampConversionRequest, local_offset_seconds: i32) -> (response:
    TimestampConversionResponse)
    ensures
        response.well_formed(),
        response.answers(
            outcome(
                request.input@,
                request.mode@,
                request.unit@,
                text_of_option(request.format),
                local_offset_seconds as int,
            ),
        ),
{
    TimestampConversionResponse::from_result(convert(&request, local_offset_seconds))
}

/// The greeting for a name.
pub fn greet(name: &str) -> (s: String)
    ensures
        s@ == "Hello, "@ + name@ + "! You've been greeted from Rust!"@,
{
    let mut s: String = "Hello, ".to_owned();
    s.append(name);
    s.append("! You've been greeted from Rust!");
    s
}

/// The point in time whose local wall clock the answer to a request shows, in
/// milliseconds from the epoch: there is one where the request renders a
/// valid epoch value in `LocalReadable`, declared or by default. For every
/// other request the caller's zone has no part in the answer.
pub open spec fn wall_clock_shown(
    input: Seq<char>,
    mode: Seq<char>,
    unit: Seq<char>,
    format: Option<Seq<char>>,
) -> Option<int> {
    match (mode_of_text(mode), unit_of_text(unit), declared_format(format)) {
        (Some(Mode::TimestampToTime), Some(u), Ok(f)) => match instant_of_numeral(input, u) {
            Ok(millis) => if format_or_default(f) == FormatName::LocalReadable {
                Some(millis)
            } else {
                None
            },
            Err(_) => None,
        },
        _ => None,
    }
}

/// The point in time whose local wall clock the answer to the request shows.
/// A caller looks up the offset of its zone at that point in time and hands
/// it to `convert_timestamp`.
pub fn local_instant(request: &TimestampConversionRequest) -> (r: Option<i64>)
    ensures
        r.is_some() == wall_clock_shown(
            request.input@,
            request.mode@,
            request.unit@,
            text_of_option(request.format),
        ).is_some(),
        r matches Some(millis) ==> wall_clock_shown(
            request.input@,
            request.mode@,
            request.unit@,
            text_of_option(request.format),
        ) == Some(millis as int),
{
    match Mode::from_name(request.mode.as_str()) {
        Some(Mode::TimestampToTime) => {},
        _ => {
            return None;
        },
    }
    let unit: Unit = match Unit::from_name(request.unit.as_str()) {
        Some(unit) => unit,
        None => {
            return None;
        },
    };
    match declared(as_text(&request.format)) {
        Ok(None) => {},
        Ok(Some(FormatName::LocalReadable)) => {},
        _ => {
            return None;
        },
    }
    match read_epoch(request.input.as_str(), unit) {
        Ok(t) => Some(t.millis()),
        Err(_) => None,
    }
}

} // verus!
