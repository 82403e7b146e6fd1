//! Conversion between epoch timestamps and calendar date-time text.
//!
//! An epoch value (seconds or milliseconds since 1970-01-01T00:00:00Z) is
//! rendered through one of a closed set of named formats, and date-time text
//! is read back into an epoch value, either by a declared format or by trying
//! a fixed, ordered list of templates.
//!
//! The calendar is the proleptic Gregorian one over the years 0000 to 9999.
//! Nothing here reads a clock or a time zone: the moment and the offset of
//! the caller's zone are arguments.
//!
//! - [`calendar`], [`instant`]: dates, day numbers and points in time.
//! - [`text`]: characters, digits and decimal numerals.
//! - [`template`], [`scan`], [`render`]: what a template is, and reading and
//!   writing by one.
//! - [`registry`]: the named formats and the detection order.
//! - [`engine`], [`service`]: the conversions, and requests and responses.
//! - [`round_trip`], [`formats_round_trip`], [`detection`], [`laws`]: what is
//!   proved of them taken together.

pub mod calendar;
pub mod detection;
pub mod engine;
pub mod formats_round_trip;
pub mod instant;
pub mod laws;
pub mod registry;
pub mod render;
pub mod round_trip;
pub mod scan;
pub mod service;
pub mod template;
pub mod text;

pub use engine::{time_to_timestamp, timestamp_to_time, ErrorKind, Unit};
pub use instant::{Fields, Instant};
pub use registry::{auto_detect_order, parse_templates, render_template, FormatName};
pub use service::{
    convert_timestamp, current_time, get_current_time, TimestampConversionRequest,
    TimestampConversionResponse,
};
