//! The conversions: an epoch value to date-time text, date-time text to an
//! epoch value, and a given moment to either.

use crate::instant::{civil_fields, in_range, resolve, Fields, Instant};
use crate::registry::{
    accepted_items, auto_detect_order, canonical_items, detection_items, item_lists,
    parse_templates, render_template, FormatName,
};
use crate::render::write_template;
use crate::scan::read_template;
use crate::template::{match_template, Item};
use crate::text::{chars_of, decimal_of, decimal_text, parse_decimal, parse_i64, string_of};
use vstd::prelude::*;

verus! {

/// What one unit of an epoch value counts.
#[derive(Clone, Copy, Debug, PartialEq, Eq, Structural)]
pub enum Unit {
    Seconds,
    Milliseconds,
}

/// Why a conversion gave no result.
#[derive(Clone, Copy, Debug, PartialEq, Eq, Structural)]
pub enum ErrorKind {
    /// The input is not the numeral of a signed 64-bit integer.
    InvalidNumber,
    /// The unit is none of those known.
    InvalidUnit,
    /// The mode is none of those known.
    InvalidMode,
    /// The format name is none of those known.
    InvalidFormat,
    /// The epoch value names no date-time of the calendar.
    OutOfRange,
    /// The input matches none of the templates of the declared format.
    FormatMismatch(FormatName),
    /// The input matches none of the templates that are tried without a declared format.
    UnrecognizedFormat,
}

/// The point in time that a text names by a template, in milliseconds from
/// the epoch: the template matches and the fields it reads resolve.
pub open spec fn template_instant(items: Seq<Item>, text: Seq<char>) -> Option<int> {
    match match_template(items, text) {
        Some(f) => resolve(f),
        None => None,
    }
}

/// The first template from `k` on by which the text names a point in time,
/// as its place in the list and that point in time.
pub open spec fn first_match(templates: Seq<Seq<Item>>, text: Seq<char>, k: int) -> Option<
    (int, int),
>
    decreases templates.len() - k,
{
    if k < 0 || k >= templates.len() {
        None
    } else {
        match template_instant(templates[k], text) {
            Some(millis) => Some((k, millis)),
            None => first_match(templates, text, k + 1),
        }
    }
}

/// Whole seconds of a count of milliseconds, the rest dropped towards zero.
pub open spec fn whole_seconds(millis: int) -> int {
    if millis >= 0 {
        millis / 1000
    } else {
        -((-millis) / 1000)
    }
}

/// The epoch value of a point in time in a unit.
pub open spec fn epoch_value(millis: int, unit: Unit) -> int {
    match unit {
        Unit::Seconds => whole_seconds(millis),
        Unit::Milliseconds => millis,
    }
}

/// Milliseconds of an epoch value in a unit.
pub open spec fn epoch_millis(value: int, unit: Unit) -> int {
    match unit {
        Unit::Seconds => value * 1000,
        Unit::Milliseconds => value,
    }
}

/// The format that is used where none is declared.
pub open spec fn format_or_default(format: Option<FormatName>) -> FormatName {
    match format {
        Some(name) => name,
        None => FormatName::LocalReadable,
    }
}

/// The text of a point in time in a format. Only `LocalReadable` shows the
/// wall clock of the caller's zone, `local_offset_seconds` ahead of UTC; every
/// other format shows UTC.
pub open spec fn rendered(millis: int, name: FormatName, local_offset_seconds: int) -> Result<
    Seq<char>,
    ErrorKind,
> {
    let shown = if name == FormatName::LocalReadable {
        millis + local_offset_seconds * 1000
    } else {
        millis
    };
    if in_range(millis) && in_range(shown) {
        Ok(crate::template::render_template(canonical_items(name), civil_fields(shown)))
    } else {
        Err(ErrorKind::OutOfRange)
    }
}

/// The point in time of an epoch value given as a decimal numeral, in
/// milliseconds from the epoch.
pub open spec fn instant_of_numeral(input: Seq<char>, unit: Unit) -> Result<int, ErrorKind> {
    match parse_decimal(input) {
        None => Err(ErrorKind::InvalidNumber),
        Some(value) => if in_range(epoch_millis(value, unit)) {
            Ok(epoch_millis(value, unit))
        } else {
            Err(ErrorKind::OutOfRange)
        },
    }
}

/// What `timestamp_to_time` returns.
pub open spec fn timestamp_to_time_text(
    input: Seq<char>,
    unit: Unit,
    format: Option<FormatName>,
    local_offset_seconds: int,
) -> Result<Seq<char>, ErrorKind> {
    match instant_of_numeral(input, unit) {
        Err(e) => Err(e),
        Ok(millis) => rendered(millis, format_or_default(format), local_offset_seconds),
    }
}

/// The templates that are tried for a declared format, or for none.
pub open spec fn tried_items(format: Option<FormatName>) -> Seq<Seq<Item>> {
    match format {
        Some(name) => accepted_items(name),
        None => detection_items(),
    }
}

/// What `time_to_timestamp` returns.
pub open spec fn time_to_timestamp_text(input: Seq<char>, unit: Unit, format: Option<FormatName>)
    -> Result<Seq<char>, ErrorKind> {
    match first_match(tried_items(format), input, 0) {
        Some((_, millis)) => Ok(decimal_text(epoch_value(millis, unit))),
        None => match format {
            Some(name) => Err(ErrorKind::FormatMismatch(name)),
            None => Err(ErrorKind::UnrecognizedFormat),
        },
    }
}

/// A result with its text as a sequence of characters.
pub open spec fn text_of(r: Result<String, ErrorKind>) -> Result<Seq<char>, ErrorKind> {
    match r {
        Ok(s) => Ok(s@),
        Err(e) => Err(e),
    }
}

/// The point in time that a text names by a template.
pub fn read_instant(items: &Vec<Item>, text: &Vec<char>) -> (r: Option<Instant>)
    ensures
        r.is_some() == template_instant(items@, text@).is_some(),
        r matches Some(t) ==> template_instant(items@, text@) == Some(t@),
{
    match read_template(items, text) {
        Some(f) => Instant::from_fields(&f),
        None => None,
    }
}

/// The first template of a list by which the text names a point in time:
/// its place in the list and the point in time. No template before it does so.
pub fn match_first(templates: &Vec<Vec<Item>>, text: &Vec<char>) -> (r: Option<(usize, Instant)>)
    ensures
        r.is_some() == first_match(item_lists(templates@), text@, 0).is_some(),
        r matches Some(hit) ==> first_match(item_lists(templates@), text@, 0) == Some(
            (hit.0 as int, hit.1@),
        ),
        r matches Some(hit) ==> hit.0 < templates.len() && template_instant(
            templates@[hit.0 as int]@,
            text@,
        ) == Some(hit.1@) && forall|j: int|
            0 <= j < hit.0 ==> template_instant(#[trigger] templates@[j]@, text@).is_none(),
        r.is_none() ==> forall|j: int|
            0 <= j < templates.len() ==> template_instant(#[trigger] templates@[j]@, text@).is_none(),
{
    let ghost lists = item_lists(templates@);
    let mut k: usize = 0;
    while k < templates.len()
        invariant
            k <= templates.len(),
            lists == item_lists(templates@),
            first_match(lists, text@, 0) == first_match(lists, text@, k as int),
            forall|j: int| 0 <= j < k ==> template_instant(#[trigger] templates@[j]@, text@).is_none(),
        decreases templates.len() - k,
    {
        assert(lists[k as int] == templates@[k as int]@);
        match read_instant(&templates[k], text) {
            Some(t) => {
                return Some((k, t));
            },
            None => {},
        }
        k = k + 1;
    }
    None
}

fn seconds_of(millis: i64) -> (r: i64)
    requires
        in_range(millis as int),
    ensures
        r == whole_seconds(millis as int),
{
    if millis >= 0 {
        millis / 1000
    } else {
        -((-millis) / 1000)
    }
}

fn value_in(t: &Instant, unit: Unit) -> (r: i64)
    ensures
        r == epoch_value(t@, unit),
{
    let millis: i64 = t.millis();
    match unit {
        Unit::Seconds => seconds_of(millis),
        Unit::Milliseconds => millis,
    }
}

/// The text of a point in time in a format.
pub fn render_instant(t: &Instant, name: FormatName, local_offset_seconds: i32) -> (r: Result<
    String,
    ErrorKind,
>)
    ensures
        text_of(r) == rendered(t@, name, local_offset_seconds as int),
{
    let fields: Fields = match name {
        FormatName::LocalReadable => match t.shifted(local_offset_seconds) {
            Some(shown) => shown.fields(),
            None => {
                return Err(ErrorKind::OutOfRange);
            },
        },
        _ => t.fields(),
    };
    let template: Vec<Item> = render_template(name);
    let text: Vec<char> = write_template(&template, &fields);
    Ok(string_of(&text))
}

/// The point in time of an epoch value given as a decimal numeral in `unit`.
pub fn read_epoch(input: &str, unit: Unit) -> (r: Result<Instant, ErrorKind>)
    ensures
        r.is_ok() == instant_of_numeral(input@, unit).is_ok(),
        r matches Ok(t) ==> instant_of_numeral(input@, unit) == Ok::<int, ErrorKind>(t@),
        r matches Err(e) ==> instant_of_numeral(input@, unit) == Err::<int, ErrorKind>(e),
{
    let digits: Vec<char> = chars_of(input);
    let value: i64 = match parse_i64(&digits) {
        Some(value) => value,
        None => {
            return Err(ErrorKind::InvalidNumber);
        },
    };
    let millis: i64 = match unit {
        Unit::Seconds => match value.checked_mul(1000) {
            Some(millis) => millis,
            None => {
                return Err(ErrorKind::OutOfRange);
            },
        },
        Unit::Milliseconds => value,
    };
    match Instant::from_millis(millis) {
        Some(t) => Ok(t),
        None => Err(ErrorKind::OutOfRange),
    }
}

/// Renders an epoch value, given as a decimal numeral in `unit`, as date-time
/// text in `format`, or in `LocalReadable` where none is declared. The wall
/// clock of `LocalReadable` is `local_offset_seconds` ahead of UTC.
pub fn timestamp_to_time(
    input: &str,
    unit: Unit,
    format: Option<FormatName>,
    local_offset_seconds: i32,
) -> (r: Result<String, ErrorKind>)
    ensures
        text_of(r) == timestamp_to_time_text(input@, unit, format, local_offset_seconds as int),
{
    let t: Instant = match read_epoch(input, unit) {
        Ok(t) => t,
        Err(e) => {
            return Err(e);
        },
    };
    let name: FormatName = match format {
        Some(name) => name,
        None => FormatName::LocalReadable,
    };
    render_instant(&t, name, local_offset_seconds)
}

/// Reads date-time text by the templates of `format`, or by those of the
/// detection order where none is declared, and gives the epoch value of the
/// first match as a decimal numeral in `unit`.
pub fn time_to_timestamp(input: &str, unit: Unit, format: Option<FormatName>) -> (r: Result<
    String,
    ErrorKind,
>)
    ensures
        text_of(r) == time_to_timestamp_text(input@, unit, format),
{
    let text: Vec<char> = chars_of(input);
    let templates: Vec<Vec<Item>> = match format {
        Some(name) => parse_templates(name),
        None => auto_detect_order(),
    };
    match match_first(&templates, &text) {
        Some(hit) => {
            let numeral: Vec<char> = decimal_of(value_in(&hit.1, unit));
            Ok(string_of(&numeral))
        },
        None => match format {
            Some(name) => Err(ErrorKind::FormatMismatch(name)),
            None => Err(ErrorKind::UnrecognizedFormat),
        },
    }
}

} // verus!
