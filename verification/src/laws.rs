//! What holds of the conversions taken together.

use crate::engine::{
    epoch_value, first_match, rendered, template_instant, time_to_timestamp_text,
    timestamp_to_time_text, tried_items, whole_seconds, ErrorKind, Unit,
};
use crate::detection::lemma_detected_reads_back;
use crate::formats_round_trip::{lemma_accepted_reads_back, lemma_stamp_flat};
use crate::instant::{civil_fields, in_range, lemma_civil_fields};
use crate::registry::{accepted_items, format_of_text, FormatName};
use crate::service::{
    current_time_text, mode_of_text, outcome, text_of_option, unit_of_text, wall_clock_shown,
    TimestampConversionResponse,
};
use crate::template::Item;
use crate::text::{decimal_text, lemma_decimal_round_trip};
use vstd::prelude::*;

verus! {

/// A point in time can be written in a format without loss: every one in
/// `Iso8601Extended`, which writes the milliseconds, and whole seconds in the
/// others.
pub open spec fn written_without_loss(name: FormatName, millis: int) -> bool {
    name == FormatName::Iso8601Extended || millis % 1000 == 0
}

/// `LocalReadable` writes the wall clock of the caller's zone and no offset,
/// and a text without offset is read as UTC: the two agree where the zone is UTC.
pub open spec fn read_as_written(name: FormatName, local_offset_seconds: int) -> bool {
    name == FormatName::LocalReadable ==> local_offset_seconds == 0
}

/// Round trip in milliseconds: the text of an epoch value in a format, read
/// by that format, gives the epoch value back in milliseconds, and its whole
/// seconds, dropped towards zero, in seconds.
pub proof fn law_round_trip(
    name: FormatName,
    millis: int,
    local_offset_seconds: int,
    unit: Unit,
)
    requires
        in_range(millis),
        written_without_loss(name, millis),
        read_as_written(name, local_offset_seconds),
    ensures
        timestamp_to_time_text(
            decimal_text(millis),
            Unit::Milliseconds,
            Some(name),
            local_offset_seconds,
        ) matches Ok(text) && time_to_timestamp_text(text, unit, Some(name)) == Ok::<
            Seq<char>,
            ErrorKind,
        >(decimal_text(epoch_value(millis, unit))),
{
    lemma_decimal_round_trip(millis);
    lemma_civil_fields(millis);
    let f = civil_fields(millis);
    assert(f.milli == millis % 86_400_000 % 1000);
    assert(millis % 86_400_000 % 1000 == millis % 1000) by {
        vstd::arithmetic::div_mod::lemma_mod_mod(millis, 1000, 86_400);
    }
    lemma_accepted_reads_back(name, f);
}

/// Round trip in seconds: the text of an epoch value in seconds in a format,
/// read by that format, gives the epoch value back.
pub proof fn law_round_trip_seconds(name: FormatName, seconds: int, local_offset_seconds: int)
    requires
        in_range(seconds * 1000),
        read_as_written(name, local_offset_seconds),
    ensures
        timestamp_to_time_text(
            decimal_text(seconds),
            Unit::Seconds,
            Some(name),
            local_offset_seconds,
        ) matches Ok(text) && time_to_timestamp_text(text, Unit::Seconds, Some(name)) == Ok::<
            Seq<char>,
            ErrorKind,
        >(decimal_text(seconds)),
{
    let millis = seconds * 1000;
    lemma_decimal_round_trip(seconds);
    lemma_civil_fields(millis);
    let f = civil_fields(millis);
    assert(millis % 86_400_000 % 1000 == millis % 1000) by {
        vstd::arithmetic::div_mod::lemma_mod_mod(millis, 1000, 86_400);
    }
    lemma_accepted_reads_back(name, f);
    assert(whole_seconds(millis) == seconds);
}

/// The templates of a list are tried in their order and the first that reads
/// the text decides: no template before it reads the text, and where the list
/// reads nothing, none of its templates does.
pub proof fn law_first_match_is_first(templates: Seq<Seq<Item>>, text: Seq<char>, k: int)
    requires
        0 <= k <= templates.len(),
    ensures
        match first_match(templates, text, k) {
            Some((i, millis)) => {
                &&& k <= i < templates.len()
                &&& template_instant(templates[i], text) == Some(millis)
                &&& forall|j: int| k <= j < i ==> template_instant(templates[j], text).is_none()
            },
            None => forall|j: int|
                k <= j < templates.len() ==> template_instant(templates[j], text).is_none(),
        },
    decreases templates.len() - k,
{
    if k < templates.len() {
        law_first_match_is_first(templates, text, k + 1);
    }
}

/// A format name that is none of those known fails a request whose mode and
/// unit are known, whatever its input: the response holds no result and the
/// message `Invalid format`.
pub proof fn law_unknown_format(
    response: TimestampConversionResponse,
    input: Seq<char>,
    mode: Seq<char>,
    unit: Seq<char>,
    format: Seq<char>,
    local_offset_seconds: int,
)
    requires
        mode_of_text(mode) is Some,
        unit_of_text(unit) is Some,
        format_of_text(format) is None,
        response.answers(outcome(input, mode, unit, Some(format), local_offset_seconds)),
    ensures
        outcome(input, mode, unit, Some(format), local_offset_seconds) == Err::<
            Seq<char>,
            ErrorKind,
        >(ErrorKind::InvalidFormat),
        !response.success,
        response.result is None,
        text_of_option(response.error) == Some("Invalid format"@),
{
}

/// A format name that is none of those known fails a request for the current
/// time as text in the same way.
pub proof fn law_unknown_format_now(
    response: TimestampConversionResponse,
    now_millis: int,
    format: Seq<char>,
    local_offset_seconds: int,
)
    requires
        format_of_text(format) is None,
        response.answers(
            current_time_text(now_millis, "formatted"@, Some(format), local_offset_seconds),
        ),
    ensures
        !response.success,
        response.result is None,
        text_of_option(response.error) == Some("Invalid format"@),
{
    reveal_strlit("formatted");
    reveal_strlit("seconds");
    reveal_strlit("milliseconds");
    assert("formatted"@.len() == 9 && "seconds"@.len() == 7 && "milliseconds"@.len() == 12);
}

/// A response to a request holds a result or an error, never both and never
/// neither, and the result exactly on success.
pub proof fn law_response_is_one_of_two(
    response: TimestampConversionResponse,
    outcome: Result<Seq<char>, ErrorKind>,
)
    requires
        response.answers(outcome),
    ensures
        response.well_formed(),
        response.success == outcome.is_ok(),
{
}

/// Round trip without a declared format: the text of an epoch value in a
/// format, read by the detection order, gives the epoch value back.
pub proof fn law_round_trip_detected(
    name: FormatName,
    millis: int,
    local_offset_seconds: int,
    unit: Unit,
)
    requires
        in_range(millis),
        written_without_loss(name, millis),
        read_as_written(name, local_offset_seconds),
    ensures
        timestamp_to_time_text(
            decimal_text(millis),
            Unit::Milliseconds,
            Some(name),
            local_offset_seconds,
        ) matches Ok(text) && time_to_timestamp_text(text, unit, None) == Ok::<
            Seq<char>,
            ErrorKind,
        >(decimal_text(epoch_value(millis, unit))),
{
    lemma_decimal_round_trip(millis);
    lemma_civil_fields(millis);
    let f = civil_fields(millis);
    assert(millis % 86_400_000 % 1000 == millis % 1000) by {
        vstd::arithmetic::div_mod::lemma_mod_mod(millis, 1000, 86_400);
    }
    lemma_detected_reads_back(name, f);
}

/// Whatever text is read, by a declared format or by none, the epoch value
/// that comes out is that of a point in time of the calendar, and rendering
/// it succeeds in every format that shows UTC.
pub proof fn law_read_value_in_range(input: Seq<char>, format: Option<FormatName>, name: FormatName)
    requires
        time_to_timestamp_text(input, Unit::Milliseconds, format) is Ok,
        name != FormatName::LocalReadable,
    ensures
        exists|millis: int|
            in_range(millis) && #[trigger] decimal_text(millis) == time_to_timestamp_text(
                input,
                Unit::Milliseconds,
                format,
            )->Ok_0 && timestamp_to_time_text(
                decimal_text(millis),
                Unit::Milliseconds,
                Some(name),
                0,
            ) is Ok,
{
    let list = tried_items(format);
    law_first_match_is_first(list, input, 0);
    let hit = first_match(list, input, 0)->0;
    lemma_decimal_round_trip(hit.1);
    assert(in_range(hit.1) && decimal_text(hit.1) == time_to_timestamp_text(
        input,
        Unit::Milliseconds,
        format,
    )->Ok_0);
}

/// The caller's zone has a part in the answer to a request only where the
/// answer shows a local wall clock: for every other request the outcome is
/// the same whatever the offset.
pub proof fn law_zone_matters_for_local_only(
    input: Seq<char>,
    mode: Seq<char>,
    unit: Seq<char>,
    format: Option<Seq<char>>,
    offset: int,
    other: int,
)
    requires
        wall_clock_shown(input, mode, unit, format) is None,
    ensures
        outcome(input, mode, unit, format, offset) == outcome(input, mode, unit, format, other),
{
}

/// Every format but `LocalReadable` shows UTC: the text of a point in time
/// in it is the same whatever the offset of the caller's zone.
pub proof fn law_only_local_shows_the_zone(name: FormatName, millis: int, offset: int, other: int)
    requires
        name != FormatName::LocalReadable,
    ensures
        rendered(millis, name, offset) == rendered(millis, name, other),
{
}

/// The place of the fraction of the second in the first template that is
/// tried for a format.
pub open spec fn fraction_place(name: FormatName) -> int {
    if name == FormatName::Iso8601Basic {
        7
    } else {
        11
    }
}

/// Precision is not dropped in silence: in the list of every format that
/// knows a fraction of the second, a template that asks for the fraction
/// stands directly before the same template without it.
pub proof fn law_fraction_tried_first(name: FormatName, k: int)
    requires
        name != FormatName::Rfc2822,
        k == 0 || (k == 2 && name != FormatName::Rfc3339 && name != FormatName::LocalReadable),
    ensures
        k + 1 < accepted_items(name).len(),
        accepted_items(name)[k][fraction_place(name)] == Item::Fraction,
        accepted_items(name)[k + 1] == accepted_items(name)[k].remove(fraction_place(name)),
{
    lemma_stamp_flat('-', ' ');
    lemma_stamp_flat('-', 'T');
    let list = accepted_items(name);
    assert(list[k + 1] =~= list[k].remove(fraction_place(name)));
}

} // verus!
