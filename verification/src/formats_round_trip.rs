//! Each named format reads back what it writes.

use crate::engine::{first_match, template_instant};
use crate::instant::{blank_fields, lemma_utc_in_range, resolve, Fields};
use crate::registry::{
    accepted_items, canonical_items, mail_items, stamp_items, weekday_prefix, FormatName,
};
use crate::round_trip::{
    absorb_range, items_fit, lemma_fraction_rejected, lemma_template_round_trip,
};
use crate::template::{render_template, Item};
use vstd::prelude::*;

verus! {

/// The fields that a text is written from: valid, in UTC, the day of the week named.
pub open spec fn writable(f: Fields) -> bool {
    f.valid() && f.offset_minutes == 0 && f.weekday is Some
}

/// The date and time of day of `f`, the rest blank.
pub open spec fn to_the_second(f: Fields) -> Fields {
    Fields {
        year: f.year,
        month: f.month,
        day: f.day,
        hour: f.hour,
        minute: f.minute,
        second: f.second,
        ..blank_fields()
    }
}

pub proof fn lemma_stamp_flat(sep: char, joint: char)
    ensures
        stamp_items(sep, joint) == seq![
            Item::Year,
            Item::Lit(sep),
            Item::Month,
            Item::Lit(sep),
            Item::Day,
            Item::Lit(joint),
            Item::Hour,
            Item::Lit(':'),
            Item::Minute,
            Item::Lit(':'),
            Item::Second,
        ],
        stamp_items(sep, joint).len() == 11,
{
    assert(stamp_items(sep, joint) =~= seq![
        Item::Year,
        Item::Lit(sep),
        Item::Month,
        Item::Lit(sep),
        Item::Day,
        Item::Lit(joint),
        Item::Hour,
        Item::Lit(':'),
        Item::Minute,
        Item::Lit(':'),
        Item::Second,
    ]);
}

/// A template that holds no fraction and no day of the week is read back as written.
pub proof fn lemma_plain_items_fit(c: Seq<Item>, f: Fields)
    requires
        forall|k: int| 0 <= k < c.len() ==> !(#[trigger] c[k] is Fraction) && !(c[k] is WeekdayName),
    ensures
        items_fit(c, f),
{
}

proof fn lemma_stamp_absorbed(sep: char, joint: char, acc: Fields, f: Fields)
    ensures
        absorb_range(stamp_items(sep, joint), 0, 11, acc, f) == (Fields {
            year: f.year,
            month: f.month,
            day: f.day,
            hour: f.hour,
            minute: f.minute,
            second: f.second,
            ..acc
        }),
{
    lemma_stamp_flat(sep, joint);
    reveal_with_fuel(absorb_range, 12);
}

/// Fields that agree with valid fields in UTC to the second, and hold no
/// fraction, name the same point in time where those hold no fraction.
pub proof fn lemma_same_instant(g: Fields, f: Fields)
    requires
        f.valid(),
        f.offset_minutes == 0,
        g.year == f.year,
        g.month == f.month,
        g.day == f.day,
        g.hour == f.hour,
        g.minute == f.minute,
        g.second == f.second,
        g.milli == f.milli,
        g.offset_minutes == 0,
        g.weekday is None || g.weekday == f.weekday,
    ensures
        resolve(g) == Some(f.millis()),
{
    lemma_utc_in_range(g);
}

pub proof fn lemma_local_readable_reads_back(f: Fields)
    requires
        writable(f),
        f.milli == 0,
    ensures
        template_instant(
            canonical_items(FormatName::LocalReadable),
            render_template(canonical_items(FormatName::LocalReadable), f),
        ) == Some(f.millis()),
{
    let c = canonical_items(FormatName::LocalReadable);
    lemma_stamp_flat('-', ' ');
    lemma_plain_items_fit(c, f);
    lemma_template_round_trip(c, f);
    lemma_stamp_absorbed('-', ' ', blank_fields(), f);
    lemma_same_instant(absorb_range(c, 0, 11, blank_fields(), f), f);
}

pub proof fn lemma_utc_readable_reads_back(f: Fields)
    requires
        writable(f),
        f.milli == 0,
    ensures
        template_instant(
            canonical_items(FormatName::UtcReadable),
            render_template(canonical_items(FormatName::UtcReadable), f),
        ) == Some(f.millis()),
{
    let c = canonical_items(FormatName::UtcReadable);
    lemma_stamp_flat('-', ' ');
    assert(c =~= seq![
        Item::Year,
        Item::Lit('-'),
        Item::Month,
        Item::Lit('-'),
        Item::Day,
        Item::Lit(' '),
        Item::Hour,
        Item::Lit(':'),
        Item::Minute,
        Item::Lit(':'),
        Item::Second,
        Item::Lit(' '),
        Item::Lit('U'),
        Item::Lit('T'),
        Item::Lit('C'),
    ]);
    lemma_plain_items_fit(c, f);
    lemma_template_round_trip(c, f);
    let g = absorb_range(c, 0, 15, blank_fields(), f);
    assert(g == to_the_second(f)) by {
        reveal_with_fuel(absorb_range, 16);
    }
    lemma_same_instant(g, f);
}

pub proof fn lemma_rfc3339_reads_back(f: Fields)
    requires
        writable(f),
        f.milli == 0,
    ensures
        template_instant(
            canonical_items(FormatName::Rfc3339),
            render_template(canonical_items(FormatName::Rfc3339), f),
        ) == Some(f.millis()),
{
    let c = canonical_items(FormatName::Rfc3339);
    lemma_stamp_flat('-', 'T');
    assert(c =~= seq![
        Item::Year,
        Item::Lit('-'),
        Item::Month,
        Item::Lit('-'),
        Item::Day,
        Item::Lit('T'),
        Item::Hour,
        Item::Lit(':'),
        Item::Minute,
        Item::Lit(':'),
        Item::Second,
        Item::Offset,
    ]);
    lemma_plain_items_fit(c, f);
    lemma_template_round_trip(c, f);
    let g = absorb_range(c, 0, 12, blank_fields(), f);
    assert(g == to_the_second(f)) by {
        reveal_with_fuel(absorb_range, 13);
    }
    lemma_same_instant(g, f);
}

pub proof fn lemma_iso8601_basic_reads_back(f: Fields)
    requires
        writable(f),
        f.milli == 0,
    ensures
        template_instant(
            canonical_items(FormatName::Iso8601Basic),
            render_template(canonical_items(FormatName::Iso8601Basic), f),
        ) == Some(f.millis()),
{
    let c = canonical_items(FormatName::Iso8601Basic);
    assert(c =~= seq![
        Item::Year,
        Item::Month,
        Item::Day,
        Item::Lit('T'),
        Item::Hour,
        Item::Minute,
        Item::Second,
        Item::Lit('Z'),
    ]);
    lemma_plain_items_fit(c, f);
    lemma_template_round_trip(c, f);
    let g = absorb_range(c, 0, 8, blank_fields(), f);
    assert(g == to_the_second(f)) by {
        reveal_with_fuel(absorb_range, 9);
    }
    lemma_same_instant(g, f);
}

pub proof fn lemma_iso8601_extended_reads_back(f: Fields)
    requires
        writable(f),
    ensures
        template_instant(
            canonical_items(FormatName::Iso8601Extended),
            render_template(canonical_items(FormatName::Iso8601Extended), f),
        ) == Some(f.millis()),
{
    let c = canonical_items(FormatName::Iso8601Extended);
    lemma_stamp_flat('-', 'T');
    assert(c =~= seq![
        Item::Year,
        Item::Lit('-'),
        Item::Month,
        Item::Lit('-'),
        Item::Day,
        Item::Lit('T'),
        Item::Hour,
        Item::Lit(':'),
        Item::Minute,
        Item::Lit(':'),
        Item::Second,
        Item::Fraction,
        Item::Lit('Z'),
    ]);
    assert(items_fit(c, f));
    lemma_template_round_trip(c, f);
    let g = absorb_range(c, 0, 13, blank_fields(), f);
    assert(g == (Fields { milli: f.milli, ..to_the_second(f) })) by {
        reveal_with_fuel(absorb_range, 14);
    }
    lemma_same_instant(g, f);
}

pub proof fn lemma_mail_flat()
    ensures
        weekday_prefix() + mail_items() == seq![
            Item::WeekdayName,
            Item::Lit(','),
            Item::Lit(' '),
            Item::Day,
            Item::Lit(' '),
            Item::MonthName,
            Item::Lit(' '),
            Item::Year,
            Item::Lit(' '),
            Item::Hour,
            Item::Lit(':'),
            Item::Minute,
            Item::Lit(':'),
            Item::Second,
            Item::Lit(' '),
            Item::OffsetBasic,
        ],
{
    assert(weekday_prefix() + mail_items() =~= seq![
        Item::WeekdayName,
        Item::Lit(','),
        Item::Lit(' '),
        Item::Day,
        Item::Lit(' '),
        Item::MonthName,
        Item::Lit(' '),
        Item::Year,
        Item::Lit(' '),
        Item::Hour,
        Item::Lit(':'),
        Item::Minute,
        Item::Lit(':'),
        Item::Second,
        Item::Lit(' '),
        Item::OffsetBasic,
    ]);
}

pub proof fn lemma_rfc2822_reads_back(f: Fields)
    requires
        writable(f),
        f.milli == 0,
    ensures
        template_instant(
            canonical_items(FormatName::Rfc2822),
            render_template(canonical_items(FormatName::Rfc2822), f),
        ) == Some(f.millis()),
{
    let c = canonical_items(FormatName::Rfc2822);
    lemma_mail_flat();
    assert(items_fit(c, f));
    lemma_template_round_trip(c, f);
    let g = absorb_range(c, 0, 16, blank_fields(), f);
    assert(g == (Fields { weekday: f.weekday, ..to_the_second(f) })) by {
        reveal_with_fuel(absorb_range, 17);
    }
    lemma_same_instant(g, f);
}

/// Where the first template of a list does not read the text and the second
/// does, the list reads the text as the second does.
pub proof fn lemma_second_matches(list: Seq<Seq<Item>>, text: Seq<char>, millis: int)
    requires
        list.len() >= 2,
        template_instant(list[0], text).is_none(),
        template_instant(list[1], text) == Some(millis),
    ensures
        first_match(list, text, 0) == Some((1int, millis)),
{
    reveal_with_fuel(first_match, 3);
}

proof fn lemma_local_readable_list(f: Fields)
    requires
        writable(f),
        f.milli == 0,
    ensures
        first_match(
            accepted_items(FormatName::LocalReadable),
            render_template(canonical_items(FormatName::LocalReadable), f),
            0,
        ) == Some((1int, f.millis())),
{
    let c = canonical_items(FormatName::LocalReadable);
    let list = accepted_items(FormatName::LocalReadable);
    lemma_stamp_flat('-', ' ');
    lemma_plain_items_fit(c, f);
    lemma_fraction_rejected(list[0], c, 11, f);
    lemma_local_readable_reads_back(f);
    lemma_second_matches(list, render_template(c, f), f.millis());
}

proof fn lemma_utc_readable_list(f: Fields)
    requires
        writable(f),
        f.milli == 0,
    ensures
        first_match(
            accepted_items(FormatName::UtcReadable),
            render_template(canonical_items(FormatName::UtcReadable), f),
            0,
        ) == Some((1int, f.millis())),
{
    let c = canonical_items(FormatName::UtcReadable);
    let list = accepted_items(FormatName::UtcReadable);
    lemma_stamp_flat('-', ' ');
    lemma_plain_items_fit(c, f);
    assert(c[11] == Item::Lit(' '));
    assert(list[0][11] == Item::Fraction);
    lemma_fraction_rejected(list[0], c, 11, f);
    lemma_utc_readable_reads_back(f);
    lemma_second_matches(list, render_template(c, f), f.millis());
}

proof fn lemma_rfc3339_list(f: Fields)
    requires
        writable(f),
        f.milli == 0,
    ensures
        first_match(
            accepted_items(FormatName::Rfc3339),
            render_template(canonical_items(FormatName::Rfc3339), f),
            0,
        ) == Some((1int, f.millis())),
{
    let c = canonical_items(FormatName::Rfc3339);
    let list = accepted_items(FormatName::Rfc3339);
    lemma_stamp_flat('-', 'T');
    lemma_plain_items_fit(c, f);
    assert(c[11] == Item::Offset);
    assert(list[0][11] == Item::Fraction);
    lemma_fraction_rejected(list[0], c, 11, f);
    lemma_rfc3339_reads_back(f);
    lemma_second_matches(list, render_template(c, f), f.millis());
}

proof fn lemma_iso8601_basic_list(f: Fields)
    requires
        writable(f),
        f.milli == 0,
    ensures
        first_match(
            accepted_items(FormatName::Iso8601Basic),
            render_template(canonical_items(FormatName::Iso8601Basic), f),
            0,
        ) == Some((1int, f.millis())),
{
    let c = canonical_items(FormatName::Iso8601Basic);
    let list = accepted_items(FormatName::Iso8601Basic);
    lemma_plain_items_fit(c, f);
    assert(c[7] == Item::Lit('Z'));
    assert(list[0][7] == Item::Fraction);
    lemma_fraction_rejected(list[0], c, 7, f);
    lemma_iso8601_basic_reads_back(f);
    lemma_second_matches(list, render_template(c, f), f.millis());
}

/// What a format writes for a point in time, the templates of that format
/// read back, in their order, as that point in time.
pub proof fn lemma_accepted_reads_back(name: FormatName, f: Fields)
    requires
        writable(f),
        name != FormatName::Iso8601Extended ==> f.milli == 0,
    ensures
        first_match(accepted_items(name), render_template(canonical_items(name), f), 0)
            matches Some(hit) && hit.1 == f.millis(),
{
    match name {
        FormatName::LocalReadable => lemma_local_readable_list(f),
        FormatName::UtcReadable => lemma_utc_readable_list(f),
        FormatName::Rfc3339 => lemma_rfc3339_list(f),
        FormatName::Iso8601Basic => lemma_iso8601_basic_list(f),
        FormatName::Iso8601Extended => lemma_iso8601_extended_reads_back(f),
        FormatName::Rfc2822 => lemma_rfc2822_reads_back(f),
    }
}

} // verus!
