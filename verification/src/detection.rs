//! The order in which templates are tried where no format is declared, and
//! what follows from it for dates written with strokes and for texts that
//! the named formats write.

use crate::engine::{first_match, template_instant};
use crate::formats_round_trip::{
    lemma_iso8601_basic_reads_back, lemma_local_readable_reads_back, lemma_mail_flat,
    lemma_plain_items_fit, lemma_rfc2822_reads_back, lemma_rfc3339_reads_back, lemma_same_instant,
    lemma_second_matches, lemma_stamp_flat, lemma_utc_readable_reads_back, to_the_second,
    writable,
};
use crate::instant::{blank_fields, Fields};
use crate::registry::{
    basic_items, canonical_items, clock_suffix, date_items, detection_items,
    european_date_items, mail_items, minute_items, stamp_items, us_date_items, utc_suffix,
    weekday_prefix, FormatName,
};
use crate::round_trip::{
    absorb_range, end_of, items_fit, lemma_diverges, lemma_fraction_rejected,
    lemma_longer_rejected, lemma_pad_digits_shape, lemma_range_round_trip,
    lemma_render_range_split,
};
use crate::template::{
    digits_at, match_from, match_item, match_template, render_item, render_range,
    render_template, weekday_at, Item,
};
use crate::text::is_digit;
use vstd::prelude::*;

verus! {

/// The place of the month-first date in the detection order.
pub open spec fn month_first_place() -> int {
    23
}

/// The place of the day-first date in the detection order.
pub open spec fn day_first_place() -> int {
    25
}

/// The detection order, template by template.
pub proof fn lemma_detection_order()
    ensures
        detection_items() == seq![
            stamp_items('-', 'T').push(Item::Fraction).push(Item::Offset),
            stamp_items('-', 'T').push(Item::Offset),
            stamp_items('-', 'T').push(Item::Fraction).push(Item::Lit('Z')),
            stamp_items('-', 'T').push(Item::Lit('Z')),
            stamp_items('-', 'T').push(Item::Fraction),
            stamp_items('-', 'T'),
            basic_items().push(Item::Fraction).push(Item::Lit('Z')),
            basic_items().push(Item::Lit('Z')),
            basic_items().push(Item::Fraction),
            basic_items(),
            weekday_prefix() + mail_items(),
            mail_items(),
            stamp_items('-', ' ').push(Item::Fraction) + utc_suffix(),
            stamp_items('-', ' ') + utc_suffix(),
            stamp_items('-', ' ').push(Item::Fraction),
            stamp_items('-', ' '),
            stamp_items('-', ' ').push(Item::Fraction),
            stamp_items('-', ' '),
            date_items('-').push(Item::Lit(' ')) + minute_items(),
            date_items('-'),
            stamp_items('/', ' '),
            date_items('/'),
            us_date_items() + clock_suffix(),
            us_date_items(),
            european_date_items() + clock_suffix(),
            european_date_items(),
        ],
        detection_items().len() == 26,
        detection_items()[month_first_place()] == us_date_items(),
        detection_items()[day_first_place()] == european_date_items(),
{
    assert(detection_items() =~= seq![
        stamp_items('-', 'T').push(Item::Fraction).push(Item::Offset),
        stamp_items('-', 'T').push(Item::Offset),
        stamp_items('-', 'T').push(Item::Fraction).push(Item::Lit('Z')),
        stamp_items('-', 'T').push(Item::Lit('Z')),
        stamp_items('-', 'T').push(Item::Fraction),
        stamp_items('-', 'T'),
        basic_items().push(Item::Fraction).push(Item::Lit('Z')),
        basic_items().push(Item::Lit('Z')),
        basic_items().push(Item::Fraction),
        basic_items(),
        weekday_prefix() + mail_items(),
        mail_items(),
        stamp_items('-', ' ').push(Item::Fraction) + utc_suffix(),
        stamp_items('-', ' ') + utc_suffix(),
        stamp_items('-', ' ').push(Item::Fraction),
        stamp_items('-', ' '),
        stamp_items('-', ' ').push(Item::Fraction),
        stamp_items('-', ' '),
        date_items('-').push(Item::Lit(' ')) + minute_items(),
        date_items('-'),
        stamp_items('/', ' '),
        date_items('/'),
        us_date_items() + clock_suffix(),
        us_date_items(),
        european_date_items() + clock_suffix(),
        european_date_items(),
    ]);
}

/// Where no template from `k` up to `n` reads the text, the list reads it as from `n` on.
pub proof fn lemma_first_match_skips(list: Seq<Seq<Item>>, text: Seq<char>, k: int, n: int)
    requires
        0 <= k <= n <= list.len(),
        forall|j: int| k <= j < n ==> template_instant(#[trigger] list[j], text).is_none(),
    ensures
        first_match(list, text, k) == first_match(list, text, n),
    decreases n - k,
{
    if k < n {
        lemma_first_match_skips(list, text, k + 1, n);
    }
}

/// A text that the month-first template matches: two digits, a stroke, two
/// digits, a stroke and four digits.
proof fn lemma_month_first_shape(text: Seq<char>)
    requires
        match_template(us_date_items(), text).is_some(),
    ensures
        text.len() == 10,
        digits_at(text, 0, 2),
        is_digit(text[0]),
        text[2] == '/',
        !digits_at(text, 0, 4),
{
    reveal_with_fuel(match_from, 7);
    let t = us_date_items();
    let f0 = blank_fields();
    let s0 = match_item(t[0], text, 0, f0)->0;
    let s1 = match_item(t[1], text, s0.1, s0.0)->0;
    let s2 = match_item(t[2], text, s1.1, s1.0)->0;
    let s3 = match_item(t[3], text, s2.1, s2.0)->0;
    let s4 = match_item(t[4], text, s3.1, s3.0)->0;
    assert(s0.1 == 2 && s1.1 == 3 && s2.1 == 5 && s3.1 == 6 && s4.1 == 10);
    assert(text.subrange(0, 2)[0] == text[0]);
    assert(text.subrange(0, 4)[2] == text[2]);
}

proof fn lemma_year_first_rejected(t: Seq<Item>, text: Seq<char>)
    requires
        t.len() > 0,
        t[0] == Item::Year,
        !digits_at(text, 0, 4),
    ensures
        match_template(t, text).is_none(),
{
}

proof fn lemma_weekday_first_rejected(t: Seq<Item>, text: Seq<char>)
    requires
        t.len() > 0,
        t[0] == Item::WeekdayName,
        text.len() > 0,
        is_digit(text[0]),
    ensures
        match_template(t, text).is_none(),
{
    reveal_with_fuel(weekday_at, 8);
}

proof fn lemma_day_and_space_rejected(t: Seq<Item>, text: Seq<char>)
    requires
        t.len() > 1,
        t[0] == Item::Day,
        t[1] == Item::Lit(' '),
        text.len() > 2,
        text[2] != ' ',
    ensures
        match_template(t, text).is_none(),
{
    reveal_with_fuel(match_from, 3);
}

/// A date with strokes that the month-first template matches is matched by
/// no template before it in the detection order: where it names a date of
/// the calendar, it is read month first.
pub proof fn law_strokes_month_first(text: Seq<char>)
    requires
        match_template(us_date_items(), text).is_some(),
    ensures
        forall|j: int|
            0 <= j < month_first_place() ==> match_template(
                #[trigger] detection_items()[j],
                text,
            ).is_none(),
        month_first_place() < day_first_place(),
        template_instant(us_date_items(), text) matches Some(millis) ==> first_match(
            detection_items(),
            text,
            0,
        ) == Some((month_first_place(), millis)),
{
    lemma_detection_order();
    lemma_month_first_shape(text);
    lemma_stamp_flat('-', 'T');
    lemma_stamp_flat('-', ' ');
    lemma_stamp_flat('/', ' ');
    let list = detection_items();
    assert forall|j: int| 0 <= j < 23 implies match_template(#[trigger] list[j], text).is_none() by {
        if j == 10 {
            lemma_weekday_first_rejected(list[j], text);
        } else if j == 11 {
            lemma_day_and_space_rejected(list[j], text);
        } else if j == 22 {
            lemma_longer_rejected(list[j], us_date_items(), 0, text, 0, blank_fields());
        } else {
            assert(list[j][0] == Item::Year);
            lemma_year_first_rejected(list[j], text);
        }
    }
    lemma_first_match_skips(list, text, 0, 23);
}

/// What a text begins with where its template begins with the year: four digits.
proof fn lemma_year_written_first(c: Seq<Item>, f: Fields)
    requires
        c.len() > 0,
        c[0] == Item::Year,
    ensures
        render_template(c, f).len() >= 4,
        is_digit(render_template(c, f)[2]),
{
    lemma_pad_digits_shape(f.year as int, 4);
    let head = render_item(c[0], f);
    assert(render_template(c, f) == head + render_range(c, 1, c.len() as int, f));
    assert(render_template(c, f)[2] == head[2]);
}

/// No template that stands before those of the readable formats in the
/// detection order matches a text that begins as a readable one does: a date
/// with hyphens, a space and the time of day.
proof fn lemma_readable_skips(c: Seq<Item>, f: Fields)
    requires
        c.len() >= 11,
        forall|i: int| 0 <= i < 11 ==> c[i] == stamp_items('-', ' ')[i],
        f.valid(),
        items_fit(c, f),
    ensures
        forall|j: int|
            0 <= j < 12 ==> template_instant(
                #[trigger] detection_items()[j],
                render_template(c, f),
            ).is_none(),
{
    lemma_detection_order();
    lemma_stamp_flat('-', 'T');
    lemma_stamp_flat('-', ' ');
    lemma_mail_flat();
    let list = detection_items();
    let text = render_template(c, f);
    lemma_year_written_first(c, f);
    assert forall|j: int| 0 <= j < 12 implies match_template(#[trigger] list[j], text).is_none() by {
        if j < 6 {
            assert(list[j][5] == Item::Lit('T'));
            lemma_diverges(list[j], c, 5, f);
        } else if j < 10 {
            assert(list[j][1] == Item::Month);
            lemma_diverges(list[j], c, 1, f);
        } else if j == 10 {
            assert(list[j][0] == Item::WeekdayName);
            lemma_diverges(list[j], c, 0, f);
        } else {
            assert(list[j] =~= mail_items());
            assert(mail_items()[0] == Item::Day && mail_items()[1] == Item::Lit(' '));
            lemma_day_and_space_rejected(list[j], text);
        }
    }
}

proof fn lemma_rfc3339_detected(f: Fields)
    requires
        writable(f),
        f.milli == 0,
    ensures
        first_match(
            detection_items(),
            render_template(canonical_items(FormatName::Rfc3339), f),
            0,
        ) == Some((1int, f.millis())),
{
    let c = canonical_items(FormatName::Rfc3339);
    let list = detection_items();
    lemma_detection_order();
    lemma_stamp_flat('-', 'T');
    lemma_plain_items_fit(c, f);
    assert(c[11] == Item::Offset);
    assert(list[0][11] == Item::Fraction);
    lemma_fraction_rejected(list[0], c, 11, f);
    lemma_rfc3339_reads_back(f);
    lemma_second_matches(list, render_template(c, f), f.millis());
}

/// The first template of the detection order reads what `Iso8601Extended`
/// writes: the `Z` at its end is the offset of UTC.
proof fn lemma_iso8601_extended_detected(f: Fields)
    requires
        writable(f),
    ensures
        first_match(
            detection_items(),
            render_template(canonical_items(FormatName::Iso8601Extended), f),
            0,
        ) == Some((0int, f.millis())),
{
    let c = canonical_items(FormatName::Iso8601Extended);
    let list = detection_items();
    let t = list[0];
    let text = render_template(c, f);
    lemma_detection_order();
    lemma_stamp_flat('-', 'T');
    assert(c.len() == 13 && c[11] == Item::Fraction && c[12] == Item::Lit('Z'));
    assert(t.len() == 13 && t[11] == Item::Fraction && t[12] == Item::Offset);
    assert(items_fit(c, f));
    let pre = Seq::<char>::empty();
    lemma_range_round_trip(t, c, 0, 12, pre, blank_fields(), f);
    assert(pre + text =~= text);
    lemma_render_range_split(c, 0, 12, 13, f);
    let head = render_range(c, 0, 12, f);
    let pos = head.len() as int;
    assert(end_of(pre, head) == pos);
    assert(render_range(c, 12, 13, f) =~= seq!['Z']) by {
        reveal_with_fuel(render_range, 3);
    }
    assert(text[pos] == 'Z' && text.len() == pos + 1);
    let acc = absorb_range(c, 0, 12, blank_fields(), f);
    assert(acc == (Fields { milli: f.milli, ..to_the_second(f) })) by {
        reveal_with_fuel(absorb_range, 13);
    }
    let g = Fields { offset_minutes: 0, ..acc };
    assert(match_from(t, 12, text, pos, acc) == Some(g)) by {
        reveal_with_fuel(match_from, 3);
    }
    lemma_same_instant(g, f);
}

proof fn lemma_iso8601_basic_detected(f: Fields)
    requires
        writable(f),
        f.milli == 0,
    ensures
        first_match(
            detection_items(),
            render_template(canonical_items(FormatName::Iso8601Basic), f),
            0,
        ) == Some((7int, f.millis())),
{
    let c = canonical_items(FormatName::Iso8601Basic);
    let list = detection_items();
    let text = render_template(c, f);
    lemma_detection_order();
    lemma_stamp_flat('-', 'T');
    lemma_plain_items_fit(c, f);
    assert(c[0] == Item::Year && c[1] == Item::Month && c[7] == Item::Lit('Z'));
    assert forall|j: int| 0 <= j < 7 implies template_instant(#[trigger] list[j], text).is_none() by {
        if j < 6 {
            assert(list[j][0] == Item::Year && list[j][1] == Item::Lit('-'));
            lemma_diverges(list[j], c, 1, f);
        } else {
            assert(list[j][7] == Item::Fraction);
            lemma_fraction_rejected(list[j], c, 7, f);
        }
    }
    lemma_first_match_skips(list, text, 0, 7);
    lemma_iso8601_basic_reads_back(f);
}

proof fn lemma_rfc2822_detected(f: Fields)
    requires
        writable(f),
        f.milli == 0,
    ensures
        first_match(
            detection_items(),
            render_template(canonical_items(FormatName::Rfc2822), f),
            0,
        ) == Some((10int, f.millis())),
{
    let c = canonical_items(FormatName::Rfc2822);
    let list = detection_items();
    let text = render_template(c, f);
    lemma_detection_order();
    lemma_stamp_flat('-', 'T');
    lemma_mail_flat();
    assert(items_fit(c, f));
    assert forall|j: int| 0 <= j < 10 implies template_instant(#[trigger] list[j], text).is_none() by {
        assert(list[j][0] == Item::Year);
        lemma_diverges(list[j], c, 0, f);
    }
    lemma_first_match_skips(list, text, 0, 10);
    lemma_rfc2822_reads_back(f);
}

proof fn lemma_utc_readable_detected(f: Fields)
    requires
        writable(f),
        f.milli == 0,
    ensures
        first_match(
            detection_items(),
            render_template(canonical_items(FormatName::UtcReadable), f),
            0,
        ) == Some((13int, f.millis())),
{
    let c = canonical_items(FormatName::UtcReadable);
    let list = detection_items();
    let text = render_template(c, f);
    lemma_detection_order();
    lemma_stamp_flat('-', ' ');
    lemma_plain_items_fit(c, f);
    lemma_readable_skips(c, f);
    assert(c[11] == Item::Lit(' '));
    assert(list[12][11] == Item::Fraction);
    lemma_fraction_rejected(list[12], c, 11, f);
    assert forall|j: int| 0 <= j < 13 implies template_instant(#[trigger] list[j], text).is_none() by {}
    lemma_first_match_skips(list, text, 0, 13);
    lemma_utc_readable_reads_back(f);
}

proof fn lemma_local_readable_detected(f: Fields)
    requires
        writable(f),
        f.milli == 0,
    ensures
        first_match(
            detection_items(),
            render_template(canonical_items(FormatName::LocalReadable), f),
            0,
        ) == Some((15int, f.millis())),
{
    let c = canonical_items(FormatName::LocalReadable);
    let list = detection_items();
    let text = render_template(c, f);
    lemma_detection_order();
    lemma_stamp_flat('-', ' ');
    lemma_plain_items_fit(c, f);
    lemma_readable_skips(c, f);
    lemma_local_readable_reads_back(f);
    assert(list[12][11] == Item::Fraction);
    lemma_fraction_rejected(list[12], c, 11, f);
    lemma_longer_rejected(list[13], c, 0, text, 0, blank_fields());
    assert(list[14][11] == Item::Fraction);
    lemma_fraction_rejected(list[14], c, 11, f);
    assert forall|j: int| 0 <= j < 15 implies template_instant(#[trigger] list[j], text).is_none() by {}
    lemma_first_match_skips(list, text, 0, 15);
}

/// What a format writes for a point in time is read back as that point in
/// time where no format is declared.
pub proof fn lemma_detected_reads_back(name: FormatName, f: Fields)
    requires
        writable(f),
        name != FormatName::Iso8601Extended ==> f.milli == 0,
    ensures
        first_match(detection_items(), render_template(canonical_items(name), f), 0)
            matches Some(hit) && hit.1 == f.millis(),
{
    match name {
        FormatName::LocalReadable => lemma_local_readable_detected(f),
        FormatName::UtcReadable => lemma_utc_readable_detected(f),
        FormatName::Rfc3339 => lemma_rfc3339_detected(f),
        FormatName::Iso8601Basic => lemma_iso8601_basic_detected(f),
        FormatName::Iso8601Extended => lemma_iso8601_extended_detected(f),
        FormatName::Rfc2822 => lemma_rfc2822_detected(f),
    }
}

} // verus!
