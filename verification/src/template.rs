//! Templates: sequences of items that say how a date-time is written, and
//! what it means for a text to match one.
//!
//! A template is matched from left to right without backtracking. Each item
//! consumes characters of the text and fills fields; the template matches when
//! its last item ends at the end of the text.

use crate::instant::Fields;
use crate::text::{all_digits, digit_char, digits_value, is_digit};
use vstd::prelude::*;

verus! {

#[derive(Clone, Copy, Debug)]
pub enum Item {
    /// The year in four digits.
    Year,
    /// The month in two digits.
    Month,
    /// The day of the month in two digits.
    Day,
    /// The hour in two digits.
    Hour,
    /// The minute in two digits.
    Minute,
    /// The second in two digits.
    Second,
    /// A full stop and the fraction of the second: one to nine digits are read,
    /// of which the first three count; three are written.
    Fraction,
    /// The offset from UTC as a sign, two digits, a colon and two digits; `Z` is
    /// read as no offset.
    Offset,
    /// The offset from UTC as a sign and four digits.
    OffsetBasic,
    /// The English name of the day of the week in three letters.
    WeekdayName,
    /// The English name of the month in three letters.
    MonthName,
    /// The character itself.
    Lit(char),
}

/// `width` digits stand in the text at `pos`.
pub open spec fn digits_at(text: Seq<char>, pos: int, width: int) -> bool {
    0 <= pos && 0 <= width && pos + width <= text.len() && all_digits(
        text.subrange(pos, pos + width),
    )
}

/// The number written by the `width` digits at `pos`.
pub open spec fn number_at(text: Seq<char>, pos: int, width: int) -> int {
    digits_value(text.subrange(pos, pos + width))
}

/// The last `width` digits of a natural number, zeros in front where it has fewer.
pub open spec fn pad_digits(v: int, width: nat) -> Seq<char>
    decreases width,
{
    if width == 0 {
        Seq::empty()
    } else {
        pad_digits(v / 10, (width - 1) as nat).push(digit_char(v % 10))
    }
}

/// How many digits stand in the text from `pos` on, counted up to `limit`.
pub open spec fn digit_run(text: Seq<char>, pos: int, limit: nat) -> nat
    decreases limit,
{
    if limit == 0 || pos < 0 || pos >= text.len() || !is_digit(text[pos]) {
        0
    } else {
        1 + digit_run(text, pos + 1, (limit - 1) as nat)
    }
}

/// The three letters of a day of the week; 0 is Monday. Question marks for
/// any other number.
pub open spec fn weekday_letters(w: int) -> (char, char, char) {
    if w == 0 {
        ('M', 'o', 'n')
    } else if w == 1 {
        ('T', 'u', 'e')
    } else if w == 2 {
        ('W', 'e', 'd')
    } else if w == 3 {
        ('T', 'h', 'u')
    } else if w == 4 {
        ('F', 'r', 'i')
    } else if w == 5 {
        ('S', 'a', 't')
    } else if w == 6 {
        ('S', 'u', 'n')
    } else {
        ('?', '?', '?')
    }
}

/// The three letters of a month; 1 is January. Question marks for any other
/// number.
pub open spec fn month_letters(m: int) -> (char, char, char) {
    if m == 1 {
        ('J', 'a', 'n')
    } else if m == 2 {
        ('F', 'e', 'b')
    } else if m == 3 {
        ('M', 'a', 'r')
    } else if m == 4 {
        ('A', 'p', 'r')
    } else if m == 5 {
        ('M', 'a', 'y')
    } else if m == 6 {
        ('J', 'u', 'n')
    } else if m == 7 {
        ('J', 'u', 'l')
    } else if m == 8 {
        ('A', 'u', 'g')
    } else if m == 9 {
        ('S', 'e', 'p')
    } else if m == 10 {
        ('O', 'c', 't')
    } else if m == 11 {
        ('N', 'o', 'v')
    } else if m == 12 {
        ('D', 'e', 'c')
    } else {
        ('?', '?', '?')
    }
}

pub open spec fn letters_at(text: Seq<char>, pos: int, name: (char, char, char)) -> bool {
    &&& 0 <= pos
    &&& pos + 3 <= text.len()
    &&& text[pos] == name.0
    &&& text[pos + 1] == name.1
    &&& text[pos + 2] == name.2
}

/// The first day of the week from `w` on whose name stands at `pos`.
pub open spec fn weekday_at(text: Seq<char>, pos: int, w: int) -> Option<int>
    decreases 7 - w,
{
    if w < 0 || w >= 7 {
        None
    } else if letters_at(text, pos, weekday_letters(w)) {
        Some(w)
    } else {
        weekday_at(text, pos, w + 1)
    }
}

/// The first month from `m` on whose name stands at `pos`.
pub open spec fn month_at(text: Seq<char>, pos: int, m: int) -> Option<int>
    decreases 13 - m,
{
    if m < 1 || m > 12 {
        None
    } else if letters_at(text, pos, month_letters(m)) {
        Some(m)
    } else {
        month_at(text, pos, m + 1)
    }
}

/// The milliseconds that a fraction of `run` digits at `pos` stands for.
pub open spec fn fraction_millis(text: Seq<char>, pos: int, run: int) -> int {
    if run == 1 {
        number_at(text, pos, 1) * 100
    } else if run == 2 {
        number_at(text, pos, 2) * 10
    } else {
        number_at(text, pos, 3)
    }
}

pub open spec fn match_fraction(text: Seq<char>, pos: int, f: Fields) -> Option<(Fields, int)> {
    let run = digit_run(text, pos + 1, 9) as int;
    if 0 <= pos < text.len() && text[pos] == '.' && run >= 1 {
        Some((Fields { milli: fraction_millis(text, pos + 1, run) as u32, ..f }, pos + 1 + run))
    } else {
        None
    }
}

pub open spec fn is_sign(c: char) -> bool {
    c == '+' || c == '-'
}

/// Minutes ahead of UTC for a sign, hours and minutes.
pub open spec fn signed_minutes(sign: char, hours: int, minutes: int) -> int {
    if sign == '-' {
        -(hours * 60 + minutes)
    } else {
        hours * 60 + minutes
    }
}

pub open spec fn match_offset(text: Seq<char>, pos: int, f: Fields) -> Option<(Fields, int)> {
    if 0 <= pos < text.len() && text[pos] == 'Z' {
        Some((Fields { offset_minutes: 0, ..f }, pos + 1))
    } else if 0 <= pos && pos + 6 <= text.len() && is_sign(text[pos]) && digits_at(
        text,
        pos + 1,
        2,
    ) && text[pos + 3] == ':' && digits_at(text, pos + 4, 2) && number_at(text, pos + 4, 2) < 60 {
        Some(
            (
                Fields {
                    offset_minutes: signed_minutes(
                        text[pos],
                        number_at(text, pos + 1, 2),
                        number_at(text, pos + 4, 2),
                    ) as i32,
                    ..f
                },
                pos + 6,
            ),
        )
    } else {
        None
    }
}

pub open spec fn match_offset_basic(text: Seq<char>, pos: int, f: Fields) -> Option<
    (Fields, int),
> {
    if 0 <= pos && pos + 5 <= text.len() && is_sign(text[pos]) && digits_at(text, pos + 1, 2)
        && digits_at(text, pos + 3, 2) && number_at(text, pos + 3, 2) < 60 {
        Some(
            (
                Fields {
                    offset_minutes: signed_minutes(
                        text[pos],
                        number_at(text, pos + 1, 2),
                        number_at(text, pos + 3, 2),
                    ) as i32,
                    ..f
                },
                pos + 5,
            ),
        )
    } else {
        None
    }
}

/// What one item reads at `pos`: the fields as it leaves them and the place
/// where the next item starts, or `None` where the text does not fit.
pub open spec fn match_item(item: Item, text: Seq<char>, pos: int, f: Fields) -> Option<
    (Fields, int),
> {
    match item {
        Item::Year => if digits_at(text, pos, 4) {
            Some((Fields { year: number_at(text, pos, 4) as u32, ..f }, pos + 4))
        } else {
            None
        },
        Item::Month => if digits_at(text, pos, 2) {
            Some((Fields { month: number_at(text, pos, 2) as u32, ..f }, pos + 2))
        } else {
            None
        },
        Item::Day => if digits_at(text, pos, 2) {
            Some((Fields { day: number_at(text, pos, 2) as u32, ..f }, pos + 2))
        } else {
            None
        },
        Item::Hour => if digits_at(text, pos, 2) {
            Some((Fields { hour: number_at(text, pos, 2) as u32, ..f }, pos + 2))
        } else {
            None
        },
        Item::Minute => if digits_at(text, pos, 2) {
            Some((Fields { minute: number_at(text, pos, 2) as u32, ..f }, pos + 2))
        } else {
            None
        },
        Item::Second => if digits_at(text, pos, 2) {
            Some((Fields { second: number_at(text, pos, 2) as u32, ..f }, pos + 2))
        } else {
            None
        },
        Item::Fraction => match_fraction(text, pos, f),
        Item::Offset => match_offset(text, pos, f),
        Item::OffsetBasic => match_offset_basic(text, pos, f),
        Item::WeekdayName => match weekday_at(text, pos, 0) {
            Some(w) => Some((Fields { weekday: Some(w as u32), ..f }, pos + 3)),
            None => None,
        },
        Item::MonthName => match month_at(text, pos, 1) {
            Some(m) => Some((Fields { month: m as u32, ..f }, pos + 3)),
            None => None,
        },
        Item::Lit(c) => if 0 <= pos < text.len() && text[pos] == c {
            Some((f, pos + 1))
        } else {
            None
        },
    }
}

/// The fields that the items from `k` on read from the text at `pos`, where
/// each of them fits and the last one ends at the end of the text.
pub open spec fn match_from(items: Seq<Item>, k: int, text: Seq<char>, pos: int, f: Fields)
    -> Option<Fields>
    decreases items.len() - k,
{
    if k < 0 || k >= items.len() {
        if pos == text.len() {
            Some(f)
        } else {
            None
        }
    } else {
        match match_item(items[k], text, pos, f) {
            Some((g, next)) => match_from(items, k + 1, text, next, g),
            None => None,
        }
    }
}

/// The fields that a template reads from a whole text, starting from blank fields.
pub open spec fn match_template(items: Seq<Item>, text: Seq<char>) -> Option<Fields> {
    match_from(items, 0, text, 0, crate::instant::blank_fields())
}

pub open spec fn letters(name: (char, char, char)) -> Seq<char> {
    seq![name.0, name.1, name.2]
}

/// The sign, hours and minutes of an offset, with `between` set between the two.
pub open spec fn render_offset(offset_minutes: int, between: Seq<char>) -> Seq<char> {
    let size = if offset_minutes < 0 {
        -offset_minutes
    } else {
        offset_minutes
    };
    let sign = if offset_minutes < 0 {
        '-'
    } else {
        '+'
    };
    seq![sign] + pad_digits(size / 60, 2) + between + pad_digits(size % 60, 2)
}

/// What one item writes for the fields. A number is written with its last
/// digits where it has more than the item holds; a name is written as three
/// question marks where the fields name no day of the week or no month of
/// the year.
pub open spec fn render_item(item: Item, f: Fields) -> Seq<char> {
    match item {
        Item::Year => pad_digits(f.year as int, 4),
        Item::Month => pad_digits(f.month as int, 2),
        Item::Day => pad_digits(f.day as int, 2),
        Item::Hour => pad_digits(f.hour as int, 2),
        Item::Minute => pad_digits(f.minute as int, 2),
        Item::Second => pad_digits(f.second as int, 2),
        Item::Fraction => seq!['.'] + pad_digits(f.milli as int, 3),
        Item::Offset => render_offset(f.offset_minutes as int, seq![':']),
        Item::OffsetBasic => render_offset(f.offset_minutes as int, Seq::empty()),
        Item::WeekdayName => match f.weekday {
            Some(w) => letters(weekday_letters(w as int)),
            None => letters(weekday_letters(-1)),
        },
        Item::MonthName => letters(month_letters(f.month as int)),
        Item::Lit(c) => seq![c],
    }
}

/// What the items `k .. end` write for the fields, one after the other.
pub open spec fn render_range(items: Seq<Item>, k: int, end: int, f: Fields) -> Seq<char>
    decreases end - k,
{
    if k >= end {
        Seq::empty()
    } else {
        render_item(items[k], f) + render_range(items, k + 1, end, f)
    }
}

/// What a template writes for the fields.
pub open spec fn render_template(items: Seq<Item>, f: Fields) -> Seq<char> {
    render_range(items, 0, items.len() as int, f)
}

/// Writing the items `k .. end + 1` is writing the items `k .. end` and then item `end`.
pub proof fn lemma_render_range_extend(items: Seq<Item>, k: int, end: int, f: Fields)
    requires
        0 <= k <= end < items.len(),
    ensures
        render_range(items, k, end + 1, f) == render_range(items, k, end, f) + render_item(
            items[end],
            f,
        ),
    decreases end - k,
{
    if k < end {
        lemma_render_range_extend(items, k + 1, end, f);
        assert(render_item(items[k], f) + (render_range(items, k + 1, end, f) + render_item(
            items[end],
            f,
        )) =~= (render_item(items[k], f) + render_range(items, k + 1, end, f)) + render_item(
            items[end],
            f,
        ));
    } else {
        assert(render_range(items, k + 1, end + 1, f) =~= Seq::<char>::empty());
        assert(render_item(items[k], f) + Seq::<char>::empty() =~= Seq::<char>::empty()
            + render_item(items[k], f));
    }
}

} // verus!
