//! What is written by a template is read back by it.

use crate::instant::Fields;
use crate::template::{
    digit_run, digits_at, fraction_millis, is_sign, letters, letters_at, match_from, match_item,
    match_template, month_at, month_letters, number_at, pad_digits, render_item, render_range,
    render_template, signed_minutes, weekday_at, weekday_letters, Item,
};
use crate::text::{
    all_digits, digit_char, digits_value, is_digit, lemma_digit_char, lemma_digits_value_push,
    pow10,
};
use vstd::prelude::*;

verus! {

/// The fields `acc` with what the item stands for taken from `f`.
pub open spec fn absorb(item: Item, acc: Fields, f: Fields) -> Fields {
    match item {
        Item::Year => Fields { year: f.year, ..acc },
        Item::Month => Fields { month: f.month, ..acc },
        Item::Day => Fields { day: f.day, ..acc },
        Item::Hour => Fields { hour: f.hour, ..acc },
        Item::Minute => Fields { minute: f.minute, ..acc },
        Item::Second => Fields { second: f.second, ..acc },
        Item::Fraction => Fields { milli: f.milli, ..acc },
        Item::Offset => Fields { offset_minutes: f.offset_minutes, ..acc },
        Item::OffsetBasic => Fields { offset_minutes: f.offset_minutes, ..acc },
        Item::WeekdayName => Fields { weekday: f.weekday, ..acc },
        Item::MonthName => Fields { month: f.month, ..acc },
        Item::Lit(_) => acc,
    }
}

/// The fields `acc` with what the items `k .. end` stand for taken from `f`.
pub open spec fn absorb_range(items: Seq<Item>, k: int, end: int, acc: Fields, f: Fields)
    -> Fields
    decreases end - k,
{
    if k >= end {
        acc
    } else {
        absorb_range(items, k + 1, end, absorb(items[k], acc, f), f)
    }
}

/// What item `k` writes for `f` is read back as written, whatever follows in
/// the template: a day of the week is named, and a fraction is followed by
/// nothing or by a character that is no digit.
pub open spec fn item_fits(items: Seq<Item>, k: int, f: Fields) -> bool {
    match items[k] {
        Item::WeekdayName => f.weekday is Some,
        Item::Fraction => k + 1 == items.len() || (items[k + 1] matches Item::Lit(c) && !is_digit(
            c,
        )),
        _ => true,
    }
}

pub open spec fn items_fit(items: Seq<Item>, f: Fields) -> bool {
    forall|k: int| 0 <= k < items.len() ==> item_fits(items, k, f)
}

/// The place where a text written after `pre` ends.
pub open spec fn end_of(pre: Seq<char>, written: Seq<char>) -> int {
    (pre.len() + written.len()) as int
}

pub proof fn lemma_pad_digits(v: int, width: nat)
    requires
        0 <= v < pow10(width),
    ensures
        pad_digits(v, width).len() == width,
        all_digits(pad_digits(v, width)),
        digits_value(pad_digits(v, width)) == v,
    decreases width,
{
    if width > 0 {
        lemma_pad_digits(v / 10, (width - 1) as nat);
        lemma_digit_char(v % 10);
        lemma_digits_value_push(pad_digits(v / 10, (width - 1) as nat), digit_char(v % 10));
    }
}

/// A number written in `width` digits between two texts is read back.
pub proof fn lemma_number_round_trip(pre: Seq<char>, tail: Seq<char>, v: int, width: nat)
    requires
        0 <= v < pow10(width),
    ensures
        digits_at(pre + pad_digits(v, width) + tail, pre.len() as int, width as int),
        number_at(pre + pad_digits(v, width) + tail, pre.len() as int, width as int) == v,
        pad_digits(v, width).len() == width,
{
    lemma_pad_digits(v, width);
    let text = pre + pad_digits(v, width) + tail;
    assert(text.subrange(pre.len() as int, pre.len() as int + width as int) =~= pad_digits(v, width));
}

proof fn lemma_small_powers()
    ensures
        pow10(2) == 100,
        pow10(3) == 1000,
        pow10(4) == 10000,
{
    reveal_with_fuel(pow10, 5);
}

proof fn lemma_fraction_round_trip(pre: Seq<char>, tail: Seq<char>, acc: Fields, f: Fields)
    requires
        f.milli < 1000,
        tail.len() == 0 || !is_digit(tail[0]),
    ensures
        match_item(Item::Fraction, pre + render_item(Item::Fraction, f) + tail, pre.len() as int, acc)
            == Some(
            (absorb(Item::Fraction, acc, f), end_of(pre, render_item(Item::Fraction, f))),
        ),
{
    lemma_small_powers();
    let digits = pad_digits(f.milli as int, 3);
    let text = pre + render_item(Item::Fraction, f) + tail;
    let pos = pre.len() as int;
    lemma_pad_digits(f.milli as int, 3);
    lemma_number_round_trip(pre + seq!['.'], tail, f.milli as int, 3);
    assert(text =~= (pre + seq!['.']) + digits + tail);
    assert(text[pos] == '.');
    assert(text[pos + 1] == digits[0] && text[pos + 2] == digits[1] && text[pos + 3] == digits[2]);
    assert(is_digit(digits[0]) && is_digit(digits[1]) && is_digit(digits[2]));
    if tail.len() > 0 {
        assert(text[pos + 4] == tail[0]);
    } else {
        assert(text.len() == pos + 4);
    }
    assert(digit_run(text, pos + 1, 9) == 3) by {
        reveal_with_fuel(digit_run, 5);
    }
    assert(fraction_millis(text, pos + 1, 3) == f.milli);
}

proof fn lemma_offset_round_trip(
    item: Item,
    pre: Seq<char>,
    tail: Seq<char>,
    acc: Fields,
    f: Fields,
)
    requires
        item is Offset || item is OffsetBasic,
        -1440 < f.offset_minutes < 1440,
    ensures
        match_item(item, pre + render_item(item, f) + tail, pre.len() as int, acc) == Some(
            (absorb(item, acc, f), end_of(pre, render_item(item, f))),
        ),
{
    lemma_small_powers();
    let offset = f.offset_minutes as int;
    let size = if offset < 0 {
        -offset
    } else {
        offset
    };
    let sign = if offset < 0 {
        '-'
    } else {
        '+'
    };
    let between: Seq<char> = if item is Offset {
        seq![':']
    } else {
        Seq::empty()
    };
    let hours = pad_digits(size / 60, 2);
    let minutes = pad_digits(size % 60, 2);
    let text = pre + render_item(item, f) + tail;
    let pos = pre.len() as int;
    lemma_number_round_trip(pre + seq![sign], between + minutes + tail, size / 60, 2);
    lemma_number_round_trip(pre + seq![sign] + hours + between, tail, size % 60, 2);
    assert(text =~= (pre + seq![sign]) + hours + (between + minutes + tail));
    assert(text =~= (pre + seq![sign] + hours + between) + minutes + tail);
    assert(text[pos] == sign);
    assert(is_sign(sign) && sign != 'Z');
    if item is Offset {
        assert(text[pos + 3] == ':');
    }
    assert(signed_minutes(sign, size / 60, size % 60) == offset);
}

proof fn lemma_weekday_round_trip(pre: Seq<char>, tail: Seq<char>, acc: Fields, f: Fields)
    requires
        f.weekday matches Some(w) && w < 7,
    ensures
        match_item(
            Item::WeekdayName,
            pre + render_item(Item::WeekdayName, f) + tail,
            pre.len() as int,
            acc,
        ) == Some(
            (
                absorb(Item::WeekdayName, acc, f),
                end_of(pre, render_item(Item::WeekdayName, f)),
            ),
        ),
{
    let w = f.weekday->0 as int;
    let name = weekday_letters(w);
    let text = pre + letters(name) + tail;
    let pos = pre.len() as int;
    assert(text[pos] == name.0 && text[pos + 1] == name.1 && text[pos + 2] == name.2);
    assert(letters_at(text, pos, name));
    assert(weekday_at(text, pos, 0) == Some(w)) by {
        reveal_with_fuel(weekday_at, 8);
    }
}

proof fn lemma_month_name_round_trip(pre: Seq<char>, tail: Seq<char>, acc: Fields, f: Fields)
    requires
        1 <= f.month <= 12,
    ensures
        match_item(
            Item::MonthName,
            pre + render_item(Item::MonthName, f) + tail,
            pre.len() as int,
            acc,
        ) == Some(
            (absorb(Item::MonthName, acc, f), end_of(pre, render_item(Item::MonthName, f))),
        ),
{
    let m = f.month as int;
    let name = month_letters(m);
    let text = pre + letters(name) + tail;
    let pos = pre.len() as int;
    assert(text[pos] == name.0 && text[pos + 1] == name.1 && text[pos + 2] == name.2);
    assert(letters_at(text, pos, name));
    assert(month_at(text, pos, 1) == Some(m)) by {
        reveal_with_fuel(month_at, 13);
    }
}

/// What an item writes for valid fields, between two texts, it reads back as
/// those fields and ends where what it wrote ends.
pub proof fn lemma_item_round_trip(
    item: Item,
    pre: Seq<char>,
    tail: Seq<char>,
    acc: Fields,
    f: Fields,
)
    requires
        f.valid(),
        item is WeekdayName ==> f.weekday is Some,
        item is Fraction ==> tail.len() == 0 || !is_digit(tail[0]),
    ensures
        match_item(item, pre + render_item(item, f) + tail, pre.len() as int, acc) == Some(
            (absorb(item, acc, f), end_of(pre, render_item(item, f))),
        ),
{
    lemma_small_powers();
    match item {
        Item::Year => lemma_number_round_trip(pre, tail, f.year as int, 4),
        Item::Month => lemma_number_round_trip(pre, tail, f.month as int, 2),
        Item::Day => lemma_number_round_trip(pre, tail, f.day as int, 2),
        Item::Hour => lemma_number_round_trip(pre, tail, f.hour as int, 2),
        Item::Minute => lemma_number_round_trip(pre, tail, f.minute as int, 2),
        Item::Second => lemma_number_round_trip(pre, tail, f.second as int, 2),
        Item::Fraction => lemma_fraction_round_trip(pre, tail, acc, f),
        Item::Offset => lemma_offset_round_trip(item, pre, tail, acc, f),
        Item::OffsetBasic => lemma_offset_round_trip(item, pre, tail, acc, f),
        Item::WeekdayName => {
            crate::calendar::lemma_epoch_shift();
            lemma_weekday_round_trip(pre, tail, acc, f)
        },
        Item::MonthName => lemma_month_name_round_trip(pre, tail, acc, f),
        Item::Lit(c) => {
            assert((pre + seq![c] + tail)[pre.len() as int] == c);
        },
    }
}

/// Writing the items `k .. end` is writing `k .. mid` and then `mid .. end`.
pub proof fn lemma_render_range_split(items: Seq<Item>, k: int, mid: int, end: int, f: Fields)
    requires
        0 <= k <= mid <= end <= items.len(),
    ensures
        render_range(items, k, end, f) == render_range(items, k, mid, f) + render_range(
            items,
            mid,
            end,
            f,
        ),
    decreases mid - k,
{
    if k < mid {
        lemma_render_range_split(items, k + 1, mid, end, f);
        assert(render_item(items[k], f) + (render_range(items, k + 1, mid, f) + render_range(
            items,
            mid,
            end,
            f,
        )) =~= (render_item(items[k], f) + render_range(items, k + 1, mid, f)) + render_range(
            items,
            mid,
            end,
            f,
        ));
    } else {
        assert(render_range(items, k, mid, f) + render_range(items, mid, end, f)
            =~= render_range(items, mid, end, f));
    }
}

/// Where a template `t` agrees with the template `c` on the items `k .. p`,
/// reading what `c` wrote for valid fields by `t` comes through those items
/// with the fields that they stand for, at the place where what they wrote ends.
pub proof fn lemma_range_round_trip(
    t: Seq<Item>,
    c: Seq<Item>,
    k: int,
    p: int,
    pre: Seq<char>,
    acc: Fields,
    f: Fields,
)
    requires
        0 <= k <= p <= c.len(),
        p <= t.len(),
        forall|i: int| k <= i < p ==> t[i] == c[i],
        f.valid(),
        items_fit(c, f),
    ensures
        match_from(t, k, pre + render_range(c, k, c.len() as int, f), pre.len() as int, acc)
            == match_from(
            t,
            p,
            pre + render_range(c, k, c.len() as int, f),
            end_of(pre, render_range(c, k, p, f)),
            absorb_range(c, k, p, acc, f),
        ),
    decreases p - k,
{
    let n = c.len() as int;
    let text = pre + render_range(c, k, n, f);
    if k < p {
        let written = render_item(c[k], f);
        let tail = render_range(c, k + 1, n, f);
        assert(item_fits(c, k, f));
        assert(t[k] == c[k]);
        if c[k] is Fraction && k + 1 < n {
            assert(tail == render_item(c[k + 1], f) + render_range(c, k + 2, n, f));
            assert(tail[0] == render_item(c[k + 1], f)[0]);
        }
        assert(text =~= pre + written + tail);
        lemma_item_round_trip(c[k], pre, tail, acc, f);
        let next = absorb(c[k], acc, f);
        lemma_range_round_trip(t, c, k + 1, p, pre + written, next, f);
        assert(text =~= (pre + written) + tail);
        assert(render_range(c, k, p, f) == written + render_range(c, k + 1, p, f));
        assert(end_of(pre + written, render_range(c, k + 1, p, f)) == end_of(
            pre,
            render_range(c, k, p, f),
        ));
        assert(absorb_range(c, k, p, acc, f) == absorb_range(c, k + 1, p, next, f));
        assert(match_from(t, k, text, pre.len() as int, acc) == match_from(
            t,
            k + 1,
            text,
            end_of(pre, written),
            next,
        ));
    }
}

/// What a template writes for valid fields it reads back: the fields that
/// its items stand for, and blank ones for the rest.
pub proof fn lemma_template_round_trip(c: Seq<Item>, f: Fields)
    requires
        f.valid(),
        items_fit(c, f),
    ensures
        match_template(c, render_template(c, f)) == Some(
            absorb_range(c, 0, c.len() as int, crate::instant::blank_fields(), f),
        ),
{
    let n = c.len() as int;
    let text = render_template(c, f);
    let pre = Seq::<char>::empty();
    lemma_range_round_trip(c, c, 0, n, pre, crate::instant::blank_fields(), f);
    assert(pre + text =~= text);
    assert(end_of(pre, render_range(c, 0, n, f)) == text.len());
}

/// A template that asks for a fraction of the second where the text goes on
/// otherwise, or ends, does not match the text.
pub proof fn lemma_fraction_rejected(t: Seq<Item>, c: Seq<Item>, p: int, f: Fields)
    requires
        0 <= p <= c.len(),
        p < t.len(),
        forall|i: int| 0 <= i < p ==> t[i] == c[i],
        t[p] is Fraction,
        f.valid(),
        items_fit(c, f),
        p == c.len() || (c[p] matches Item::Lit(ch) && ch != '.') || c[p] is Offset || c[p]
            is OffsetBasic,
    ensures
        match_template(t, render_template(c, f)).is_none(),
{
    let n = c.len() as int;
    let text = render_template(c, f);
    let pre = Seq::<char>::empty();
    let acc = absorb_range(c, 0, p, crate::instant::blank_fields(), f);
    let head = render_range(c, 0, p, f);
    let rest = render_range(c, p, n, f);
    lemma_range_round_trip(t, c, 0, p, pre, crate::instant::blank_fields(), f);
    assert(pre + text =~= text);
    lemma_render_range_split(c, 0, p, n, f);
    assert(text == head + rest);
    let pos = head.len() as int;
    assert(end_of(pre, head) == pos);
    if p < n {
        assert(rest == render_item(c[p], f) + render_range(c, p + 1, n, f));
        assert(text[pos] == render_item(c[p], f)[0]);
        assert(text[pos] != '.');
    } else {
        assert(rest =~= Seq::<char>::empty());
        assert(text.len() == pos);
    }
    assert(match_item(t[p], text, pos, acc).is_none());
}

/// An item that reads something reads at least one character, within the text.
pub proof fn lemma_item_consumes(item: Item, text: Seq<char>, pos: int, f: Fields)
    requires
        0 <= pos,
    ensures
        match_item(item, text, pos, f) matches Some(step) ==> pos < step.1 <= text.len(),
{
    match item {
        Item::Fraction => {
            lemma_digit_run_within(text, pos + 1, 9);
        },
        Item::WeekdayName => {
            reveal_with_fuel(weekday_at, 8);
        },
        Item::MonthName => {
            reveal_with_fuel(month_at, 13);
        },
        _ => {},
    }
}

/// The digits counted from `pos` on stand within the text.
pub proof fn lemma_digit_run_within(text: Seq<char>, pos: int, limit: nat)
    requires
        0 <= pos,
    ensures
        digit_run(text, pos, limit) <= limit,
        digit_run(text, pos, limit) > 0 ==> pos + digit_run(text, pos, limit) <= text.len(),
    decreases limit,
{
    if !(limit == 0 || pos >= text.len() || !is_digit(text[pos])) {
        lemma_digit_run_within(text, pos + 1, (limit - 1) as nat);
    }
}

/// Where a template reads a whole text, a longer template that begins with
/// the same items does not.
pub proof fn lemma_longer_rejected(
    t: Seq<Item>,
    c: Seq<Item>,
    k: int,
    text: Seq<char>,
    pos: int,
    acc: Fields,
)
    requires
        0 <= k <= c.len() < t.len(),
        0 <= pos,
        forall|i: int| k <= i < c.len() ==> t[i] == c[i],
        match_from(c, k, text, pos, acc).is_some(),
    ensures
        match_from(t, k, text, pos, acc).is_none(),
    decreases c.len() - k,
{
    lemma_item_consumes(t[k], text, pos, acc);
    if k < c.len() {
        let step = match_item(c[k], text, pos, acc)->0;
        lemma_longer_rejected(t, c, k + 1, text, step.1, step.0);
    }
}

/// No text that goes on with `ch` can be read by the item.
pub open spec fn cannot_start(item: Item, ch: char) -> bool {
    match item {
        Item::Fraction => ch != '.',
        Item::Offset => ch != 'Z' && !is_sign(ch),
        Item::OffsetBasic => !is_sign(ch),
        Item::WeekdayName => is_digit(ch),
        Item::MonthName => is_digit(ch),
        Item::Lit(c) => c != ch,
        _ => !is_digit(ch),
    }
}

pub proof fn lemma_cannot_start(item: Item, text: Seq<char>, pos: int, f: Fields)
    requires
        0 <= pos < text.len(),
        cannot_start(item, text[pos]),
    ensures
        match_item(item, text, pos, f).is_none(),
{
    match item {
        Item::Year => {
            if pos + 4 <= text.len() {
                assert(text.subrange(pos, pos + 4)[0] == text[pos]);
            }
        },
        Item::Fraction => {},
        Item::Offset => {},
        Item::OffsetBasic => {},
        Item::WeekdayName => {
            reveal_with_fuel(weekday_at, 8);
        },
        Item::MonthName => {
            reveal_with_fuel(month_at, 13);
        },
        Item::Lit(_) => {},
        _ => {
            if pos + 2 <= text.len() {
                assert(text.subrange(pos, pos + 2)[0] == text[pos]);
            }
        },
    }
}

/// Whatever the number, its last `width` digits are `width` digits.
pub proof fn lemma_pad_digits_shape(v: int, width: nat)
    ensures
        pad_digits(v, width).len() == width,
        all_digits(pad_digits(v, width)),
    decreases width,
{
    if width > 0 {
        lemma_pad_digits_shape(v / 10, (width - 1) as nat);
    }
}

/// The first character that an item writes is a digit where the item is a
/// number, and the item's own where it is a character.
pub open spec fn starts_as(item: Item, ch: char) -> bool {
    match item {
        Item::Fraction => ch == '.',
        Item::Offset => is_sign(ch),
        Item::OffsetBasic => is_sign(ch),
        Item::WeekdayName => !is_digit(ch),
        Item::MonthName => !is_digit(ch),
        Item::Lit(c) => c == ch,
        _ => is_digit(ch),
    }
}

pub proof fn lemma_first_written(item: Item, f: Fields)
    ensures
        render_item(item, f).len() >= 1,
        starts_as(item, render_item(item, f)[0]),
{
    lemma_pad_digits_shape(f.year as int, 4);
    lemma_pad_digits_shape(f.month as int, 2);
    lemma_pad_digits_shape(f.day as int, 2);
    lemma_pad_digits_shape(f.hour as int, 2);
    lemma_pad_digits_shape(f.minute as int, 2);
    lemma_pad_digits_shape(f.second as int, 2);
}

/// Where a template `t` agrees with the template `c` on the items before
/// `p`, and item `p` of `t` cannot read what item `p` of `c` begins with, `t`
/// does not match what `c` wrote.
pub proof fn lemma_diverges(t: Seq<Item>, c: Seq<Item>, p: int, f: Fields)
    requires
        0 <= p < c.len(),
        p < t.len(),
        forall|i: int| 0 <= i < p ==> t[i] == c[i],
        f.valid(),
        items_fit(c, f),
        forall|ch: char| starts_as(c[p], ch) ==> cannot_start(t[p], ch),
    ensures
        match_template(t, render_template(c, f)).is_none(),
{
    let n = c.len() as int;
    let text = render_template(c, f);
    let pre = Seq::<char>::empty();
    let acc = absorb_range(c, 0, p, crate::instant::blank_fields(), f);
    let head = render_range(c, 0, p, f);
    let rest = render_range(c, p, n, f);
    lemma_range_round_trip(t, c, 0, p, pre, crate::instant::blank_fields(), f);
    assert(pre + text =~= text);
    lemma_render_range_split(c, 0, p, n, f);
    let pos = head.len() as int;
    assert(end_of(pre, head) == pos);
    lemma_first_written(c[p], f);
    assert(rest == render_item(c[p], f) + render_range(c, p + 1, n, f));
    assert(text[pos] == render_item(c[p], f)[0]);
    lemma_cannot_start(t[p], text, pos, acc);
}

} // verus!
