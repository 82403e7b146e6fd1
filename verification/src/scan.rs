//! Matching a text against a template.

use crate::instant::Fields;
use crate::template::{
    digit_run, digits_at, letters_at, match_from, match_item, match_template, month_at,
    month_letters, number_at, weekday_at, weekday_letters, Item,
};
use crate::text::{
    all_digits, digit_of, digits_value, is_digit, lemma_digits_value_bound,
    lemma_digits_value_push, lemma_pow10_small, pow10,
};
use vstd::prelude::*;

verus! {

/// Reads the number that `width` digits write at `pos`.
fn read_number(text: &Vec<char>, pos: usize, width: usize) -> (r: Option<u32>)
    requires
        width <= 9,
    ensures
        r.is_some() == digits_at(text@, pos as int, width as int),
        r matches Some(v) ==> v == number_at(text@, pos as int, width as int) && v < pow10(
            width as nat,
        ) && pos + width <= text.len(),
{
    if width > text.len() || pos > text.len() - width {
        return None;
    }
    let mut v: u32 = 0;
    let mut i: usize = 0;
    while i < width
        invariant
            i <= width <= 9,
            pos + width <= text.len(),
            all_digits(text@.subrange(pos as int, pos + i)),
            v == digits_value(text@.subrange(pos as int, pos + i)),
        decreases width - i,
    {
        let ghost head = text@.subrange(pos as int, pos + i);
        proof {
            lemma_digits_value_bound(head);
            lemma_pow10_small(i as nat);
            assert(text@.subrange(pos as int, pos + i + 1) =~= head.push(text@[pos + i]));
            lemma_digits_value_push(head, text@[pos + i]);
        }
        match digit_of(text[pos + i]) {
            Some(d) => {
                v = v * 10 + d;
            },
            None => {
                assert(!is_digit(text@.subrange(pos as int, pos + width)[i as int]));
                return None;
            },
        }
        i = i + 1;
    }
    proof {
        lemma_digits_value_bound(text@.subrange(pos as int, pos + width));
    }
    Some(v)
}

/// Counts the digits that stand from `pos` on, up to `limit` of them.
pub fn count_digits(text: &Vec<char>, pos: usize, limit: usize) -> (n: usize)
    ensures
        n == digit_run(text@, pos as int, limit as nat),
        n <= limit,
        n > 0 ==> pos + n <= text.len(),
        forall|j: int| pos <= j < pos + n ==> is_digit(#[trigger] text@[j]),
{
    if pos >= text.len() {
        return 0;
    }
    let mut n: usize = 0;
    while n < limit && n < text.len() - pos && digit_of(text[pos + n]).is_some()
        invariant
            n <= limit,
            pos < text.len(),
            pos + n <= text.len(),
            digit_run(text@, pos as int, limit as nat) == n + digit_run(
                text@,
                pos + n,
                (limit - n) as nat,
            ),
            forall|j: int| pos <= j < pos + n ==> is_digit(#[trigger] text@[j]),
        decreases limit - n,
    {
        n = n + 1;
    }
    n
}

fn letters_stand_at(text: &Vec<char>, pos: usize, name: (char, char, char)) -> (r: bool)
    ensures
        r == letters_at(text@, pos as int, name),
        r ==> pos + 3 <= text.len(),
{
    text.len() >= 3 && pos <= text.len() - 3 && text[pos] == name.0 && text[pos + 1] == name.1
        && text[pos + 2] == name.2
}

/// The three letters of a day of the week; 0 is Monday.
pub fn weekday_name(w: u32) -> (name: (char, char, char))
    ensures
        name == weekday_letters(w as int),
{
    if w == 0 {
        ('M', 'o', 'n')
    } else if w == 1 {
        ('T', 'u', 'e')
    } else if w == 2 {
        ('W', 'e', 'd')
    } else if w == 3 {
        ('T', 'h', 'u')
    } else if w == 4 {
        ('F', 'r', 'i')
    } else if w == 5 {
        ('S', 'a', 't')
    } else if w == 6 {
        ('S', 'u', 'n')
    } else {
        ('?', '?', '?')
    }
}

/// The three letters of a month; 1 is January.
pub fn month_name(m: u32) -> (name: (char, char, char))
    ensures
        name == month_letters(m as int),
{
    if m == 1 {
        ('J', 'a', 'n')
    } else if m == 2 {
        ('F', 'e', 'b')
    } else if m == 3 {
        ('M', 'a', 'r')
    } else if m == 4 {
        ('A', 'p', 'r')
    } else if m == 5 {
        ('M', 'a', 'y')
    } else if m == 6 {
        ('J', 'u', 'n')
    } else if m == 7 {
        ('J', 'u', 'l')
    } else if m == 8 {
        ('A', 'u', 'g')
    } else if m == 9 {
        ('S', 'e', 'p')
    } else if m == 10 {
        ('O', 'c', 't')
    } else if m == 11 {
        ('N', 'o', 'v')
    } else if m == 12 {
        ('D', 'e', 'c')
    } else {
        ('?', '?', '?')
    }
}

fn find_weekday(text: &Vec<char>, pos: usize) -> (r: Option<u32>)
    ensures
        r.is_some() == weekday_at(text@, pos as int, 0).is_some(),
        r matches Some(w) ==> weekday_at(text@, pos as int, 0) == Some(w as int) && w < 7
            && pos + 3 <= text.len(),
{
    let mut w: u32 = 0;
    while w < 7
        invariant
            w <= 7,
            weekday_at(text@, pos as int, 0) == weekday_at(text@, pos as int, w as int),
        decreases 7 - w,
    {
        if letters_stand_at(text, pos, weekday_name(w)) {
            return Some(w);
        }
        w = w + 1;
    }
    None
}

fn find_month(text: &Vec<char>, pos: usize) -> (r: Option<u32>)
    ensures
        r.is_some() == month_at(text@, pos as int, 1).is_some(),
        r matches Some(m) ==> month_at(text@, pos as int, 1) == Some(m as int) && 1 <= m <= 12
            && pos + 3 <= text.len(),
{
    let mut m: u32 = 1;
    while m <= 12
        invariant
            1 <= m <= 13,
            month_at(text@, pos as int, 1) == month_at(text@, pos as int, m as int),
        decreases 13 - m,
    {
        if letters_stand_at(text, pos, month_name(m)) {
            return Some(m);
        }
        m = m + 1;
    }
    None
}

fn char_at(text: &Vec<char>, pos: usize, c: char) -> (r: bool)
    ensures
        r == (pos < text.len() && text@[pos as int] == c),
{
    pos < text.len() && text[pos] == c
}

fn read_fraction(text: &Vec<char>, pos: usize, f: Fields) -> (r: Option<(Fields, usize)>)
    ensures
        r.is_some() == match_item(Item::Fraction, text@, pos as int, f).is_some(),
        r matches Some(step) ==> match_item(Item::Fraction, text@, pos as int, f) == Some(
            (step.0, step.1 as int),
        ),
        r matches Some(step) ==> step.1 <= text@.len(),
{
    if !char_at(text, pos, '.') {
        return None;
    }
    let run: usize = count_digits(text, pos + 1, 9);
    if run == 0 {
        return None;
    }
    let counted: usize = if run < 3 {
        run
    } else {
        3
    };
    proof {
        assert forall|j: int| 0 <= j < counted implies is_digit(
            #[trigger] text@.subrange(pos + 1, pos + 1 + counted)[j],
        ) by {
            assert(is_digit(text@[pos + 1 + j]));
        }
        lemma_pow10_small(counted as nat);
        reveal_with_fuel(pow10, 4);
    }
    let head: u32 = match read_number(text, pos + 1, counted) {
        Some(v) => v,
        None => 0,
    };
    let milli: u32 = if run == 1 {
        head * 100
    } else if run == 2 {
        head * 10
    } else {
        head
    };
    Some((Fields { milli, ..f }, pos + 1 + run))
}

fn sign_at(text: &Vec<char>, pos: usize) -> (r: Option<bool>)
    ensures
        r.is_some() == (pos < text@.len() && crate::template::is_sign(text@[pos as int])),
        r matches Some(minus) ==> minus == (text@[pos as int] == '-'),
{
    if pos >= text.len() {
        None
    } else if text[pos] == '-' {
        Some(true)
    } else if text[pos] == '+' {
        Some(false)
    } else {
        None
    }
}

fn minutes_of(minus: bool, hours: u32, minutes: u32) -> (r: i32)
    requires
        hours < 100,
        minutes < 100,
    ensures
        r == crate::template::signed_minutes(
            if minus {
                '-'
            } else {
                '+'
            },
            hours as int,
            minutes as int,
        ),
{
    let size: i32 = (hours * 60 + minutes) as i32;
    if minus {
        -size
    } else {
        size
    }
}

fn read_offset(text: &Vec<char>, pos: usize, f: Fields, colon: bool) -> (r: Option<
    (Fields, usize),
>)
    ensures
        r.is_some() == match_item(
            if colon {
                Item::Offset
            } else {
                Item::OffsetBasic
            },
            text@,
            pos as int,
            f,
        ).is_some(),
        r matches Some(step) ==> match_item(
            if colon {
                Item::Offset
            } else {
                Item::OffsetBasic
            },
            text@,
            pos as int,
            f,
        ) == Some((step.0, step.1 as int)),
        r matches Some(step) ==> step.1 <= text@.len(),
{
    if colon && char_at(text, pos, 'Z') {
        return Some((Fields { offset_minutes: 0, ..f }, pos + 1));
    }
    let width: usize = if colon {
        6
    } else {
        5
    };
    if text.len() < width || pos > text.len() - width {
        return None;
    }
    let minus: bool = match sign_at(text, pos) {
        Some(minus) => minus,
        None => {
            return None;
        },
    };
    let hours: u32 = match read_number(text, pos + 1, 2) {
        Some(v) => v,
        None => {
            return None;
        },
    };
    if colon && text[pos + 3] != ':' {
        return None;
    }
    let minutes: u32 = match read_number(text, pos + width - 2, 2) {
        Some(v) => v,
        None => {
            return None;
        },
    };
    if minutes >= 60 {
        return None;
    }
    proof {
        reveal_with_fuel(pow10, 3);
    }
    Some((Fields { offset_minutes: minutes_of(minus, hours, minutes), ..f }, pos + width))
}

fn read_two(text: &Vec<char>, pos: usize) -> (r: Option<u32>)
    ensures
        r.is_some() == digits_at(text@, pos as int, 2),
        r matches Some(v) ==> v == number_at(text@, pos as int, 2) && v < 100 && pos + 2
            <= text.len(),
{
    proof {
        reveal_with_fuel(pow10, 3);
    }
    read_number(text, pos, 2)
}

/// Reads one item at `pos`.
pub fn read_item(item: Item, text: &Vec<char>, pos: usize, f: Fields) -> (r: Option<
    (Fields, usize),
>)
    ensures
        r.is_some() == match_item(item, text@, pos as int, f).is_some(),
        r matches Some(step) ==> match_item(item, text@, pos as int, f) == Some(
            (step.0, step.1 as int),
        ),
        r matches Some(step) ==> step.1 <= text@.len(),
{
    match item {
        Item::Year => match read_number(text, pos, 4) {
            Some(v) => Some((Fields { year: v, ..f }, pos + 4)),
            None => None,
        },
        Item::Month => match read_two(text, pos) {
            Some(v) => Some((Fields { month: v, ..f }, pos + 2)),
            None => None,
        },
        Item::Day => match read_two(text, pos) {
            Some(v) => Some((Fields { day: v, ..f }, pos + 2)),
            None => None,
        },
        Item::Hour => match read_two(text, pos) {
            Some(v) => Some((Fields { hour: v, ..f }, pos + 2)),
            None => None,
        },
        Item::Minute => match read_two(text, pos) {
            Some(v) => Some((Fields { minute: v, ..f }, pos + 2)),
            None => None,
        },
        Item::Second => match read_two(text, pos) {
            Some(v) => Some((Fields { second: v, ..f }, pos + 2)),
            None => None,
        },
        Item::Fraction => read_fraction(text, pos, f),
        Item::Offset => read_offset(text, pos, f, true),
        Item::OffsetBasic => read_offset(text, pos, f, false),
        Item::WeekdayName => match find_weekday(text, pos) {
            Some(w) => Some((Fields { weekday: Some(w), ..f }, pos + 3)),
            None => None,
        },
        Item::MonthName => match find_month(text, pos) {
            Some(m) => Some((Fields { month: m, ..f }, pos + 3)),
            None => None,
        },
        Item::Lit(c) => if char_at(text, pos, c) {
            Some((f, pos + 1))
        } else {
            None
        },
    }
}

/// Matches a whole text against a template.
pub fn read_template(items: &Vec<Item>, text: &Vec<char>) -> (r: Option<Fields>)
    ensures
        r == match_template(items@, text@),
{
    let mut f: Fields = Fields::blank();
    let mut pos: usize = 0;
    let mut k: usize = 0;
    while k < items.len()
        invariant
            k <= items.len(),
            pos <= text.len(),
            match_template(items@, text@) == match_from(items@, k as int, text@, pos as int, f),
        decreases items.len() - k,
    {
        match read_item(items[k], text, pos, f) {
            Some(step) => {
                f = step.0;
                pos = step.1;
            },
            None => {
                return None;
            },
        }
        k = k + 1;
    }
    if pos == text.len() {
        Some(f)
    } else {
        None
    }
}

} // verus!
