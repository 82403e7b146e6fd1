//! Writing fields by a template.

use crate::instant::Fields;
use crate::scan::{month_name, weekday_name};
use crate::template::{
    lemma_render_range_extend, letters, pad_digits, render_item, render_offset, render_range,
    render_template, Item,
};
use crate::text::char_of_digit;
use vstd::prelude::*;

verus! {

fn push_padded(out: &mut Vec<char>, v: u32, width: u32)
    ensures
        final(out)@ == old(out)@ + pad_digits(v as int, width as nat),
    decreases width,
{
    if width > 0 {
        push_padded(out, v / 10, width - 1);
        out.push(char_of_digit(v % 10));
        assert(final(out)@ =~= old(out)@ + pad_digits(v as int, width as nat));
    } else {
        assert(final(out)@ =~= old(out)@ + pad_digits(v as int, width as nat));
    }
}

fn push_letters(out: &mut Vec<char>, name: (char, char, char))
    ensures
        final(out)@ == old(out)@ + letters(name),
{
    out.push(name.0);
    out.push(name.1);
    out.push(name.2);
    assert(final(out)@ =~= old(out)@ + letters(name));
}

fn push_offset(out: &mut Vec<char>, offset_minutes: i32, colon: bool)
    ensures
        final(out)@ == old(out)@ + render_offset(
            offset_minutes as int,
            if colon {
                seq![':']
            } else {
                Seq::empty()
            },
        ),
{
    let offset: i64 = offset_minutes as i64;
    let size: i64 = if offset < 0 {
        -offset
    } else {
        offset
    };
    out.push(
        if offset < 0 {
            '-'
        } else {
            '+'
        },
    );
    push_padded(out, (size / 60) as u32, 2);
    if colon {
        out.push(':');
    }
    push_padded(out, (size % 60) as u32, 2);
    assert(final(out)@ =~= old(out)@ + render_offset(
        offset_minutes as int,
        if colon {
            seq![':']
        } else {
            Seq::empty()
        },
    ));
}

/// Appends what one item writes for the fields.
pub fn write_item(out: &mut Vec<char>, item: Item, f: &Fields)
    ensures
        final(out)@ == old(out)@ + render_item(item, *f),
{
    match item {
        Item::Year => push_padded(out, f.year, 4),
        Item::Month => push_padded(out, f.month, 2),
        Item::Day => push_padded(out, f.day, 2),
        Item::Hour => push_padded(out, f.hour, 2),
        Item::Minute => push_padded(out, f.minute, 2),
        Item::Second => push_padded(out, f.second, 2),
        Item::Fraction => {
            out.push('.');
            push_padded(out, f.milli, 3);
            assert(final(out)@ =~= old(out)@ + render_item(item, *f));
        },
        Item::Offset => push_offset(out, f.offset_minutes, true),
        Item::OffsetBasic => push_offset(out, f.offset_minutes, false),
        Item::WeekdayName => match f.weekday {
            Some(w) => push_letters(out, weekday_name(w)),
            None => push_letters(out, ('?', '?', '?')),
        },
        Item::MonthName => push_letters(out, month_name(f.month)),
        Item::Lit(c) => {
            out.push(c);
            assert(final(out)@ =~= old(out)@ + render_item(item, *f));
        },
    }
}

/// What a template writes for the fields.
pub fn write_template(items: &Vec<Item>, f: &Fields) -> (out: Vec<char>)
    ensures
        out@ == render_template(items@, *f),
{
    let mut out: Vec<char> = Vec::new();
    let mut k: usize = 0;
    while k < items.len()
        invariant
            k <= items.len(),
            out@ == render_range(items@, 0, k as int, *f),
        decreases items.len() - k,
    {
        proof {
            lemma_render_range_extend(items@, 0, k as int, *f);
        }
        write_item(&mut out, items[k], f);
        k = k + 1;
    }
    out
}

} // verus!
