//! The named formats: for each its name, the one template it is written by,
//! and the templates that are tried, in order, to read it; and the order in
//! which templates are tried where no format is declared.

use crate::template::Item;
use crate::text::same_text;
use vstd::prelude::*;

verus! {

#[derive(Clone, Copy, Debug, PartialEq, Eq, Structural)]
pub enum FormatName {
    LocalReadable,
    UtcReadable,
    Rfc3339,
    Iso8601Basic,
    Iso8601Extended,
    Rfc2822,
}

/// Year, month and day with `sep` between them.
pub open spec fn date_items(sep: char) -> Seq<Item> {
    seq![Item::Year, Item::Lit(sep), Item::Month, Item::Lit(sep), Item::Day]
}

/// Hour and minute with a colon between them.
pub open spec fn minute_items() -> Seq<Item> {
    seq![Item::Hour, Item::Lit(':'), Item::Minute]
}

/// Hour, minute and second with colons between them.
pub open spec fn clock_items() -> Seq<Item> {
    minute_items() + seq![Item::Lit(':'), Item::Second]
}

/// A date, `joint`, and the time of day.
pub open spec fn stamp_items(sep: char, joint: char) -> Seq<Item> {
    date_items(sep).push(Item::Lit(joint)) + clock_items()
}

/// Date and time of day without separators but for a `T` between the two.
pub open spec fn basic_items() -> Seq<Item> {
    seq![
        Item::Year,
        Item::Month,
        Item::Day,
        Item::Lit('T'),
        Item::Hour,
        Item::Minute,
        Item::Second,
    ]
}

/// A space and the letters `UTC`.
pub open spec fn utc_suffix() -> Seq<Item> {
    seq![Item::Lit(' '), Item::Lit('U'), Item::Lit('T'), Item::Lit('C')]
}

/// Day, month name, year, time of day and offset, as internet mail writes them.
pub open spec fn mail_items() -> Seq<Item> {
    seq![Item::Day, Item::Lit(' '), Item::MonthName, Item::Lit(' '), Item::Year, Item::Lit(' ')]
        + clock_items() + seq![Item::Lit(' '), Item::OffsetBasic]
}

/// The name of the day of the week, a comma and a space.
pub open spec fn weekday_prefix() -> Seq<Item> {
    seq![Item::WeekdayName, Item::Lit(','), Item::Lit(' ')]
}

/// Month, day and year with strokes between them.
pub open spec fn us_date_items() -> Seq<Item> {
    seq![Item::Month, Item::Lit('/'), Item::Day, Item::Lit('/'), Item::Year]
}

/// Day, month and year with strokes between them.
pub open spec fn european_date_items() -> Seq<Item> {
    seq![Item::Day, Item::Lit('/'), Item::Month, Item::Lit('/'), Item::Year]
}

/// A space and the time of day.
pub open spec fn clock_suffix() -> Seq<Item> {
    seq![Item::Lit(' ')] + clock_items()
}

/// The template that a format is written by.
pub open spec fn canonical_items(name: FormatName) -> Seq<Item> {
    match name {
        FormatName::LocalReadable => stamp_items('-', ' '),
        FormatName::UtcReadable => stamp_items('-', ' ') + utc_suffix(),
        FormatName::Rfc3339 => stamp_items('-', 'T').push(Item::Offset),
        FormatName::Iso8601Basic => basic_items().push(Item::Lit('Z')),
        FormatName::Iso8601Extended => stamp_items('-', 'T').push(Item::Fraction).push(
            Item::Lit('Z'),
        ),
        FormatName::Rfc2822 => weekday_prefix() + mail_items(),
    }
}

/// The templates that are tried, in this order, to read a declared format: one
/// with a fraction of the second stands before the same without.
pub open spec fn accepted_items(name: FormatName) -> Seq<Seq<Item>> {
    match name {
        FormatName::LocalReadable => seq![
            stamp_items('-', ' ').push(Item::Fraction),
            stamp_items('-', ' '),
            date_items('-').push(Item::Lit(' ')) + minute_items(),
            date_items('-'),
        ],
        FormatName::UtcReadable => seq![
            stamp_items('-', ' ').push(Item::Fraction) + utc_suffix(),
            stamp_items('-', ' ') + utc_suffix(),
            stamp_items('-', ' ').push(Item::Fraction),
            stamp_items('-', ' '),
        ],
        FormatName::Rfc3339 => seq![
            stamp_items('-', 'T').push(Item::Fraction).push(Item::Offset),
            stamp_items('-', 'T').push(Item::Offset),
        ],
        FormatName::Iso8601Basic => seq![
            basic_items().push(Item::Fraction).push(Item::Lit('Z')),
            basic_items().push(Item::Lit('Z')),
            basic_items().push(Item::Fraction),
            basic_items(),
        ],
        FormatName::Iso8601Extended => seq![
            stamp_items('-', 'T').push(Item::Fraction).push(Item::Lit('Z')),
            stamp_items('-', 'T').push(Item::Lit('Z')),
            stamp_items('-', 'T').push(Item::Fraction),
            stamp_items('-', 'T'),
        ],
        FormatName::Rfc2822 => seq![weekday_prefix() + mail_items(), mail_items()],
    }
}

/// Dates with strokes: year first, then month first, then day first; each with
/// the time of day before the date alone.
pub open spec fn stroke_items() -> Seq<Seq<Item>> {
    seq![
        stamp_items('/', ' '),
        date_items('/'),
        us_date_items() + clock_suffix(),
        us_date_items(),
        european_date_items() + clock_suffix(),
        european_date_items(),
    ]
}

/// The templates that are tried, in this order, where no format is declared.
pub open spec fn detection_items() -> Seq<Seq<Item>> {
    accepted_items(FormatName::Rfc3339) + accepted_items(FormatName::Iso8601Extended)
        + accepted_items(FormatName::Iso8601Basic) + accepted_items(FormatName::Rfc2822)
        + accepted_items(FormatName::UtcReadable) + accepted_items(FormatName::LocalReadable)
        + stroke_items()
}

/// The templates of a list, each as the sequence of its items.
pub open spec fn item_lists(list: Seq<Vec<Item>>) -> Seq<Seq<Item>> {
    Seq::new(list.len(), |i: int| list[i]@)
}

fn date(sep: char) -> (t: Vec<Item>)
    ensures
        t@ == date_items(sep),
{
    let t: Vec<Item> = vec![Item::Year, Item::Lit(sep), Item::Month, Item::Lit(sep), Item::Day];
    assert(t@ =~= date_items(sep));
    t
}

fn extend(t: &mut Vec<Item>, more: &Vec<Item>)
    ensures
        final(t)@ == old(t)@ + more@,
{
    let mut i: usize = 0;
    while i < more.len()
        invariant
            i <= more.len(),
            t@ == old(t)@ + more@.take(i as int),
        decreases more.len() - i,
    {
        t.push(more[i]);
        assert(t@ =~= old(t)@ + more@.take(i + 1));
        i = i + 1;
    }
    assert(more@.take(more.len() as int) =~= more@);
}

fn joined(head: Vec<Item>, tail: &Vec<Item>) -> (t: Vec<Item>)
    ensures
        t@ == head@ + tail@,
{
    let mut t: Vec<Item> = head;
    extend(&mut t, tail);
    t
}

fn with(head: Vec<Item>, item: Item) -> (t: Vec<Item>)
    ensures
        t@ == head@.push(item),
{
    let mut t: Vec<Item> = head;
    t.push(item);
    t
}

fn minutes() -> (t: Vec<Item>)
    ensures
        t@ == minute_items(),
{
    let t: Vec<Item> = vec![Item::Hour, Item::Lit(':'), Item::Minute];
    assert(t@ =~= minute_items());
    t
}

fn clock() -> (t: Vec<Item>)
    ensures
        t@ == clock_items(),
{
    let tail: Vec<Item> = vec![Item::Lit(':'), Item::Second];
    assert(tail@ =~= seq![Item::Lit(':'), Item::Second]);
    joined(minutes(), &tail)
}

fn stamp(sep: char, joint: char) -> (t: Vec<Item>)
    ensures
        t@ == stamp_items(sep, joint),
{
    joined(with(date(sep), Item::Lit(joint)), &clock())
}

fn basic() -> (t: Vec<Item>)
    ensures
        t@ == basic_items(),
{
    let t: Vec<Item> = vec![
        Item::Year,
        Item::Month,
        Item::Day,
        Item::Lit('T'),
        Item::Hour,
        Item::Minute,
        Item::Second,
    ];
    assert(t@ =~= basic_items());
    t
}

fn utc() -> (t: Vec<Item>)
    ensures
        t@ == utc_suffix(),
{
    let t: Vec<Item> = vec![Item::Lit(' '), Item::Lit('U'), Item::Lit('T'), Item::Lit('C')];
    assert(t@ =~= utc_suffix());
    t
}

fn mail() -> (t: Vec<Item>)
    ensures
        t@ == mail_items(),
{
    let head: Vec<Item> = vec![
        Item::Day,
        Item::Lit(' '),
        Item::MonthName,
        Item::Lit(' '),
        Item::Year,
        Item::Lit(' '),
    ];
    let tail: Vec<Item> = vec![Item::Lit(' '), Item::OffsetBasic];
    assert(head@ =~= seq![
        Item::Day,
        Item::Lit(' '),
        Item::MonthName,
        Item::Lit(' '),
        Item::Year,
        Item::Lit(' '),
    ]);
    assert(tail@ =~= seq![Item::Lit(' '), Item::OffsetBasic]);
    joined(joined(head, &clock()), &tail)
}

fn weekday() -> (t: Vec<Item>)
    ensures
        t@ == weekday_prefix(),
{
    let t: Vec<Item> = vec![Item::WeekdayName, Item::Lit(','), Item::Lit(' ')];
    assert(t@ =~= weekday_prefix());
    t
}

fn us_date() -> (t: Vec<Item>)
    ensures
        t@ == us_date_items(),
{
    let t: Vec<Item> = vec![Item::Month, Item::Lit('/'), Item::Day, Item::Lit('/'), Item::Year];
    assert(t@ =~= us_date_items());
    t
}

fn european_date() -> (t: Vec<Item>)
    ensures
        t@ == european_date_items(),
{
    let t: Vec<Item> = vec![Item::Day, Item::Lit('/'), Item::Month, Item::Lit('/'), Item::Year];
    assert(t@ =~= european_date_items());
    t
}

fn clock_tail() -> (t: Vec<Item>)
    ensures
        t@ == clock_suffix(),
{
    let head: Vec<Item> = vec![Item::Lit(' ')];
    assert(head@ =~= seq![Item::Lit(' ')]);
    joined(head, &clock())
}

/// The template that a format is written by.
pub fn render_template(name: FormatName) -> (t: Vec<Item>)
    ensures
        t@ == canonical_items(name),
{
    match name {
        FormatName::LocalReadable => stamp('-', ' '),
        FormatName::UtcReadable => joined(stamp('-', ' '), &utc()),
        FormatName::Rfc3339 => with(stamp('-', 'T'), Item::Offset),
        FormatName::Iso8601Basic => with(basic(), Item::Lit('Z')),
        FormatName::Iso8601Extended => with(with(stamp('-', 'T'), Item::Fraction), Item::Lit('Z')),
        FormatName::Rfc2822 => joined(weekday(), &mail()),
    }
}

fn put(list: &mut Vec<Vec<Item>>, t: Vec<Item>)
    ensures
        item_lists(final(list)@) == item_lists(old(list)@).push(t@),
{
    list.push(t);
    assert(item_lists(final(list)@) =~= item_lists(old(list)@).push(t@));
}

fn put_accepted(list: &mut Vec<Vec<Item>>, name: FormatName)
    ensures
        item_lists(final(list)@) == item_lists(old(list)@) + accepted_items(name),
{
    match name {
        FormatName::LocalReadable => {
            put(list, with(stamp('-', ' '), Item::Fraction));
            put(list, stamp('-', ' '));
            put(list, joined(with(date('-'), Item::Lit(' ')), &minutes()));
            put(list, date('-'));
        },
        FormatName::UtcReadable => {
            put(list, joined(with(stamp('-', ' '), Item::Fraction), &utc()));
            put(list, joined(stamp('-', ' '), &utc()));
            put(list, with(stamp('-', ' '), Item::Fraction));
            put(list, stamp('-', ' '));
        },
        FormatName::Rfc3339 => {
            put(list, with(with(stamp('-', 'T'), Item::Fraction), Item::Offset));
            put(list, with(stamp('-', 'T'), Item::Offset));
        },
        FormatName::Iso8601Basic => {
            put(list, with(with(basic(), Item::Fraction), Item::Lit('Z')));
            put(list, with(basic(), Item::Lit('Z')));
            put(list, with(basic(), Item::Fraction));
            put(list, basic());
        },
        FormatName::Iso8601Extended => {
            put(list, with(with(stamp('-', 'T'), Item::Fraction), Item::Lit('Z')));
            put(list, with(stamp('-', 'T'), Item::Lit('Z')));
            put(list, with(stamp('-', 'T'), Item::Fraction));
            put(list, stamp('-', 'T'));
        },
        FormatName::Rfc2822 => {
            put(list, joined(weekday(), &mail()));
            put(list, mail());
        },
    }
    assert(item_lists(final(list)@) =~= item_lists(old(list)@) + accepted_items(name));
}

fn put_strokes(list: &mut Vec<Vec<Item>>)
    ensures
        item_lists(final(list)@) == item_lists(old(list)@) + stroke_items(),
{
    put(list, stamp('/', ' '));
    put(list, date('/'));
    put(list, joined(us_date(), &clock_tail()));
    put(list, us_date());
    put(list, joined(european_date(), &clock_tail()));
    put(list, european_date());
    assert(item_lists(final(list)@) =~= item_lists(old(list)@) + stroke_items());
}

/// The templates that are tried, in this order, to read a declared format.
pub fn parse_templates(name: FormatName) -> (list: Vec<Vec<Item>>)
    ensures
        item_lists(list@) == accepted_items(name),
{
    let mut list: Vec<Vec<Item>> = Vec::new();
    assert(item_lists(list@) =~= Seq::<Seq<Item>>::empty());
    put_accepted(&mut list, name);
    assert(item_lists(list@) =~= accepted_items(name));
    list
}

/// The templates that are tried, in this order, where no format is declared.
pub fn auto_detect_order() -> (list: Vec<Vec<Item>>)
    ensures
        item_lists(list@) == detection_items(),
{
    let mut list: Vec<Vec<Item>> = Vec::new();
    assert(item_lists(list@) =~= Seq::<Seq<Item>>::empty());
    put_accepted(&mut list, FormatName::Rfc3339);
    put_accepted(&mut list, FormatName::Iso8601Extended);
    put_accepted(&mut list, FormatName::Iso8601Basic);
    put_accepted(&mut list, FormatName::Rfc2822);
    put_accepted(&mut list, FormatName::UtcReadable);
    put_accepted(&mut list, FormatName::LocalReadable);
    put_strokes(&mut list);
    assert(item_lists(list@) =~= detection_items());
    list
}

/// The name by which a caller declares a format.
pub open spec fn format_name_text(name: FormatName) -> Seq<char> {
    match name {
        FormatName::LocalReadable => "local-readable"@,
        FormatName::UtcReadable => "utc-readable"@,
        FormatName::Rfc3339 => "rfc3339"@,
        FormatName::Iso8601Basic => "iso8601-basic"@,
        FormatName::Iso8601Extended => "iso8601-extended"@,
        FormatName::Rfc2822 => "rfc2822"@,
    }
}

/// The format that a name declares; the letters count as they are written.
pub open spec fn format_of_text(text: Seq<char>) -> Option<FormatName> {
    if text == "local-readable"@ {
        Some(FormatName::LocalReadable)
    } else if text == "utc-readable"@ {
        Some(FormatName::UtcReadable)
    } else if text == "rfc3339"@ {
        Some(FormatName::Rfc3339)
    } else if text == "iso8601-basic"@ {
        Some(FormatName::Iso8601Basic)
    } else if text == "iso8601-extended"@ {
        Some(FormatName::Iso8601Extended)
    } else if text == "rfc2822"@ {
        Some(FormatName::Rfc2822)
    } else {
        None
    }
}

/// Each format is the one that its own name declares.
pub proof fn law_format_name_round_trip(name: FormatName)
    ensures
        format_of_text(format_name_text(name)) == Some(name),
{
    reveal_strlit("local-readable");
    reveal_strlit("utc-readable");
    reveal_strlit("rfc3339");
    reveal_strlit("iso8601-basic");
    reveal_strlit("iso8601-extended");
    reveal_strlit("rfc2822");
    assert("local-readable"@.len() == 14);
    assert("utc-readable"@.len() == 12);
    assert("rfc3339"@.len() == 7 && "rfc3339"@[6] == '9');
    assert("iso8601-basic"@.len() == 13);
    assert("iso8601-extended"@.len() == 16);
    assert("rfc2822"@.len() == 7 && "rfc2822"@[6] == '2');
}

impl FormatName {
    /// The name by which a caller declares this format.
    pub fn name(self) -> (text: &'static str)
        ensures
            text@ == format_name_text(self),
    {
        match self {
            FormatName::LocalReadable => "local-readable",
            FormatName::UtcReadable => "utc-readable",
            FormatName::Rfc3339 => "rfc3339",
            FormatName::Iso8601Basic => "iso8601-basic",
            FormatName::Iso8601Extended => "iso8601-extended",
            FormatName::Rfc2822 => "rfc2822",
        }
    }

    /// The format that a name declares, or `None` where it declares none.
    pub fn from_name(text: &str) -> (r: Option<FormatName>)
        ensures
            r == format_of_text(text@),
    {
        if same_text(text, "local-readable") {
            Some(FormatName::LocalReadable)
        } else if same_text(text, "utc-readable") {
            Some(FormatName::UtcReadable)
        } else if same_text(text, "rfc3339") {
            Some(FormatName::Rfc3339)
        } else if same_text(text, "iso8601-basic") {
            Some(FormatName::Iso8601Basic)
        } else if same_text(text, "iso8601-extended") {
            Some(FormatName::Iso8601Extended)
        } else if same_text(text, "rfc2822") {
            Some(FormatName::Rfc2822)
        } else {
            None
        }
    }
}

} // verus!
