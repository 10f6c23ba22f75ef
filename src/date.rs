//! Calendar dates: a validated (year, month, day) triple with a flexible
//! text reader and the canonical `YYYY.MM.DD` text form.

use vstd::prelude::*;
use vstd::string::*;

use crate::text::{
    find_char, find_from, i32_literal, is_digit, lemma_find_from, lemma_zero_pad_nat, padded_int,
    parse_i32, parse_u8, push_padded_int, u8_literal,
};

verus! {

/// Gregorian leap-year rule.
pub open spec fn is_leap_year(year: int) -> bool {
    (year % 4 == 0 && year % 100 != 0) || year % 400 == 0
}

/// The number of days of a month (1 to 12) in a year.
pub open spec fn days_in_month(year: int, month: int) -> int {
    if month == 2 {
        if is_leap_year(year) {
            29
        } else {
            28
        }
    } else if month == 4 || month == 6 || month == 9 || month == 11 {
        30
    } else {
        31
    }
}

/// Whether (year, month, day) names a day of the proleptic Gregorian
/// calendar within the years -9999 to 9999.
pub open spec fn is_calendar_date(year: int, month: int, day: int) -> bool {
    &&& -9999 <= year <= 9999
    &&& 1 <= month <= 12
    &&& 1 <= day <= days_in_month(year, month)
}

/// Relies on `time::Month::try_from` (accepts 1 to 12) and
/// `time::Date::from_calendar_date`, which accepts a year in -9999..=9999
/// (the crate's default range) and a day from 1 to the month's length.
#[verifier::external_body]
fn calendar_date_exists(year: i32, month: u8, day: u8) -> (r: bool)
    ensures
        r == is_calendar_date(year as int, month as int, day as int),
{
    match time::Month::try_from(month) {
        Ok(m) => time::Date::from_calendar_date(year, m, day).is_ok(),
        Err(_) => false,
    }
}

/// A calendar date. Values made by [`SimpleDate::parse`] and
/// [`SimpleDate::from_calendar`] are valid dates; dates order
/// chronologically, which is the order of (year, month, day).
#[derive(Clone, Copy, Debug, PartialEq, Eq, Structural, Ord)]
pub struct SimpleDate {
    pub year: i32,
    pub month: u8,
    pub day: u8,
}

/// The canonical text of a date: `YYYY.MM.DD`, each part zero-padded.
pub open spec fn date_text(year: int, month: int, day: int) -> Seq<char> {
    padded_int(year, 4) + seq!['.'] + padded_int(month, 2) + seq!['.'] + padded_int(day, 2)
}

/// A number that orders dates chronologically.
pub open spec fn date_key(d: SimpleDate) -> int {
    d.year * 65536 + d.month * 256 + d.day
}

/// How a text is read as a date: the parts are split at `-` when the text
/// holds one and at `.` otherwise; the year is a signed integer, two-digit
/// years (any value below 100) mean 2000 plus that value; month and day are
/// unsigned bytes; there must be exactly three parts, and they must form a
/// calendar date. The error carries a message naming what failed.
pub open spec fn date_reading(s: Seq<char>) -> Result<(int, int, int), Seq<char>> {
    let sep = if s.contains('-') { '-' } else { '.' };
    let first_sep = find_from(s, sep, 0);
    let year_text = s.subrange(0, first_sep);
    match i32_literal(year_text) {
        None => Err("Invalid year: "@ + year_text),
        Some(y0) => {
            let year = if y0 < 100 { y0 + 2000 } else { y0 };
            if first_sep >= s.len() {
                Err("Missing month in "@ + s)
            } else {
                let second_sep = find_from(s, sep, first_sep + 1);
                let month_text = s.subrange(first_sep + 1, second_sep);
                match u8_literal(month_text) {
                    None => Err("Invalid month: "@ + month_text),
                    Some(month) => {
                        if !(1 <= month <= 12) {
                            Err("Invalid month: "@ + month_text)
                        } else if second_sep >= s.len() {
                            Err("Missing day in "@ + s)
                        } else {
                            let third_sep = find_from(s, sep, second_sep + 1);
                            let day_text = s.subrange(second_sep + 1, third_sep);
                            match u8_literal(day_text) {
                                None => Err("Invalid day: "@ + day_text),
                                Some(day) => {
                                    if third_sep < s.len() {
                                        Err("Unexpected text after day in "@ + s)
                                    } else if !is_calendar_date(year, month, day) {
                                        Err("Invalid date: "@ + s)
                                    } else {
                                        Ok((year, month, day))
                                    }
                                },
                            }
                        }
                    },
                }
            }
        },
    }
}

/// A string made of a literal followed by a text.
fn message(head: &str, tail: &str) -> (r: String)
    ensures
        r@ == head@ + tail@,
{
    let mut m = String::from_str(head);
    m.append(tail);
    m
}

proof fn lemma_contains_find(s: Seq<char>, c: char)
    ensures
        s.contains(c) <==> find_from(s, c, 0) < s.len(),
{
    lemma_find_from(s, c, 0);
    if s.contains(c) {
        let j = choose|j: int| 0 <= j < s.len() && s[j] == c;
        assert(find_from(s, c, 0) <= j);
    }
}

/// Reading the canonical text of a calendar date gives that date back, for
/// every date from the year 100 on. (Earlier years do not come back: their
/// text reads as a two-digit year, or starts with a minus sign.)
pub proof fn lemma_date_round_trip(year: int, month: int, day: int)
    requires
        is_calendar_date(year, month, day),
        100 <= year,
    ensures
        date_reading(date_text(year, month, day)) == Ok::<(int, int, int), Seq<char>>(
            (year, month, day),
        ),
{
    let ys = padded_int(year, 4);
    let ms = padded_int(month, 2);
    let ds = padded_int(day, 2);
    lemma_zero_pad_nat(year as nat, 4);
    lemma_zero_pad_nat(month as nat, 2);
    lemma_zero_pad_nat(day as nat, 2);
    let s = date_text(year, month, day);
    assert(s.len() == 10);
    assert(s.subrange(0, 4) =~= ys);
    assert(s.subrange(5, 7) =~= ms);
    assert(s.subrange(8, 10) =~= ds);
    assert(forall|i: int| 0 <= i < 4 ==> s[i] == ys[i]);
    assert(forall|i: int| 5 <= i < 7 ==> s[i] == ms[i - 5]);
    assert(forall|i: int| 8 <= i < 10 ==> s[i] == ds[i - 8]);
    assert(s[4] == '.' && s[7] == '.');
    assert(!s.contains('-')) by {
        if s.contains('-') {
            let j = choose|j: int| 0 <= j < s.len() && s[j] == '-';
            if j < 4 {
                assert(is_digit(ys[j]));
            } else if 5 <= j < 7 {
                assert(is_digit(ms[j - 5]));
            } else if 8 <= j {
                assert(is_digit(ds[j - 8]));
            }
        }
    }
    lemma_find_from(s, '.', 0);
    let first_sep = find_from(s, '.', 0);
    if first_sep < 4 {
        assert(is_digit(ys[first_sep]));
    }
    assert(first_sep == 4);
    lemma_find_from(s, '.', 5);
    let second_sep = find_from(s, '.', 5);
    if second_sep < 7 {
        assert(is_digit(ms[second_sep - 5]));
    }
    assert(second_sep == 7);
    lemma_find_from(s, '.', 8);
    let third_sep = find_from(s, '.', 8);
    if third_sep < 10 {
        assert(is_digit(ds[third_sep - 8]));
    }
    assert(third_sep == 10);
    assert(is_digit(ys[0]) && is_digit(ms[0]) && is_digit(ds[0]));
    assert(i32_literal(ys) == Some(year));
    assert(u8_literal(ms) == Some(month));
    assert(u8_literal(ds) == Some(day));
}

/// The chronological order of two dates.
pub open spec fn date_order(a: SimpleDate, b: SimpleDate) -> std::cmp::Ordering {
    if date_key(a) < date_key(b) {
        std::cmp::Ordering::Less
    } else if date_key(a) == date_key(b) {
        std::cmp::Ordering::Equal
    } else {
        std::cmp::Ordering::Greater
    }
}

impl PartialOrd for SimpleDate {
    fn partial_cmp(&self, other: &SimpleDate) -> (r: Option<std::cmp::Ordering>)
        ensures
            r == Some(date_order(*self, *other)),
    {
        if self.is_before(other) {
            Some(std::cmp::Ordering::Less)
        } else if other.is_before(self) {
            Some(std::cmp::Ordering::Greater)
        } else {
            Some(std::cmp::Ordering::Equal)
        }
    }
}

impl vstd::std_specs::cmp::PartialOrdSpecImpl for SimpleDate {
    open spec fn obeys_partial_cmp_spec() -> bool {
        true
    }

    open spec fn partial_cmp_spec(&self, other: &SimpleDate) -> Option<std::cmp::Ordering> {
        Some(date_order(*self, *other))
    }
}

impl SimpleDate {
    /// Whether this value is a calendar date.
    pub open spec fn wf(self) -> bool {
        is_calendar_date(self.year as int, self.month as int, self.day as int)
    }

    /// The date of (year, month, day), where that is a calendar date.
    pub fn from_calendar(year: i32, month: u8, day: u8) -> (r: Option<SimpleDate>)
        ensures
            r is Some <==> is_calendar_date(year as int, month as int, day as int),
            r is Some ==> r->0 == (SimpleDate { year, month, day }),
    {
        if calendar_date_exists(year, month, day) {
            Some(SimpleDate { year, month, day })
        } else {
            None
        }
    }

    /// Reads a date from text (see [`date_reading`]).
    pub fn parse(text: &str) -> (r: Result<SimpleDate, String>)
        ensures
            match date_reading(text@) {
                Ok(t) => r is Ok && r->Ok_0.year == t.0 && r->Ok_0.month == t.1 && r->Ok_0.day
                    == t.2,
                Err(msg) => r is Err && r->Err_0@ == msg,
            },
            r is Ok ==> r->Ok_0.wf(),
    {
        proof {
            reveal_strlit("Invalid year: ");
        }
        let len = text.unicode_len();
        let dash = find_char(text, '-', 0);
        proof {
            lemma_contains_find(text@, '-');
        }
        let sep = if dash < len { '-' } else { '.' };
        let first_sep = find_char(text, sep, 0);
        proof {
            lemma_find_from(text@, sep, 0);
        }
        let year_text = text.substring_char(0, first_sep);
        let y0 = match parse_i32(year_text) {
            Some(v) => v,
            None => {
                return Err(message("Invalid year: ", year_text));
            },
        };
        let year: i32 = if y0 < 100 { y0 + 2000 } else { y0 };
        if first_sep >= len {
            return Err(message("Missing month in ", text));
        }
        let second_sep = find_char(text, sep, first_sep + 1);
        proof {
            lemma_find_from(text@, sep, first_sep + 1);
        }
        let month_text = text.substring_char(first_sep + 1, second_sep);
        let month = match parse_u8(month_text) {
            Some(v) => v,
            None => {
                return Err(message("Invalid month: ", month_text));
            },
        };
        if month < 1 || month > 12 {
            return Err(message("Invalid month: ", month_text));
        }
        if second_sep >= len {
            return Err(message("Missing day in ", text));
        }
        let third_sep = find_char(text, sep, second_sep + 1);
        proof {
            lemma_find_from(text@, sep, second_sep + 1);
        }
        let day_text = text.substring_char(second_sep + 1, third_sep);
        let day = match parse_u8(day_text) {
            Some(v) => v,
            None => {
                return Err(message("Invalid day: ", day_text));
            },
        };
        if third_sep < len {
            return Err(message("Unexpected text after day in ", text));
        }
        if !calendar_date_exists(year, month, day) {
            return Err(message("Invalid date: ", text));
        }
        Ok(SimpleDate { year, month, day })
    }

    /// The canonical `YYYY.MM.DD` text of this date.
    pub fn format(&self) -> (r: String)
        ensures
            r@ == date_text(self.year as int, self.month as int, self.day as int),
    {
        proof {
            reveal_strlit(".");
        }
        let mut out = String::new();
        push_padded_int(&mut out, self.year as i64, 4);
        out.append(".");
        push_padded_int(&mut out, self.month as i64, 2);
        out.append(".");
        push_padded_int(&mut out, self.day as i64, 2);
        proof {
            assert(out@ =~= date_text(self.year as int, self.month as int, self.day as int));
        }
        out
    }

    /// Whether this date comes before `other`.
    pub fn is_before(&self, other: &SimpleDate) -> (r: bool)
        ensures
            r == (date_key(*self) < date_key(*other)),
    {
        self.year < other.year || (self.year == other.year && (self.month < other.month || (
        self.month == other.month && self.day < other.day)))
    }
}

} // verus!
