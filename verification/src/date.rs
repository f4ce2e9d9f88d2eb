//! Calendar dates for the completion history of a record: a plain
//! year/month/day triple with calendar validity, ordering, and the
//! `YYYY-MM-DD` text form used by the form and the persisted state.

use vstd::prelude::*;
use vstd::string::*;
use crate::util::{
    all_dec_digits, dec_value, digit_char, digit_val, is_dec_digit, push_char,
};

verus! {

/// A calendar date. Valid dates (see [`Date::spec_valid`]) have a four-digit
/// year and a day that exists in their month.
#[derive(Clone, Copy, Debug, PartialEq, Eq, Structural)]
pub struct Date {
    pub year: u16,
    pub month: u8,
    pub day: u8,
}

/// Whether `y` is a leap year of the Gregorian calendar.
pub open spec fn spec_is_leap_year(y: int) -> bool {
    y % 4 == 0 && (y % 100 != 0 || y % 400 == 0)
}

/// Number of days of month `m` in year `y`.
pub open spec fn spec_days_in_month(y: int, m: int) -> int {
    if m == 2 {
        if spec_is_leap_year(y) {
            29
        } else {
            28
        }
    } else if m == 4 || m == 6 || m == 9 || m == 11 {
        30
    } else {
        31
    }
}

/// Strict chronological order on dates.
pub open spec fn date_lt(a: Date, b: Date) -> bool {
    ||| a.year < b.year
    ||| (a.year == b.year && a.month < b.month)
    ||| (a.year == b.year && a.month == b.month && a.day < b.day)
}

impl Date {
    /// The date denotes a day of the calendar, with a four-digit year.
    pub open spec fn spec_valid(self) -> bool {
        &&& self.year <= 9999
        &&& 1 <= self.month <= 12
        &&& 1 <= self.day <= spec_days_in_month(self.year as int, self.month as int)
    }

    /// The date for the given year, month and day, or `None` when they do
    /// not denote a day of the calendar.
    pub fn from_ymd(year: u16, month: u8, day: u8) -> (r: Option<Date>)
        ensures
            ({
                let d = Date { year, month, day };
                &&& r is Some <==> d.spec_valid()
                &&& r matches Some(v) ==> v == d
            }),
    {
        let d = Date { year, month, day };
        if d.valid() {
            Some(d)
        } else {
            None
        }
    }

    /// Whether the date denotes a day of the calendar.
    pub fn valid(&self) -> (r: bool)
        ensures
            r == self.spec_valid(),
    {
        self.year <= 9999 && 1 <= self.month && self.month <= 12 && 1 <= self.day
            && self.day as u16 <= days_in_month(self.year, self.month)
    }

    /// Whether this date is strictly earlier than `other`.
    pub fn before(&self, other: &Date) -> (r: bool)
        ensures
            r == date_lt(*self, *other),
    {
        if self.year != other.year {
            self.year < other.year
        } else if self.month != other.month {
            self.month < other.month
        } else {
            self.day < other.day
        }
    }
}

/// Number of days of month `m` in year `y`.
pub fn days_in_month(y: u16, m: u8) -> (r: u16)
    requires
        1 <= m <= 12,
    ensures
        r as int == spec_days_in_month(y as int, m as int),
{
    if m == 2 {
        if y % 4 == 0 && (y % 100 != 0 || y % 400 == 0) {
            29
        } else {
            28
        }
    } else if m == 4 || m == 6 || m == 9 || m == 11 {
        30
    } else {
        31
    }
}

/// Whether `s` has the shape `YYYY-MM-DD`: ten characters, digits in the
/// year, month and day positions, dashes between them.
pub open spec fn is_date_shaped(s: Seq<char>) -> bool {
    &&& s.len() == 10
    &&& all_dec_digits(s.take(4))
    &&& s[4] == '-'
    &&& all_dec_digits(s.subrange(5, 7))
    &&& s[7] == '-'
    &&& all_dec_digits(s.subrange(8, 10))
}

/// The date denoted by a `YYYY-MM-DD` string.
pub open spec fn spec_date_of(s: Seq<char>) -> Date {
    Date {
        year: dec_value(s.take(4)) as u16,
        month: dec_value(s.subrange(5, 7)) as u8,
        day: dec_value(s.subrange(8, 10)) as u8,
    }
}

/// Whether `s` is the `YYYY-MM-DD` form of a day of the calendar.
pub open spec fn is_date_string(s: Seq<char>) -> bool {
    is_date_shaped(s) && spec_date_of(s).spec_valid()
}

fn digit_at(s: &str, i: usize) -> (r: Option<u16>)
    requires
        i < s@.len(),
    ensures
        r is Some <==> is_dec_digit(s@[i as int]),
        r matches Some(v) ==> v as int == digit_val(s@[i as int]) && v < 10,
{
    let c = s.get_char(i);
    let cv = c as u32;
    if '0' as u32 <= cv && cv <= '9' as u32 {
        Some((cv - '0' as u32) as u16)
    } else {
        None
    }
}

/// Parse a `YYYY-MM-DD` string; `None` exactly when `s` is not the text of
/// a day of the calendar.
pub fn parse_date(s: &str) -> (r: Option<Date>)
    ensures
        r is Some <==> is_date_string(s@),
        r matches Some(d) ==> d == spec_date_of(s@) && d.spec_valid(),
{
    let n = s.unicode_len();
    if n != 10 {
        return None;
    }
    if s.get_char(4) != '-' || s.get_char(7) != '-' {
        return None;
    }
    let (v0, v1, v2, v3) = match (digit_at(s, 0), digit_at(s, 1), digit_at(s, 2), digit_at(s, 3)) {
        (Some(a), Some(b), Some(c), Some(d)) => (a, b, c, d),
        _ => {
            proof {
                lemma_year_digits(s@);
            }
            return None;
        },
    };
    let (v5, v6) = match (digit_at(s, 5), digit_at(s, 6)) {
        (Some(a), Some(b)) => (a, b),
        _ => {
            proof {
                lemma_month_digits(s@);
            }
            return None;
        },
    };
    let (v8, v9) = match (digit_at(s, 8), digit_at(s, 9)) {
        (Some(a), Some(b)) => (a, b),
        _ => {
            proof {
                lemma_day_digits(s@);
            }
            return None;
        },
    };
    let year: u16 = ((v0 * 10 + v1) * 10 + v2) * 10 + v3;
    let month: u16 = v5 * 10 + v6;
    let day: u16 = v8 * 10 + v9;
    proof {
        lemma_year_digits(s@);
        lemma_month_digits(s@);
        lemma_day_digits(s@);
        lemma_field_values(s@);
    }
    let d = Date { year, month: month as u8, day: day as u8 };
    if d.valid() {
        Some(d)
    } else {
        None
    }
}

proof fn lemma_year_digits(s: Seq<char>)
    requires
        s.len() == 10,
    ensures
        all_dec_digits(s.take(4)) <==> is_dec_digit(s[0]) && is_dec_digit(s[1]) && is_dec_digit(
            s[2],
        ) && is_dec_digit(s[3]),
{
    let t = s.take(4);
    assert(t[0] == s[0] && t[1] == s[1] && t[2] == s[2] && t[3] == s[3]);
    if is_dec_digit(s[0]) && is_dec_digit(s[1]) && is_dec_digit(s[2]) && is_dec_digit(s[3]) {
        assert forall|i: int| 0 <= i < t.len() implies is_dec_digit(#[trigger] t[i]) by {
            assert(t[i] == s[i]);
        }
    }
}

proof fn lemma_month_digits(s: Seq<char>)
    requires
        s.len() == 10,
    ensures
        all_dec_digits(s.subrange(5, 7)) <==> is_dec_digit(s[5]) && is_dec_digit(s[6]),
{
    let t = s.subrange(5, 7);
    assert(t[0] == s[5] && t[1] == s[6]);
    if is_dec_digit(s[5]) && is_dec_digit(s[6]) {
        assert forall|i: int| 0 <= i < t.len() implies is_dec_digit(#[trigger] t[i]) by {
            assert(t[i] == s[5 + i]);
        }
    }
}

proof fn lemma_day_digits(s: Seq<char>)
    requires
        s.len() == 10,
    ensures
        all_dec_digits(s.subrange(8, 10)) <==> is_dec_digit(s[8]) && is_dec_digit(s[9]),
{
    let t = s.subrange(8, 10);
    assert(t[0] == s[8] && t[1] == s[9]);
    if is_dec_digit(s[8]) && is_dec_digit(s[9]) {
        assert forall|i: int| 0 <= i < t.len() implies is_dec_digit(#[trigger] t[i]) by {
            assert(t[i] == s[8 + i]);
        }
    }
}

proof fn lemma_field_values(s: Seq<char>)
    requires
        s.len() == 10,
    ensures
        dec_value(s.take(4)) == ((digit_val(s[0]) * 10 + digit_val(s[1])) * 10 + digit_val(s[2]))
            * 10 + digit_val(s[3]),
        dec_value(s.subrange(5, 7)) == digit_val(s[5]) * 10 + digit_val(s[6]),
        dec_value(s.subrange(8, 10)) == digit_val(s[8]) * 10 + digit_val(s[9]),
{
    let t4 = s.take(4);
    assert(t4.drop_last() =~= s.take(3));
    assert(s.take(3).drop_last() =~= s.take(2));
    assert(s.take(2).drop_last() =~= s.take(1));
    assert(s.take(1).drop_last() =~= s.take(0));
    assert(s.take(0).len() == 0);
    assert(t4.last() == s[3] && s.take(3).last() == s[2] && s.take(2).last() == s[1] && s.take(
        1,
    ).last() == s[0]);
    assert(dec_value(s.take(0)) == 0);
    assert(dec_value(s.take(1)) == dec_value(s.take(0)) * 10 + digit_val(s[0]));
    assert(dec_value(s.take(2)) == dec_value(s.take(1)) * 10 + digit_val(s[1]));
    assert(dec_value(s.take(3)) == dec_value(s.take(2)) * 10 + digit_val(s[2]));
    assert(dec_value(s.take(4)) == dec_value(s.take(3)) * 10 + digit_val(s[3]));
    let m = s.subrange(5, 7);
    assert(m.drop_last() =~= s.subrange(5, 6));
    assert(s.subrange(5, 6).drop_last() =~= s.subrange(5, 5));
    assert(s.subrange(5, 5).len() == 0);
    assert(m.last() == s[6] && s.subrange(5, 6).last() == s[5]);
    assert(dec_value(s.subrange(5, 5)) == 0);
    assert(dec_value(s.subrange(5, 6)) == digit_val(s[5]));
    assert(dec_value(s.subrange(5, 7)) == dec_value(s.subrange(5, 6)) * 10 + digit_val(s[6]));
    let d = s.subrange(8, 10);
    assert(d.drop_last() =~= s.subrange(8, 9));
    assert(s.subrange(8, 9).drop_last() =~= s.subrange(8, 8));
    assert(s.subrange(8, 8).len() == 0);
    assert(d.last() == s[9] && s.subrange(8, 9).last() == s[8]);
    assert(dec_value(s.subrange(8, 8)) == 0);
    assert(dec_value(s.subrange(8, 9)) == digit_val(s[8]));
    assert(dec_value(s.subrange(8, 10)) == dec_value(s.subrange(8, 9)) * 10 + digit_val(s[9]));
}

/// The `YYYY-MM-DD` text of a valid date.
pub open spec fn spec_date_text(d: Date) -> Seq<char> {
    seq![
        digit_char(d.year as int / 1000 % 10),
        digit_char(d.year as int / 100 % 10),
        digit_char(d.year as int / 10 % 10),
        digit_char(d.year as int % 10),
        '-',
        digit_char(d.month as int / 10),
        digit_char(d.month as int % 10),
        '-',
        digit_char(d.day as int / 10),
        digit_char(d.day as int % 10),
    ]
}

fn push_digit(r: &mut String, v: u16)
    requires
        v < 10,
    ensures
        final(r)@ == old(r)@.push(digit_char(v as int)),
{
    let c = match v {
        0 => '0',
        1 => '1',
        2 => '2',
        3 => '3',
        4 => '4',
        5 => '5',
        6 => '6',
        7 => '7',
        8 => '8',
        _ => '9',
    };
    push_char(r, c);
}

/// Format a valid date as `YYYY-MM-DD`.
pub fn date_to_string(d: &Date) -> (r: String)
    requires
        d.spec_valid(),
    ensures
        r@ == spec_date_text(*d),
{
    let mut r = String::new();
    push_digit(&mut r, d.year / 1000 % 10);
    push_digit(&mut r, d.year / 100 % 10);
    push_digit(&mut r, d.year / 10 % 10);
    push_digit(&mut r, d.year % 10);
    push_char(&mut r, '-');
    push_digit(&mut r, (d.month / 10) as u16);
    push_digit(&mut r, (d.month % 10) as u16);
    push_char(&mut r, '-');
    push_digit(&mut r, (d.day / 10) as u16);
    push_digit(&mut r, (d.day % 10) as u16);
    proof {
        assert(r@ =~= spec_date_text(*d));
    }
    r
}

} // verus!
