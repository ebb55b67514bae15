//! Calendar dates and local date-times, read from and written to their fixed text formats
//! `YYYY-MM-DD` and `YYYY-MM-DD HH:MM`.
use vstd::prelude::*;
use vstd::string::StrSliceExecFns;

verus! {

/// A calendar date of the proleptic Gregorian calendar, with a four-digit year.
#[derive(Clone, Copy, Debug, PartialEq, Eq, Structural)]
pub struct Date {
    pub year: u16,
    pub month: u8,
    pub day: u8,
}

/// A local date and a time of day to the minute, without a time zone.
#[derive(Clone, Copy, Debug, PartialEq, Eq, Structural)]
pub struct DateTime {
    pub date: Date,
    pub hour: u8,
    pub minute: u8,
}

pub open spec fn is_leap_year(y: int) -> bool {
    (y % 4 == 0 && y % 100 != 0) || y % 400 == 0
}

pub open spec fn days_in_month(y: int, m: int) -> int {
    if m == 2 {
        if is_leap_year(y) {
            29
        } else {
            28
        }
    } else if m == 4 || m == 6 || m == 9 || m == 11 {
        30
    } else {
        31
    }
}

/// The day exists in the calendar.
pub open spec fn valid_date(y: int, m: int, d: int) -> bool {
    1 <= m <= 12 && 1 <= d <= days_in_month(y, m)
}

impl Date {
    /// The date can be written with a four-digit year and exists in the calendar.
    pub open spec fn wf(&self) -> bool {
        self.year <= 9999 && valid_date(self.year as int, self.month as int, self.day as int)
    }
}

impl DateTime {
    pub open spec fn wf(&self) -> bool {
        self.date.wf() && self.hour < 24 && self.minute < 60
    }
}

pub open spec fn is_digit(c: char) -> bool {
    '0' <= c <= '9'
}

pub open spec fn digit_value(c: char) -> int {
    c as int - '0' as int
}

/// The number that the two decimal digits at `at` and `at + 1` of `s` write.
pub open spec fn two_digits(s: Seq<char>, at: int) -> int {
    10 * digit_value(s[at]) + digit_value(s[at + 1])
}

/// The number that the four decimal digits from `at` on write.
pub open spec fn four_digits(s: Seq<char>, at: int) -> int {
    100 * two_digits(s, at) + two_digits(s, at + 2)
}

/// `s` has decimal digits at the positions `from` to `to`, `to` excluded.
pub open spec fn digits_at(s: Seq<char>, from: int, to: int) -> bool {
    forall|k: int| from <= k < to ==> is_digit(#[trigger] s[k])
}

/// `s` starts with text of the shape `YYYY-MM-DD`.
pub open spec fn date_shaped(s: Seq<char>) -> bool {
    &&& s.len() >= 10
    &&& digits_at(s, 0, 4)
    &&& s[4] == '-'
    &&& digits_at(s, 5, 7)
    &&& s[7] == '-'
    &&& digits_at(s, 8, 10)
}

/// The date that the first ten characters of `s` write, if they have the date's shape.
pub open spec fn leading_date(s: Seq<char>) -> Date {
    Date {
        year: four_digits(s, 0) as u16,
        month: two_digits(s, 5) as u8,
        day: two_digits(s, 8) as u8,
    }
}

/// The date that `s` writes as `YYYY-MM-DD`; `None` when `s` has another shape or names a
/// day that the calendar lacks.
pub open spec fn date_of_text(s: Seq<char>) -> Option<Date> {
    if s.len() == 10 && date_shaped(s) && leading_date(s).wf() {
        Some(leading_date(s))
    } else {
        None
    }
}

/// The date and time that `s` writes as `YYYY-MM-DD HH:MM`; `None` when `s` has another
/// shape, names a day that the calendar lacks, or a time of day that does not exist.
pub open spec fn date_time_of_text(s: Seq<char>) -> Option<DateTime> {
    let t = DateTime { date: leading_date(s), hour: two_digits(s, 11) as u8, minute: two_digits(s, 14) as u8 };
    if s.len() == 16 && date_shaped(s) && s[10] == ' ' && digits_at(s, 11, 13) && s[13] == ':'
        && digits_at(s, 14, 16) && t.wf() {
        Some(t)
    } else {
        None
    }
}

/// The character of the decimal digit `n`.
pub open spec fn digit_char(n: int) -> char {
    if n == 0 { '0' } else if n == 1 { '1' } else if n == 2 { '2' } else if n == 3 { '3' }
    else if n == 4 { '4' } else if n == 5 { '5' } else if n == 6 { '6' } else if n == 7 { '7' }
    else if n == 8 { '8' } else { '9' }
}

/// `n` (below 100) written with two digits.
pub open spec fn two_digit_text(n: int) -> Seq<char> {
    seq![digit_char(n / 10), digit_char(n % 10)]
}

/// `d` written as `YYYY-MM-DD`.
pub open spec fn date_text(d: Date) -> Seq<char> {
    two_digit_text(d.year as int / 100) + two_digit_text(d.year as int % 100) + seq!['-'] + two_digit_text(
        d.month as int,
    ) + seq!['-'] + two_digit_text(d.day as int)
}

/// `t` written as `YYYY-MM-DD HH:MM`.
pub open spec fn date_time_text(t: DateTime) -> Seq<char> {
    date_text(t.date) + seq![' '] + two_digit_text(t.hour as int) + seq![':'] + two_digit_text(
        t.minute as int,
    )
}

/// Relies on `chrono::NaiveDate::from_ymd_opt`: it makes a date exactly when the year is in
/// its range, which holds every four-digit year, and the day exists in the calendar.
#[verifier::external_body]
fn is_calendar_date(year: u16, month: u8, day: u8) -> (r: bool)
    requires
        year <= 9999,
    ensures
        r == valid_date(year as int, month as int, day as int),
{
    chrono::NaiveDate::from_ymd_opt(year as i32, month as u32, day as u32).is_some()
}

/// Relies on `chrono::NaiveTime::from_hms_opt`: with zero seconds it makes a time exactly when
/// the hour is below 24 and the minute below 60.
#[verifier::external_body]
fn is_clock_time(hour: u8, minute: u8) -> (r: bool)
    ensures
        r == (hour < 24 && minute < 60),
{
    chrono::NaiveTime::from_hms_opt(hour as u32, minute as u32, 0).is_some()
}

/// Relies on `String::push`: appends one character.
#[verifier::external_body]
fn push_char(s: &mut String, c: char)
    ensures
        final(s)@ == old(s)@.push(c),
{
    s.push(c)
}

/// The number that the two characters of `s` from `at` on write, if both are digits.
fn two_digits_at(s: &str, at: usize) -> (r: Option<u8>)
    requires
        at + 2 <= s@.len(),
        at <= 14,
    ensures
        match r {
            Some(v) => digits_at(s@, at as int, at + 2) && v == two_digits(s@, at as int),
            None => !digits_at(s@, at as int, at + 2),
        },
{
    let a = s.get_char(at);
    let b = s.get_char(at + 1);
    if '0' <= a && a <= '9' && '0' <= b && b <= '9' {
        let v = 10 * (a as u32 - '0' as u32) + (b as u32 - '0' as u32);
        assert(digits_at(s@, at as int, at + 2)) by {
            assert forall|k: int| at <= k < at + 2 implies is_digit(#[trigger] s@[k]) by {
                if k == at {
                } else {
                    assert(k == at + 1);
                }
            }
        }
        Some(v as u8)
    } else {
        proof {
            if !('0' <= a && a <= '9') {
                assert(!is_digit(s@[at as int]));
            } else {
                assert(!is_digit(s@[at + 1]));
            }
        }
        None
    }
}

/// The date that the first ten characters of `s` write, if they have the shape `YYYY-MM-DD`.
fn leading_date_of(s: &str) -> (r: Option<Date>)
    requires
        s@.len() >= 10,
    ensures
        match r {
            Some(d) => date_shaped(s@) && d == leading_date(s@) && d.year <= 9999,
            None => !date_shaped(s@),
        },
{
    let hi = two_digits_at(s, 0);
    let lo = two_digits_at(s, 2);
    let month = two_digits_at(s, 5);
    let day = two_digits_at(s, 8);
    let dash1 = s.get_char(4);
    let dash2 = s.get_char(7);
    match (hi, lo, month, day) {
        (Some(hi), Some(lo), Some(month), Some(day)) => {
            if dash1 == '-' && dash2 == '-' {
                assert(digits_at(s@, 0, 4)) by {
                    assert forall|k: int| 0 <= k < 4 implies is_digit(#[trigger] s@[k]) by {
                        if k < 2 {
                            assert(digits_at(s@, 0, 2));
                        } else {
                            assert(digits_at(s@, 2, 4));
                        }
                    }
                }
                let year = 100 * (hi as u16) + lo as u16;
                Some(Date { year, month, day })
            } else {
                None
            }
        },
        _ => {
            proof {
                if hi is None {
                    assert(!digits_at(s@, 0, 4));
                } else if lo is None {
                    assert(!digits_at(s@, 0, 4));
                }
            }
            None
        },
    }
}

/// Reads a date written exactly as `YYYY-MM-DD`.
pub fn parse_date(s: &str) -> (r: Option<Date>)
    ensures
        r == date_of_text(s@),
{
    if s.unicode_len() != 10 {
        return None;
    }
    match leading_date_of(s) {
        Some(d) => {
            if is_calendar_date(d.year, d.month, d.day) {
                Some(d)
            } else {
                None
            }
        },
        None => None,
    }
}

/// Reads a date and time written exactly as `YYYY-MM-DD HH:MM`.
pub fn parse_date_time(s: &str) -> (r: Option<DateTime>)
    ensures
        r == date_time_of_text(s@),
{
    if s.unicode_len() != 16 {
        return None;
    }
    let date = match leading_date_of(s) {
        Some(d) => d,
        None => return None,
    };
    if s.get_char(10) != ' ' || s.get_char(13) != ':' {
        return None;
    }
    let hour = match two_digits_at(s, 11) {
        Some(h) => h,
        None => return None,
    };
    let minute = match two_digits_at(s, 14) {
        Some(m) => m,
        None => return None,
    };
    if is_calendar_date(date.year, date.month, date.day) && is_clock_time(hour, minute) {
        Some(DateTime { date, hour, minute })
    } else {
        None
    }
}

/// The character of the decimal digit `n`.
fn digit_char_of(n: u8) -> (c: char)
    requires
        n < 10,
    ensures
        c == digit_char(n as int),
{
    if n == 0 { '0' } else if n == 1 { '1' } else if n == 2 { '2' } else if n == 3 { '3' }
    else if n == 4 { '4' } else if n == 5 { '5' } else if n == 6 { '6' } else if n == 7 { '7' }
    else if n == 8 { '8' } else { '9' }
}

/// Appends `n`, below 100, as two digits.
fn push_two_digits(s: &mut String, n: u8)
    requires
        n < 100,
    ensures
        final(s)@ == old(s)@ + two_digit_text(n as int),
{
    push_char(s, digit_char_of(n / 10));
    push_char(s, digit_char_of(n % 10));
}

/// Writes a date as `YYYY-MM-DD`.
pub fn format_date(d: Date) -> (r: String)
    requires
        d.wf(),
    ensures
        r@ == date_text(d),
{
    let mut s = String::new();
    push_two_digits(&mut s, (d.year / 100) as u8);
    push_two_digits(&mut s, (d.year % 100) as u8);
    push_char(&mut s, '-');
    push_two_digits(&mut s, d.month);
    push_char(&mut s, '-');
    push_two_digits(&mut s, d.day);
    assert(s@ =~= date_text(d));
    s
}

/// Writes a date and time as `YYYY-MM-DD HH:MM`.
pub fn format_date_time(t: DateTime) -> (r: String)
    requires
        t.wf(),
    ensures
        r@ == date_time_text(t),
{
    let mut s = format_date(t.date);
    push_char(&mut s, ' ');
    push_two_digits(&mut s, t.hour);
    push_char(&mut s, ':');
    push_two_digits(&mut s, t.minute);
    assert(s@ =~= date_time_text(t));
    s
}

proof fn lemma_two_digit_text(n: int)
    requires
        0 <= n < 100,
    ensures
        two_digit_text(n).len() == 2,
        digits_at(two_digit_text(n), 0, 2),
        two_digits(two_digit_text(n), 0) == n,
{
    let t = two_digit_text(n);
    assert(is_digit(t[0]) && is_digit(t[1]));
    assert(digits_at(t, 0, 2)) by {
        assert forall|k: int| 0 <= k < 2 implies is_digit(#[trigger] t[k]) by {
            if k == 0 {
            } else {
            }
        }
    }
}

/// Reading back the text that a well-formed date is written as gives that date.
pub proof fn lemma_date_text_round_trip(d: Date)
    requires
        d.wf(),
    ensures
        date_text(d).len() == 10,
        date_shaped(date_text(d)),
        leading_date(date_text(d)) == d,
        date_of_text(date_text(d)) == Some(d),
{
    let y = d.year as int;
    let a = two_digit_text(y / 100);
    let b = two_digit_text(y % 100);
    let m = two_digit_text(d.month as int);
    let dd = two_digit_text(d.day as int);
    lemma_two_digit_text(y / 100);
    lemma_two_digit_text(y % 100);
    lemma_two_digit_text(d.month as int);
    lemma_two_digit_text(d.day as int);
    let s = date_text(d);
    assert(s =~= a + b + seq!['-'] + m + seq!['-'] + dd);
    assert(s[0] == a[0] && s[1] == a[1] && s[2] == b[0] && s[3] == b[1]);
    assert(s[5] == m[0] && s[6] == m[1] && s[8] == dd[0] && s[9] == dd[1]);
    assert(digits_at(a, 0, 2) && digits_at(b, 0, 2) && digits_at(m, 0, 2) && digits_at(dd, 0, 2));
    assert(is_digit(a[0]) && is_digit(a[1]) && is_digit(b[0]) && is_digit(b[1]));
    assert(is_digit(m[0]) && is_digit(m[1]) && is_digit(dd[0]) && is_digit(dd[1]));
    assert(digits_at(s, 0, 4)) by {
        assert forall|k: int| 0 <= k < 4 implies is_digit(#[trigger] s[k]) by {
            if k == 0 {
            } else if k == 1 {
            } else if k == 2 {
            } else {
            }
        }
    }
    assert(digits_at(s, 5, 7)) by {
        assert forall|k: int| 5 <= k < 7 implies is_digit(#[trigger] s[k]) by {
            if k == 5 {
            } else {
            }
        }
    }
    assert(digits_at(s, 8, 10)) by {
        assert forall|k: int| 8 <= k < 10 implies is_digit(#[trigger] s[k]) by {
            if k == 8 {
            } else {
            }
        }
    }
    assert(two_digits(s, 0) == two_digits(a, 0));
    assert(two_digits(s, 2) == two_digits(b, 0));
    assert(two_digits(s, 5) == two_digits(m, 0));
    assert(two_digits(s, 8) == two_digits(dd, 0));
    assert(four_digits(s, 0) == y);
}

/// Reading back the text that a well-formed date and time is written as gives it back.
pub proof fn lemma_date_time_text_round_trip(t: DateTime)
    requires
        t.wf(),
    ensures
        date_time_of_text(date_time_text(t)) == Some(t),
{
    lemma_date_text_round_trip(t.date);
    lemma_two_digit_text(t.hour as int);
    lemma_two_digit_text(t.minute as int);
    let ds = date_text(t.date);
    let h = two_digit_text(t.hour as int);
    let mi = two_digit_text(t.minute as int);
    let s = date_time_text(t);
    assert(s =~= ds + seq![' '] + h + seq![':'] + mi);
    assert(s.subrange(0, 10) =~= ds);
    assert forall|k: int| 0 <= k < 10 implies s[k] == ds[k] by {}
    assert(date_shaped(s)) by {
        assert(digits_at(ds, 0, 4) && digits_at(ds, 5, 7) && digits_at(ds, 8, 10));
        assert forall|k: int| 0 <= k < 4 implies is_digit(#[trigger] s[k]) by {
            assert(is_digit(ds[k]));
        }
        assert forall|k: int| 5 <= k < 7 implies is_digit(#[trigger] s[k]) by {
            assert(is_digit(ds[k]));
        }
        assert forall|k: int| 8 <= k < 10 implies is_digit(#[trigger] s[k]) by {
            assert(is_digit(ds[k]));
        }
    }
    assert(leading_date(s) == leading_date(ds));
    assert(s[11] == h[0] && s[12] == h[1] && s[14] == mi[0] && s[15] == mi[1]);
    assert(digits_at(h, 0, 2) && digits_at(mi, 0, 2));
    assert(is_digit(h[0]) && is_digit(h[1]) && is_digit(mi[0]) && is_digit(mi[1]));
    assert(digits_at(s, 11, 13)) by {
        assert forall|k: int| 11 <= k < 13 implies is_digit(#[trigger] s[k]) by {
            if k == 11 {
            } else {
            }
        }
    }
    assert(digits_at(s, 14, 16)) by {
        assert forall|k: int| 14 <= k < 16 implies is_digit(#[trigger] s[k]) by {
            if k == 14 {
            } else {
            }
        }
    }
    assert(two_digits(s, 11) == two_digits(h, 0));
    assert(two_digits(s, 14) == two_digits(mi, 0));
}

} // verus!
