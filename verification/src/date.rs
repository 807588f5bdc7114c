//! Calendar dates of the proleptic Gregorian calendar.
//!
//! A [`Date`] holds year, month and day as plain numbers. Which triples are
//! dates, and how a date is written, is stated here over integers; the
//! arithmetic on dates is done by `chrono`, through the private functions at
//! the end of this file, whose contracts are not proved.

use chrono::{Datelike, Days, Months, NaiveDate};
use vstd::prelude::*;
use vstd::string::StringExecFns;

use crate::text::{
    char_is_digit, digit_char, digit_value, is_digit, lemma_digit_char, padded_decimal, to_chars,
};

verus! {

/// The first year that a [`Date`] can lie in.
pub const MIN_YEAR: i32 = -262143;

/// The last year that a [`Date`] can lie in.
pub const MAX_YEAR: i32 = 262142;

/// Year `y` has a 29 February.
pub open spec fn is_leap_year(y: int) -> bool {
    y % 4 == 0 && (y % 100 != 0 || y % 400 == 0)
}

/// The number of days of month `m` in year `y`.
pub open spec fn days_in_month(y: int, m: int) -> int {
    if m == 2 {
        if is_leap_year(y) {
            29
        } else {
            28
        }
    } else if m == 4 || m == 6 || m == 9 || m == 11 {
        30
    } else {
        31
    }
}

/// Year `y`, month `m`, day `d` name a day of the calendar, in a year that
/// a [`Date`] can hold.
pub open spec fn is_valid_ymd(y: int, m: int, d: int) -> bool {
    MIN_YEAR <= y <= MAX_YEAR && 1 <= m <= 12 && 1 <= d <= days_in_month(y, m)
}

/// The number of days of year `y` that lie before its month `m`.
pub open spec fn days_before_month(y: int, m: int) -> int
    decreases m,
{
    if m <= 1 {
        0
    } else {
        days_before_month(y, m - 1) + days_in_month(y, m - 1)
    }
}

/// The number of days from 1 January of year 1 up to the end of year
/// `y - 1`; negative for `y < 1`.
pub open spec fn days_before_year(y: int) -> int {
    365 * (y - 1) + (y - 1) / 4 - (y - 1) / 100 + (y - 1) / 400
}

/// The position of a day in the calendar: 1 January of year 1 is day 1, and
/// each day has the number of the day before it plus one.
pub open spec fn day_number(y: int, m: int, d: int) -> int {
    days_before_year(y) + days_before_month(y, m) + d
}

/// The day number of the last day that a [`Date`] can hold.
pub open spec fn last_day_number() -> int {
    day_number(MAX_YEAR as int, 12, 31)
}

/// The day number of the first day that a [`Date`] can hold.
pub open spec fn first_day_number() -> int {
    day_number(MIN_YEAR as int, 1, 1)
}

/// `n` written with exactly two digits, for `n` from 0 to 99.
pub open spec fn two_digits(n: int) -> Seq<char> {
    seq![digit_char(n / 10), digit_char(n % 10)]
}

/// `n` written with exactly four digits, for `n` from 0 to 9999.
pub open spec fn four_digits(n: int) -> Seq<char> {
    seq![
        digit_char(n / 1000),
        digit_char(n / 100 % 10),
        digit_char(n / 10 % 10),
        digit_char(n % 10),
    ]
}

/// How a year is written: four digits from 0 to 9999; outside of that a
/// sign, then the digits of the absolute value, at least four of them.
pub open spec fn year_text(y: int) -> Seq<char> {
    if 0 <= y <= 9999 {
        four_digits(y)
    } else if y < 0 {
        seq!['-'] + padded_decimal((-y) as nat, 4)
    } else {
        seq!['+'] + padded_decimal(y as nat, 4)
    }
}

/// `s` has the form `YYYY-MM-DD`: ten characters, digits but for the two
/// dashes.
pub open spec fn is_date_shape(s: Seq<char>) -> bool {
    &&& s.len() == 10
    &&& is_digit(s[0])
    &&& is_digit(s[1])
    &&& is_digit(s[2])
    &&& is_digit(s[3])
    &&& s[4] == '-'
    &&& is_digit(s[5])
    &&& is_digit(s[6])
    &&& s[7] == '-'
    &&& is_digit(s[8])
    &&& is_digit(s[9])
}

/// The year that a text of the form `YYYY-MM-DD` gives.
pub open spec fn shape_year(s: Seq<char>) -> int {
    digit_value(s[0]) * 1000 + digit_value(s[1]) * 100 + digit_value(s[2]) * 10 + digit_value(
        s[3],
    )
}

/// The month that a text of the form `YYYY-MM-DD` gives.
pub open spec fn shape_month(s: Seq<char>) -> int {
    digit_value(s[5]) * 10 + digit_value(s[6])
}

/// The day that a text of the form `YYYY-MM-DD` gives.
pub open spec fn shape_day(s: Seq<char>) -> int {
    digit_value(s[8]) * 10 + digit_value(s[9])
}

/// A day of the calendar.
#[derive(Clone, Copy, Debug, PartialEq, Eq, Hash, Structural)]
pub struct Date {
    pub(crate) year: i32,
    pub(crate) month: u32,
    pub(crate) day: u32,
}

impl Date {
    /// Every `Date` that a program holds is a day of the calendar.
    #[verifier::type_invariant]
    pub open(crate) spec fn inv(self) -> bool {
        is_valid_ymd(self.year as int, self.month as int, self.day as int)
    }

    /// The year.
    pub open(crate) spec fn y(self) -> int {
        self.year as int
    }

    /// The month, 1 to 12.
    pub open(crate) spec fn m(self) -> int {
        self.month as int
    }

    /// The day of the month, from 1.
    pub open(crate) spec fn d(self) -> int {
        self.day as int
    }

    /// The date with the given year, month and day.
    pub open(crate) spec fn of(y: int, m: int, d: int) -> Date {
        Date { year: y as i32, month: m as u32, day: d as u32 }
    }

    /// The day number of this date.
    pub open spec fn number(self) -> int {
        day_number(self.y(), self.m(), self.d())
    }

    /// This date lies before `other`.
    pub open spec fn before(self, other: Date) -> bool {
        self.y() < other.y() || (self.y() == other.y() && (self.m() < other.m() || (self.m()
            == other.m() && self.d() < other.d())))
    }

    /// How this date is written: year, month and day with dashes between,
    /// month and day with two digits each.
    pub open spec fn text(self) -> Seq<char> {
        year_text(self.y()) + seq!['-'] + two_digits(self.m()) + seq!['-'] + two_digits(self.d())
    }

    /// The date written day first, with dots: `DD.MM.YYYY`.
    pub open spec fn dotted_text(self) -> Seq<char> {
        two_digits(self.d()) + seq!['.'] + two_digits(self.m()) + seq!['.'] + year_text(self.y())
    }

    /// The date a given number of months after this one: the same day of
    /// the month where the month has it, else the month's last day; `None`
    /// past the last year.
    pub open spec fn plus_months(self, months: int) -> Option<Date> {
        let total = self.y() * 12 + (self.m() - 1) + months;
        let y = total / 12;
        let m = total % 12 + 1;
        let d = if self.d() > days_in_month(y, m) {
            days_in_month(y, m)
        } else {
            self.d()
        };
        if y <= MAX_YEAR {
            Some(Date::of(y, m, d))
        } else {
            None
        }
    }

    /// `later` is the date `days` days after this one.
    pub open spec fn days_until(self, later: Date, days: int) -> bool {
        later.inv() && later.number() == self.number() + days
    }

    /// The date of the given year, month and day, if there is one.
    pub fn new(year: i32, month: u32, day: u32) -> (r: Option<Date>)
        ensures
            r == if is_valid_ymd(year as int, month as int, day as int) {
                Some(Date::of(year as int, month as int, day as int))
            } else {
                None
            },
    {
        if year < MIN_YEAR || year > MAX_YEAR || month < 1 || month > 12 || day < 1 {
            return None;
        }
        if day > month_length(year, month) {
            return None;
        }
        Some(Date { year, month, day })
    }

    /// The year.
    pub fn year(&self) -> (r: i32)
        ensures
            r == self.y(),
    {
        self.year
    }

    /// The month, 1 to 12.
    pub fn month(&self) -> (r: u32)
        ensures
            r == self.m(),
            1 <= r <= 12,
    {
        proof {
            use_type_invariant(self);
        }
        self.month
    }

    /// The day of the month, from 1.
    pub fn day(&self) -> (r: u32)
        ensures
            r == self.d(),
            1 <= r <= 31,
    {
        proof {
            use_type_invariant(self);
        }
        self.day
    }

    /// The position of the date in the calendar, 1 January of year 1
    /// being day 1.
    pub fn day_number(&self) -> (r: i64)
        ensures
            r == self.number(),
    {
        proof {
            use_type_invariant(self);
            lemma_days_before_month(self.y());
        }
        let leap: i64 = if leap_year(self.year) {
            1
        } else {
            0
        };
        let before_month: i64 = if self.month == 1 {
            0
        } else if self.month == 2 {
            31
        } else if self.month == 3 {
            59 + leap
        } else if self.month == 4 {
            90 + leap
        } else if self.month == 5 {
            120 + leap
        } else if self.month == 6 {
            151 + leap
        } else if self.month == 7 {
            181 + leap
        } else if self.month == 8 {
            212 + leap
        } else if self.month == 9 {
            243 + leap
        } else if self.month == 10 {
            273 + leap
        } else if self.month == 11 {
            304 + leap
        } else {
            334 + leap
        };
        // Years are counted from one that lies before all others and
        // begins a period of 400 years.
        let years: u64 = (self.year as i64 - 1 + 262_400) as u64;
        proof {
            let a = self.y() - 1;
            assert(years == 4 * 65_600 + a);
            assert(years == 100 * 2_624 + a);
            assert(years == 400 * 656 + a);
            lemma_lifted_division(a, 65_600, 4);
            lemma_lifted_division(a, 2_624, 100);
            lemma_lifted_division(a, 656, 400);
        }
        let by_4: i64 = (years / 4) as i64 - 65_600;
        let by_100: i64 = (years / 100) as i64 - 2_624;
        let by_400: i64 = (years / 400) as i64 - 656;
        365 * (self.year as i64 - 1) + by_4 - by_100 + by_400 + before_month + self.day as i64
    }

    /// Whether this date lies before `other`.
    pub fn is_before(&self, other: &Date) -> (r: bool)
        ensures
            r == self.before(*other),
    {
        self.year < other.year || (self.year == other.year && (self.month < other.month || (
        self.month == other.month && self.day < other.day)))
    }

    /// Reads a date written as `YYYY-MM-DD`. `None` for a text of another
    /// form and for one that names no day of the calendar.
    pub fn parse(text: &str) -> (r: Option<Date>)
        ensures
            r == date_of_text(text@),
    {
        let chars = to_chars(text);
        if chars.len() == 10 && has_date_shape(&chars, 0) {
            assert(chars@.subrange(0, 10) =~= text@);
            chrono_parse(text)
        } else {
            None
        }
    }

    /// Writes the date as `YYYY-MM-DD`.
    pub fn to_string(&self) -> (r: String)
        ensures
            r@ == self.text(),
    {
        proof {
            use_type_invariant(self);
        }
        chrono_format(*self, "%Y-%m-%d")
    }

    /// Writes the date day first, with dots: `DD.MM.YYYY`.
    pub fn to_dotted_string(&self) -> (r: String)
        ensures
            r@ == self.dotted_text(),
    {
        proof {
            use_type_invariant(self);
        }
        chrono_format(*self, "%d.%m.%Y")
    }

    /// Appends the date, written as `YYYY-MM-DD`, to `out`.
    pub fn write_to(&self, out: &mut String)
        ensures
            final(out)@ == old(out)@ + self.text(),
    {
        let s = self.to_string();
        out.append(s.as_str());
    }
}

/// The date that a text of the form `YYYY-MM-DD` names, if its numbers name
/// a day of the calendar.
pub open spec fn date_of_shape(s: Seq<char>) -> Option<Date> {
    if is_valid_ymd(shape_year(s), shape_month(s), shape_day(s)) {
        Some(Date::of(shape_year(s), shape_month(s), shape_day(s)))
    } else {
        None
    }
}

/// The date that a text names: it has the form `YYYY-MM-DD` and its numbers
/// name a day of the calendar.
pub open spec fn date_of_text(s: Seq<char>) -> Option<Date> {
    if is_date_shape(s) {
        date_of_shape(s)
    } else {
        None
    }
}

/// Whether the year has a 29 February.
pub fn leap_year(year: i32) -> (r: bool)
    ensures
        r == is_leap_year(year as int),
{
    // A multiple of 400 that lifts every year above zero.
    let lifted: u64 = (year as i64 + 2_147_484_000) as u64;
    proof {
        let y = year as int;
        assert(lifted == 4 * 536_871_000 + y);
        assert(lifted == 100 * 21_474_840 + y);
        assert(lifted == 400 * 5_368_710 + y);
        vstd::arithmetic::div_mod::lemma_mod_multiples_vanish(536_871_000, y, 4);
        vstd::arithmetic::div_mod::lemma_mod_multiples_vanish(21_474_840, y, 100);
        vstd::arithmetic::div_mod::lemma_mod_multiples_vanish(5_368_710, y, 400);
    }
    let by_4 = lifted % 4 == 0;
    let by_100 = lifted % 100 == 0;
    let by_400 = lifted % 400 == 0;
    by_4 && (!by_100 || by_400)
}

/// The number of days of the given month.
pub fn month_length(year: i32, month: u32) -> (r: u32)
    ensures
        r == days_in_month(year as int, month as int),
        28 <= r <= 31,
{
    if month == 2 {
        if leap_year(year) {
            29
        } else {
            28
        }
    } else if month == 4 || month == 6 || month == 9 || month == 11 {
        30
    } else {
        31
    }
}

/// Whether the ten characters from position `at` on have the form
/// `YYYY-MM-DD`.
pub fn has_date_shape(v: &Vec<char>, at: usize) -> (r: bool)
    ensures
        r == (at + 10 <= v.len() && is_date_shape(v@.subrange(at as int, at + 10))),
{
    if v.len() < 10 || at > v.len() - 10 {
        return false;
    }
    let ghost s = v@.subrange(at as int, at + 10);
    assert(forall|k: int| 0 <= k < 10 ==> s[k] == v@[at + k]);
    char_is_digit(v[at]) && char_is_digit(v[at + 1]) && char_is_digit(v[at + 2]) && char_is_digit(
        v[at + 3],
    ) && v[at + 4] == '-' && char_is_digit(v[at + 5]) && char_is_digit(v[at + 6]) && v[at + 7]
        == '-' && char_is_digit(v[at + 8]) && char_is_digit(v[at + 9])
}

/// The two digits of `n` are digits, and their value is `n`.
proof fn lemma_two_digits(n: int)
    requires
        0 <= n <= 99,
    ensures
        two_digits(n).len() == 2,
        is_digit(two_digits(n)[0]),
        is_digit(two_digits(n)[1]),
        digit_value(two_digits(n)[0]) * 10 + digit_value(two_digits(n)[1]) == n,
{
    lemma_digit_char(n / 10);
    lemma_digit_char(n % 10);
}

/// The four digits of `n` are digits, and their value is `n`.
proof fn lemma_four_digits(n: int)
    requires
        0 <= n <= 9999,
    ensures
        four_digits(n).len() == 4,
        is_digit(four_digits(n)[0]),
        is_digit(four_digits(n)[1]),
        is_digit(four_digits(n)[2]),
        is_digit(four_digits(n)[3]),
        digit_value(four_digits(n)[0]) * 1000 + digit_value(four_digits(n)[1]) * 100 + digit_value(
            four_digits(n)[2],
        ) * 10 + digit_value(four_digits(n)[3]) == n,
{
    lemma_digit_char(n / 1000);
    lemma_digit_char(n / 100 % 10);
    lemma_digit_char(n / 10 % 10);
    lemma_digit_char(n % 10);
}

/// A date of the years 0 to 9999 is written in the form `YYYY-MM-DD`, and
/// reading that text gives the date back.
pub proof fn lemma_date_text_round_trip(date: Date)
    requires
        date.inv(),
        0 <= date.y() <= 9999,
    ensures
        is_date_shape(date.text()),
        date_of_text(date.text()) == Some(date),
        forall|i: int| 0 <= i < date.text().len() ==> #[trigger] date.text()[i] != ' ',
{
    let t = date.text();
    let a = four_digits(date.y());
    let b = two_digits(date.m());
    let c = two_digits(date.d());
    lemma_four_digits(date.y());
    lemma_two_digits(date.m());
    lemma_two_digits(date.d());
    assert(t == a + seq!['-'] + b + seq!['-'] + c);
    assert(t.len() == 10);
    assert(t[0] == a[0] && t[1] == a[1] && t[2] == a[2] && t[3] == a[3]);
    assert(t[4] == '-' && t[7] == '-');
    assert(t[5] == b[0] && t[6] == b[1]);
    assert(t[8] == c[0] && t[9] == c[1]);
    assert(shape_year(t) == date.y());
    assert(shape_month(t) == date.m());
    assert(shape_day(t) == date.d());
}

/// Dividing a number that was lifted by a multiple of the divisor gives the
/// quotient lifted by the factor.
proof fn lemma_lifted_division(a: int, k: int, d: int)
    requires
        d > 0,
    ensures
        (d * k + a) / d == k + a / d,
{
    vstd::arithmetic::div_mod::lemma_fundamental_div_mod(a, d);
    let q = a / d;
    let r = a % d;
    assert(d * k + a == d * (k + q) + r) by (nonlinear_arith)
        requires
            a == d * q + r,
    ;
    vstd::arithmetic::div_mod::lemma_fundamental_div_mod_converse(d * k + a, d, k + q, r);
}

/// The number of days of year `y`.
pub open spec fn days_in_year(y: int) -> int {
    if is_leap_year(y) {
        366
    } else {
        365
    }
}

/// The years follow each other without a gap: the day numbers of a year
/// end where those of the next year begin.
pub proof fn lemma_year_length(y: int)
    ensures
        days_before_year(y + 1) == days_before_year(y) + days_in_year(y),
{
}

/// The days that lie before a month of a year, month by month.
pub proof fn lemma_days_before_month(y: int)
    ensures
        days_before_month(y, 1) == 0,
        days_before_month(y, 2) == 31,
        days_before_month(y, 3) == 31 + days_in_month(y, 2),
        days_before_month(y, 4) == 62 + days_in_month(y, 2),
        days_before_month(y, 5) == 92 + days_in_month(y, 2),
        days_before_month(y, 6) == 123 + days_in_month(y, 2),
        days_before_month(y, 7) == 153 + days_in_month(y, 2),
        days_before_month(y, 8) == 184 + days_in_month(y, 2),
        days_before_month(y, 9) == 215 + days_in_month(y, 2),
        days_before_month(y, 10) == 245 + days_in_month(y, 2),
        days_before_month(y, 11) == 276 + days_in_month(y, 2),
        days_before_month(y, 12) == 306 + days_in_month(y, 2),
        days_before_month(y, 13) == 337 + days_in_month(y, 2),
        days_before_month(y, 13) == days_in_year(y),
{
    reveal_with_fuel(days_before_month, 14);
}

/// Later years begin at later day numbers.
pub proof fn lemma_years_rise(y1: int, y2: int)
    requires
        y1 <= y2,
    ensures
        days_before_year(y1) + 365 * (y2 - y1) <= days_before_year(y2),
    decreases y2 - y1,
{
    if y1 < y2 {
        lemma_years_rise(y1, y2 - 1);
        lemma_year_length(y2 - 1);
    }
}

/// The day numbers go by the calendar: of two days the earlier one has the
/// smaller number. So no two days have the same number, and the day that
/// lies a given number of days after another is one day and no other.
pub proof fn law_day_numbers_rise(a: Date, b: Date)
    requires
        a.inv(),
        b.inv(),
        a.before(b),
    ensures
        a.number() < b.number(),
{
    lemma_days_before_month(a.y());
    lemma_days_before_month(b.y());
    if a.y() < b.y() {
        lemma_year_length(a.y());
        lemma_years_rise(a.y() + 1, b.y());
    }
}

/// The day numbers of all days lie between that of the first day and that
/// of the last.
pub proof fn lemma_number_in_range(date: Date)
    requires
        date.inv(),
    ensures
        first_day_number() <= date.number() <= last_day_number(),
{
    lemma_days_before_month(date.y());
    lemma_days_before_month(MAX_YEAR as int);
    lemma_days_before_month(MIN_YEAR as int);
    lemma_years_rise(MIN_YEAR as int, date.y());
    if date.y() < MAX_YEAR {
        lemma_year_length(date.y());
        lemma_years_rise(date.y() + 1, MAX_YEAR as int);
    }
}

/// Calls chrono's `NaiveDate::parse_from_str` with the format `%Y-%m-%d`.
/// On a text of four digits, a dash, two digits, a dash and two digits, that
/// function reads the three numbers in decimal and succeeds exactly when
/// they name a day of the calendar, which is then its result.
#[verifier::external_body]
fn chrono_parse(text: &str) -> (r: Option<Date>)
    requires
        is_date_shape(text@),
    ensures
        r == date_of_shape(text@),
{
    match NaiveDate::parse_from_str(text, "%Y-%m-%d") {
        Ok(date) => Some(Date { year: date.year(), month: date.month(), day: date.day() }),
        Err(_) => None,
    }
}

/// Calls chrono's `NaiveDate::format` with one of the formats `%Y-%m-%d`
/// and `%d.%m.%Y`. It writes the year with four digits, or with a sign and
/// at least four digits outside of 0 to 9999, and month and day with two
/// digits each, in the order and with the signs between that the format
/// names.
#[verifier::external_body]
fn chrono_format(date: Date, format: &str) -> (r: String)
    requires
        date.inv(),
        format@ == "%Y-%m-%d"@ || format@ == "%d.%m.%Y"@,
    ensures
        format@ == "%Y-%m-%d"@ ==> r@ == date.text(),
        format@ == "%d.%m.%Y"@ ==> r@ == date.dotted_text(),
{
    NaiveDate::from_ymd_opt(date.year, date.month, date.day).unwrap().format(format).to_string()
}

/// Calls chrono's `NaiveDate::checked_add_days`: the date `days` days
/// later, or `None` where that lies past the last date.
#[verifier::external_body]
pub(crate) fn chrono_add_days(date: Date, days: u64) -> (r: Option<Date>)
    requires
        date.inv(),
    ensures
        r matches Some(later) ==> date.days_until(later, days as int),
        r is None <==> date.number() + days > last_day_number(),
{
    match NaiveDate::from_ymd_opt(date.year, date.month, date.day).unwrap().checked_add_days(
        Days::new(days),
    ) {
        Some(d) => Some(Date { year: d.year(), month: d.month(), day: d.day() }),
        None => None,
    }
}

/// Calls chrono's `NaiveDate::checked_sub_days`: the date `days` days
/// earlier, or `None` where that lies before the first date.
#[verifier::external_body]
pub(crate) fn chrono_sub_days(date: Date, days: u64) -> (r: Option<Date>)
    requires
        date.inv(),
    ensures
        r matches Some(earlier) ==> earlier.days_until(date, days as int),
        r is None <==> date.number() - days < first_day_number(),
{
    match NaiveDate::from_ymd_opt(date.year, date.month, date.day).unwrap().checked_sub_days(
        Days::new(days),
    ) {
        Some(d) => Some(Date { year: d.year(), month: d.month(), day: d.day() }),
        None => None,
    }
}

/// Calls chrono's `NaiveDate::checked_add_months`: the same day of the
/// month that many months later, or that month's last day where it is
/// shorter; `None` past the last year.
#[verifier::external_body]
pub(crate) fn chrono_add_months(date: Date, months: u32) -> (r: Option<Date>)
    requires
        date.inv(),
    ensures
        r == date.plus_months(months as int),
{
    match NaiveDate::from_ymd_opt(date.year, date.month, date.day).unwrap().checked_add_months(
        Months::new(months),
    ) {
        Some(d) => Some(Date { year: d.year(), month: d.month(), day: d.day() }),
        None => None,
    }
}

/// Calls chrono's `NaiveDate::signed_duration_since` and takes the whole
/// days of the result: the number of days from `from` to `to`, negative
/// where `to` is the earlier one.
#[verifier::external_body]
pub(crate) fn chrono_days_between(from: Date, to: Date) -> (r: i64)
    requires
        from.inv(),
        to.inv(),
    ensures
        r == to.number() - from.number(),
{
    let a = NaiveDate::from_ymd_opt(from.year, from.month, from.day).unwrap();
    let b = NaiveDate::from_ymd_opt(to.year, to.month, to.day).unwrap();
    b.signed_duration_since(a).num_days()
}

/// Calls chrono's `NaiveDate::weekday`: the day of the week, counted from
/// Monday as 0 to Sunday as 6. Day 1 of the calendar is a Monday.
#[verifier::external_body]
pub(crate) fn chrono_weekday(date: Date) -> (r: u32)
    requires
        date.inv(),
    ensures
        r == (date.number() + 6) % 7,
{
    NaiveDate::from_ymd_opt(date.year, date.month, date.day).unwrap().weekday().num_days_from_monday()
}

} // verus!
