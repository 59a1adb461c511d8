use vstd::prelude::*;

use chrono::Datelike;

use crate::bot::day_record::{decimal_digits, digit_char};

verus! {

#[verifier::external_type_specification]
#[verifier::external_body]
pub struct ExNaiveDate(chrono::NaiveDate);

/// A calendar day, as chrono read it from a menu.
///
/// Besides chrono's own value it holds the year, the month and the day as plain numbers,
/// which are what ordering and comparing days read. Both are set together when the text is
/// parsed, and the fields are private, so they always describe the same day.
#[derive(Debug, Clone, Copy, PartialEq, Eq, PartialOrd, Ord)]
pub struct Date {
    year: i32,
    month: u32,
    day: u32,
    value: chrono::NaiveDate,
}

/// `(year, month, day)`.
pub type DateView = (i32, u32, u32);

impl View for Date {
    type V = DateView;

    open spec fn view(&self) -> DateView {
        (self.spec_year(), self.spec_month(), self.spec_day())
    }
}

impl Date {
    pub closed spec fn spec_year(&self) -> i32 {
        self.year
    }

    pub closed spec fn spec_month(&self) -> u32 {
        self.month
    }

    pub closed spec fn spec_day(&self) -> u32 {
        self.day
    }

    pub fn year(&self) -> (r: i32)
        ensures
            r == self@.0,
    {
        self.year
    }

    pub fn month(&self) -> (r: u32)
        ensures
            r == self@.1,
    {
        self.month
    }

    pub fn day(&self) -> (r: u32)
        ensures
            r == self@.2,
    {
        self.day
    }

    /// Whether two dates are the same calendar day.
    pub fn same_day(&self, other: &Date) -> (r: bool)
        ensures
            r == (self@ == other@),
    {
        self.year == other.year && self.month == other.month && self.day == other.day
    }

    /// Whether `self` is an earlier calendar day than `other`.
    pub fn is_before(&self, other: &Date) -> (r: bool)
        ensures
            r == date_before(self@, other@),
    {
        self.year < other.year || (self.year == other.year && (self.month < other.month || (
        self.month == other.month && self.day < other.day)))
    }
}

/// A day of the week.
#[derive(Debug, Clone, Copy, PartialEq, Eq, Structural)]
pub enum Weekday {
    Mon,
    Tue,
    Wed,
    Thu,
    Fri,
    Sat,
    Sun,
}

/// The day of the week numbered from Monday (0) to Sunday (6).
pub open spec fn weekday_numbered(n: u32) -> Weekday {
    if n == 0 {
        Weekday::Mon
    } else if n == 1 {
        Weekday::Tue
    } else if n == 2 {
        Weekday::Wed
    } else if n == 3 {
        Weekday::Thu
    } else if n == 4 {
        Weekday::Fri
    } else if n == 5 {
        Weekday::Sat
    } else {
        Weekday::Sun
    }
}

/// The day of the week of a date, as chrono computes it.
pub open spec fn weekday_of(date: DateView) -> Weekday {
    weekday_numbered(weekday_number(date))
}

impl Date {
    /// The day of the week of this date.
    pub fn weekday(&self) -> (r: Weekday)
        ensures
            r == weekday_of(self@),
    {
        let n = weekday_from_monday(self);
        if n == 0 {
            Weekday::Mon
        } else if n == 1 {
            Weekday::Tue
        } else if n == 2 {
            Weekday::Wed
        } else if n == 3 {
            Weekday::Thu
        } else if n == 4 {
            Weekday::Fri
        } else if n == 5 {
            Weekday::Sat
        } else {
            Weekday::Sun
        }
    }

    /// The date written as `dd/mm/yyyy`.
    pub fn format_dmy(&self) -> (r: String)
        ensures
            r@ == dmy_text(self@),
    {
        render_date(self, "%d/%m/%Y")
    }
}

/// Chronological order of `(year, month, day)` triples.
pub open spec fn date_before(a: DateView, b: DateView) -> bool {
    ||| a.0 < b.0
    ||| a.0 == b.0 && a.1 < b.1
    ||| a.0 == b.0 && a.1 == b.1 && a.2 < b.2
}

/// What chrono's `NaiveDate::parse_from_str(text, fmt)` gives: the date's `(year, month, day)`,
/// or the text of the parse error.
pub uninterp spec fn chrono_parse_date(text: Seq<char>, fmt: Seq<char>) -> Result<DateView, Seq<char>>;

/// Whether a year of the proleptic Gregorian calendar is a leap year.
pub open spec fn is_leap_year(year: int) -> bool {
    year % 4 == 0 && (year % 100 != 0 || year % 400 == 0)
}

/// How many days of a year come before the first of a month.
pub open spec fn days_before_month(year: int, month: int) -> int {
    let days: int = if month == 1 {
        0
    } else if month == 2 {
        31
    } else if month == 3 {
        59
    } else if month == 4 {
        90
    } else if month == 5 {
        120
    } else if month == 6 {
        151
    } else if month == 7 {
        181
    } else if month == 8 {
        212
    } else if month == 9 {
        243
    } else if month == 10 {
        273
    } else if month == 11 {
        304
    } else {
        334
    };
    if month > 2 && is_leap_year(year) {
        days + 1
    } else {
        days
    }
}

/// The number of a day counted in the proleptic Gregorian calendar, 1 January of year 1
/// being day 1.
pub open spec fn days_from_ce(date: DateView) -> int {
    let y = date.0 - 1;
    365 * y + y / 4 - y / 100 + y / 400 + days_before_month(date.0 as int, date.1 as int)
        + date.2
}

/// The day of the week of a date, numbered from Monday (0) to Sunday (6); 1 January of year 1
/// was a Monday.
pub open spec fn weekday_number(date: DateView) -> u32 {
    ((days_from_ce(date) - 1) % 7) as u32
}


/// Calls chrono's `NaiveDate::parse_from_str(text, fmt)`.
///
/// Trusted: the date that comes back holds the year, month and day that chrono's value
/// reports, and on failure the text of chrono's `ParseError`; both are what
/// `chrono_parse_date` names for these arguments. As a `NaiveDate` only ever holds a day of
/// the calendar, the month is from 1 to 12 and the day within that month's length.
#[verifier::external_body]
pub(crate) fn parse_date(text: &str, fmt: &str) -> (r: Result<Date, String>)
    ensures
        match r {
            Ok(d) => chrono_parse_date(text@, fmt@) == Ok::<DateView, Seq<char>>(d@) && valid_date(
                d@,
            ),
            Err(e) => chrono_parse_date(text@, fmt@) == Err::<DateView, Seq<char>>(e@),
        },
{
    match chrono::NaiveDate::parse_from_str(text, fmt) {
        Ok(value) => Ok(Date { year: value.year(), month: value.month(), day: value.day(), value }),
        Err(e) => Err(e.to_string()),
    }
}

/// Calls chrono's `NaiveDate::weekday()` and numbers the day from Monday (0) to Sunday (6)
/// with `Weekday::num_days_from_monday()`.
///
/// Trusted: the number is the date's day of the week in the proleptic Gregorian calendar,
/// which chrono uses, counted from Monday (0): `weekday_number` of its `(year, month, day)`.
#[verifier::external_body]
pub(crate) fn weekday_from_monday(date: &Date) -> (r: u32)
    ensures
        r == weekday_number(date@),
{
    date.value.weekday().num_days_from_monday()
}

/// The last `width` decimal digits of a number, zero-padded.
pub open spec fn padded_digits(n: nat, width: nat) -> Seq<char>
    decreases width,
{
    if width == 0 {
        Seq::empty()
    } else {
        padded_digits(n / 10, (width - 1) as nat).push(digit_char((n % 10) as int))
    }
}

/// A year as chrono's `%Y` writes it: from 0 to 9999 as four zero-padded digits, any other
/// with its sign and at least four digits.
pub open spec fn year_text(year: int) -> Seq<char> {
    if 0 <= year <= 9999 {
        padded_digits(year as nat, 4)
    } else {
        let magnitude = (if year < 0 {
            -year
        } else {
            year
        }) as nat;
        (if year < 0 {
            "-"@
        } else {
            "+"@
        }) + (if magnitude >= 1000 {
            decimal_digits(magnitude)
        } else {
            padded_digits(magnitude, 4)
        })
    }
}

/// A date written `dd/mm/yyyy` as chrono's `%d/%m/%Y` writes it.
pub open spec fn dmy_text(date: DateView) -> Seq<char> {
    padded_digits(date.2 as nat, 2) + "/"@ + padded_digits(date.1 as nat, 2) + "/"@ + year_text(
        date.0 as int,
    )
}

/// Calls chrono's `NaiveDate::format(fmt)` and renders it with `to_string()`.
///
/// Trusted: chrono writes `%d` and `%m` as two zero-padded digits and `%Y` as `year_text`
/// says (four zero-padded digits for a year from 0 to 9999, else a sign and at least four
/// digits). Rendering panics on a format that chrono cannot render, so the only format
/// admitted is the one this library uses, `%d/%m/%Y`.
#[verifier::external_body]
pub(crate) fn render_date(date: &Date, fmt: &str) -> (r: String)
    requires
        fmt@ == "%d/%m/%Y"@,
    ensures
        r@ == dmy_text(date@),
{
    date.value.format(fmt).to_string()
}

/// How many days a month has.
pub open spec fn days_in_month(year: int, month: int) -> int {
    if month == 2 {
        if is_leap_year(year) {
            29
        } else {
            28
        }
    } else if month == 4 || month == 6 || month == 9 || month == 11 {
        30
    } else {
        31
    }
}

/// A `(year, month, day)` triple that names a day of the calendar.
pub open spec fn valid_date(date: DateView) -> bool {
    1 <= date.1 <= 12 && 1 <= date.2 <= days_in_month(date.0 as int, date.1 as int)
}

/// How many days a year has.
pub open spec fn days_in_year(year: int) -> int {
    if is_leap_year(year) {
        366
    } else {
        365
    }
}

/// The days before the first of January of a year, counted from year 1.
spec fn days_before_year(year: int) -> int {
    let y = year - 1;
    365 * y + y / 4 - y / 100 + y / 400
}

proof fn lemma_div_step(y: int, k: int)
    requires
        k > 0,
    ensures
        y / k - (y - 1) / k == (if y % k == 0 {
            1int
        } else {
            0int
        }),
{
    assert(y == k * (y / k) + y % k) by (nonlinear_arith)
        requires
            k > 0,
    ;
    assert((y - 1) == k * ((y - 1) / k) + (y - 1) % k) by (nonlinear_arith)
        requires
            k > 0,
    ;
    assert(0 <= y % k < k);
    assert(0 <= (y - 1) % k < k);
    if y % k == 0 {
        assert((y - 1) % k == k - 1) by (nonlinear_arith)
            requires
                k > 0,
                y == k * (y / k) + y % k,
                (y - 1) == k * ((y - 1) / k) + (y - 1) % k,
                y % k == 0,
                0 <= (y - 1) % k < k,
        ;
        assert(y / k - (y - 1) / k == 1) by (nonlinear_arith)
            requires
                k > 0,
                y == k * (y / k),
                y - 1 == k * ((y - 1) / k) + k - 1,
        ;
    } else {
        assert((y - 1) % k == y % k - 1) by (nonlinear_arith)
            requires
                k > 0,
                y == k * (y / k) + y % k,
                (y - 1) == k * ((y - 1) / k) + (y - 1) % k,
                0 < y % k < k,
                0 <= (y - 1) % k < k,
        ;
        assert(y / k == (y - 1) / k) by (nonlinear_arith)
            requires
                k > 0,
                y == k * (y / k) + y % k,
                (y - 1) == k * ((y - 1) / k) + y % k - 1,
        ;
    }
}

proof fn lemma_year_step(year: int)
    ensures
        days_before_year(year + 1) == days_before_year(year) + days_in_year(year),
{
    lemma_div_step(year, 4);
    lemma_div_step(year, 100);
    lemma_div_step(year, 400);
    assert(year % 100 == 0 ==> year % 4 == 0) by (nonlinear_arith);
    assert(year % 400 == 0 ==> year % 100 == 0) by (nonlinear_arith);
}

proof fn lemma_years_grow(y1: int, y2: int)
    requires
        y1 < y2,
    ensures
        days_before_year(y1) + days_in_year(y1) <= days_before_year(y2),
    decreases y2 - y1,
{
    lemma_year_step(y1);
    if y1 + 1 < y2 {
        lemma_years_grow(y1 + 1, y2);
        lemma_year_step(y1 + 1);
    }
}

proof fn lemma_ordinal_in_year(date: DateView)
    requires
        valid_date(date),
    ensures
        1 <= days_before_month(date.0 as int, date.1 as int) + date.2,
        days_before_month(date.0 as int, date.1 as int) + date.2 <= days_in_year(date.0 as int),
{
}

proof fn lemma_months_grow(year: int, m1: int, m2: int)
    requires
        1 <= m1 < m2 <= 12,
    ensures
        days_before_month(year, m1) + days_in_month(year, m1) <= days_before_month(year, m2),
{
}

proof fn lemma_before_counts(a: DateView, b: DateView)
    requires
        valid_date(a),
        valid_date(b),
        date_before(a, b),
    ensures
        days_from_ce(a) < days_from_ce(b),
{
    assert(days_from_ce(a) == days_before_year(a.0 as int) + days_before_month(a.0 as int, a.1 as int) + a.2);
    assert(days_from_ce(b) == days_before_year(b.0 as int) + days_before_month(b.0 as int, b.1 as int) + b.2);
    lemma_ordinal_in_year(a);
    lemma_ordinal_in_year(b);
    if a.0 < b.0 {
        lemma_years_grow(a.0 as int, b.0 as int);
    } else if a.1 < b.1 {
        lemma_months_grow(a.0 as int, a.1 as int, b.1 as int);
    }
}

/// On the days of the calendar, "before" is the calendar's order: a date comes before another
/// exactly when fewer days have passed by it since the start of the era.
pub proof fn law_date_order_is_chronological(a: DateView, b: DateView)
    requires
        valid_date(a),
        valid_date(b),
    ensures
        date_before(a, b) <==> days_from_ce(a) < days_from_ce(b),
{
    if date_before(a, b) {
        lemma_before_counts(a, b);
    } else if a != b {
        lemma_before_counts(b, a);
    }
}

/// Dates are ordered by year, then by month within a year, then by day within a month.
pub proof fn law_date_order_by_year_month_day(a: DateView, b: DateView)
    ensures
        a.0 < b.0 ==> date_before(a, b),
        a.0 == b.0 && a.1 < b.1 ==> date_before(a, b),
        a.0 == b.0 && a.1 == b.1 && a.2 < b.2 ==> date_before(a, b),
        date_before(a, b) ==> !date_before(b, a),
        a != b ==> date_before(a, b) || date_before(b, a),
{
}

} // verus!
