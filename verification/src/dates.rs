//! Calendar keys for the ledger: a month key (year and calendar month)
//! and a full date. Dates arrive already validated as plain integers;
//! the only outside call is the one that reads the current date.

use vstd::prelude::*;

verus! {

/// The largest year the ledger accepts; keeps all day arithmetic far
/// from any integer bound.
pub const MAX_YEAR: u32 = 9999;

/// A calendar month: the key under which months, goals and budget
/// allocations are addressed.
#[derive(Clone, Copy, PartialEq, Eq, Structural, Debug)]
pub struct MonthKey {
    pub year: u32,
    /// Calendar month, 1 through 12.
    pub month: u32,
}

/// A calendar date, addressed by its month key plus the day of month.
#[derive(Clone, Copy, PartialEq, Eq, Structural, Debug)]
pub struct Date {
    pub ym: MonthKey,
    /// Day of month, 1 through the month's length.
    pub day: u32,
}

impl MonthKey {
    /// A month key names a real calendar month within the supported years.
    pub open spec fn wf(self) -> bool {
        &&& self.year <= MAX_YEAR
        &&& 1 <= self.month <= 12
    }

    /// Months counted from January of year 0: the yardstick for
    /// "strictly increasing, gapless" month sequences.
    pub open spec fn index(self) -> int {
        self.year * 12 + self.month - 1
    }
}

/// Whether a year is a leap year in the proleptic Gregorian calendar.
pub open spec fn is_leap_year(y: int) -> bool {
    (y % 4 == 0 && y % 100 != 0) || y % 400 == 0
}

/// The number of days in a calendar month.
pub open spec fn days_in_month(y: int, m: int) -> int {
    if m == 2 {
        if is_leap_year(y) { 29 } else { 28 }
    } else if m == 4 || m == 6 || m == 9 || m == 11 {
        30
    } else {
        31
    }
}

/// The number of leap years in `[0, y)`.
pub open spec fn leap_years_before(y: int) -> int {
    if y <= 0 { 0 } else { 1 + (y - 1) / 4 - (y - 1) / 100 + (y - 1) / 400 }
}

/// Days in all years before year `y`, counted from year 0.
pub open spec fn days_before_year(y: int) -> int {
    365 * y + leap_years_before(y)
}

/// Days in the months of year `y` that precede month `m`.
pub open spec fn days_before_month(y: int, m: int) -> int
    decreases m,
{
    if m <= 1 { 0 } else { days_before_month(y, m - 1) + days_in_month(y, m - 1) }
}

impl Date {
    /// A date names a real day of a real month.
    pub open spec fn wf(self) -> bool {
        &&& self.ym.wf()
        &&& 1 <= self.day <= days_in_month(self.ym.year as int, self.ym.month as int)
    }

    /// Days counted from the first of January of year 0: the yardstick
    /// for elapsed-day arithmetic such as age of money.
    pub open spec fn day_number(self) -> int {
        days_before_year(self.ym.year as int) + days_before_month(
            self.ym.year as int,
            self.ym.month as int,
        ) + self.day - 1
    }
}

/// Computes a month key's position in the gapless month yardstick.
pub fn month_index_of(k: MonthKey) -> (r: u32)
    requires
        k.wf(),
    ensures
        r == k.index(),
{
    k.year * 12 + k.month - 1
}

/// The calendar month right after `k`, rolling December into January.
pub fn next_month(k: MonthKey) -> (r: MonthKey)
    requires
        k.wf(),
        k.index() < MAX_YEAR * 12 + 11,
    ensures
        r.wf(),
        r.index() == k.index() + 1,
{
    if k.month == 12 {
        MonthKey { year: k.year + 1, month: 1 }
    } else {
        MonthKey { year: k.year, month: k.month + 1 }
    }
}

/// Whether `y` is a leap year.
pub fn is_leap_year_exec(y: u32) -> (r: bool)
    ensures
        r == is_leap_year(y as int),
{
    (y % 4 == 0 && y % 100 != 0) || y % 400 == 0
}

/// The number of days in month `m` of year `y`.
pub fn days_in_month_exec(y: u32, m: u32) -> (r: u32)
    requires
        1 <= m <= 12,
    ensures
        r == days_in_month(y as int, m as int),
{
    if m == 2 {
        if is_leap_year_exec(y) { 29 } else { 28 }
    } else if m == 4 || m == 6 || m == 9 || m == 11 {
        30
    } else {
        31
    }
}

/// Computes a date's day number for elapsed-day arithmetic.
pub fn day_number_of(d: Date) -> (r: u32)
    requires
        d.wf(),
    ensures
        r == d.day_number(),
{
    let y: u32 = d.ym.year;
    let leaps: u32 = if y == 0 { 0 } else { 1 + (y - 1) / 4 - (y - 1) / 100 + (y - 1) / 400 };
    proof {
        assert(y >= 1 ==> (y - 1) / 100 <= (y - 1) / 4) by (nonlinear_arith);
    }
    let mut acc: u32 = 365 * y + leaps;
    proof {
        assert(leap_years_before(y as int) <= y as int || y == 0) by (nonlinear_arith)
            requires y as int >= 1 ==> leap_years_before(y as int) == 1 + (y as int - 1) / 4
                - (y as int - 1) / 100 + (y as int - 1) / 400;
    }
    let mut m: u32 = 1;
    while m < d.ym.month
        invariant
            1 <= m <= d.ym.month,
            d.wf(),
            y == d.ym.year,
            acc == days_before_year(y as int) + days_before_month(y as int, m as int),
            acc <= 365 * (y as int) + y + 31 * m,
        decreases d.ym.month - m,
    {
        acc = acc + days_in_month_exec(y, m);
        m = m + 1;
    }
    acc + d.day - 1
}

/// Builds a ledger date from plain year, month and day integers,
/// returning the date exactly when the triple names a real day within
/// the supported years, and nothing otherwise.
pub fn date_from_ymd(year: i64, month: u32, day: u32) -> (r: Option<Date>)
    ensures
        r is Some <==> {
            &&& 0 <= year <= MAX_YEAR
            &&& 1 <= month <= 12
            &&& 1 <= day <= days_in_month(year as int, month as int)
        },
        r is Some ==> {
            &&& r->Some_0 == (Date { ym: MonthKey { year: year as u32, month }, day })
            &&& r->Some_0.wf()
        },
{
    if year < 0 || year > MAX_YEAR as i64 || month < 1 || month > 12 {
        return None;
    }
    let y: u32 = year as u32;
    if day < 1 || day > days_in_month_exec(y, month) {
        return None;
    }
    Some(Date { ym: MonthKey { year: y, month }, day })
}

/// Relies on `chrono::Utc::now` and `chrono::NaiveDate`'s `Datelike`
/// accessors: `month()` is between 1 and 12 and `day()` between 1 and
/// 31. The year depends on the wall clock, so nothing is promised of it.
#[verifier::external_body]
fn today_ymd() -> (r: (i64, u32, u32))
    ensures
        1 <= r.1 <= 12,
        1 <= r.2 <= 31,
{
    let d = chrono::Utc::now().date_naive();
    (chrono::Datelike::year(&d) as i64, chrono::Datelike::month(&d), chrono::Datelike::day(&d))
}

/// Reads the current date from the system clock. Whatever the clock
/// says, the result is either a well-formed ledger date or, when the
/// clock's year falls outside the supported range, nothing.
pub fn today() -> (r: Option<Date>)
    ensures
        r is Some ==> r->Some_0.wf(),
{
    let (y, m, d) = today_ymd();
    date_from_ymd(y, m, d)
}

} // verus!
