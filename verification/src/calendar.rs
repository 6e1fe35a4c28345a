//! Calendar dates of the proleptic Gregorian calendar: validity, month
//! lengths, weekdays, and parsing of `YYYY-MM` month filters.
use vstd::prelude::*;
use vstd::arithmetic::div_mod::lemma_fundamental_div_mod;
use vstd::arithmetic::div_mod::lemma_fundamental_div_mod_converse;

verus! {

/// The first year a date can hold.
pub const MIN_YEAR: i32 = -262143;

/// The last year a date can hold.
pub const MAX_YEAR: i32 = 262142;

/// A calendar day; `wf` holds for every date the library hands out.
#[derive(Clone, Copy, Debug, PartialEq, Eq, Structural)]
pub struct Date {
    pub year: i32,
    pub month: u32,
    pub day: u32,
}

pub open spec fn is_leap(y: int) -> bool {
    y % 4 == 0 && (y % 100 != 0 || y % 400 == 0)
}

pub open spec fn month_length(y: int, m: int) -> int {
    if m == 2 {
        if is_leap(y) { 29 } else { 28 }
    } else if m == 4 || m == 6 || m == 9 || m == 11 {
        30
    } else {
        31
    }
}

/// Days of the year `y` that come before the first of month `m`.
pub open spec fn days_before_month(y: int, m: int) -> int {
    let base: int = if m == 1 { 0 }
        else if m == 2 { 31 }
        else if m == 3 { 59 }
        else if m == 4 { 90 }
        else if m == 5 { 120 }
        else if m == 6 { 151 }
        else if m == 7 { 181 }
        else if m == 8 { 212 }
        else if m == 9 { 243 }
        else if m == 10 { 273 }
        else if m == 11 { 304 }
        else { 334 };
    if m > 2 && is_leap(y) { base + 1 } else { base }
}

/// The number of the day counted so that 1 January of year 1 is day 1.
pub open spec fn day_number(y: int, m: int, d: int) -> int {
    let a = y - 1;
    365 * a + a / 4 - a / 100 + a / 400 + days_before_month(y, m) + d
}

/// Day of the week, 0 for Monday up to 6 for Sunday (1 January of year 1 was a Monday).
pub open spec fn weekday(y: int, m: int, d: int) -> int {
    (day_number(y, m, d) - 1) % 7
}

impl Date {
    /// A real day of the calendar, within the range of years that dates hold.
    pub open spec fn wf(self) -> bool {
        &&& MIN_YEAR <= self.year <= MAX_YEAR
        &&& 1 <= self.month <= 12
        &&& 1 <= self.day <= month_length(self.year as int, self.month as int)
    }

    pub open spec fn weekday(self) -> int {
        weekday(self.year as int, self.month as int, self.day as int)
    }
}

/// Shifting a year by 400000 keeps leap years, since 400000 is a multiple of 400.
proof fn lemma_shift_leap(y: int)
    ensures
        is_leap(y) == is_leap(y + 400000),
{
    lemma_fundamental_div_mod(y, 4);
    lemma_fundamental_div_mod(y, 100);
    lemma_fundamental_div_mod(y, 400);
    lemma_fundamental_div_mod_converse(y + 400000, 4, y / 4 + 100000, y % 4);
    lemma_fundamental_div_mod_converse(y + 400000, 100, y / 100 + 4000, y % 100);
    lemma_fundamental_div_mod_converse(y + 400000, 400, y / 400 + 1000, y % 400);
}

/// Shifting a date by 400000 years moves its day number by a multiple of 7.
proof fn lemma_shift_day_number(y: int, m: int, d: int)
    ensures
        day_number(y + 400000, m, d) == day_number(y, m, d) + 146097000,
        weekday(y + 400000, m, d) == weekday(y, m, d),
{
    let a = y - 1;
    lemma_shift_leap(y);
    lemma_fundamental_div_mod(a, 4);
    lemma_fundamental_div_mod(a, 100);
    lemma_fundamental_div_mod(a, 400);
    lemma_fundamental_div_mod_converse(a + 400000, 4, a / 4 + 100000, a % 4);
    lemma_fundamental_div_mod_converse(a + 400000, 100, a / 100 + 4000, a % 100);
    lemma_fundamental_div_mod_converse(a + 400000, 400, a / 400 + 1000, a % 400);
    let x = day_number(y, m, d) - 1;
    lemma_fundamental_div_mod(x, 7);
    lemma_fundamental_div_mod_converse(x + 146097000, 7, x / 7 + 20871000, x % 7);
}

fn leap_year(y: i32) -> (r: bool)
    requires
        MIN_YEAR <= y <= MAX_YEAR,
    ensures
        r == is_leap(y as int),
{
    let s: u32 = (y as i64 + 400000) as u32;
    proof {
        lemma_shift_leap(y as int);
    }
    s % 4 == 0 && (s % 100 != 0 || s % 400 == 0)
}

/// The number of days in month `m` of year `y`.
pub fn days_in_month(y: i32, m: u32) -> (r: u32)
    requires
        MIN_YEAR <= y <= MAX_YEAR,
        1 <= m <= 12,
    ensures
        r == month_length(y as int, m as int),
{
    if m == 2 {
        if leap_year(y) { 29 } else { 28 }
    } else if m == 4 || m == 6 || m == 9 || m == 11 {
        30
    } else {
        31
    }
}

fn days_before(y: i32, m: u32) -> (r: u32)
    requires
        MIN_YEAR <= y <= MAX_YEAR,
        1 <= m <= 12,
    ensures
        r == days_before_month(y as int, m as int),
{
    let base: u32 = if m == 1 { 0 }
        else if m == 2 { 31 }
        else if m == 3 { 59 }
        else if m == 4 { 90 }
        else if m == 5 { 120 }
        else if m == 6 { 151 }
        else if m == 7 { 181 }
        else if m == 8 { 212 }
        else if m == 9 { 243 }
        else if m == 10 { 273 }
        else if m == 11 { 304 }
        else { 334 };
    if m > 2 && leap_year(y) { base + 1 } else { base }
}

/// Day of the week of `d`, 0 for Monday up to 6 for Sunday.
pub fn weekday_of(d: Date) -> (r: u32)
    requires
        d.wf(),
    ensures
        r == d.weekday(),
        r < 7,
{
    let y: u64 = (d.year as i64 + 400000) as u64;
    let a: u64 = y - 1;
    let before = days_before(d.year, d.month);
    proof {
        lemma_shift_day_number(d.year as int, d.month as int, d.day as int);
        lemma_shift_leap(d.year as int);
        assert(a * 365 <= 662142 * 365) by (nonlinear_arith)
            requires a <= 662142;
    }
    let n: u64 = 365 * a + a / 4 - a / 100 + a / 400 + before as u64 + d.day as u64;
    proof {
        lemma_fundamental_div_mod((n - 1) as int, 7);
    }
    ((n - 1) % 7) as u32
}

/// Whether `d` falls on Monday to Friday.
pub fn is_workday(d: Date) -> (r: bool)
    requires
        d.wf(),
    ensures
        r == (d.weekday() < 5),
{
    weekday_of(d) < 5
}

/// The last day of the month that holds `d`.
pub fn last_day_of_month(d: Date) -> (r: Date)
    requires
        d.wf(),
        !(d.year == MAX_YEAR && d.month == 12),
    ensures
        r.wf(),
        r.year == d.year,
        r.month == d.month,
        r.day == month_length(d.year as int, d.month as int),
{
    Date { year: d.year, month: d.month, day: days_in_month(d.year, d.month) }
}

/// Whether two dates fall in the same month of the same year.
pub fn same_month(a: Date, b: Date) -> (r: bool)
    ensures
        r == (a.year == b.year && a.month == b.month),
{
    a.year == b.year && a.month == b.month
}

} // verus!
