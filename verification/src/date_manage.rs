//! Calendar dates: the day before and after, the day of the week, and the
//! days of a week and of a month.

use chrono::Datelike;
use std::collections::VecDeque;
use vstd::prelude::*;

verus! {

/// The first year that a date can lie in.
pub const MIN_YEAR: i32 = -262143;

/// The last year that a date can lie in.
pub const MAX_YEAR: i32 = 262142;

/// Whether `year` has a 29th of February. Years are counted as in
/// astronomy: the year before year 1 is year 0.
pub open spec fn is_leap_year(year: int) -> bool {
    year % 4 == 0 && (year % 100 != 0 || year % 400 == 0)
}

/// The number of days of the given month of the given year.
pub open spec fn days_in_month(year: int, month: int) -> int {
    if month == 2 {
        if is_leap_year(year) {
            29
        } else {
            28
        }
    } else if month == 4 || month == 6 || month == 9 || month == 11 {
        30
    } else {
        31
    }
}

/// The number of days of the given year that lie before the given month.
pub open spec fn days_before_month(year: int, month: int) -> int
    decreases month,
{
    if month <= 1 {
        0
    } else {
        days_before_month(year, month - 1) + days_in_month(year, month - 1)
    }
}

/// The number of days from the first of January of year 1 to the first of
/// January of the given year; negative for years before year 1.
#[verifier::opaque]
pub open spec fn days_before_year(year: int) -> int {
    365 * (year - 1) + (year - 1) / 4 - (year - 1) / 100 + (year - 1) / 400
}

/// The mathematical value of a date: year, month and day of the month in
/// the Gregorian calendar, carried back before its introduction.
pub struct DateView {
    pub year: int,
    pub month: int,
    pub day: int,
}

impl DateView {
    /// Whether this is a day of the calendar, in a year that dates reach.
    pub open spec fn valid(self) -> bool {
        &&& MIN_YEAR <= self.year <= MAX_YEAR
        &&& 1 <= self.month <= 12
        &&& 1 <= self.day <= days_in_month(self.year, self.month)
    }

    /// Whether this is the first day that dates reach.
    pub open spec fn is_first(self) -> bool {
        self.year == MIN_YEAR && self.month == 1 && self.day == 1
    }

    /// Whether this is the last day that dates reach.
    pub open spec fn is_last(self) -> bool {
        self.year == MAX_YEAR && self.month == 12 && self.day == 31
    }

    /// The day after this one.
    pub open spec fn succ(self) -> DateView {
        if self.day < days_in_month(self.year, self.month) {
            DateView { day: self.day + 1, ..self }
        } else if self.month < 12 {
            DateView { year: self.year, month: self.month + 1, day: 1 }
        } else {
            DateView { year: self.year + 1, month: 1, day: 1 }
        }
    }

    /// The day before this one.
    pub open spec fn pred(self) -> DateView {
        if self.day > 1 {
            DateView { day: self.day - 1, ..self }
        } else if self.month > 1 {
            DateView {
                year: self.year,
                month: self.month - 1,
                day: days_in_month(self.year, self.month - 1),
            }
        } else {
            DateView { year: self.year - 1, month: 12, day: 31 }
        }
    }

    /// The day that lies `days` days after this one.
    pub open spec fn plus_days(self, days: nat) -> DateView
        decreases days,
    {
        if days == 0 {
            self
        } else {
            self.plus_days((days - 1) as nat).succ()
        }
    }

    /// The day that lies `days` days before this one.
    pub open spec fn minus_days(self, days: nat) -> DateView
        decreases days,
    {
        if days == 0 {
            self
        } else {
            self.minus_days((days - 1) as nat).pred()
        }
    }

    /// The number of days from the first of January of year 1 to this day.
    pub open spec fn day_number(self) -> int {
        days_before_year(self.year) + days_before_month(self.year, self.month) + self.day - 1
    }

    /// The day of the week, counted from Monday as 0 to Sunday as 6. The
    /// first of January of year 1 is a Monday.
    pub open spec fn weekday_number(self) -> int {
        self.day_number() % 7
    }

    /// The first day of this day's month.
    pub open spec fn first_of_month(self) -> DateView {
        DateView { day: 1, ..self }
    }
}

/// The days before each month add up as the calendar has them.
pub proof fn lemma_days_before_month(year: int)
    ensures
        days_before_month(year, 1) == 0,
        days_before_month(year, 2) == 31,
        days_before_month(year, 3) == 31 + days_in_month(year, 2),
        days_before_month(year, 4) == 62 + days_in_month(year, 2),
        days_before_month(year, 5) == 92 + days_in_month(year, 2),
        days_before_month(year, 6) == 123 + days_in_month(year, 2),
        days_before_month(year, 7) == 153 + days_in_month(year, 2),
        days_before_month(year, 8) == 184 + days_in_month(year, 2),
        days_before_month(year, 9) == 215 + days_in_month(year, 2),
        days_before_month(year, 10) == 245 + days_in_month(year, 2),
        days_before_month(year, 11) == 276 + days_in_month(year, 2),
        days_before_month(year, 12) == 306 + days_in_month(year, 2),
{
    reveal_with_fuel(days_before_month, 13);
}

/// Counting up by one raises the quotient by a divisor exactly at the
/// divisor's multiples.
pub proof fn lemma_quotient_step(n: int, d: int)
    requires
        d > 0,
    ensures
        n / d - (n - 1) / d == if n % d == 0 {
            1int
        } else {
            0int
        },
{
    vstd::arithmetic::div_mod::lemma_fundamental_div_mod(n, d);
    vstd::arithmetic::div_mod::lemma_fundamental_div_mod(n - 1, d);
    vstd::arithmetic::div_mod::lemma_mod_bound(n, d);
    vstd::arithmetic::div_mod::lemma_mod_bound(n - 1, d);
    let q = n / d;
    let p = (n - 1) / d;
    let r = n % d;
    let t = (n - 1) % d;
    assert(d * q + r == d * p + t + 1);
    assert(d * (q - p) == t + 1 - r) by (nonlinear_arith)
        requires
            d * q + r == d * p + t + 1,
    ;
    if q - p >= 2 {
        assert(d * (q - p) >= 2 * d) by (nonlinear_arith)
            requires
                q - p >= 2,
                d > 0,
        ;
    }
    if q - p <= -1 {
        assert(d * (q - p) <= -d) by (nonlinear_arith)
            requires
                q - p <= -1,
                d > 0,
        ;
    }
    if q - p == 1 {
        assert(d * (q - p) == d) by (nonlinear_arith)
            requires
                q - p == 1,
        ;
    }
    if q - p == 0 {
        assert(d * (q - p) == 0) by (nonlinear_arith)
            requires
                q - p == 0,
        ;
    }
}

/// A multiple of 400 is a multiple of 100, and a multiple of 100 is a
/// multiple of 4.
pub proof fn lemma_multiples(year: int)
    ensures
        year % 400 == 0 ==> year % 100 == 0,
        year % 100 == 0 ==> year % 4 == 0,
{
    if year % 400 == 0 {
        vstd::arithmetic::div_mod::lemma_fundamental_div_mod(year, 400);
        let q = year / 400;
        assert(year == (4 * q) * 100) by (nonlinear_arith)
            requires
                year == 400 * q,
        ;
        vstd::arithmetic::div_mod::lemma_mod_multiples_basic(4 * q, 100);
    }
    if year % 100 == 0 {
        vstd::arithmetic::div_mod::lemma_fundamental_div_mod(year, 100);
        let q = year / 100;
        assert(year == (25 * q) * 4) by (nonlinear_arith)
            requires
                year == 100 * q,
        ;
        vstd::arithmetic::div_mod::lemma_mod_multiples_basic(25 * q, 4);
    }
}

/// The count of days before a year, written out.
pub proof fn lemma_days_before_year(year: int)
    ensures
        days_before_year(year) == 365 * (year - 1) + (year - 1) / 4 - (year - 1) / 100 + (year
            - 1) / 400,
{
    reveal(days_before_year);
}

/// A year has 365 days, and one more if it is a leap year.
pub proof fn lemma_days_of_year(year: int)
    ensures
        days_before_year(year + 1) - days_before_year(year) == if is_leap_year(year) {
            366int
        } else {
            365int
        },
{
    lemma_days_before_year(year);
    lemma_days_before_year(year + 1);
    lemma_quotient_step(year, 4);
    lemma_quotient_step(year, 100);
    lemma_quotient_step(year, 400);
    lemma_multiples(year);
    let by4: int = if year % 4 == 0 {
        1
    } else {
        0
    };
    let by100: int = if year % 100 == 0 {
        1
    } else {
        0
    };
    let by400: int = if year % 400 == 0 {
        1
    } else {
        0
    };
    let after = days_before_year(year + 1);
    let before = days_before_year(year);
    let q4 = (year - 1) / 4;
    let q100 = (year - 1) / 100;
    let q400 = (year - 1) / 400;
    assert(year / 4 == q4 + by4);
    assert(year / 100 == q100 + by100);
    assert(year / 400 == q400 + by400);
    assert(before == 365 * (year - 1) + q4 - q100 + q400);
    assert(after == 365 * year + (q4 + by4) - (q100 + by100) + (q400 + by400));
    assert(after - before == 365 + by4 - by100 + by400);
}

/// The day after a day of the calendar is a day of the calendar, one
/// further on in the count of days and in the week, and the day before it
/// is the day itself.
pub proof fn lemma_succ(date: DateView)
    requires
        date.valid(),
        !date.is_last(),
    ensures
        date.succ().valid(),
        !date.succ().is_first(),
        date.succ().day_number() == date.day_number() + 1,
        date.succ().weekday_number() == (date.weekday_number() + 1) % 7,
        date.succ().pred() == date,
{
    let after = date.succ();
    let n = date.day_number();
    if date.day < days_in_month(date.year, date.month) {
        assert(after.day_number() == n + 1);
    } else if date.month < 12 {
        assert(days_before_month(date.year, date.month + 1) == days_before_month(
            date.year,
            date.month,
        ) + days_in_month(date.year, date.month));
        assert(after.day_number() == n + 1);
    } else {
        lemma_days_before_month(date.year);
        lemma_days_of_year(date.year);
        assert(days_before_month(date.year + 1, 1) == 0);
        assert(after.day_number() == n + 1);
    }
    assert((n % 7 + 1) % 7 == (n + 1) % 7);
}

/// The day before a day of the calendar is a day of the calendar, one
/// back in the count of days and in the week, and the day after it is the
/// day itself.
pub proof fn lemma_pred(date: DateView)
    requires
        date.valid(),
        !date.is_first(),
    ensures
        date.pred().valid(),
        !date.pred().is_last(),
        date.pred().day_number() == date.day_number() - 1,
        date.pred().weekday_number() == (date.weekday_number() + 6) % 7,
        date.pred().succ() == date,
{
    let before = date.pred();
    assert(before.valid() && !before.is_last() && before.succ() == date);
    lemma_succ(before);
    let n = before.day_number();
    assert((n % 7 + 1) % 7 == (n + 1) % 7 && ((n + 1) % 7 + 6) % 7 == n % 7);
}

/// Going on by some days, within the days that dates reach, leads to a day
/// of the calendar that lies as many days further on in the count of days
/// and in the week.
pub proof fn lemma_plus_days(date: DateView, days: nat)
    requires
        date.valid(),
        date.day_number() + days <= LAST_DAY_NUMBER,
    ensures
        date.plus_days(days).valid(),
        date.plus_days(days).day_number() == date.day_number() + days,
        date.plus_days(days).weekday_number() == (date.weekday_number() + days) % 7,
    decreases days,
{
    lemma_last_day_number();
    if days > 0 {
        let before = date.plus_days((days - 1) as nat);
        lemma_plus_days(date, (days - 1) as nat);
        lemma_day_number_bounds(before);
        lemma_succ(before);
        let n = date.day_number();
        assert(((n % 7 + (days - 1)) % 7 + 1) % 7 == (n % 7 + days) % 7);
    }
}

/// Going back by some days, within the days that dates reach, leads to a
/// day of the calendar that lies as many days back in the count of days.
pub proof fn lemma_minus_days(date: DateView, days: nat)
    requires
        date.valid(),
        date.day_number() - days >= FIRST_DAY_NUMBER,
    ensures
        date.minus_days(days).valid(),
        date.minus_days(days).day_number() == date.day_number() - days,
    decreases days,
{
    lemma_first_day_number();
    if days > 0 {
        let after = date.minus_days((days - 1) as nat);
        lemma_minus_days(date, (days - 1) as nat);
        lemma_day_number_bounds(after);
        lemma_pred(after);
    }
}

/// The count of days of the first day that dates reach.
pub const FIRST_DAY_NUMBER: i64 = -95746130;

/// The count of days of the last day that dates reach.
pub const LAST_DAY_NUMBER: i64 = 95745398;

/// The first day that dates reach has the count `FIRST_DAY_NUMBER`.
pub proof fn lemma_first_day_number()
    ensures
        (DateView { year: MIN_YEAR as int, month: 1, day: 1 }).day_number() == FIRST_DAY_NUMBER,
{
    reveal(days_before_year);
    lemma_days_before_month(MIN_YEAR as int);
}

/// The last day that dates reach has the count `LAST_DAY_NUMBER`.
pub proof fn lemma_last_day_number()
    ensures
        (DateView { year: MAX_YEAR as int, month: 12, day: 31 }).day_number() == LAST_DAY_NUMBER,
{
    reveal(days_before_year);
    lemma_days_before_month(MAX_YEAR as int);
}

/// The place of a day within its year: from 0 on the first of January to
/// 364, or 365 in a leap year, on the last of December.
pub proof fn lemma_day_of_year(date: DateView)
    requires
        date.valid(),
    ensures
        0 <= days_before_month(date.year, date.month) + date.day - 1 <= 364 + if is_leap_year(
            date.year,
        ) {
            1int
        } else {
            0int
        },
        days_before_month(date.year, date.month) + date.day - 1 == 0 <==> date.month == 1
            && date.day == 1,
        days_before_month(date.year, date.month) + date.day - 1 == 364 + (if is_leap_year(
            date.year,
        ) {
            1int
        } else {
            0int
        }) <==> date.month == 12 && date.day == 31,
{
    lemma_days_before_month(date.year);
}

/// The count of days tells the first and the last day from all others.
pub proof fn lemma_day_number_bounds(date: DateView)
    requires
        date.valid(),
    ensures
        FIRST_DAY_NUMBER <= date.day_number() <= LAST_DAY_NUMBER,
        date.day_number() == FIRST_DAY_NUMBER <==> date.is_first(),
        date.day_number() == LAST_DAY_NUMBER <==> date.is_last(),
{
    lemma_day_of_year(date);
    lemma_first_day_number();
    lemma_last_day_number();
    lemma_years_in_order(MIN_YEAR as int, date.year);
    lemma_years_in_order(date.year, MAX_YEAR as int);
    lemma_days_before_month(MIN_YEAR as int);
    lemma_days_before_month(MAX_YEAR as int);
    let offset = days_before_month(date.year, date.month) + date.day - 1;
    assert(date.day_number() == days_before_year(date.year) + offset);
    assert(FIRST_DAY_NUMBER == days_before_year(MIN_YEAR as int));
    assert(LAST_DAY_NUMBER == days_before_year(MAX_YEAR as int) + 364);
    if date.year < MAX_YEAR {
        lemma_years_in_order(date.year + 1, MAX_YEAR as int);
        lemma_days_of_year(date.year);
        assert(days_before_year(MAX_YEAR as int) >= days_before_year(date.year + 1));
        assert(date.day_number() < days_before_year(date.year + 1));
    }
    if date.year > MIN_YEAR {
        lemma_years_in_order(MIN_YEAR as int, date.year - 1);
        lemma_days_of_year(date.year - 1);
    }
}

/// Years lie in order in the count of days, at least 365 days apart.
pub proof fn lemma_years_in_order(early: int, late: int)
    requires
        early <= late,
    ensures
        days_before_year(late) - days_before_year(early) >= 365 * (late - early),
    decreases late - early,
{
    if early < late {
        lemma_years_in_order(early, late - 1);
        lemma_days_of_year(late - 1);
    }
}

/// A day of the week.
#[derive(Clone, Copy, Debug, PartialEq, Eq, Structural)]
pub enum Weekday {
    Mon,
    Tue,
    Wed,
    Thu,
    Fri,
    Sat,
    Sun,
}

impl Weekday {
    /// The number of days from Monday to this day of the week.
    pub open spec fn number(self) -> int {
        match self {
            Weekday::Mon => 0,
            Weekday::Tue => 1,
            Weekday::Wed => 2,
            Weekday::Thu => 3,
            Weekday::Fri => 4,
            Weekday::Sat => 5,
            Weekday::Sun => 6,
        }
    }

    /// The number of days from Monday to this day of the week.
    pub fn num_days_from_monday(&self) -> (number: u32)
        ensures
            number == self.number(),
    {
        match self {
            Weekday::Mon => 0,
            Weekday::Tue => 1,
            Weekday::Wed => 2,
            Weekday::Thu => 3,
            Weekday::Fri => 4,
            Weekday::Sat => 5,
            Weekday::Sun => 6,
        }
    }

    /// The day of the week that lies `number` days after a Monday.
    pub fn from_days_from_monday(number: u32) -> (weekday: Weekday)
        ensures
            weekday.number() == number % 7,
    {
        match number % 7 {
            0 => Weekday::Mon,
            1 => Weekday::Tue,
            2 => Weekday::Wed,
            3 => Weekday::Thu,
            4 => Weekday::Fri,
            5 => Weekday::Sat,
            _ => Weekday::Sun,
        }
    }

    /// The next day of the week; Monday after Sunday.
    pub fn succ(&self) -> (next: Weekday)
        ensures
            next.number() == (self.number() + 1) % 7,
    {
        Self::from_days_from_monday(self.num_days_from_monday() + 1)
    }

    /// The day of the week before; Sunday before Monday.
    pub fn pred(&self) -> (before: Weekday)
        ensures
            before.number() == (self.number() + 6) % 7,
    {
        Self::from_days_from_monday(self.num_days_from_monday() + 6)
    }
}

/// Why a day could not be given.
#[derive(Clone, Copy, Debug, PartialEq, Eq, Structural)]
pub enum DateError {
    /// The day lies before the first or after the last day that dates
    /// reach.
    OutOfRange,
}

/// A day of the calendar.
#[derive(Clone, Copy, Debug, PartialEq, Eq, Structural)]
pub struct Date {
    year: i32,
    month: u32,
    day: u32,
}

impl View for Date {
    type V = DateView;

    closed spec fn view(&self) -> DateView {
        DateView { year: self.year as int, month: self.month as int, day: self.day as int }
    }
}

/// The values of a sequence of dates.
pub open spec fn date_views(dates: Seq<Date>) -> Seq<DateView> {
    Seq::new(dates.len(), |i: int| dates[i]@)
}

/// Asks `chrono::NaiveDate::from_ymd_opt` whether the calendar has the
/// day. It has it exactly if the year is one that dates reach, the month
/// is one of the twelve and the day is one of that month in that year.
#[verifier::external_body]
fn calendar_has(year: i32, month: u32, day: u32) -> (has: bool)
    ensures
        has == (DateView { year: year as int, month: month as int, day: day as int }).valid(),
{
    chrono::NaiveDate::from_ymd_opt(year, month, day).is_some()
}

/// The day after the given one, from `chrono::NaiveDate::succ_opt`: the
/// next day of the calendar, and none after the last day that dates reach.
#[verifier::external_body]
fn day_after(year: i32, month: u32, day: u32) -> (next: Option<(i32, u32, u32)>)
    requires
        (DateView { year: year as int, month: month as int, day: day as int }).valid(),
    ensures
        match next {
            Some(parts) => (DateView {
                year: parts.0 as int,
                month: parts.1 as int,
                day: parts.2 as int,
            }) == (DateView { year: year as int, month: month as int, day: day as int }).succ(),
            None => (DateView { year: year as int, month: month as int, day: day as int }).is_last(),
        },
        next.is_none() <==> (DateView {
            year: year as int,
            month: month as int,
            day: day as int,
        }).is_last(),
{
    let next = chrono::NaiveDate::from_ymd_opt(year, month, day)?.succ_opt()?;
    Some((next.year(), next.month(), next.day()))
}

/// The day before the given one, from `chrono::NaiveDate::pred_opt`: the
/// day of the calendar before it, and none before the first day that
/// dates reach.
#[verifier::external_body]
fn day_before(year: i32, month: u32, day: u32) -> (before: Option<(i32, u32, u32)>)
    requires
        (DateView { year: year as int, month: month as int, day: day as int }).valid(),
    ensures
        match before {
            Some(parts) => (DateView {
                year: parts.0 as int,
                month: parts.1 as int,
                day: parts.2 as int,
            }) == (DateView { year: year as int, month: month as int, day: day as int }).pred(),
            None => (DateView { year: year as int, month: month as int, day: day as int }).is_first(),
        },
        before.is_none() <==> (DateView {
            year: year as int,
            month: month as int,
            day: day as int,
        }).is_first(),
{
    let before = chrono::NaiveDate::from_ymd_opt(year, month, day)?.pred_opt()?;
    Some((before.year(), before.month(), before.day()))
}

/// The day of the week of the given day, from `chrono::NaiveDate::weekday`
/// and `chrono::Weekday::num_days_from_monday`, as the number of days from
/// Monday. The claim is that this is the day of the week of the calendar:
/// the days are counted from the first of January of year 1, a Monday, and
/// the week has seven days.
#[verifier::external_body]
fn days_from_monday(year: i32, month: u32, day: u32) -> (number: Option<u32>)
    requires
        (DateView { year: year as int, month: month as int, day: day as int }).valid(),
    ensures
        number.is_some(),
        number.unwrap() == (DateView {
            year: year as int,
            month: month as int,
            day: day as int,
        }).weekday_number(),
{
    Some(chrono::NaiveDate::from_ymd_opt(year, month, day)?.weekday().num_days_from_monday())
}

impl Date {
    /// Every date is a day of the calendar.
    #[verifier::type_invariant]
    spec fn is_valid(self) -> bool {
        self@.valid()
    }

    /// The date with the given year, month and day, if the calendar has it.
    pub fn from_ymd(year: i32, month: u32, day: u32) -> (date: Option<Date>)
        ensures
            match date {
                Some(date) => date@ == (DateView {
                    year: year as int,
                    month: month as int,
                    day: day as int,
                }) && date@.valid(),
                None => !(DateView {
                    year: year as int,
                    month: month as int,
                    day: day as int,
                }).valid(),
            },
    {
        if calendar_has(year, month, day) {
            Some(Date { year, month, day })
        } else {
            None
        }
    }

    /// The year.
    pub fn year(&self) -> (year: i32)
        ensures
            year == self@.year,
            self@.valid(),
    {
        proof {
            use_type_invariant(self);
        }
        self.year
    }

    /// The month, from 1 to 12.
    pub fn month(&self) -> (month: u32)
        ensures
            month == self@.month,
            1 <= month <= 12,
    {
        proof {
            use_type_invariant(self);
        }
        self.month
    }

    /// The day of the month, from 1.
    pub fn day(&self) -> (day: u32)
        ensures
            day == self@.day,
            1 <= day <= 31,
    {
        proof {
            use_type_invariant(self);
        }
        self.day
    }

    /// The day of the week.
    pub fn weekday(&self) -> (weekday: Weekday)
        ensures
            weekday.number() == self@.weekday_number(),
    {
        proof {
            use_type_invariant(self);
        }
        let number = days_from_monday(self.year, self.month, self.day).unwrap();
        Weekday::from_days_from_monday(number)
    }
}

/// The day before `date`; none before the first day that dates reach.
pub fn get_yesterday(date: Date) -> (res: Result<Date, DateError>)
    ensures
        date@.valid(),
        match res {
            Ok(before) => !date@.is_first() && before@ == date@.pred(),
            Err(_) => date@.is_first(),
        },
{
    proof {
        use_type_invariant(date);
    }
    match day_before(date.year, date.month, date.day) {
        Some(parts) => {
            proof {
                lemma_pred(date@);
            }
            Ok(Date { year: parts.0, month: parts.1, day: parts.2 })
        },
        None => Err(DateError::OutOfRange),
    }
}

/// The day after `date`; none after the last day that dates reach.
pub fn get_nextday(date: Date) -> (res: Result<Date, DateError>)
    ensures
        date@.valid(),
        match res {
            Ok(next) => !date@.is_last() && next@ == date@.succ(),
            Err(_) => date@.is_last(),
        },
{
    proof {
        use_type_invariant(date);
    }
    match day_after(date.year, date.month, date.day) {
        Some(parts) => {
            proof {
                lemma_succ(date@);
            }
            Ok(Date { year: parts.0, month: parts.1, day: parts.2 })
        },
        None => Err(DateError::OutOfRange),
    }
}

/// The Monday of the week of `date`.
pub open spec fn monday_of(date: DateView) -> DateView {
    date.minus_days(date.weekday_number() as nat)
}

/// Whether the week of `date`, from its Monday to its Sunday, lies within
/// the days that dates reach.
pub open spec fn week_in_range(date: DateView) -> bool {
    FIRST_DAY_NUMBER <= date.day_number() - date.weekday_number() && date.day_number()
        - date.weekday_number() + 6 <= LAST_DAY_NUMBER
}

/// The seven days of the week of `date`, from Monday to Sunday.
pub fn get_this_week(date: Date) -> (res: Result<Vec<Date>, DateError>)
    ensures
        match res {
            Ok(week) => week_in_range(date@) && week.len() == 7 && forall|i: int|
                0 <= i < 7 ==> (#[trigger] week[i])@ == monday_of(date@).plus_days(i as nat),
            Err(_) => !week_in_range(date@),
        },
{
    proof {
        use_type_invariant(date);
        lemma_day_number_bounds(date@);
    }
    let back = date.weekday().num_days_from_monday();
    let mut monday = date;
    let mut gone: u32 = 0;
    while gone < back
        invariant
            gone <= back,
            back == date@.weekday_number(),
            date@.valid(),
            monday@.valid(),
            monday@ == date@.minus_days(gone as nat),
            monday@.day_number() == date@.day_number() - gone,
        decreases back - gone,
    {
        proof {
            lemma_day_number_bounds(monday@);
        }
        match get_yesterday(monday) {
            Ok(before) => {
                proof {
                    lemma_pred(monday@);
                }
                monday = before;
            },
            Err(e) => {
                return Err(e);
            },
        }
        gone += 1;
    }
    proof {
        lemma_day_number_bounds(monday@);
    }
    let mut week: Vec<Date> = Vec::new();
    let mut current = monday;
    week.push(current);
    let mut at: u32 = 0;
    while at < 6
        invariant
            at <= 6,
            monday@ == monday_of(date@),
            monday@.valid(),
            monday@.day_number() == date@.day_number() - date@.weekday_number(),
            FIRST_DAY_NUMBER <= monday@.day_number(),
            current@.valid(),
            current@ == monday@.plus_days(at as nat),
            current@.day_number() == monday@.day_number() + at,
            week.len() == at + 1,
            forall|i: int| 0 <= i <= at ==> (#[trigger] week[i])@ == monday@.plus_days(i as nat),
        decreases 6 - at,
    {
        proof {
            lemma_day_number_bounds(current@);
        }
        match get_nextday(current) {
            Ok(next) => {
                proof {
                    lemma_succ(current@);
                }
                current = next;
            },
            Err(e) => {
                return Err(e);
            },
        }
        week.push(current);
        at += 1;
    }
    proof {
        lemma_day_number_bounds(current@);
    }
    Ok(week)
}

/// A copy of `dates`.
fn copy_of(dates: &Vec<Date>) -> (copy: Vec<Date>)
    ensures
        copy@ == dates@,
{
    let mut copy: Vec<Date> = Vec::new();
    let mut i: usize = 0;
    while i < dates.len()
        invariant
            i <= dates.len(),
            copy@ == dates@.take(i as int),
        decreases dates.len() - i,
    {
        copy.push(dates[i]);
        proof {
            assert(dates@.take(i + 1) == dates@.take(i as int).push(dates@[i as int]));
        }
        i += 1;
    }
    proof {
        assert(dates@.take(i as int) == dates@);
    }
    copy
}

/// The days of a month from the given day of it to its last day.
pub open spec fn rest_of_month(from: DateView) -> Seq<DateView> {
    Seq::new(
        (days_in_month(from.year, from.month) - from.day + 1) as nat,
        |i: int| DateView { day: from.day + i, ..from },
    )
}

/// Puts `date` and the days after it, up to the last day of its month, at
/// the end of `vec`, and hands back a copy of what `vec` then holds. The
/// day after the last one has to be looked at, so there is no result for
/// the last month that dates reach.
pub fn get_next_day_until_different_month(date: Date, vec: &mut Vec<Date>) -> (res: Result<
    Vec<Date>,
    DateError,
>)
    ensures
        match res {
            Ok(all) => !(date@.year == MAX_YEAR && date@.month == 12) && date_views(final(vec)@)
                == date_views(old(vec)@) + rest_of_month(date@) && all@ == final(vec)@,
            Err(_) => date@.year == MAX_YEAR && date@.month == 12,
        },
{
    proof {
        use_type_invariant(date);
    }
    let ghost before = date_views(vec@);
    let mut current = date;
    loop
        invariant
            date@.valid(),
            current@.valid(),
            current@.year == date@.year,
            current@.month == date@.month,
            date@.day <= current@.day,
            before == date_views(old(vec)@),
            date_views(vec@) == before + rest_of_month(date@).take(current@.day - date@.day),
        decreases days_in_month(date@.year, date@.month) - current@.day,
    {
        let ghost so_far = date_views(vec@);
        vec.push(current);
        proof {
            assert(date_views(vec@) == so_far.push(current@));
            assert(rest_of_month(date@).take(current@.day - date@.day + 1) == rest_of_month(
                date@,
            ).take(current@.day - date@.day).push(current@));
            assert(date_views(vec@) == before + rest_of_month(date@).take(
                current@.day - date@.day + 1,
            ));
        }
        match get_nextday(current) {
            Ok(next) => {
                if next.month() != current.month() {
                    proof {
                        assert(next@ == current@.succ());
                        assert(current@.day == days_in_month(current@.year, current@.month));
                        assert(current@.month < 12 || current@.year < MAX_YEAR);
                        assert(rest_of_month(date@).len() == current@.day - date@.day + 1);
                        assert(rest_of_month(date@).take(current@.day - date@.day + 1)
                            == rest_of_month(date@));
                    }
                    return Ok(copy_of(vec));
                }
                current = next;
            },
            Err(e) => {
                return Err(e);
            },
        }
    }
}

/// The days of the month of `date`, from the first to the last.
pub fn get_this_month(date: Date) -> (res: Result<Vec<Date>, DateError>)
    ensures
        match res {
            Ok(days) => !(date@.year == MAX_YEAR && date@.month == 12) && date_views(days@)
                == rest_of_month(date@.first_of_month()) && days.len() == days_in_month(
                date@.year,
                date@.month,
            ),
            Err(_) => date@.year == MAX_YEAR && date@.month == 12,
        },
{
    proof {
        use_type_invariant(date);
    }
    let first = Date { year: date.year, month: date.month, day: 1 };
    let mut days: Vec<Date> = Vec::new();
    match get_next_day_until_different_month(first, &mut days) {
        Ok(_) => {
            proof {
                assert(date_views(days@) == rest_of_month(first@));
            }
            Ok(days)
        },
        Err(e) => Err(e),
    }
}

/// How many days one has to go back from `date` to come to the given day
/// of the week: none if `date` is such a day, six at most.
pub open spec fn days_back_to(date: DateView, weekday: int) -> nat {
    ((date.weekday_number() - weekday + 7) % 7) as nat
}

/// The days from `back` days before `date` to `date`, in order.
pub open spec fn days_until(date: DateView, back: nat) -> Seq<DateView> {
    Seq::new(back + 1, |i: int| date.minus_days((back - i) as nat))
}

/// Puts `date` and the days before it, back to the nearest day that is an
/// `end_weekday`, in front of `vec`, in the order of the calendar.
pub fn get_previous_days_until_this_weekday(
    end_weekday: Weekday,
    date: Date,
    vec: VecDeque<Date>,
) -> (res: Result<VecDeque<Date>, DateError>)
    ensures
        match res {
            Ok(days) => FIRST_DAY_NUMBER <= date@.day_number() - days_back_to(
                date@,
                end_weekday.number(),
            ) && date_views(days@) == days_until(
                date@,
                days_back_to(date@, end_weekday.number()),
            ) + date_views(vec@),
            Err(_) => date@.day_number() - days_back_to(date@, end_weekday.number())
                < FIRST_DAY_NUMBER,
        },
{
    proof {
        use_type_invariant(date);
    }
    let ghost before = date_views(vec@);
    let ghost back = days_back_to(date@, end_weekday.number());
    let mut days = vec;
    let mut current = date;
    let mut gone: u32 = 0;
    proof {
        assert(date_views(days@) == Seq::<DateView>::empty() + before);
        assert(days_until(date@, 0).len() == 1);
    }
    loop
        invariant
            date@.valid(),
            current@.valid(),
            back == days_back_to(date@, end_weekday.number()),
            before == date_views(vec@),
            gone <= back <= 6,
            current@ == date@.minus_days(gone as nat),
            current@.day_number() == date@.day_number() - gone,
            date_views(days@) == Seq::new(
                gone as nat,
                |i: int| date@.minus_days((gone - 1 - i) as nat),
            ) + before,
        decreases back - gone,
    {
        let ghost so_far = date_views(days@);
        days.push_front(current);
        proof {
            assert(date_views(days@) == seq![current@] + so_far);
            assert(date_views(days@) == days_until(date@, gone as nat) + before);
            lemma_day_number_bounds(current@);
            let w = date@.weekday_number();
            let e = end_weekday.number();
            assert(current@.weekday_number() == (w - gone) % 7);
            assert(current@.weekday_number() == e <==> gone == back);
        }
        if current.weekday() == end_weekday {
            return Ok(days);
        }
        match get_yesterday(current) {
            Ok(yesterday) => {
                proof {
                    lemma_pred(current@);
                }
                current = yesterday;
            },
            Err(e) => {
                return Err(e);
            },
        }
        gone += 1;
    }
}

/// The days of the month of `date` from the first to `date`, in order.
pub open spec fn month_until(date: DateView) -> Seq<DateView> {
    Seq::new(date.day as nat, |i: int| DateView { day: i + 1, ..date })
}

/// Puts the days of the month of `date`, from the first to `date`, in
/// front of `vec`, unless `date` is the last day of its month: then `vec`
/// comes back as it is. The day after `date` and the day before the first
/// of the month have to be looked at, so there is no result where one of
/// them lies outside the days that dates reach.
pub fn get_days_this_month_until_this_day(date: Date, vec: VecDeque<Date>) -> (res: Result<
    VecDeque<Date>,
    DateError,
>)
    ensures
        match res {
            Ok(days) => !date@.is_last() && if date@.day == days_in_month(
                date@.year,
                date@.month,
            ) {
                date_views(days@) == date_views(vec@)
            } else {
                !date@.first_of_month().is_first() && date_views(days@) == month_until(date@)
                    + date_views(vec@)
            },
            Err(_) => date@.is_last() || (date@.day < days_in_month(date@.year, date@.month)
                && date@.first_of_month().is_first()),
        },
{
    proof {
        use_type_invariant(date);
    }
    match get_nextday(date) {
        Ok(next) => {
            if next.month() != date.month() {
                return Ok(vec);
            }
        },
        Err(e) => {
            return Err(e);
        },
    }
    let ghost before = date_views(vec@);
    let mut days = vec;
    let mut current = date;
    proof {
        assert(date_views(days@) == Seq::<DateView>::empty() + before);
    }
    loop
        invariant
            date@.valid(),
            !date@.is_last(),
            date@.day < days_in_month(date@.year, date@.month),
            before == date_views(vec@),
            current@.valid(),
            current@.year == date@.year,
            current@.month == date@.month,
            current@.day <= date@.day,
            date_views(days@) == Seq::new(
                (date@.day - current@.day) as nat,
                |i: int| DateView { day: current@.day + 1 + i, ..date@ },
            ) + before,
        decreases current@.day,
    {
        let ghost so_far = date_views(days@);
        days.push_front(current);
        proof {
            assert(date_views(days@) == seq![current@] + so_far);
            assert(date_views(days@) == Seq::new(
                (date@.day - current@.day + 1) as nat,
                |i: int| DateView { day: current@.day + i, ..date@ },
            ) + before);
        }
        match get_yesterday(current) {
            Ok(yesterday) => {
                if yesterday.month() != current.month() {
                    proof {
                        assert(current@.day == 1);
                        assert(date_views(days@) == month_until(date@) + before);
                    }
                    return Ok(days);
                }
                current = yesterday;
            },
            Err(e) => {
                return Err(e);
            },
        }
    }
}

} // verus!
