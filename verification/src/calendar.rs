//! The trading calendar: dates of the proleptic Gregorian calendar, the day
//! of the week of a date, and the weekday-only approximation of the
//! exchange's trading days.

use chrono::Datelike;
use vstd::prelude::*;

use crate::text::{decimal_digits, four_digits, two_digits};

verus! {

/// A calendar date as mathematics sees it: three unbounded integers.
pub struct CivilDate {
    pub year: int,
    pub month: int,
    pub day: int,
}

/// The first year a [`TradeDate`] can hold.
pub const MIN_YEAR: i32 = -262143;

/// The last year a [`TradeDate`] can hold.
pub const MAX_YEAR: i32 = 262142;

/// The date with the given year, month and day.
pub open spec fn civil(year: int, month: int, day: int) -> CivilDate {
    CivilDate { year, month, day }
}

/// The Gregorian leap-year rule, extended to all years.
pub open spec fn is_leap_year(year: int) -> bool {
    year % 4 == 0 && (year % 100 != 0 || year % 400 == 0)
}

/// Number of days of a month.
pub open spec fn days_in_month(year: int, month: int) -> int {
    if month == 2 {
        if is_leap_year(year) {
            29
        } else {
            28
        }
    } else if month == 4 || month == 6 || month == 9 || month == 11 {
        30
    } else {
        31
    }
}

/// Number of days of a year.
pub open spec fn days_in_year(year: int) -> int {
    if is_leap_year(year) {
        366
    } else {
        365
    }
}

/// Whether `date` names a day of the calendar within the supported years.
pub open spec fn is_valid_date(date: CivilDate) -> bool {
    &&& MIN_YEAR <= date.year <= MAX_YEAR
    &&& 1 <= date.month <= 12
    &&& 1 <= date.day <= days_in_month(date.year, date.month)
}

/// Days of `year` that lie before the first of `month`.
pub open spec fn days_before_month(year: int, month: int) -> int {
    let leap: int = if is_leap_year(year) && month > 2 {
        1
    } else {
        0
    };
    leap + if month <= 1 {
        0int
    } else if month == 2 {
        31
    } else if month == 3 {
        59
    } else if month == 4 {
        90
    } else if month == 5 {
        120
    } else if month == 6 {
        151
    } else if month == 7 {
        181
    } else if month == 8 {
        212
    } else if month == 9 {
        243
    } else if month == 10 {
        273
    } else if month == 11 {
        304
    } else {
        334
    }
}

/// Days from 1 January of year 1 up to, and not including, 1 January of `year`
/// (negative for earlier years).
#[verifier::opaque]
pub open spec fn days_before_year(year: int) -> int {
    let p = year - 1;
    365 * p + p / 4 - p / 100 + p / 400
}

/// The position of `date` in the sequence of all days, where 1 January of
/// year 1 has number 1.
pub open spec fn day_number(date: CivilDate) -> int {
    days_before_year(date.year) + days_before_month(date.year, date.month) + date.day
}

/// The day of the week as a number: 0 for Monday up to 6 for Sunday.
/// 1 January of year 1 is a Monday.
pub open spec fn weekday_index(date: CivilDate) -> int {
    (day_number(date) - 1) % 7
}

/// The first date a [`TradeDate`] can hold.
pub open spec fn min_date() -> CivilDate {
    civil(MIN_YEAR as int, 1, 1)
}

/// The last date a [`TradeDate`] can hold.
pub open spec fn max_date() -> CivilDate {
    civil(MAX_YEAR as int, 12, 31)
}

/// The calendar day after `date`.
pub open spec fn next_day(date: CivilDate) -> CivilDate {
    if date.day < days_in_month(date.year, date.month) {
        civil(date.year, date.month, date.day + 1)
    } else if date.month < 12 {
        civil(date.year, date.month + 1, 1)
    } else {
        civil(date.year + 1, 1, 1)
    }
}

/// The calendar day before `date`.
pub open spec fn prev_day(date: CivilDate) -> CivilDate {
    if date.day > 1 {
        civil(date.year, date.month, date.day - 1)
    } else if date.month > 1 {
        civil(date.year, date.month - 1, days_in_month(date.year, date.month - 1))
    } else {
        civil(date.year - 1, 12, 31)
    }
}

/// Chronological order of calendar dates: year first, then month, then day.
pub open spec fn on_or_before(a: CivilDate, b: CivilDate) -> bool {
    a.year < b.year || (a.year == b.year && (a.month < b.month || (a.month == b.month && a.day
        <= b.day)))
}

/// The seven days of the week.
#[derive(Clone, Copy, Debug, PartialEq, Eq, Structural)]
pub enum Weekday {
    Mon,
    Tue,
    Wed,
    Thu,
    Fri,
    Sat,
    Sun,
}

impl Weekday {
    /// 0 for Monday up to 6 for Sunday.
    pub open spec fn index(self) -> int {
        match self {
            Weekday::Mon => 0,
            Weekday::Tue => 1,
            Weekday::Wed => 2,
            Weekday::Thu => 3,
            Weekday::Fri => 4,
            Weekday::Sat => 5,
            Weekday::Sun => 6,
        }
    }

    /// The day of the week with the given number, 0 for Monday.
    pub open spec fn from_index(index: int) -> Weekday {
        if index == 0 {
            Weekday::Mon
        } else if index == 1 {
            Weekday::Tue
        } else if index == 2 {
            Weekday::Wed
        } else if index == 3 {
            Weekday::Thu
        } else if index == 4 {
            Weekday::Fri
        } else if index == 5 {
            Weekday::Sat
        } else {
            Weekday::Sun
        }
    }

    /// Whether this is Saturday or Sunday.
    pub open spec fn spec_is_weekend(self) -> bool {
        self == Weekday::Sat || self == Weekday::Sun
    }

    /// Whether the exchange is closed on this day of the week.
    #[verifier::when_used_as_spec(spec_is_weekend)]
    pub fn is_weekend(self) -> (weekend: bool)
        ensures
            weekend == self.spec_is_weekend(),
    {
        match self {
            Weekday::Sat => true,
            Weekday::Sun => true,
            _ => false,
        }
    }

    /// The day of the week with the given number, 0 for Monday.
    fn from_monday_index(index: u32) -> (day: Weekday)
        requires
            index < 7,
        ensures
            day == Weekday::from_index(index as int),
            day.index() == index,
    {
        if index == 0 {
            Weekday::Mon
        } else if index == 1 {
            Weekday::Tue
        } else if index == 2 {
            Weekday::Wed
        } else if index == 3 {
            Weekday::Thu
        } else if index == 4 {
            Weekday::Fri
        } else if index == 5 {
            Weekday::Sat
        } else {
            Weekday::Sun
        }
    }
}

/// The day of the week of `date`.
pub open spec fn weekday_of(date: CivilDate) -> Weekday {
    Weekday::from_index(weekday_index(date))
}

/// Whether `date` falls on a Saturday or a Sunday.
pub open spec fn is_weekend_date(date: CivilDate) -> bool {
    weekday_of(date).spec_is_weekend()
}

/// A valid calendar date between 1 January of [`MIN_YEAR`] and 31 December
/// of [`MAX_YEAR`].
#[derive(Clone, Copy, Debug, PartialEq, Eq, Structural)]
pub struct TradeDate {
    year: i32,
    month: u32,
    day: u32,
}

impl View for TradeDate {
    type V = CivilDate;

    closed spec fn view(&self) -> CivilDate {
        civil(self.year as int, self.month as int, self.day as int)
    }
}

impl DeepView for TradeDate {
    type V = CivilDate;

    open spec fn deep_view(&self) -> CivilDate {
        self@
    }
}

/// Trusted: `NaiveDate::weekday` of chrono, taken as days since Monday. The
/// contract states the day of the week of a date of the proleptic Gregorian
/// calendar, which is the calendar chrono documents: the days are numbered
/// from Monday, 1 January of year 1, and the number is reduced modulo seven.
#[verifier::external_body]
fn chrono_weekday_index(year: i32, month: u32, day: u32) -> (index: u32)
    requires
        is_valid_date(civil(year as int, month as int, day as int)),
    ensures
        index == weekday_index(civil(year as int, month as int, day as int)),
{
    chrono::NaiveDate::from_ymd_opt(year, month, day).unwrap().weekday().num_days_from_monday()
}

/// What chrono reads in a text under the pattern `%Y-%m-%d`: year, month and
/// day, or nothing where the text does not parse.
pub uninterp spec fn parsed_iso_date(text: Seq<char>) -> Option<(int, int, int)>;

/// Trusted: `NaiveDate::parse_from_str` of chrono with the pattern
/// `%Y-%m-%d`. The contract only names the outcome.
#[verifier::external_body]
fn chrono_parse_iso_date(text: &str) -> (parsed: Option<(i32, u32, u32)>)
    ensures
        match parsed {
            Some(t) => parsed_iso_date(text@) == Some((t.0 as int, t.1 as int, t.2 as int)),
            None => parsed_iso_date(text@) is None,
        },
{
    chrono::NaiveDate::parse_from_str(text, "%Y-%m-%d").ok().map(|d| (d.year(), d.month(), d.day()))
}

/// How the pattern `%Y` writes a year: four digits from 0 to 9999, and
/// otherwise a sign followed by at least four digits.
pub open spec fn year_text(year: int) -> Seq<char> {
    if 0 <= year <= 9999 {
        four_digits(year as nat)
    } else if year < 0 {
        seq!['-'] + four_digits((-year) as nat)
    } else {
        seq!['+'] + decimal_digits(year as nat)
    }
}

/// A date written day first, as `DD-MM-YYYY`.
pub open spec fn day_month_year_text(date: CivilDate) -> Seq<char> {
    two_digits(date.day as nat) + seq!['-'] + two_digits(date.month as nat) + seq!['-']
        + year_text(date.year)
}

/// Trusted: `NaiveDate::format` of chrono with the pattern `%d-%m-%Y`. The
/// contract restates chrono's documentation of the three specifiers: day and
/// month zero-padded to two digits, the year zero-padded to four digits and
/// given a sign outside 0 to 9999.
#[verifier::external_body]
fn chrono_format_day_month_year(year: i32, month: u32, day: u32) -> (text: String)
    requires
        is_valid_date(civil(year as int, month as int, day as int)),
    ensures
        text@ == day_month_year_text(civil(year as int, month as int, day as int)),
{
    chrono::NaiveDate::from_ymd_opt(year, month, day).unwrap().format("%d-%m-%Y").to_string()
}

/// Trusted: `Local::now().date_naive()` of chrono, the calendar date of the
/// machine's clock. Nothing is claimed of which date comes back, only that it
/// is a date chrono can hold.
#[verifier::external_body]
fn chrono_local_today() -> (today: (i32, u32, u32))
    ensures
        is_valid_date(civil(today.0 as int, today.1 as int, today.2 as int)),
{
    let now = chrono::Local::now().date_naive();
    (now.year(), now.month(), now.day())
}

/// Number of days of the given month.
pub fn month_length(year: i32, month: u32) -> (days: u32)
    ensures
        days == days_in_month(year as int, month as int),
{
    if month == 2 {
        if year % 4 == 0 && (year % 100 != 0 || year % 400 == 0) {
            29
        } else {
            28
        }
    } else if month == 4 || month == 6 || month == 9 || month == 11 {
        30
    } else {
        31
    }
}

impl TradeDate {
    #[verifier::type_invariant]
    spec fn valid(self) -> bool {
        is_valid_date(self@)
    }

    /// The date with the given year, month and day, if there is such a day.
    pub fn from_ymd_opt(year: i32, month: u32, day: u32) -> (date: Option<TradeDate>)
        ensures
            date is Some <==> is_valid_date(civil(year as int, month as int, day as int)),
            date matches Some(d) ==> d@ == civil(year as int, month as int, day as int),
    {
        if year < MIN_YEAR || year > MAX_YEAR || month < 1 || month > 12 || day < 1 {
            return None;
        }
        if day > month_length(year, month) {
            return None;
        }
        Some(TradeDate { year, month, day })
    }

    /// The year of the date.
    pub fn year(&self) -> (year: i32)
        ensures
            year == self@.year,
            MIN_YEAR <= year <= MAX_YEAR,
    {
        proof {
            use_type_invariant(self);
        }
        self.year
    }

    /// The month of the date, 1 for January.
    pub fn month(&self) -> (month: u32)
        ensures
            month == self@.month,
            1 <= month <= 12,
    {
        proof {
            use_type_invariant(self);
        }
        self.month
    }

    /// The day of the month.
    pub fn day(&self) -> (day: u32)
        ensures
            day == self@.day,
            1 <= day <= 31,
    {
        proof {
            use_type_invariant(self);
        }
        self.day
    }

    /// The next calendar date, or `None` after the last date.
    pub fn succ_opt(&self) -> (next: Option<TradeDate>)
        ensures
            is_valid_date(self@),
            next is None <==> self@ == max_date(),
            next matches Some(n) ==> n@ == next_day(self@) && is_valid_date(n@),
    {
        proof {
            use_type_invariant(self);
        }
        if self.day < month_length(self.year, self.month) {
            Some(TradeDate { year: self.year, month: self.month, day: self.day + 1 })
        } else if self.month < 12 {
            Some(TradeDate { year: self.year, month: self.month + 1, day: 1 })
        } else if self.year < MAX_YEAR {
            Some(TradeDate { year: self.year + 1, month: 1, day: 1 })
        } else {
            None
        }
    }

    /// The previous calendar date, or `None` before the first date.
    pub fn pred_opt(&self) -> (previous: Option<TradeDate>)
        ensures
            is_valid_date(self@),
            previous is None <==> self@ == min_date(),
            previous matches Some(p) ==> p@ == prev_day(self@) && is_valid_date(p@),
    {
        proof {
            use_type_invariant(self);
        }
        if self.day > 1 {
            Some(TradeDate { year: self.year, month: self.month, day: self.day - 1 })
        } else if self.month > 1 {
            let month: u32 = self.month - 1;
            Some(TradeDate { year: self.year, month, day: month_length(self.year, month) })
        } else if self.year > MIN_YEAR {
            Some(TradeDate { year: self.year - 1, month: 12, day: 31 })
        } else {
            None
        }
    }

    /// The day of the week of this date.
    pub fn weekday(&self) -> (day: Weekday)
        ensures
            day == weekday_of(self@),
    {
        proof {
            use_type_invariant(self);
        }
        let index: u32 = chrono_weekday_index(self.year, self.month, self.day);
        Weekday::from_monday_index(index)
    }

    /// Whether this date is `other` or an earlier day.
    pub fn is_on_or_before(&self, other: &TradeDate) -> (earlier: bool)
        ensures
            earlier == on_or_before(self@, other@),
            earlier == (day_number(self@) <= day_number(other@)),
    {
        proof {
            use_type_invariant(self);
            use_type_invariant(other);
            lemma_order_is_day_number_order(self@, other@);
        }
        self.year < other.year || (self.year == other.year && (self.month < other.month || (
        self.month == other.month && self.day <= other.day)))
    }

    /// Whether this date and `other` are the same day.
    pub fn is_same_day(&self, other: &TradeDate) -> (same: bool)
        ensures
            same == (self@ == other@),
            same == (*self == *other),
    {
        self.year == other.year && self.month == other.month && self.day == other.day
    }

    /// Reads a date written as `YYYY-MM-DD`.
    pub fn parse_iso(text: &str) -> (date: Option<TradeDate>)
        ensures
            date.deep_view() == date_of_parts(parsed_iso_date(text@)),
    {
        match chrono_parse_iso_date(text) {
            Some(parts) => TradeDate::from_parts(Some(parts)),
            None => TradeDate::from_parts(None),
        }
    }

    /// The date that a parsed year, month and day name, if they name one.
    pub fn from_parts(parts: Option<(i32, u32, u32)>) -> (date: Option<TradeDate>)
        ensures
            date.deep_view() == date_of_parts(
                match parts {
                    Some(p) => Some((p.0 as int, p.1 as int, p.2 as int)),
                    None => None,
                },
            ),
    {
        match parts {
            Some(p) => TradeDate::from_ymd_opt(p.0, p.1, p.2),
            None => None,
        }
    }

    /// This date written day first, as `DD-MM-YYYY`.
    pub fn format_day_month_year(&self) -> (text: String)
        ensures
            text@ == day_month_year_text(self@),
    {
        proof {
            use_type_invariant(self);
        }
        chrono_format_day_month_year(self.year, self.month, self.day)
    }

    /// The calendar date of the machine's clock, in local time.
    pub fn today() -> (today: TradeDate)
        ensures
            is_valid_date(today@),
    {
        let parts = chrono_local_today();
        TradeDate { year: parts.0, month: parts.1, day: parts.2 }
    }
}

/// The date that a year, a month and a day name, where they name one.
pub open spec fn date_of_parts(parts: Option<(int, int, int)>) -> Option<CivilDate> {
    match parts {
        Some((year, month, day)) => if is_valid_date(civil(year, month, day)) {
            Some(civil(year, month, day))
        } else {
            None
        },
        None => None,
    }
}

/// The year that follows is longer by the length of this year.
pub proof fn lemma_days_before_next_year(year: int)
    ensures
        days_before_year(year + 1) == days_before_year(year) + days_in_year(year),
{
    reveal(days_before_year);
    let p = year - 1;
    assert(year / 4 == p / 4 + if year % 4 == 0 {
        1int
    } else {
        0int
    });
    assert(year / 100 == p / 100 + if year % 100 == 0 {
        1int
    } else {
        0int
    });
    assert(year / 400 == p / 400 + if year % 400 == 0 {
        1int
    } else {
        0int
    });
    assert(year % 400 == 0 ==> year % 100 == 0);
    assert(year % 100 == 0 ==> year % 4 == 0);
}

/// Day numbers grow with the year by at least 365 a year.
pub proof fn lemma_days_before_year_monotone(a: int, b: int)
    requires
        a <= b,
    ensures
        days_before_year(b) >= days_before_year(a) + 365 * (b - a),
    decreases b - a,
{
    if a < b {
        lemma_days_before_year_monotone(a, b - 1);
        lemma_days_before_next_year(b - 1);
    }
}

/// A date lies within its year.
pub proof fn lemma_day_of_year_bounds(date: CivilDate)
    requires
        1 <= date.month <= 12,
        1 <= date.day <= days_in_month(date.year, date.month),
    ensures
        1 <= days_before_month(date.year, date.month) + date.day <= days_in_year(date.year),
{
}

/// The day after a date has the next day number.
pub proof fn lemma_next_day(date: CivilDate)
    requires
        is_valid_date(date),
        date != max_date(),
    ensures
        is_valid_date(next_day(date)),
        day_number(next_day(date)) == day_number(date) + 1,
{
    if date.day < days_in_month(date.year, date.month) {
    } else if date.month < 12 {
    } else {
        lemma_days_before_next_year(date.year);
    }
}

/// The day before a date has the previous day number.
pub proof fn lemma_prev_day(date: CivilDate)
    requires
        is_valid_date(date),
        date != min_date(),
    ensures
        is_valid_date(prev_day(date)),
        day_number(prev_day(date)) == day_number(date) - 1,
        next_day(prev_day(date)) == date,
{
    if date.day > 1 {
    } else if date.month > 1 {
    } else {
        lemma_days_before_next_year(date.year - 1);
    }
}

/// The day before a date falls on the day of the week before.
pub proof fn lemma_weekday_of_prev_day(date: CivilDate)
    requires
        is_valid_date(date),
        date != min_date(),
    ensures
        is_valid_date(prev_day(date)),
        day_number(prev_day(date)) == day_number(date) - 1,
        weekday_index(prev_day(date)) == if weekday_index(date) == 0 {
            6
        } else {
            weekday_index(date) - 1
        },
{
    lemma_prev_day(date);
}

/// Chronological order of valid dates is the order of their day numbers, so
/// no two valid dates share a day number.
pub proof fn lemma_order_is_day_number_order(a: CivilDate, b: CivilDate)
    requires
        is_valid_date(a),
        is_valid_date(b),
    ensures
        on_or_before(a, b) <==> day_number(a) <= day_number(b),
        day_number(a) == day_number(b) <==> a == b,
{
    lemma_day_of_year_bounds(a);
    lemma_day_of_year_bounds(b);
    if a.year < b.year {
        lemma_days_before_year_monotone(a.year + 1, b.year);
        lemma_days_before_next_year(a.year);
    } else if b.year < a.year {
        lemma_days_before_year_monotone(b.year + 1, a.year);
        lemma_days_before_next_year(b.year);
    } else {
        if a.month < b.month {
            lemma_months_in_order(a.year, a.month, b.month);
        } else if b.month < a.month {
            lemma_months_in_order(a.year, b.month, a.month);
        }
    }
}

/// A later month starts after every day of an earlier month.
proof fn lemma_months_in_order(year: int, earlier: int, later: int)
    requires
        1 <= earlier < later <= 12,
    ensures
        days_before_month(year, later) >= days_before_month(year, earlier) + days_in_month(
            year,
            earlier,
        ),
{
}


/// The views of a sequence of dates.
pub open spec fn civil_dates(dates: Seq<TradeDate>) -> Seq<CivilDate> {
    dates.map_values(|d: TradeDate| d@)
}

/// Number of days from `from` to `to`, both included; zero when `from` is
/// the later one.
pub open spec fn days_in_range(from: CivilDate, to: CivilDate) -> nat {
    if day_number(from) <= day_number(to) {
        (day_number(to) - day_number(from) + 1) as nat
    } else {
        0
    }
}

/// The days that are neither Saturday nor Sunday among `count` consecutive
/// days, the first of which is `start`.
pub open spec fn trading_days_run(start: CivilDate, count: nat) -> Seq<CivilDate>
    decreases count,
{
    if count == 0 {
        Seq::empty()
    } else {
        let rest = trading_days_run(next_day(start), (count - 1) as nat);
        if is_weekend_date(start) {
            rest
        } else {
            seq![start] + rest
        }
    }
}

/// The trading days from `from` to `to`, both included, in ascending order.
pub open spec fn trading_days(from: CivilDate, to: CivilDate) -> Seq<CivilDate> {
    trading_days_run(from, days_in_range(from, to))
}

/// The most recent trading day that is not after `today`.
pub open spec fn latest_trading_day(today: CivilDate) -> CivilDate {
    if weekday_of(today) == Weekday::Sat {
        prev_day(today)
    } else if weekday_of(today) == Weekday::Sun {
        prev_day(prev_day(today))
    } else {
        today
    }
}

/// What holds of a run of trading days: each is a valid weekday within the
/// run, they ascend, and no weekday of the run is missing.
proof fn lemma_trading_days_run(start: CivilDate, count: nat)
    requires
        is_valid_date(start),
        day_number(start) + count - 1 <= day_number(max_date()),
    ensures
        forall|i: int|
            0 <= i < trading_days_run(start, count).len() ==> {
                let d = #[trigger] trading_days_run(start, count)[i];
                &&& is_valid_date(d)
                &&& !is_weekend_date(d)
                &&& day_number(start) <= day_number(d) < day_number(start) + count
            },
        forall|i: int, j: int|
            0 <= i < j < trading_days_run(start, count).len() ==> day_number(
                #[trigger] trading_days_run(start, count)[i],
            ) < day_number(#[trigger] trading_days_run(start, count)[j]),
        forall|d: CivilDate|
            is_valid_date(d) && !is_weekend_date(d) && day_number(start) <= #[trigger] day_number(d)
                < day_number(start) + count ==> trading_days_run(start, count).contains(d),
    decreases count,
{
    let run = trading_days_run(start, count);
    if count > 0 {
        let rest = trading_days_run(next_day(start), (count - 1) as nat);
        if count > 1 {
            lemma_order_is_day_number_order(start, max_date());
            lemma_next_day(start);
            lemma_trading_days_run(next_day(start), (count - 1) as nat);
        } else {
            assert(rest.len() == 0);
        }
        assert forall|d: CivilDate|
            is_valid_date(d) && !is_weekend_date(d) && day_number(start) <= #[trigger] day_number(d)
                < day_number(start) + count implies run.contains(d) by {
            if day_number(d) == day_number(start) {
                lemma_order_is_day_number_order(d, start);
                assert(run[0] == d);
            } else {
                assert(rest.contains(d));
                let k = choose|k: int| 0 <= k < rest.len() && rest[k] == d;
                if is_weekend_date(start) {
                    assert(run[k] == d);
                } else {
                    assert(run[k + 1] == d);
                }
            }
        }
        if !is_weekend_date(start) {
            assert forall|i: int| 0 <= i < run.len() implies {
                let d = #[trigger] run[i];
                &&& is_valid_date(d)
                &&& !is_weekend_date(d)
                &&& day_number(start) <= day_number(d) < day_number(start) + count
            } by {
                if i > 0 {
                    assert(run[i] == rest[i - 1]);
                }
            }
            assert forall|i: int, j: int| 0 <= i < j < run.len() implies day_number(
                #[trigger] run[i],
            ) < day_number(#[trigger] run[j]) by {
                assert(run[j] == rest[j - 1]);
                if i > 0 {
                    assert(run[i] == rest[i - 1]);
                }
            }
        }
    }
}

/// The trading days of a range, characterised: every date listed is a valid
/// date of the range that is neither a Saturday nor a Sunday; the dates are
/// listed in strictly ascending order, so none is listed twice; and every
/// valid date of the range that is neither a Saturday nor a Sunday is listed.
pub proof fn lemma_trading_days_exact(from: CivilDate, to: CivilDate)
    requires
        is_valid_date(from),
        is_valid_date(to),
    ensures
        forall|i: int|
            0 <= i < trading_days(from, to).len() ==> {
                let d = #[trigger] trading_days(from, to)[i];
                &&& is_valid_date(d)
                &&& !is_weekend_date(d)
                &&& on_or_before(from, d)
                &&& on_or_before(d, to)
            },
        forall|i: int, j: int|
            0 <= i < j < trading_days(from, to).len() ==> {
                &&& on_or_before(#[trigger] trading_days(from, to)[i], #[trigger] trading_days(from, to)[j])
                &&& trading_days(from, to)[i] != trading_days(from, to)[j]
            },
        forall|d: CivilDate|
            #![trigger trading_days(from, to).contains(d)]
            is_valid_date(d) && !is_weekend_date(d) && on_or_before(from, d) && on_or_before(d, to)
                ==> trading_days(from, to).contains(d),
{
    let days = trading_days(from, to);
    let count = days_in_range(from, to);
    if count > 0 {
        lemma_order_is_day_number_order(to, max_date());
        lemma_trading_days_run(from, count);
    }
    assert forall|i: int| 0 <= i < days.len() implies {
        let d = #[trigger] days[i];
        &&& is_valid_date(d)
        &&& !is_weekend_date(d)
        &&& on_or_before(from, d)
        &&& on_or_before(d, to)
    } by {
        lemma_order_is_day_number_order(from, days[i]);
        lemma_order_is_day_number_order(days[i], to);
    }
    assert forall|i: int, j: int| 0 <= i < j < days.len() implies {
        &&& on_or_before(#[trigger] days[i], #[trigger] days[j])
        &&& days[i] != days[j]
    } by {
        lemma_order_is_day_number_order(days[i], days[j]);
    }
    assert forall|d: CivilDate|
        #![trigger days.contains(d)]
        is_valid_date(d) && !is_weekend_date(d) && on_or_before(from, d) && on_or_before(
            d,
            to,
        ) implies days.contains(d) by {
        lemma_order_is_day_number_order(from, d);
        lemma_order_is_day_number_order(d, to);
        assert(day_number(from) <= day_number(d) < day_number(from) + count);
    }
}

/// The first date of the calendar is a Thursday, so a Saturday or a Sunday
/// always has a day before it.
pub proof fn lemma_first_date_is_thursday()
    ensures
        weekday_of(min_date()) == Weekday::Thu,
{
    reveal(days_before_year);
    assert(days_before_year(MIN_YEAR as int) == -95746130);
}

/// The latest trading day is a valid weekday at most two days back, and every
/// day after it up to `today` is a Saturday or a Sunday.
pub proof fn lemma_latest_trading_day(today: CivilDate)
    requires
        is_valid_date(today),
    ensures
        is_valid_date(latest_trading_day(today)),
        !is_weekend_date(latest_trading_day(today)),
        on_or_before(latest_trading_day(today), today),
        day_number(today) - 2 <= day_number(latest_trading_day(today)) <= day_number(today),
        forall|d: CivilDate|
            is_valid_date(d) && day_number(latest_trading_day(today)) < #[trigger] day_number(d)
                <= day_number(today) ==> is_weekend_date(d),
{
    lemma_first_date_is_thursday();
    let latest = latest_trading_day(today);
    if is_weekend_date(today) {
        lemma_weekday_of_prev_day(today);
        if weekday_of(today) == Weekday::Sun {
            lemma_weekday_of_prev_day(prev_day(today));
        }
    }
    lemma_order_is_day_number_order(latest, today);
    assert forall|d: CivilDate|
        is_valid_date(d) && day_number(latest) < #[trigger] day_number(d) <= day_number(today)
        implies is_weekend_date(d) by {
        lemma_order_is_day_number_order(d, today);
        if d != today {
            lemma_order_is_day_number_order(d, prev_day(today));
        }
    }
}

/// The trading days from `from` to `to`, both included: every date of the
/// range but the Saturdays and Sundays, in ascending order. Empty when
/// `from` is after `to`.
pub fn trading_dates_in_range(from: TradeDate, to: TradeDate) -> (dates: Vec<TradeDate>)
    ensures
        civil_dates(dates@) == trading_days(from@, to@),
        forall|i: int| 0 <= i < dates.len() ==> is_valid_date(#[trigger] dates[i]@),
{
    let mut dates: Vec<TradeDate> = Vec::new();
    let mut current = from;
    let mut done = !from.is_on_or_before(&to);
    proof {
        use_type_invariant(from);
        use_type_invariant(to);
        assert(civil_dates(dates@) =~= Seq::<CivilDate>::empty());
    }
    while !done
        invariant
            is_valid_date(current@),
            is_valid_date(to@),
            !done ==> day_number(current@) <= day_number(to@),
            civil_dates(dates@) + (if done {
                Seq::<CivilDate>::empty()
            } else {
                trading_days(current@, to@)
            }) == trading_days(from@, to@),
            forall|i: int| 0 <= i < dates.len() ==> is_valid_date(#[trigger] dates[i]@),
        decreases
            if done {
                0
            } else {
                day_number(to@) - day_number(current@) + 1
            },
    {
        let ghost before = civil_dates(dates@);
        let ghost here = current@;
        let ghost rest = trading_days_run(next_day(here), (days_in_range(here, to@) - 1) as nat);
        if !current.weekday().is_weekend() {
            dates.push(current);
            assert(civil_dates(dates@) =~= before.push(here));
            assert(before + (seq![here] + rest) =~= before.push(here) + rest);
        }
        assert(civil_dates(dates@) + rest == trading_days(from@, to@));
        match current.succ_opt() {
            Some(next) => {
                proof {
                    lemma_next_day(here);
                }
                current = next;
                done = !current.is_on_or_before(&to);
            },
            None => {
                proof {
                    lemma_order_is_day_number_order(to@, max_date());
                }
                done = true;
            },
        }
        proof {
            if done {
                assert(rest =~= Seq::<CivilDate>::empty());
            }
        }
    }
    assert(civil_dates(dates@) + Seq::<CivilDate>::empty() =~= civil_dates(dates@));
    dates
}

/// The most recent trading day that is not after `today`: `today` itself
/// unless it is a Saturday or a Sunday, and else the Friday before it.
pub fn latest_trading_date_from(today: TradeDate) -> (date: TradeDate)
    ensures
        date@ == latest_trading_day(today@),
        is_valid_date(date@),
        !is_weekend_date(date@),
        on_or_before(date@, today@),
{
    proof {
        use_type_invariant(today);
        lemma_latest_trading_day(today@);
        lemma_first_date_is_thursday();
        if is_weekend_date(today@) {
            lemma_weekday_of_prev_day(today@);
            if weekday_of(today@) == Weekday::Sun {
                lemma_weekday_of_prev_day(prev_day(today@));
            }
        }
    }
    let mut date = today;
    let mut weekend: bool = date.weekday().is_weekend();
    let ghost mut steps: int = 0;
    while weekend
        invariant
            is_valid_date(date@),
            weekend == is_weekend_date(date@),
            weekday_of(min_date()) == Weekday::Thu,
            is_weekend_date(today@) ==> weekday_index(prev_day(today@)) == weekday_index(today@)
                - 1,
            weekday_of(today@) == Weekday::Sun ==> weekday_index(prev_day(prev_day(today@)))
                == 4,
            0 <= steps <= 2,
            steps == 0 ==> date@ == today@,
            steps == 1 ==> date@ == prev_day(today@) && is_weekend_date(today@),
            steps == 2 ==> date@ == prev_day(prev_day(today@)) && weekday_of(today@)
                == Weekday::Sun,
        decreases weekday_index(date@),
    {
        proof {
            lemma_weekday_of_prev_day(date@);
            steps = steps + 1;
        }
        date =
        match date.pred_opt() {
            Some(previous) => previous,
            None => today,
        };
        weekend = date.weekday().is_weekend();
    }
    date
}

} // verus!
