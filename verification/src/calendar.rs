//! Calendar days, counted the way chrono counts them, and the few chrono
//! operations that the rest of the library needs.

use chrono::Datelike;
use vstd::prelude::*;

verus! {

/// Day number of the first day chrono can represent (January 1, 262144 BCE).
pub const MIN_DAY_NUMBER: i32 = -95746129;

/// Day number of the last day chrono can represent (December 31, 262142 CE).
pub const MAX_DAY_NUMBER: i32 = 95745399;

/// Whether a day number lies in chrono's representable range.
pub open spec fn is_valid_day(day: int) -> bool {
    MIN_DAY_NUMBER <= day <= MAX_DAY_NUMBER
}

/// Day of the week of a day number, Monday being 0 and Sunday 6
/// (January 1 of year 1 of the proleptic Gregorian calendar is a Monday).
pub open spec fn weekday_index(day: int) -> int {
    (day - 1) % 7
}

/// Whether a day number falls on a Sunday.
pub open spec fn is_sunday(day: int) -> bool {
    weekday_index(day) == 6
}

/// A day of the proleptic Gregorian calendar, numbered as chrono numbers it:
/// January 1 of year 1 is day 1, the day before is day 0.
#[derive(Clone, Copy, Debug, PartialEq, Eq, Structural, Hash)]
pub struct Date {
    pub day_number: i32,
}

impl View for Date {
    type V = int;

    open spec fn view(&self) -> int {
        self.day_number as int
    }
}

/// The day reached by adding a number of calendar months to a day, as
/// chrono's `NaiveDate::checked_add_months` computes it (`None` when the
/// result leaves chrono's range).
pub uninterp spec fn chrono_months_later(day: int, months: int) -> Option<int>;

/// The day that chrono's `NaiveDate::from_ymd_opt` makes of a year, month
/// and day of month (`None` when they name no day).
pub uninterp spec fn chrono_ymd_day(year: int, month: int, day: int) -> Option<int>;

/// The day that chrono's `NaiveDate::parse_from_str` reads from a text with a
/// format, or the text of the `ParseError` it reports.
pub uninterp spec fn chrono_parsed_day(text: Seq<char>, format: Seq<char>) -> Result<int, Seq<char>>;

/// The text that chrono's `NaiveDate::format` writes for a day with a format.
pub uninterp spec fn chrono_formatted_day(day: int, format: Seq<char>) -> Seq<char>;

/// The format that the library formats days with: `01-Jan-2024`.
pub open spec fn is_supported_day_format(format: Seq<char>) -> bool {
    format == "%d-%b-%Y"@
}

/// Wraps chrono's `NaiveDate::succ_opt`: the next day, `None` on the last
/// representable day.
#[verifier::external_body]
fn chrono_succ(day_number: i32) -> (r: Option<i32>)
    requires
        is_valid_day(day_number as int),
    ensures
        r is Some <==> day_number < MAX_DAY_NUMBER,
        r matches Some(n) ==> n == day_number + 1,
{
    chrono::NaiveDate::from_num_days_from_ce_opt(day_number).unwrap().succ_opt().map(
        |d| d.num_days_from_ce(),
    )
}

/// Wraps chrono's `Datelike::weekday` followed by `Weekday::num_days_from_monday`.
#[verifier::external_body]
fn chrono_weekday_from_monday(day_number: i32) -> (r: u32)
    requires
        is_valid_day(day_number as int),
    ensures
        r == weekday_index(day_number as int),
{
    chrono::NaiveDate::from_num_days_from_ce_opt(day_number).unwrap().weekday().num_days_from_monday()
}

/// Wraps chrono's `NaiveDate::checked_add_signed` with a whole number of days:
/// the day that many days later, `None` when it leaves chrono's range.
#[verifier::external_body]
fn chrono_add_days(day_number: i32, days: i32) -> (r: Option<i32>)
    requires
        is_valid_day(day_number as int),
    ensures
        r is Some <==> is_valid_day(day_number + days),
        r matches Some(n) ==> n == day_number + days,
{
    chrono::NaiveDate::from_num_days_from_ce_opt(day_number).unwrap().checked_add_signed(
        chrono::TimeDelta::days(days as i64),
    ).map(|d| d.num_days_from_ce())
}

/// Wraps chrono's `NaiveDate::checked_add_months`. Adding no month gives the
/// day back; adding months gives a later day, in a later month, within range.
/// The month count moves the month; the day of the month is kept, or
/// lowered to the last day of a shorter month, so a later start never ends
/// earlier than an earlier one.
#[verifier::external_body]
fn chrono_add_months(day_number: i32, months: u32) -> (r: Option<i32>)
    requires
        is_valid_day(day_number as int),
    ensures
        r matches Some(n) ==> chrono_months_later(day_number as int, months as int) == Some(
            n as int,
        ),
        r is None ==> chrono_months_later(day_number as int, months as int) is None,
        r matches Some(n) ==> is_valid_day(n as int),
        months == 0 ==> r == Some(day_number),
        months > 0 ==> (r matches Some(n) ==> n > day_number),
        r matches Some(n) ==> forall|d: int|
            is_valid_day(d) && #[trigger] chrono_months_later(d, months as int) is Some ==> {
                let m = chrono_months_later(d, months as int)->Some_0;
                &&& d <= day_number ==> m <= n
                &&& day_number <= d ==> n <= m
            },
{
    chrono::NaiveDate::from_num_days_from_ce_opt(day_number).unwrap().checked_add_months(
        chrono::Months::new(months),
    ).map(|d| d.num_days_from_ce())
}

/// Wraps chrono's `NaiveDate::from_ymd_opt`.
#[verifier::external_body]
fn chrono_from_ymd(year: i32, month: u32, day: u32) -> (r: Option<i32>)
    ensures
        r matches Some(n) ==> chrono_ymd_day(year as int, month as int, day as int) == Some(
            n as int,
        ),
        r is None ==> chrono_ymd_day(year as int, month as int, day as int) is None,
        r matches Some(n) ==> is_valid_day(n as int),
{
    chrono::NaiveDate::from_ymd_opt(year, month, day).map(|d| d.num_days_from_ce())
}

/// Wraps chrono's `NaiveDate::parse_from_str`; an error becomes the text
/// that `ParseError` displays.
#[verifier::external_body]
fn chrono_parse(text: &str, format: &str) -> (r: Result<i32, String>)
    ensures
        match r {
            Ok(n) => chrono_parsed_day(text@, format@) == Ok::<int, Seq<char>>(n as int),
            Err(m) => chrono_parsed_day(text@, format@) == Err::<int, Seq<char>>(m@),
        },
        r matches Ok(n) ==> is_valid_day(n as int),
{
    chrono::NaiveDate::parse_from_str(text, format).map(|d| d.num_days_from_ce()).map_err(|e| e.to_string())
}

/// Wraps chrono's `NaiveDate::format` followed by `to_string`. chrono panics
/// on a format it cannot write, so only the library's one format is admitted.
#[verifier::external_body]
fn chrono_format(day_number: i32, format: &str) -> (r: String)
    requires
        is_valid_day(day_number as int),
        is_supported_day_format(format@),
    ensures
        r@ == chrono_formatted_day(day_number as int, format@),
{
    chrono::NaiveDate::from_num_days_from_ce_opt(day_number).unwrap().format(format).to_string()
}

impl Date {
    /// The date is one chrono can represent.
    pub open spec fn wf(&self) -> bool {
        is_valid_day(self@)
    }

    /// The day with the given number, `None` outside chrono's range.
    pub fn from_num_days_from_ce_opt(day_number: i32) -> (r: Option<Date>)
        ensures
            r is Some <==> is_valid_day(day_number as int),
            r matches Some(d) ==> d@ == day_number,
    {
        if MIN_DAY_NUMBER <= day_number && day_number <= MAX_DAY_NUMBER {
            Some(Date { day_number })
        } else {
            None
        }
    }

    /// The day number, January 1 of year 1 being day 1.
    pub fn num_days_from_ce(&self) -> (r: i32)
        ensures
            r == self@,
    {
        self.day_number
    }

    /// The day of a year, month (1 to 12) and day of month, `None` when they
    /// name no day.
    pub fn from_ymd_opt(year: i32, month: u32, day: u32) -> (r: Option<Date>)
        ensures
            r matches Some(d) ==> chrono_ymd_day(year as int, month as int, day as int) == Some(
                d@,
            ) && d.wf(),
            r is None ==> chrono_ymd_day(year as int, month as int, day as int) is None,
    {
        match chrono_from_ymd(year, month, day) {
            Some(n) => Some(Date { day_number: n }),
            None => None,
        }
    }

    /// Reads a date from a text with a chrono format; an error is chrono's
    /// message.
    pub fn parse_from_str(text: &str, format: &str) -> (r: Result<Date, String>)
        ensures
            r matches Ok(d) ==> chrono_parsed_day(text@, format@) == Ok::<int, Seq<char>>(d@)
                && d.wf(),
            r matches Err(m) ==> chrono_parsed_day(text@, format@) == Err::<int, Seq<char>>(m@),
    {
        match chrono_parse(text, format) {
            Ok(n) => Ok(Date { day_number: n }),
            Err(m) => Err(m),
        }
    }

    /// Whether this day comes before another.
    pub fn is_before(&self, other: &Date) -> (r: bool)
        ensures
            r == (self@ < other@),
    {
        self.day_number < other.day_number
    }

    /// Signed number of days from this day to another.
    pub fn days_until(&self, other: &Date) -> (r: i64)
        ensures
            r == other@ - self@,
    {
        other.day_number as i64 - self.day_number as i64
    }

    /// The next day, `None` on the last day chrono can represent.
    pub fn succ_opt(&self) -> (r: Option<Date>)
        requires
            self.wf(),
        ensures
            r is Some <==> self@ < MAX_DAY_NUMBER,
            r matches Some(n) ==> n@ == self@ + 1 && n.wf(),
    {
        match chrono_succ(self.day_number) {
            Some(n) => Some(Date { day_number: n }),
            None => None,
        }
    }

    /// Day of the week, Monday being 0 and Sunday 6.
    pub fn weekday_from_monday(&self) -> (r: u32)
        requires
            self.wf(),
        ensures
            r == weekday_index(self@),
    {
        chrono_weekday_from_monday(self.day_number)
    }

    /// The day a number of days later, `None` when it leaves chrono's range.
    pub fn checked_add_days(&self, days: i32) -> (r: Option<Date>)
        requires
            self.wf(),
        ensures
            r is Some <==> is_valid_day(self@ + days),
            r matches Some(n) ==> n@ == self@ + days && n.wf(),
    {
        match chrono_add_days(self.day_number, days) {
            Some(n) => Some(Date { day_number: n }),
            None => None,
        }
    }

    /// The day a number of calendar months later (the last day of the month
    /// when the day of month does not exist there), `None` when it leaves
    /// chrono's range.
    pub fn checked_add_months(&self, months: u32) -> (r: Option<Date>)
        requires
            self.wf(),
        ensures
            r matches Some(n) ==> chrono_months_later(self@, months as int) == Some(n@) && n.wf(),
            r is None ==> chrono_months_later(self@, months as int) is None,
            months == 0 ==> r == Some(*self),
            months > 0 ==> (r matches Some(n) ==> n@ > self@),
            r matches Some(n) ==> forall|d: int|
                is_valid_day(d) && #[trigger] chrono_months_later(d, months as int) is Some ==> {
                    let m = chrono_months_later(d, months as int)->Some_0;
                    &&& d <= self@ ==> m <= n@
                    &&& self@ <= d ==> n@ <= m
                },
    {
        match chrono_add_months(self.day_number, months) {
            Some(n) => Some(Date { day_number: n }),
            None => None,
        }
    }

    /// The day written as `01-Jan-2024`.
    pub fn format_day_month_year(&self) -> (r: String)
        requires
            self.wf(),
        ensures
            r@ == chrono_formatted_day(self@, "%d-%b-%Y"@),
    {
        chrono_format(self.day_number, "%d-%b-%Y")
    }
}

} // verus!
