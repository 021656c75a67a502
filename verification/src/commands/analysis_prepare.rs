//! The trading calendar behind the daily price-snapshot import: which days
//! the exchange publishes a bhavcopy for (every day but Sunday).

use crate::calendar::{chrono_ymd_day, is_sunday, is_valid_day, Date, MAX_DAY_NUMBER};
use vstd::prelude::*;

verus! {

/// Arguments of the `analysis prepare` command: the range of days to import.
#[derive(Debug)]
pub struct AnalysisPrepareArgs {
    /// First day to import; the command starts on 2024-01-01 without it.
    pub start: Option<Date>,
    /// Last day to import; the command stops today without it.
    pub end: Option<Date>,
}

/// The next day the calendar moves past the end of chrono's range.
#[derive(Clone, Copy, Debug, PartialEq, Eq, Structural)]
pub struct DateOverflow;

impl DateOverflow {
    /// The error as text.
    pub fn message(&self) -> (r: String)
        ensures
            r@ == "Date overflow"@,
    {
        "Date overflow".to_owned()
    }
}

/// The trading day after `day`: the next day, or the one after it when the
/// next day is a Sunday; `None` when that leaves chrono's range.
pub open spec fn spec_next_trading_day(day: int) -> Option<int> {
    if day + 1 > MAX_DAY_NUMBER {
        None
    } else if is_sunday(day + 1) {
        if day + 2 > MAX_DAY_NUMBER {
            None
        } else {
            Some(day + 2)
        }
    } else {
        Some(day + 1)
    }
}

/// The days from `day` up to `end` that the import visits: `day` itself,
/// then each next trading day while it is not after `end`.
pub open spec fn trading_days_from(day: int, end: int) -> Seq<int>
    decreases end - day,
{
    if day > end {
        seq![]
    } else {
        match spec_next_trading_day(day) {
            None => seq![day],
            Some(n) => if n > end {
                seq![day]
            } else {
                seq![day] + trading_days_from(n, end)
            },
        }
    }
}

/// The day numbers of a sequence of dates.
pub open spec fn day_numbers(dates: Seq<Date>) -> Seq<int> {
    dates.map_values(|d: Date| d@)
}

/// The trading day after `date`.
pub fn next_trading_day(date: Date) -> (r: Result<Date, DateOverflow>)
    requires
        date.wf(),
    ensures
        r matches Ok(n) ==> spec_next_trading_day(date@) == Some(n@) && n.wf(),
        r is Err <==> spec_next_trading_day(date@) is None,
{
    let next = match date.succ_opt() {
        Some(n) => n,
        None => return Err(DateOverflow),
    };
    if next.weekday_from_monday() == 6 {
        match next.succ_opt() {
            Some(n) => Ok(n),
            None => Err(DateOverflow),
        }
    } else {
        Ok(next)
    }
}

/// The trading day after any day is one or two days later and never a Sunday.
pub proof fn lemma_next_trading_day_not_sunday(day: int)
    requires
        spec_next_trading_day(day) is Some,
    ensures
        !is_sunday(spec_next_trading_day(day)->Some_0),
        day < spec_next_trading_day(day)->Some_0 <= day + 2,
{
}

/// The days the import covers: the given start, else 2024-01-01 (`None`
/// when chrono has no such day), to the given end, else today.
pub fn import_range(args: &AnalysisPrepareArgs, today: Date) -> (r: Option<(Date, Date)>)
    ensures
        r is None <==> args.start is None && chrono_ymd_day(2024, 1, 1) is None,
        r matches Some((start, end)) ==> {
            &&& start@ == match args.start {
                Some(d) => d@,
                None => chrono_ymd_day(2024, 1, 1)->Some_0,
            }
            &&& args.start is None ==> start.wf()
            &&& end == match args.end {
                Some(d) => d,
                None => today,
            }
        },
{
    let start = match args.start {
        Some(d) => d,
        None => match Date::from_ymd_opt(2024, 1, 1) {
            Some(d) => d,
            None => {
                return None;
            },
        },
    };
    let end = match args.end {
        Some(d) => d,
        None => today,
    };
    Some((start, end))
}

/// The days from `start` to `end` that the import fetches: `start`, then each
/// next trading day up to `end`, stopping early at the end of chrono's range.
pub fn trading_days(start: Date, end: Date) -> (r: Vec<Date>)
    requires
        start.wf(),
    ensures
        day_numbers(r@) == trading_days_from(start@, end@),
        forall|i: int| 0 <= i < r@.len() ==> (#[trigger] r@[i]).wf(),
{
    let mut out: Vec<Date> = Vec::new();
    if end.is_before(&start) {
        assert(day_numbers(out@) =~= trading_days_from(start@, end@));
        return out;
    }
    let mut cur = start;
    loop
        invariant_except_break
            cur.wf(),
            cur@ <= end@,
            day_numbers(out@) + trading_days_from(cur@, end@) == trading_days_from(start@, end@),
        invariant
            forall|i: int| 0 <= i < out@.len() ==> (#[trigger] out@[i]).wf(),
        ensures
            day_numbers(out@) == trading_days_from(start@, end@),
            forall|i: int| 0 <= i < out@.len() ==> (#[trigger] out@[i]).wf(),
        decreases end@ - cur@,
    {
        let ghost before = out@;
        out.push(cur);
        assert(day_numbers(out@) =~= day_numbers(before) + seq![cur@]);
        match next_trading_day(cur) {
            Err(_) => {
                assert(day_numbers(out@) =~= trading_days_from(start@, end@));
                break ;
            },
            Ok(n) => {
                if end.is_before(&n) {
                    assert(day_numbers(out@) =~= trading_days_from(start@, end@));
                    break ;
                }
                assert(trading_days_from(cur@, end@) == seq![cur@] + trading_days_from(n@, end@));
                assert(day_numbers(out@) + trading_days_from(n@, end@) =~= day_numbers(before)
                    + trading_days_from(cur@, end@));
                cur = n;
            },
        }
    }
    out
}

/// The days the import visits run upward from `start`, stay within
/// `start..=end`, skip every Sunday after the first day, and leave out no
/// day other than a Sunday between the first day and `end` (as far as chrono
/// can count).
pub proof fn lemma_trading_days_cover_range(start: int, end: int)
    requires
        is_valid_day(start),
    ensures
        start <= end ==> trading_days_from(start, end).len() > 0 && trading_days_from(start, end)[0]
            == start,
        forall|i: int|
            0 <= i < trading_days_from(start, end).len() ==> start <= #[trigger] trading_days_from(
                start,
                end,
            )[i] <= end && is_valid_day(trading_days_from(start, end)[i]),
        forall|i: int, j: int|
            0 <= i < j < trading_days_from(start, end).len() ==> #[trigger] trading_days_from(
                start,
                end,
            )[i] < #[trigger] trading_days_from(start, end)[j],
        forall|i: int|
            0 < i < trading_days_from(start, end).len() ==> !is_sunday(
                #[trigger] trading_days_from(start, end)[i],
            ),
        forall|d: int|
            start < d <= end && d <= MAX_DAY_NUMBER && !is_sunday(d) ==> #[trigger] trading_days_from(
                start,
                end,
            ).contains(d),
    decreases end - start,
{
    let s = trading_days_from(start, end);
    if start > end {
    } else {
        match spec_next_trading_day(start) {
            None => {
                assert forall|d: int|
                    start < d <= end && d <= MAX_DAY_NUMBER && !is_sunday(d) implies s.contains(
                        d,
                    ) by {
                    assert(d == start + 1);
                }
            },
            Some(n) => {
                if n > end {
                    assert forall|d: int|
                        start < d <= end && d <= MAX_DAY_NUMBER && !is_sunday(d) implies s.contains(
                            d,
                        ) by {
                        assert(d == start + 1);
                    }
                } else {
                    lemma_trading_days_cover_range(n, end);
                    let t = trading_days_from(n, end);
                    assert(s == seq![start] + t);
                    assert forall|i: int| 0 <= i < s.len() implies start <= #[trigger] s[i] <= end
                        && is_valid_day(s[i]) by {
                        if i > 0 {
                            assert(s[i] == t[i - 1]);
                        }
                    }
                    assert forall|i: int, j: int| 0 <= i < j < s.len() implies #[trigger] s[i]
                        < #[trigger] s[j] by {
                        assert(s[j] == t[j - 1]);
                        if i > 0 {
                            assert(s[i] == t[i - 1]);
                        } else {
                            assert(t[j - 1] >= n);
                        }
                    }
                    assert forall|i: int| 0 < i < s.len() implies !is_sunday(#[trigger] s[i]) by {
                        assert(s[i] == t[i - 1]);
                        if i == 1 {
                            assert(t[0] == n);
                        }
                    }
                    assert forall|d: int|
                        start < d <= end && d <= MAX_DAY_NUMBER && !is_sunday(d) implies s.contains(
                            d,
                        ) by {
                        if d == n {
                            assert(s[1] == n);
                        } else {
                            assert(d > n);
                            assert(t.contains(d));
                            let k = choose|k: int| 0 <= k < t.len() && t[k] == d;
                            assert(s[k + 1] == d);
                        }
                    }
                }
            },
        }
    }
}

} // verus!
