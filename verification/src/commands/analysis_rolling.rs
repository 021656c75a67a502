//! Rolling returns of a fund: the holding periods compared, and the windows
//! of a price history over which each return is taken.

use crate::calendar::{chrono_months_later, is_valid_day, Date};
use crate::data_sources::mf_api::PricePoint;
use vstd::prelude::*;

verus! {

/// Arguments of the `analysis rolling` command.
#[derive(Debug)]
pub struct AnalysisRollingArgs {
    /// The fund's mfapi.in scheme code.
    pub fund: String,
}

/// A holding period over which returns are compared.
#[derive(Clone, Copy, Debug, PartialEq, Eq, Structural)]
pub enum Period {
    OneWeek,
    TwoWeeks,
    OneMonth,
    OneQuarter,
    SixMonths,
    OneYear,
    ThreeYears,
    FiveYears,
}

/// The day a holding period ends when it starts on `day`: a week or two
/// later, or a number of calendar months later as chrono adds them; `None`
/// when that leaves chrono's range.
pub open spec fn period_end(period: Period, day: int) -> Option<int> {
    match period {
        Period::OneWeek => if is_valid_day(day + 7) {
            Some(day + 7)
        } else {
            None
        },
        Period::TwoWeeks => if is_valid_day(day + 14) {
            Some(day + 14)
        } else {
            None
        },
        Period::OneMonth => chrono_months_later(day, 1),
        Period::OneQuarter => chrono_months_later(day, 3),
        Period::SixMonths => chrono_months_later(day, 6),
        Period::OneYear => chrono_months_later(day, 12),
        Period::ThreeYears => chrono_months_later(day, 36),
        Period::FiveYears => chrono_months_later(day, 60),
    }
}

/// The short label of a period.
pub open spec fn period_label(period: Period) -> Seq<char> {
    match period {
        Period::OneWeek => "1W"@,
        Period::TwoWeeks => "2W"@,
        Period::OneMonth => "1M"@,
        Period::OneQuarter => "3M"@,
        Period::SixMonths => "6M"@,
        Period::OneYear => "1Y"@,
        Period::ThreeYears => "3Y"@,
        Period::FiveYears => "5Y"@,
    }
}

impl Period {
    /// The day the period ends when it starts on `start`, `None` when that
    /// leaves chrono's range.
    pub fn checked_add_to(&self, start: Date) -> (r: Option<Date>)
        requires
            start.wf(),
        ensures
            r matches Some(d) ==> period_end(*self, start@) == Some(d@) && d.wf() && d@ > start@,
            r is None <==> period_end(*self, start@) is None,
            r matches Some(e) ==> forall|d: int|
                is_valid_day(d) && #[trigger] period_end(*self, d) is Some ==> {
                    let m = period_end(*self, d)->Some_0;
                    &&& d <= start@ ==> m <= e@
                    &&& start@ <= d ==> e@ <= m
                },
    {
        match self {
            Period::OneWeek => start.checked_add_days(7),
            Period::TwoWeeks => start.checked_add_days(14),
            Period::OneMonth => start.checked_add_months(1),
            Period::OneQuarter => start.checked_add_months(3),
            Period::SixMonths => start.checked_add_months(6),
            Period::OneYear => start.checked_add_months(12),
            Period::ThreeYears => start.checked_add_months(36),
            Period::FiveYears => start.checked_add_months(60),
        }
    }

    /// The day the period ends when it starts on `start`.
    pub fn add_to(&self, start: Date) -> (r: Date)
        requires
            start.wf(),
            period_end(*self, start@) is Some,
        ensures
            period_end(*self, start@) == Some(r@),
            r.wf(),
            r@ > start@,
            forall|d: int|
                is_valid_day(d) && #[trigger] period_end(*self, d) is Some ==> {
                    let m = period_end(*self, d)->Some_0;
                    &&& d <= start@ ==> m <= r@
                    &&& start@ <= d ==> r@ <= m
                },
    {
        self.checked_add_to(start).unwrap()
    }

    /// The period's short label, as the report prints it.
    pub fn label(&self) -> (r: String)
        ensures
            r@ == period_label(*self),
    {
        match self {
            Period::OneWeek => "1W".to_owned(),
            Period::TwoWeeks => "2W".to_owned(),
            Period::OneMonth => "1M".to_owned(),
            Period::OneQuarter => "3M".to_owned(),
            Period::SixMonths => "6M".to_owned(),
            Period::OneYear => "1Y".to_owned(),
            Period::ThreeYears => "3Y".to_owned(),
            Period::FiveYears => "5Y".to_owned(),
        }
    }
}

/// Every period the report covers, shortest first.
pub open spec fn report_periods() -> Seq<Period> {
    seq![
        Period::OneWeek,
        Period::TwoWeeks,
        Period::OneMonth,
        Period::OneQuarter,
        Period::SixMonths,
        Period::OneYear,
        Period::ThreeYears,
        Period::FiveYears,
    ]
}

/// Every period the report covers, shortest first.
pub fn all_periods() -> (r: Vec<Period>)
    ensures
        r@ == report_periods(),
{
    let mut v = Vec::new();
    v.push(Period::OneWeek);
    v.push(Period::TwoWeeks);
    v.push(Period::OneMonth);
    v.push(Period::OneQuarter);
    v.push(Period::SixMonths);
    v.push(Period::OneYear);
    v.push(Period::ThreeYears);
    v.push(Period::FiveYears);
    assert(v@ =~= report_periods());
    v
}

/// The report's periods all have distinct labels.
pub proof fn lemma_period_labels_distinct(a: Period, b: Period)
    requires
        a != b,
    ensures
        period_label(a) != period_label(b),
{
    reveal_strlit("1W");
    reveal_strlit("2W");
    reveal_strlit("1M");
    reveal_strlit("3M");
    reveal_strlit("6M");
    reveal_strlit("1Y");
    reveal_strlit("3Y");
    reveal_strlit("5Y");
    assert(period_label(a)[0] != period_label(b)[0] || period_label(a)[1] != period_label(b)[1]);
}

/// One rolling window of a price history: the price it starts from, the
/// first price on or after the end of the holding period, and the length of
/// the holding period in days.
#[derive(Clone, Copy, Debug, PartialEq, Eq, Structural)]
pub struct RollingWindow {
    pub start: usize,
    pub end: usize,
    pub days: i64,
}

impl View for RollingWindow {
    type V = (int, int, int);

    open spec fn view(&self) -> (int, int, int) {
        (self.start as int, self.end as int, self.days as int)
    }
}

/// Why rolling returns could not be computed.
#[derive(Clone, Copy, Debug, PartialEq, Eq, Structural)]
pub enum RollingError {
    /// The history holds fewer than three prices.
    TooFewPrices,
}

impl RollingError {
    /// The error as text.
    pub fn message(&self) -> (r: String)
        ensures
            r@ == "Cannot calculate stats on very small sets"@,
    {
        "Cannot calculate stats on very small sets".to_owned()
    }
}

/// Index of the first price at or after `from` that is not before `target`,
/// or the number of prices when there is none.
pub open spec fn window_end(dates: Seq<int>, target: int, from: int) -> int
    decreases dates.len() - from,
{
    if from >= dates.len() || !(dates[from] < target) {
        from
    } else {
        window_end(dates, target, from + 1)
    }
}

/// The rolling windows from the price at `start` on, the search for each
/// window's end resuming where the previous one stopped (`end`). The windows
/// stop at the first start whose holding period ends after the last price;
/// `None` when a holding period leaves chrono's range.
pub open spec fn rolling_trace(dates: Seq<int>, period: Period, start: int, end: int) -> Option<
    Seq<(int, int, int)>,
>
    decreases dates.len() - start,
{
    if start < 0 || start >= dates.len() {
        Some(seq![])
    } else {
        match period_end(period, dates[start]) {
            None => None,
            Some(target) => {
                let e = window_end(dates, target, end);
                if e >= dates.len() {
                    Some(seq![])
                } else {
                    match rolling_trace(dates, period, start + 1, e) {
                        None => None,
                        Some(rest) => Some(seq![(start, e, target - dates[start])] + rest),
                    }
                }
            },
        }
    }
}

/// The days of a price history.
pub open spec fn price_days(postings: Seq<PricePoint>) -> Seq<int> {
    postings.map_values(|p: PricePoint| p.date@)
}

/// The views of a sequence of windows.
pub open spec fn windows_view(windows: Seq<RollingWindow>) -> Seq<(int, int, int)> {
    windows.map_values(|w: RollingWindow| w@)
}

/// Every price of the history has a date chrono can represent.
pub open spec fn dates_wf(postings: Seq<PricePoint>) -> bool {
    forall|i: int| 0 <= i < postings.len() ==> (#[trigger] postings[i]).date.wf()
}

/// Where the window that starts at `start` ends, searching from `end`.
fn find_window_end(postings: &[PricePoint], target: &Date, end: usize) -> (r: usize)
    requires
        end <= postings@.len(),
    ensures
        r == window_end(price_days(postings@), target@, end as int),
        end <= r <= postings@.len(),
{
    let ghost days = price_days(postings@);
    let mut e = end;
    while e < postings.len() && postings[e].date.is_before(target)
        invariant
            days == price_days(postings@),
            end <= e <= postings@.len(),
            window_end(days, target@, e as int) == window_end(days, target@, end as int),
        decreases postings@.len() - e,
    {
        assert(days[e as int] == postings@[e as int].date@);
        e = e + 1;
    }
    proof {
        if e < postings@.len() {
            assert(days[e as int] == postings@[e as int].date@);
        }
    }
    e
}

/// The days are in strictly increasing order.
pub open spec fn strictly_increasing(days: Seq<int>) -> bool {
    forall|i: int, j: int| 0 <= i < j < days.len() ==> days[i] < days[j]
}

/// The days are in non-decreasing order.
pub open spec fn nondecreasing(days: Seq<int>) -> bool {
    forall|i: int, j: int| 0 <= i <= j < days.len() ==> days[i] <= days[j]
}

/// The shape of a window of a price history: the `k`-th window starts at
/// price `k`, holds a positive number of days, and ends at a price within
/// the history that is not before the end of its holding period (after its
/// start, when the prices are in increasing date order). When the prices
/// are in date order, the window ends at the first price on or after the
/// end of its holding period: every earlier price is before it.
pub open spec fn well_shaped_window(days: Seq<int>, k: int, w: (int, int, int)) -> bool {
    &&& w.0 == k
    &&& 0 <= w.1 < days.len()
    &&& w.2 > 0
    &&& days[w.1] >= days[w.0] + w.2
    &&& strictly_increasing(days) ==> w.1 > w.0
    &&& nondecreasing(days) ==> forall|j: int| 0 <= j < w.1 ==> #[trigger] days[j] < days[w.0] + w.2
}

/// The rolling windows of a price history over a period (see
/// `rolling_trace`); a history of fewer than three prices is refused.
pub fn rolling_windows(postings: &[PricePoint], period: &Period) -> (r: Result<Vec<RollingWindow>, RollingError>)
    requires
        dates_wf(postings@),
        postings@.len() > 2 ==> rolling_trace(price_days(postings@), *period, 0, 0) is Some,
    ensures
        r is Err <==> postings@.len() <= 2,
        r matches Ok(w) ==> rolling_trace(price_days(postings@), *period, 0, 0) == Some(
            windows_view(w@),
        ),
        r matches Ok(w) ==> forall|k: int|
            0 <= k < w@.len() ==> well_shaped_window(price_days(postings@), k, #[trigger] w@[k]@),
        r matches Ok(w) ==> forall|k: int|
            0 <= k < w@.len() ==> (#[trigger] w@[k]).start == k && period_end(
                *period,
                price_days(postings@)[k],
            ) == Some(price_days(postings@)[k] + w@[k].days),
        r matches Ok(w) ==> (w@.len() < postings@.len() ==> (period_end(
            *period,
            price_days(postings@)[w@.len() as int],
        ) matches Some(t) && price_days(postings@)[postings@.len() - 1] < t)),
{
    if postings.len() <= 2 {
        return Err(RollingError::TooFewPrices);
    }
    let ghost days = price_days(postings@);
    let ghost full = rolling_trace(days, *period, 0, 0)->Some_0;
    let mut out: Vec<RollingWindow> = Vec::new();
    let mut end: usize = 0;
    let mut start: usize = 0;
    let ghost mut bound: int = 0;
    assert(windows_view(out@) =~= seq![]);
    while start < postings.len()
        invariant_except_break
            days == price_days(postings@),
            dates_wf(postings@),
            start <= postings@.len(),
            end <= postings@.len(),
            rolling_trace(days, *period, start as int, end as int) matches Some(rest) && windows_view(
                out@,
            ) + rest == full,
            out@.len() == start,
            start == 0 ==> end == 0,
            start > 0 ==> period_end(*period, days[start - 1]) == Some(bound),
            nondecreasing(days) ==> forall|j: int| 0 <= j < end ==> #[trigger] days[j] < bound,
        invariant
            days == price_days(postings@),
            forall|k: int| 0 <= k < out@.len() ==> well_shaped_window(days, k, #[trigger] out@[k]@),
        ensures
            windows_view(out@) == full,
        decreases postings@.len() - start,
    {
        let ghost before = windows_view(out@);
        let ghost before_out = out@;
        let first = postings[start];
        assert(postings@[start as int] == first);
        assert(days[start as int] == first.date@);
        let target = period.add_to(first.date);
        let window_days = first.date.days_until(&target);
        let ghost search_from = end;
        proof {
            if start > 0 && nondecreasing(days) {
                let prev = days[start - 1];
                assert(postings@[start - 1].date.wf());
                assert(prev <= days[start as int]);
                assert(period_end(*period, prev) is Some);
                assert(bound <= target@);
            }
        }
        end = find_window_end(postings, &target, end);
        proof {
            lemma_window_end(days, target@, search_from as int);
            bound = target@;
        }
        if end >= postings.len() {
            break ;
        }
        let w = RollingWindow { start, end, days: window_days };
        assert(well_shaped_window(days, start as int, w@)) by {
            if strictly_increasing(days) && end <= start {
                if end < start {
                    assert(days[end as int] < days[start as int]);
                }
            }
        }
        out.push(w);
        assert forall|k: int| 0 <= k < out@.len() implies well_shaped_window(
            days,
            k,
            #[trigger] out@[k]@,
        ) by {
            if k < start {
                assert(out@[k] == before_out[k]);
            }
        }
        assert(windows_view(out@) =~= before.push(w@));
        let ghost rest = rolling_trace(days, *period, start + 1, end as int)->Some_0;
        assert(windows_view(out@) + rest =~= before + (seq![w@] + rest));
        start = start + 1;
    }
    proof {
        if start >= postings@.len() {
            assert(windows_view(out@) =~= windows_view(out@) + seq![]);
        }
        lemma_rolling_windows_follow_the_period(days, *period);
        assert forall|k: int| 0 <= k < out@.len() implies (#[trigger] out@[k]).start == k && period_end(
            *period,
            days[k],
        ) == Some(days[k] + out@[k].days) by {
            assert(full[k] == out@[k]@);
        }
    }
    Ok(out)
}

/// Whether computing the rolling windows stays within chrono's range (see
/// `rolling_trace`).
pub fn rolling_windows_defined(postings: &[PricePoint], period: &Period) -> (r: bool)
    requires
        dates_wf(postings@),
    ensures
        r == rolling_trace(price_days(postings@), *period, 0, 0) is Some,
{
    let ghost days = price_days(postings@);
    let mut end: usize = 0;
    let mut start: usize = 0;
    while start < postings.len()
        invariant_except_break
            days == price_days(postings@),
            dates_wf(postings@),
            start <= postings@.len(),
            end <= postings@.len(),
            rolling_trace(days, *period, start as int, end as int) is Some
                == rolling_trace(days, *period, 0, 0) is Some,
        ensures
            rolling_trace(days, *period, 0, 0) is Some,
        decreases postings@.len() - start,
    {
        let first = postings[start];
        assert(postings@[start as int] == first);
        assert(days[start as int] == first.date@);
        let target = match period.checked_add_to(first.date) {
            Some(t) => t,
            None => return false,
        };
        end = find_window_end(postings, &target, end);
        if end >= postings.len() {
            break ;
        }
        start = start + 1;
    }
    true
}

/// The rolling windows like `rolling_windows`, or `None` when a holding
/// period would leave chrono's range (where the report panics).
pub fn rolling_windows_checked(postings: &[PricePoint], period: &Period) -> (r: Option<
    Result<Vec<RollingWindow>, RollingError>,
>)
    requires
        dates_wf(postings@),
    ensures
        r is None <==> postings@.len() > 2 && rolling_trace(price_days(postings@), *period, 0, 0) is None,
        r matches Some(Err(_)) ==> postings@.len() <= 2,
        r matches Some(Ok(w)) ==> rolling_trace(price_days(postings@), *period, 0, 0) == Some(
            windows_view(w@),
        ),
        r matches Some(Ok(w)) ==> forall|k: int|
            0 <= k < w@.len() ==> well_shaped_window(price_days(postings@), k, #[trigger] w@[k]@),
        r matches Some(Ok(w)) ==> forall|k: int|
            0 <= k < w@.len() ==> (#[trigger] w@[k]).start == k && period_end(
                *period,
                price_days(postings@)[k],
            ) == Some(price_days(postings@)[k] + w@[k].days),
        r matches Some(Ok(w)) ==> (w@.len() < postings@.len() ==> (period_end(
            *period,
            price_days(postings@)[w@.len() as int],
        ) matches Some(t) && price_days(postings@)[postings@.len() - 1] < t)),
{
    if postings.len() > 2 && !rolling_windows_defined(postings, period) {
        None
    } else {
        Some(rolling_windows(postings, period))
    }
}

/// The windows from price `start` on, the search resuming at `end`: the
/// `i`-th starts at price `start + i` and lasts exactly the holding period
/// from that price's day; it ends at a price on or after the period's end.
/// They stop at the first price whose holding period ends after the last
/// price's day.
proof fn lemma_trace_follows_the_period(dates: Seq<int>, period: Period, start: int, end: int)
    requires
        0 <= start <= dates.len(),
        start < dates.len() ==> 0 <= end < dates.len(),
        rolling_trace(dates, period, start, end) is Some,
    ensures
        ({
            let ws = rolling_trace(dates, period, start, end)->Some_0;
            &&& start + ws.len() <= dates.len()
            &&& forall|i: int|
                0 <= i < ws.len() ==> {
                    &&& (#[trigger] ws[i]).0 == start + i
                    &&& period_end(period, dates[start + i]) == Some(dates[start + i] + ws[i].2)
                    &&& 0 <= ws[i].1 < dates.len()
                    &&& dates[ws[i].1] >= dates[start + i] + ws[i].2
                }
            &&& start + ws.len() < dates.len() ==> (period_end(period, dates[start + ws.len()]) matches Some(
                t,
            ) && dates[dates.len() - 1] < t)
        }),
    decreases dates.len() - start,
{
    if start < dates.len() {
        let target = period_end(period, dates[start])->Some_0;
        let e = window_end(dates, target, end);
        lemma_window_end(dates, target, end);
        if e >= dates.len() {
            assert(dates[dates.len() - 1] < target);
        } else {
            lemma_trace_follows_the_period(dates, period, start + 1, e);
            let rest = rolling_trace(dates, period, start + 1, e)->Some_0;
            let ws = rolling_trace(dates, period, start, end)->Some_0;
            assert(ws == seq![(start, e, target - dates[start])] + rest);
            assert forall|i: int| 0 <= i < ws.len() implies {
                &&& (#[trigger] ws[i]).0 == start + i
                &&& period_end(period, dates[start + i]) == Some(dates[start + i] + ws[i].2)
                &&& 0 <= ws[i].1 < dates.len()
                &&& dates[ws[i].1] >= dates[start + i] + ws[i].2
            } by {
                if i > 0 {
                    assert(ws[i] == rest[i - 1]);
                }
            }
        }
    }
}

/// The rolling windows of a price history over a period: the `k`-th window
/// starts at price `k` and lasts exactly the period from that price's day
/// (the period ends on that day plus the window's days), and ends at a
/// price on or after the period's end. There is a window for every price up
/// to the first one whose period ends after the last price's day, and for
/// none from it on.
pub proof fn lemma_rolling_windows_follow_the_period(dates: Seq<int>, period: Period)
    requires
        rolling_trace(dates, period, 0, 0) is Some,
    ensures
        ({
            let ws = rolling_trace(dates, period, 0, 0)->Some_0;
            &&& ws.len() <= dates.len()
            &&& forall|k: int|
                0 <= k < ws.len() ==> {
                    &&& (#[trigger] ws[k]).0 == k
                    &&& period_end(period, dates[k]) == Some(dates[k] + ws[k].2)
                    &&& 0 <= ws[k].1 < dates.len()
                    &&& dates[ws[k].1] >= dates[k] + ws[k].2
                }
            &&& ws.len() < dates.len() ==> (period_end(period, dates[ws.len() as int]) matches Some(t)
                && dates[dates.len() - 1] < t)
        }),
{
    lemma_trace_follows_the_period(dates, period, 0, 0);
}

/// The window end is at or after where the search starts, within the
/// history, and on a day not before the target when within it.
proof fn lemma_window_end(dates: Seq<int>, target: int, from: int)
    requires
        0 <= from <= dates.len(),
    ensures
        from <= window_end(dates, target, from) <= dates.len(),
        window_end(dates, target, from) < dates.len() ==> dates[window_end(dates, target, from)]
            >= target,
        forall|j: int| from <= j < window_end(dates, target, from) ==> #[trigger] dates[j] < target,
    decreases dates.len() - from,
{
    if from < dates.len() && dates[from] < target {
        lemma_window_end(dates, target, from + 1);
    }
}

} // verus!
