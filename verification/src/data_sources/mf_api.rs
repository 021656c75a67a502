//! Mutual-fund NAV histories from mfapi.in, turned into a price history with
//! one price per day, ordered by date.

use crate::calendar::{chrono_parsed_day, Date};
use crate::money::{amount_error_text, inr_minor_units, parse_inr_minor_units};
use vstd::prelude::*;

verus! {

/// The response of the mfapi.in scheme endpoint.
#[derive(Debug)]
pub struct MFAPIResult {
    pub meta: MFAPIMeta,
    pub data: Vec<MFAPIListing>,
}

/// The scheme's description.
#[derive(Debug)]
pub struct MFAPIMeta {
    pub fund_house: String,
    pub scheme_name: String,
}

/// One NAV of the scheme: the date as `31-12-2024` and the NAV in rupees.
#[derive(Debug)]
pub struct MFAPIListing {
    pub date: String,
    pub nav: String,
}

/// A fund and its price history.
#[derive(Debug)]
pub struct FundDetails {
    pub fund_house: String,
    pub scheme_name: String,
    /// One price per day, ordered by date.
    pub prices: Vec<PricePoint>,
}

/// The price of a fund unit on a day, in paise.
#[derive(Clone, Copy, Debug, PartialEq, Eq, Structural)]
pub struct PricePoint {
    pub date: Date,
    pub amount: i64,
}

impl View for PricePoint {
    type V = (int, int);

    open spec fn view(&self) -> (int, int) {
        (self.date@, self.amount as int)
    }
}

/// Why a NAV history could not be read.
#[derive(Clone, Debug, PartialEq, Eq)]
pub enum FundDataError {
    /// A listing's date is not of the form `31-12-2024`; chrono's message.
    InvalidDate(String),
    /// A listing's NAV is not an amount of rupees; rusty_money's message.
    InvalidAmount(String),
}

/// A NAV-history error, as a mathematical value.
pub enum FundFailure {
    InvalidDate(Seq<char>),
    InvalidAmount(Seq<char>),
}

impl FundDataError {
    /// What kind of error this is, with its message.
    pub open spec fn failure(&self) -> FundFailure {
        match self {
            FundDataError::InvalidDate(m) => FundFailure::InvalidDate(m@),
            FundDataError::InvalidAmount(m) => FundFailure::InvalidAmount(m@),
        }
    }

    /// The error as text: the message of chrono or rusty_money.
    pub fn message(&self) -> (r: String)
        ensures
            r@ == match self.failure() {
                FundFailure::InvalidDate(m) => m,
                FundFailure::InvalidAmount(m) => m,
            },
    {
        match self {
            FundDataError::InvalidDate(m) => m.clone(),
            FundDataError::InvalidAmount(m) => m.clone(),
        }
    }
}

/// The date format of mfapi.in listings: `31-12-2024`.
pub open spec fn mfapi_date_format() -> Seq<char> {
    "%d-%m-%Y"@
}

/// What one listing reads as: its day and its price in paise.
pub open spec fn listing_point(date: Seq<char>, nav: Seq<char>) -> Result<(int, int), FundFailure> {
    match chrono_parsed_day(date, mfapi_date_format()) {
        Err(message) => Err(FundFailure::InvalidDate(message)),
        Ok(day) => match inr_minor_units(nav) {
            None => Err(FundFailure::InvalidAmount(amount_error_text())),
            Some(amount) => Ok((day, amount)),
        },
    }
}

/// The texts of the listings.
pub open spec fn listings_view(listings: Seq<MFAPIListing>) -> Seq<(Seq<char>, Seq<char>)> {
    listings.map_values(|l: MFAPIListing| (l.date@, l.nav@))
}

/// What the listings read as, in order; the first listing that does not
/// read makes the whole history fail with its error.
pub open spec fn listings_points(listings: Seq<(Seq<char>, Seq<char>)>) -> Result<
    Seq<(int, int)>,
    FundFailure,
>
    decreases listings.len(),
{
    if listings.len() == 0 {
        Ok(seq![])
    } else {
        match listings_points(listings.drop_last()) {
            Err(e) => Err(e),
            Ok(points) => match listing_point(listings.last().0, listings.last().1) {
                Err(e) => Err(e),
                Ok(p) => Ok(points.push(p)),
            },
        }
    }
}

/// The amount of the first point on a day, `None` when no point is on it.
pub open spec fn first_amount_on(points: Seq<(int, int)>, day: int) -> Option<int>
    decreases points.len(),
{
    if points.len() == 0 {
        None
    } else {
        match first_amount_on(points.drop_last(), day) {
            Some(a) => Some(a),
            None => if points.last().0 == day {
                Some(points.last().1)
            } else {
                None
            },
        }
    }
}

/// `prices` is the price history of `points`: ordered by strictly
/// increasing day, one price for each day that some point is on, and that
/// price the amount of the first point on the day.
pub open spec fn is_price_history_of(prices: Seq<(int, int)>, points: Seq<(int, int)>) -> bool {
    &&& forall|i: int, j: int| 0 <= i < j < prices.len() ==> #[trigger] prices[i].0 < #[trigger] prices[j].0
    &&& forall|i: int| 0 <= i < prices.len() ==> first_amount_on(points, #[trigger] prices[i].0) == Some(prices[i].1)
    &&& forall|j: int| 0 <= j < points.len() ==> #[trigger] has_day(prices, points[j].0)
}

/// Some price of the history is on the day.
pub open spec fn has_day(prices: Seq<(int, int)>, day: int) -> bool {
    exists|i: int| 0 <= i < prices.len() && #[trigger] prices[i].0 == day
}

/// Two strictly increasing sequences of days that hold the same days are
/// the same sequence.
proof fn lemma_increasing_same_days(a: Seq<(int, int)>, b: Seq<(int, int)>)
    requires
        forall|i: int, j: int| 0 <= i < j < a.len() ==> #[trigger] a[i].0 < #[trigger] a[j].0,
        forall|i: int, j: int| 0 <= i < j < b.len() ==> #[trigger] b[i].0 < #[trigger] b[j].0,
        forall|i: int| 0 <= i < a.len() ==> #[trigger] has_day(b, a[i].0),
        forall|j: int| 0 <= j < b.len() ==> #[trigger] has_day(a, b[j].0),
    ensures
        a.len() == b.len(),
        forall|i: int| 0 <= i < a.len() ==> #[trigger] a[i].0 == b[i].0,
    decreases a.len(),
{
    if a.len() == 0 {
        if b.len() > 0 {
            assert(has_day(a, b[0].0));
        }
    } else {
        assert(has_day(a, b[0].0) || b.len() == 0);
        if b.len() == 0 {
            assert(has_day(b, a[0].0));
        }
        assert(has_day(b, a[0].0));
        let j = choose|j: int| 0 <= j < b.len() && #[trigger] b[j].0 == a[0].0;
        assert(has_day(a, b[0].0));
        let i = choose|i: int| 0 <= i < a.len() && #[trigger] a[i].0 == b[0].0;
        if j > 0 {
            assert(b[0].0 < b[j].0);
            if i > 0 {
                assert(a[0].0 < a[i].0);
            }
        }
        assert(a[0].0 == b[0].0);
        let a1 = a.drop_first();
        let b1 = b.drop_first();
        assert forall|k: int| 0 <= k < a1.len() implies #[trigger] has_day(b1, a1[k].0) by {
            assert(a1[k] == a[k + 1]);
            assert(has_day(b, a[k + 1].0));
            let m = choose|m: int| 0 <= m < b.len() && #[trigger] b[m].0 == a[k + 1].0;
            assert(a[0].0 < a[k + 1].0);
            assert(m != 0);
            assert(b1[m - 1] == b[m]);
        }
        assert forall|k: int| 0 <= k < b1.len() implies #[trigger] has_day(a1, b1[k].0) by {
            assert(b1[k] == b[k + 1]);
            assert(has_day(a, b[k + 1].0));
            let m = choose|m: int| 0 <= m < a.len() && #[trigger] a[m].0 == b[k + 1].0;
            assert(b[0].0 < b[k + 1].0);
            assert(m != 0);
            assert(a1[m - 1] == a[m]);
        }
        assert forall|x: int, y: int| 0 <= x < y < a1.len() implies #[trigger] a1[x].0 < #[trigger] a1[y].0 by {
            assert(a1[x] == a[x + 1] && a1[y] == a[y + 1]);
        }
        assert forall|x: int, y: int| 0 <= x < y < b1.len() implies #[trigger] b1[x].0 < #[trigger] b1[y].0 by {
            assert(b1[x] == b[x + 1] && b1[y] == b[y + 1]);
        }
        lemma_increasing_same_days(a1, b1);
        assert forall|k: int| 0 <= k < a.len() implies #[trigger] a[k].0 == b[k].0 by {
            if k > 0 {
                assert(a1[k - 1] == a[k] && b1[k - 1] == b[k]);
            }
        }
    }
}

/// A sequence of price points has exactly one price history: the contract
/// of `price_history` and `fund_details_from` fixes their result.
pub proof fn lemma_price_history_unique(a: Seq<(int, int)>, b: Seq<(int, int)>, points: Seq<(int, int)>)
    requires
        is_price_history_of(a, points),
        is_price_history_of(b, points),
    ensures
        a == b,
{
    assert forall|i: int| 0 <= i < a.len() implies #[trigger] has_day(b, a[i].0) by {
        assert(first_amount_on(points, a[i].0) == Some(a[i].1));
        lemma_first_amount_has_point(points, a[i].0);
        let j = choose|j: int| 0 <= j < points.len() && #[trigger] points[j].0 == a[i].0;
        assert(has_day(b, points[j].0));
    }
    assert forall|i: int| 0 <= i < b.len() implies #[trigger] has_day(a, b[i].0) by {
        assert(first_amount_on(points, b[i].0) == Some(b[i].1));
        lemma_first_amount_has_point(points, b[i].0);
        let j = choose|j: int| 0 <= j < points.len() && #[trigger] points[j].0 == b[i].0;
        assert(has_day(a, points[j].0));
    }
    lemma_increasing_same_days(a, b);
    assert forall|i: int| 0 <= i < a.len() implies a[i] == b[i] by {
        assert(a[i].0 == b[i].0);
        assert(first_amount_on(points, a[i].0) == Some(a[i].1));
        assert(first_amount_on(points, b[i].0) == Some(b[i].1));
    }
    assert(a =~= b);
}

/// The views of a sequence of price points.
pub open spec fn points_view(points: Seq<PricePoint>) -> Seq<(int, int)> {
    points.map_values(|p: PricePoint| p@)
}

/// A day that has a first amount is the day of some point.
proof fn lemma_first_amount_has_point(points: Seq<(int, int)>, day: int)
    requires
        first_amount_on(points, day) is Some,
    ensures
        exists|j: int| 0 <= j < points.len() && #[trigger] points[j].0 == day,
    decreases points.len(),
{
    if first_amount_on(points.drop_last(), day) is Some {
        lemma_first_amount_has_point(points.drop_last(), day);
        let j = choose|j: int| 0 <= j < points.drop_last().len() && #[trigger] points.drop_last()[j].0 == day;
        assert(points[j].0 == day);
    } else {
        assert(points[points.len() - 1].0 == day);
    }
}

/// Position in `prices` (ordered by day) of the first price on or after `day`.
fn position_for(prices: &Vec<PricePoint>, day: &Date) -> (r: usize)
    requires
        forall|i: int, j: int| 0 <= i < j < prices@.len() ==> #[trigger] prices@[i]@.0 < #[trigger] prices@[j]@.0,
    ensures
        r <= prices@.len(),
        forall|i: int| 0 <= i < r ==> #[trigger] prices@[i]@.0 < day@,
        r < prices@.len() ==> prices@[r as int]@.0 >= day@,
{
    let mut i: usize = 0;
    while i < prices.len() && prices[i].date.is_before(day)
        invariant
            i <= prices@.len(),
            forall|k: int| 0 <= k < i ==> #[trigger] prices@[k]@.0 < day@,
        decreases prices@.len() - i,
    {
        i = i + 1;
    }
    i
}

/// The price history of a sequence of price points (see `is_price_history_of`):
/// sorted by day, keeping the first point of each day.
pub fn price_history(points: &Vec<PricePoint>) -> (r: Vec<PricePoint>)
    ensures
        is_price_history_of(points_view(r@), points_view(points@)),
{
    let ghost pts = points_view(points@);
    let mut out: Vec<PricePoint> = Vec::new();
    let mut k: usize = 0;
    while k < points.len()
        invariant
            pts == points_view(points@),
            k <= points@.len(),
            is_price_history_of(points_view(out@), pts.take(k as int)),
        decreases points@.len() - k,
    {
        let p = points[k];
        let ghost before = points_view(out@);
        let ghost prefix = pts.take(k as int);
        let ghost next = pts.take(k + 1);
        assert(next.drop_last() =~= prefix);
        assert(next.last() == p@);
        assert forall|d: int| first_amount_on(prefix, d) is Some implies first_amount_on(next, d)
            == first_amount_on(prefix, d) by {}
        assert forall|i: int, j: int| 0 <= i < j < out@.len() implies #[trigger] out@[i]@.0
            < #[trigger] out@[j]@.0 by {
            assert(before[i] == out@[i]@ && before[j] == out@[j]@);
        }
        let pos = position_for(&out, &p.date);
        assert forall|i: int| 0 <= i < pos implies #[trigger] before[i].0 < p@.0 by {
            assert(before[i] == out@[i]@);
        }
        if pos < out.len() && out[pos].date.num_days_from_ce() == p.date.num_days_from_ce() {
            // The day already has its first price.
            assert(before[pos as int].0 == p@.0);
            assert forall|j: int| 0 <= j < next.len() implies #[trigger] has_day(before, next[j].0) by {
                if j < k {
                    assert(next[j] == prefix[j]);
                    assert(has_day(before, prefix[j].0));
                } else {
                    assert(before[pos as int].0 == next[j].0);
                }
            }
        } else {
            proof {
                if first_amount_on(prefix, p@.0) is Some {
                    lemma_first_amount_has_point(prefix, p@.0);
                    let j = choose|j: int| 0 <= j < prefix.len() && #[trigger] prefix[j].0 == p@.0;
                    assert(has_day(before, prefix[j].0));
                    let i = choose|i: int| 0 <= i < before.len() && #[trigger] before[i].0 == prefix[j].0;
                    if i < pos {
                    } else if i > pos {
                        assert(before[pos as int].0 < before[i].0);
                    }
                }
            }
            assert(first_amount_on(next, p@.0) == Some(p@.1));
            out.insert(pos, p);
            let ghost after = points_view(out@);
            assert(after =~= before.insert(pos as int, p@));
            assert forall|i: int, j: int| 0 <= i < j < after.len() implies #[trigger] after[i].0
                < #[trigger] after[j].0 by {
                if j < pos {
                } else if j == pos {
                } else if i < pos {
                    assert(after[j] == before[j - 1]);
                    if pos < before.len() {
                        assert(before[pos as int].0 <= before[j - 1].0);
                    }
                } else if i == pos {
                    assert(after[j] == before[j - 1]);
                    assert(before[pos as int].0 <= before[j - 1].0);
                } else {
                    assert(after[i] == before[i - 1]);
                    assert(after[j] == before[j - 1]);
                }
            }
            assert forall|i: int| 0 <= i < after.len() implies first_amount_on(
                next,
                #[trigger] after[i].0,
            ) == Some(after[i].1) by {
                if i < pos {
                    assert(after[i] == before[i]);
                } else if i > pos {
                    assert(after[i] == before[i - 1]);
                }
            }
            assert forall|j: int| 0 <= j < next.len() implies #[trigger] has_day(after, next[j].0) by {
                if j < k {
                    assert(next[j] == prefix[j]);
                    assert(has_day(before, prefix[j].0));
                    let i = choose|i: int| 0 <= i < before.len() && #[trigger] before[i].0 == prefix[j].0;
                    if i < pos {
                        assert(after[i] == before[i]);
                    } else {
                        assert(after[i + 1] == before[i]);
                    }
                } else {
                    assert(after[pos as int].0 == next[j].0);
                }
            }
        }
        k = k + 1;
    }
    assert(pts.take(points@.len() as int) =~= pts);
    out
}

/// Reads the listings into price points, in order; the first listing that
/// does not read is an error.
fn listings_to_points(listings: &Vec<MFAPIListing>) -> (r: Result<Vec<PricePoint>, FundDataError>)
    ensures
        match r {
            Ok(points) => listings_points(listings_view(listings@)) == Ok::<Seq<(int, int)>, FundFailure>(points_view(points@)),
            Err(e) => listings_points(listings_view(listings@)) == Err::<Seq<(int, int)>, FundFailure>(e.failure()),
        },
{
    let ghost ls = listings_view(listings@);
    let mut points: Vec<PricePoint> = Vec::new();
    let mut i: usize = 0;
    assert(ls.take(0) =~= seq![]);
    assert(points_view(points@) =~= seq![]);
    while i < listings.len()
        invariant
            ls == listings_view(listings@),
            i <= listings@.len(),
            listings_points(ls.take(i as int)) == Ok::<Seq<(int, int)>, FundFailure>(points_view(points@)),
        decreases listings@.len() - i,
    {
        let ghost before = points_view(points@);
        assert(ls.take(i + 1).drop_last() =~= ls.take(i as int));
        assert(ls.take(i + 1).last() == (listings@[i as int].date@, listings@[i as int].nav@));
        let date = match Date::parse_from_str(listings[i].date.as_str(), "%d-%m-%Y") {
            Ok(d) => d,
            Err(message) => {
                proof { lemma_points_fail(ls, i as int); }
                return Err(FundDataError::InvalidDate(message));
            },
        };
        let amount = match parse_inr_minor_units(listings[i].nav.as_str()) {
            Ok(a) => a,
            Err(message) => {
                proof { lemma_points_fail(ls, i as int); }
                return Err(FundDataError::InvalidAmount(message));
            },
        };
        points.push(PricePoint { date, amount });
        assert(points_view(points@) =~= before.push((date@, amount as int)));
        i = i + 1;
    }
    assert(ls.take(listings@.len() as int) =~= ls);
    Ok(points)
}

/// Once every listing before `i` reads, the history fails exactly as listing
/// `i` does, if it does not read.
proof fn lemma_points_fail(ls: Seq<(Seq<char>, Seq<char>)>, i: int)
    requires
        0 <= i < ls.len(),
        listings_points(ls.take(i)) is Ok,
        listing_point(ls[i].0, ls[i].1) is Err,
    ensures
        listings_points(ls) == Err::<Seq<(int, int)>, FundFailure>(
            listing_point(ls[i].0, ls[i].1)->Err_0,
        ),
    decreases ls.len() - i,
{
    let e = listing_point(ls[i].0, ls[i].1)->Err_0;
    assert(ls.take(i + 1).drop_last() =~= ls.take(i));
    assert(listings_points(ls.take(i + 1)) == Err::<Seq<(int, int)>, FundFailure>(e));
    lemma_points_fail_extends(ls, i + 1, e);
}

/// A failed prefix makes every longer prefix fail the same way.
proof fn lemma_points_fail_extends(ls: Seq<(Seq<char>, Seq<char>)>, n: int, e: FundFailure)
    requires
        0 <= n <= ls.len(),
        listings_points(ls.take(n)) == Err::<Seq<(int, int)>, FundFailure>(e),
    ensures
        listings_points(ls) == Err::<Seq<(int, int)>, FundFailure>(e),
    decreases ls.len() - n,
{
    if n == ls.len() {
        assert(ls.take(n) =~= ls);
    } else {
        assert(ls.take(n + 1).drop_last() =~= ls.take(n));
        lemma_points_fail_extends(ls, n + 1, e);
    }
}

/// A fund's details from an mfapi.in response: its house and scheme, and the
/// price history of its listings (see `is_price_history_of`).
pub fn fund_details_from(result: MFAPIResult) -> (r: Result<FundDetails, FundDataError>)
    ensures
        match r {
            Ok(details) => {
                &&& listings_points(listings_view(result.data@)) is Ok
                &&& details.fund_house@ == result.meta.fund_house@
                &&& details.scheme_name@ == result.meta.scheme_name@
                &&& is_price_history_of(
                    points_view(details.prices@),
                    listings_points(listings_view(result.data@))->Ok_0,
                )
            },
            Err(e) => listings_points(listings_view(result.data@)) == Err::<Seq<(int, int)>, FundFailure>(e.failure()),
        },
{
    let points = match listings_to_points(&result.data) {
        Ok(p) => p,
        Err(e) => return Err(e),
    };
    let prices = price_history(&points);
    Ok(FundDetails { fund_house: result.meta.fund_house, scheme_name: result.meta.scheme_name, prices })
}

} // verus!
