//! The series fetcher: the lookback window, the quote-chart URL, and the
//! construction of a [`Series`] from the arrays of the upstream document.
//!
//! The network call itself and the JSON decoding live outside the
//! verified core; what arrives here are the plain close-price and
//! timestamp arrays of the document (a missing close entry — an untraded
//! day — arrives as `None`).

use crate::dec::{i64_to_string, spec_dec_int};
use crate::errors::ServiceError;
use crate::series::{spec_lookup, PricePoint, Series};
use crate::token::{spec_id, Token};
use vstd::arithmetic::div_mod::lemma_fundamental_div_mod_converse;
use vstd::prelude::*;
use vstd::string::StringExecFns;

verus! {

/// Number of seconds in one calendar day.
pub const SECONDS_PER_DAY: u64 = 86400;

/// Length of the lookback window, in days.
pub const LOOKBACK_DAYS: u64 = 365;

/// Length of the lookback window, in seconds.
pub const LOOKBACK_SECONDS: u64 = 365 * 86400;

/// The calendar day (days since the UNIX epoch, UTC) containing a UNIX
/// timestamp: time-of-day is truncated, so day `d` covers the seconds
/// `d * 86400 ..< (d + 1) * 86400`.
pub open spec fn spec_day_of_timestamp(ts: int) -> int {
    ts / 86400
}

/// Truncates a UNIX timestamp to its calendar day number.
pub fn day_of_timestamp(ts: i64) -> (d: i64)
    ensures
        d == spec_day_of_timestamp(ts as int),
{
    if ts >= 0 {
        ((ts as u64) / SECONDS_PER_DAY) as i64
    } else {
        let magnitude: u64 = ((-(ts + 1)) as u64) + 1;
        let q = magnitude / SECONDS_PER_DAY;
        let r = magnitude % SECONDS_PER_DAY;
        proof {
            assert(magnitude == -(ts as int));
            if r == 0 {
                lemma_fundamental_div_mod_converse(ts as int, 86400, -(q as int), 0);
            } else {
                lemma_fundamental_div_mod_converse(
                    ts as int,
                    86400,
                    -(q as int) - 1,
                    86400 - r as int,
                );
            }
        }
        if r == 0 {
            -(q as i64)
        } else {
            -(q as i64) - 1
        }
    }
}

/// The lookback window ending at `now`: the trailing 365 days, as a pair
/// of UNIX-timestamp bounds (start, end).
pub fn lookback_window(now: i64) -> (w: (i64, i64))
    requires
        0 <= now,
    ensures
        w.0 == now - LOOKBACK_SECONDS,
        w.1 == now,
{
    (now - (LOOKBACK_SECONDS as i64), now)
}

/// Relies on chrono's `Local::now` and `DateTime::timestamp`: the current
/// wall-clock instant, as whole seconds since the UNIX epoch.  Nothing is
/// assumed of the clock's reading.  (chrono's clock source refuses a
/// system clock set before the epoch, but no contract here depends on
/// that.)
#[verifier::external_body]
fn now_unix_timestamp() -> i64 {
    chrono::Local::now().timestamp()
}

/// The lookback window ending now.  The clock reading is clamped to the
/// epoch defensively — chrono does not actually hand out a negative
/// reading — so the window is well-formed whatever comes back.
pub fn current_lookback_window() -> (w: (i64, i64))
    ensures
        w.1 - w.0 == LOOKBACK_SECONDS,
        0 <= w.1,
{
    let now = now_unix_timestamp();
    let now = if now < 0 {
        0
    } else {
        now
    };
    lookback_window(now)
}

/// The URL under which the quote-chart API serves the daily bars of an
/// instrument between two UNIX-timestamp bounds.
pub open spec fn spec_url(t: Token, period1: int, period2: int) -> Seq<char> {
    "https://query1.finance.yahoo.com/v8/finance/chart/"@ + spec_id(t) + "?period1="@
        + spec_dec_int(period1) + "&period2="@ + spec_dec_int(period2)
        + "&interval=1d&includePrePost=true&events=div%7Csplit%7Cearn&&lang=en-US&region=US"@
}

/// Builds the quote-chart URL for an instrument and a window.
pub fn build_url(token: &Token, period1: i64, period2: i64) -> (r: String)
    ensures
        r@ == spec_url(*token, period1 as int, period2 as int),
{
    let mut out = String::from_str("https://query1.finance.yahoo.com/v8/finance/chart/");
    out.append(token.id());
    out.append("?period1=");
    let p1 = i64_to_string(period1);
    out.append(p1.as_str());
    out.append("&period2=");
    let p2 = i64_to_string(period2);
    out.append(p2.as_str());
    out.append("&interval=1d&includePrePost=true&events=div%7Csplit%7Cearn&&lang=en-US&region=US");
    out
}

/// The close prices that survive filtering: entries the document encodes
/// as null (untraded days) are discarded, in order.
pub open spec fn spec_kept(closes: Seq<Option<u64>>) -> Seq<u64>
    decreases closes.len(),
{
    if closes.len() == 0 {
        Seq::empty()
    } else {
        let rest = spec_kept(closes.drop_last());
        match closes.last() {
            Some(b) => rest.push(b),
            None => rest,
        }
    }
}

/// Filtering a prefix keeps no more entries than filtering the whole.
pub proof fn lemma_kept_len_monotone(closes: Seq<Option<u64>>, i: int)
    requires
        0 <= i <= closes.len(),
    ensures
        spec_kept(closes.take(i)).len() <= spec_kept(closes).len(),
    decreases closes.len() - i,
{
    if i == closes.len() {
        assert(closes.take(i) =~= closes);
    } else {
        assert(closes.take(i + 1).drop_last() =~= closes.take(i));
        lemma_kept_len_monotone(closes, i + 1);
    }
}

/// The (date, price) records the fetcher zips together: the `j`-th
/// surviving close price is paired positionally with the calendar day of
/// the `j`-th timestamp.
pub open spec fn spec_pairs(timestamps: Seq<i64>, closes: Seq<Option<u64>>) -> Seq<PricePoint> {
    Seq::new(
        spec_kept(closes).len(),
        |j: int|
            PricePoint {
                date: spec_day_of_timestamp(timestamps[j] as int) as i64,
                price_bits: spec_kept(closes)[j],
            },
    )
}

/// Builds the series of a chart document from its two arrays: null
/// closes are discarded, the survivors are zipped positionally with the
/// timestamps' calendar days, and when one date appears twice the last
/// write survives.
pub fn build_series(timestamps: &Vec<i64>, closes: &Vec<Option<u64>>) -> (r: Series)
    requires
        spec_kept(closes@).len() <= timestamps@.len(),
    ensures
        r.wf(),
        forall|d: int| #[trigger] r.spec_get(d) == spec_lookup(
            spec_pairs(timestamps@, closes@),
            d,
        ),
{
    let mut series = Series::new();
    let n = closes.len();
    let ts_len = timestamps.len();
    let mut i: usize = 0;
    let mut k: usize = 0;
    proof {
        assert(closes@.take(0) =~= Seq::<Option<u64>>::empty());
        assert(spec_pairs(timestamps@, closes@.take(0)) =~= Seq::<PricePoint>::empty());
    }
    while i < n
        invariant
            i <= n,
            n == closes@.len(),
            ts_len == timestamps@.len(),
            spec_kept(closes@).len() <= timestamps@.len(),
            k == spec_kept(closes@.take(i as int)).len(),
            series.wf(),
            forall|d: int| #[trigger] series.spec_get(d) == spec_lookup(
                spec_pairs(timestamps@, closes@.take(i as int)),
                d,
            ),
        decreases n - i,
    {
        proof {
            assert(closes@.take(i + 1).drop_last() =~= closes@.take(i as int));
            lemma_kept_len_monotone(closes@, i + 1);
        }
        match closes[i] {
            Some(price_bits) => {
                proof {
                    assert(spec_kept(closes@.take(i + 1)) =~= spec_kept(
                        closes@.take(i as int),
                    ).push(price_bits));
                }
                let date = day_of_timestamp(timestamps[k]);
                let ghost point = PricePoint { date, price_bits };
                proof {
                    assert(spec_pairs(timestamps@, closes@.take(i + 1)) =~= spec_pairs(
                        timestamps@,
                        closes@.take(i as int),
                    ).push(point));
                    assert(spec_pairs(timestamps@, closes@.take(i + 1)).drop_last() =~= spec_pairs(
                        timestamps@,
                        closes@.take(i as int),
                    ));
                }
                series.insert(date, price_bits);
                proof {
                    assert(k + 1 == spec_kept(closes@.take(i + 1)).len());
                    assert(k + 1 <= ts_len);
                }
                k = k + 1;
            },
            None => {
                proof {
                    assert(spec_kept(closes@.take(i + 1)) =~= spec_kept(closes@.take(i as int)));
                    assert(spec_pairs(timestamps@, closes@.take(i + 1)) =~= spec_pairs(
                        timestamps@,
                        closes@.take(i as int),
                    ));
                }
            },
        }
        i = i + 1;
    }
    proof {
        assert(closes@.take(n as int) =~= closes@);
    }
    series
}

/// Turns the decoded chart document of one instrument into its series.
///
/// The document is malformed — and the fetch fails naming the
/// instrument — when the close-price array or the timestamp array is
/// absent; otherwise the series is built as in [`build_series`].
pub fn chart_to_series(
    token: Token,
    timestamps: &Option<Vec<i64>>,
    closes: &Option<Vec<Option<u64>>>,
) -> (r: Result<Series, ServiceError>)
    requires
        (timestamps is Some && closes is Some) ==> spec_kept((closes->0)@).len() <= (
        timestamps->0)@.len(),
    ensures
        (timestamps is Some && closes is Some) <==> r is Ok,
        r matches Ok(s) ==> {
            &&& s.wf()
            &&& forall|d: int| #[trigger] s.spec_get(d) == spec_lookup(
                spec_pairs((timestamps->0)@, (closes->0)@),
                d,
            )
        },
        r matches Err(e) ==> e matches ServiceError::MalformedUpstreamData { token: t } && t
            == token,
{
    match (timestamps, closes) {
        (Some(ts), Some(cl)) => Ok(build_series(ts, cl)),
        _ => Err(ServiceError::MalformedUpstreamData { token }),
    }
}

} // verus!
