//! The structural half of the statistics engine.
//!
//! The engine's numbers are IEEE-754 doubles, which this library carries
//! only as opaque bit patterns; the arithmetic itself (means, deviation
//! products, logarithms, square roots) happens outside the verified
//! core.  What is decided here — and proved — is the shape of the
//! computation: which prices enter it, in which order and in which
//! pairs, and on which inputs the engine refuses to compute at all.

use crate::errors::ServiceError;
use crate::series::{PricePoint, Series};
use vstd::prelude::*;

verus! {

/// Trading days per year; log-return volatility is annualized by the
/// square root of this factor.
pub const TRADING_DAYS_PER_YEAR: u64 = 252;

/// The adjacent pairs of a chronological price sequence: pair `i` holds
/// prices `i` and `i + 1`, so a sequence of `n >= 1` prices yields
/// `n - 1` pairs.  The log return of pair `(p, q)` is `ln(q / p)`.
pub open spec fn spec_return_pairs(prices: Seq<u64>) -> Seq<(u64, u64)> {
    if prices.len() == 0 {
        Seq::empty()
    } else {
        Seq::new((prices.len() - 1) as nat, |i: int| (prices[i], prices[i + 1]))
    }
}

/// The price pairs whose log returns make up a return series.
///
/// Fails with `InsufficientSamples` exactly when fewer than two prices
/// are supplied; otherwise returns the `n - 1` adjacent pairs in order.
pub fn log_return_pairs(prices: &Vec<u64>) -> (r: Result<Vec<(u64, u64)>, ServiceError>)
    ensures
        r is Ok <==> prices@.len() >= 2,
        r matches Err(e) ==> e is InsufficientSamples,
        r matches Ok(v) ==> v@ == spec_return_pairs(prices@),
{
    let n = prices.len();
    if n < 2 {
        return Err(ServiceError::InsufficientSamples);
    }
    let mut out: Vec<(u64, u64)> = Vec::new();
    let mut i: usize = 0;
    while i + 1 < n
        invariant
            n == prices@.len(),
            2 <= n,
            i <= n - 1,
            out@.len() == i,
            forall|j: int| 0 <= j < i ==> out@[j] == (prices@[j], prices@[j + 1]),
        decreases n - i,
    {
        out.push((prices[i], prices[i + 1]));
        i = i + 1;
    }
    proof {
        assert(out@ =~= spec_return_pairs(prices@));
    }
    Ok(out)
}

/// The price pairs a realized-volatility computation works through: the
/// series' prices in chronological order, taken as adjacent pairs.
///
/// Fails with `EmptySeries` when the series covers no date at all, and
/// with `InsufficientSamples` when it covers exactly one; a series of
/// `n >= 2` dates yields `n - 1` pairs.
pub fn volatility_prep(series: &Series) -> (r: Result<Vec<(u64, u64)>, ServiceError>)
    requires
        series.wf(),
    ensures
        r is Ok <==> series.spec_len() >= 2,
        series.spec_len() == 0 ==> (r matches Err(e) && e is EmptySeries),
        series.spec_len() == 1 ==> (r matches Err(e) && e is InsufficientSamples),
        r matches Ok(v) ==> v@ == spec_return_pairs(
            series.points@.map_values(|p: PricePoint| p.price_bits),
        ),
{
    if series.is_empty() {
        return Err(ServiceError::EmptySeries);
    }
    let prices = series.prices();
    log_return_pairs(&prices)
}

} // verus!
