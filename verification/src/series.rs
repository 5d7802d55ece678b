//! Date-keyed closing-price series.
//!
//! A [`Series`] maps calendar dates to closing prices over the lookback
//! window of one instrument.  Dates are day numbers (days since the UNIX
//! epoch, UTC); prices are carried as the bit patterns of their IEEE-754
//! encoding, which this library treats as opaque values — all numerical
//! work on them happens outside the verified core.  The points are held
//! sorted by date with no duplicate dates, so every consumer that needs
//! chronological order gets it for free.

use vstd::prelude::*;

verus! {

/// One day's closing price: the calendar date as a day number, and the
/// price as the bit pattern of its IEEE-754 encoding.
#[derive(Clone, Copy, Debug, PartialEq, Eq, Structural)]
pub struct PricePoint {
    pub date: i64,
    pub price_bits: u64,
}

/// The dates of a run of price points, in order.
pub open spec fn spec_dates(points: Seq<PricePoint>) -> Seq<int> {
    points.map_values(|p: PricePoint| p.date as int)
}

/// Last-write-wins lookup in a run of price points: the price of the
/// latest point carrying the date, if any.
pub open spec fn spec_lookup(points: Seq<PricePoint>, d: int) -> Option<u64>
    decreases points.len(),
{
    if points.len() == 0 {
        None
    } else if points.last().date == d {
        Some(points.last().price_bits)
    } else {
        spec_lookup(points.drop_last(), d)
    }
}

/// No two points carry the same date.
pub open spec fn spec_unique_dates(points: Seq<PricePoint>) -> bool {
    forall|i: int, j: int|
        0 <= i < j < points.len() ==> points[i].date != points[j].date
}

/// A lookup finds a price exactly when some point carries the date.
pub proof fn lemma_lookup_contains(points: Seq<PricePoint>, d: int)
    ensures
        (spec_lookup(points, d) is Some) <==> spec_dates(points).contains(d),
    decreases points.len(),
{
    if points.len() == 0 {
        assert(!spec_dates(points).contains(d));
    } else {
        lemma_lookup_contains(points.drop_last(), d);
        assert(spec_dates(points.drop_last()) =~= spec_dates(points).drop_last());
        if points.last().date == d {
            assert(spec_dates(points)[points.len() - 1] == d);
        } else {
            if spec_dates(points).contains(d) {
                let i = choose|i: int|
                    0 <= i < spec_dates(points).len() && spec_dates(points)[i] == d;
                assert(spec_dates(points).drop_last()[i] == d);
            }
            if spec_dates(points).drop_last().contains(d) {
                let i = choose|i: int|
                    0 <= i < spec_dates(points).drop_last().len()
                        && spec_dates(points).drop_last()[i] == d;
                assert(spec_dates(points)[i] == d);
            }
        }
    }
}

/// With unique dates, a lookup of the date at index `i` finds exactly the
/// price at index `i`.
pub proof fn lemma_lookup_at_index(points: Seq<PricePoint>, i: int)
    requires
        spec_unique_dates(points),
        0 <= i < points.len(),
    ensures
        spec_lookup(points, points[i].date as int) == Some(points[i].price_bits),
    decreases points.len(),
{
    if i == points.len() - 1 {
    } else {
        assert(points.last().date != points[i].date);
        lemma_lookup_at_index(points.drop_last(), i);
    }
}

/// A date-keyed closing-price series, sorted by date.
#[derive(Debug)]
pub struct Series {
    pub points: Vec<PricePoint>,
}

impl Series {
    /// Points are strictly increasing by date: sorted, with no duplicate
    /// dates.
    pub open spec fn wf(self) -> bool {
        forall|i: int, j: int|
            0 <= i < j < self.points@.len() ==> self.points@[i].date < self.points@[j].date
    }

    /// The price recorded for a date, if any.
    pub open spec fn spec_get(self, d: int) -> Option<u64> {
        spec_lookup(self.points@, d)
    }

    pub open spec fn spec_len(self) -> nat {
        self.points@.len()
    }

    /// A well-formed series has unique dates.
    pub proof fn lemma_wf_unique(self)
        requires
            self.wf(),
        ensures
            spec_unique_dates(self.points@),
    {
    }

    /// An empty series.
    pub fn new() -> (s: Series)
        ensures
            s.wf(),
            s.spec_len() == 0,
            forall|d: int| s.spec_get(d) is None,
    {
        Series { points: Vec::new() }
    }

    /// How many dates the series covers.
    pub fn len(&self) -> (n: usize)
        ensures
            n == self.spec_len(),
    {
        self.points.len()
    }

    /// Whether the series covers no date at all.
    pub fn is_empty(&self) -> (r: bool)
        ensures
            r == (self.spec_len() == 0),
    {
        self.points.len() == 0
    }

    /// Whether a price is recorded for the date.
    pub fn contains_date(&self, date: i64) -> (r: bool)
        ensures
            r == (self.spec_get(date as int) is Some),
    {
        proof {
            lemma_lookup_contains(self.points@, date as int);
        }
        let n = self.points.len();
        let mut i: usize = 0;
        while i < n
            invariant
                i <= n,
                n == self.points@.len(),
                forall|j: int| 0 <= j < i ==> self.points@[j].date != date,
            decreases n - i,
        {
            if self.points[i].date == date {
                proof {
                    lemma_lookup_contains(self.points@, date as int);
                    assert(spec_dates(self.points@)[i as int] == date);
                    assert(spec_dates(self.points@).contains(date as int));
                }
                return true;
            }
            i = i + 1;
        }
        proof {
            if spec_dates(self.points@).contains(date as int) {
                let k = choose|k: int|
                    0 <= k < spec_dates(self.points@).len()
                        && spec_dates(self.points@)[k] == date;
                assert(self.points@[k].date == date);
            }
        }
        false
    }

    /// The price recorded for the date, if any.
    pub fn get(&self, date: i64) -> (r: Option<u64>)
        requires
            self.wf(),
        ensures
            r == self.spec_get(date as int),
    {
        let n = self.points.len();
        let mut i: usize = 0;
        while i < n
            invariant
                i <= n,
                n == self.points@.len(),
                forall|j: int| 0 <= j < i ==> self.points@[j].date != date,
                self.wf(),
            decreases n - i,
        {
            if self.points[i].date == date {
                proof {
                    self.lemma_wf_unique();
                    lemma_lookup_at_index(self.points@, i as int);
                }
                return Some(self.points[i].price_bits);
            }
            i = i + 1;
        }
        proof {
            lemma_lookup_contains(self.points@, date as int);
            if spec_dates(self.points@).contains(date as int) {
                let k = choose|k: int|
                    0 <= k < spec_dates(self.points@).len()
                        && spec_dates(self.points@)[k] == date;
                assert(self.points@[k].date == date);
            }
        }
        None
    }

    /// Records a price for a date; a price already recorded for the same
    /// date is overwritten (last write wins).
    pub fn insert(&mut self, date: i64, price_bits: u64)
        requires
            old(self).wf(),
        ensures
            final(self).wf(),
            forall|d: int| #[trigger] final(self).spec_get(d) == (if d == date as int {
                Some(price_bits)
            } else {
                old(self).spec_get(d)
            }),
            final(self).spec_len() == old(self).spec_len() + (if old(self).spec_get(
                date as int,
            ) is Some {
                0int
            } else {
                1int
            }),
    {
        let ghost orig: Seq<PricePoint> = self.points@;
        let n = self.points.len();
        let mut i: usize = 0;
        while i < n && self.points[i].date < date
            invariant
                i <= n,
                n == self.points@.len(),
                self.points@ == orig,
                forall|j: int| 0 <= j < i ==> self.points@[j].date < date,
            decreases n - i,
        {
            i = i + 1;
        }
        proof {
            self.lemma_wf_unique();
            lemma_lookup_contains(orig, date as int);
        }
        if i < n && self.points[i].date == date {
            let point = PricePoint { date, price_bits };
            self.points[i] = point;
            proof {
                let np = self.points@;
                assert(np == orig.update(i as int, point));
                assert(final(self).wf());
                assert(spec_unique_dates(np));
                assert(spec_dates(orig)[i as int] == date);
                assert(orig.contains(orig[i as int]));
                assert(spec_lookup(orig, date as int) is Some) by {
                    assert(spec_dates(orig).contains(date as int));
                }
                assert forall|d: int| #[trigger] spec_lookup(np, d) == (if d == date as int {
                    Some(price_bits)
                } else {
                    spec_lookup(orig, d)
                }) by {
                    lemma_lookup_contains(np, d);
                    lemma_lookup_contains(orig, d);
                    if d == date as int {
                        lemma_lookup_at_index(np, i as int);
                    } else {
                        assert(spec_dates(np) =~= spec_dates(orig).update(i as int, date as int));
                        if spec_lookup(orig, d) is Some {
                            let k = choose|k: int|
                                0 <= k < orig.len() && spec_dates(orig)[k] == d;
                            assert(orig[k].date == d);
                            assert(k != i);
                            lemma_lookup_at_index(orig, k);
                            lemma_lookup_at_index(np, k);
                        } else {
                            if spec_dates(np).contains(d) {
                                let k = choose|k: int|
                                    0 <= k < np.len() && spec_dates(np)[k] == d;
                                assert(k != i);
                                assert(spec_dates(orig)[k] == d);
                            }
                        }
                    }
                }
            }
        } else {
            let point = PricePoint { date, price_bits };
            proof {
                assert(forall|j: int| i <= j < orig.len() ==> orig[j].date > date) by {
                    assert(forall|j: int|
                        i < j < orig.len() ==> orig[j].date > #[trigger] orig[i as int].date);
                }
                assert(!spec_dates(orig).contains(date as int)) by {
                    if spec_dates(orig).contains(date as int) {
                        let k = choose|k: int|
                            0 <= k < orig.len() && spec_dates(orig)[k] == date;
                        assert(orig[k].date == date);
                    }
                }
            }
            self.points.insert(i, point);
            proof {
                let np = self.points@;
                assert(np == orig.insert(i as int, point));
                assert forall|a: int, b: int|
                    0 <= a < b < np.len() implies np[a].date < np[b].date by {
                    if a < i && b < i {
                    } else if a < i && b == i {
                    } else if a < i && b > i {
                        assert(np[b] == orig[b - 1]);
                    } else if a == i {
                        assert(np[b] == orig[b - 1]);
                    } else {
                        assert(np[a] == orig[a - 1]);
                        assert(np[b] == orig[b - 1]);
                    }
                }
                assert(final(self).wf());
                assert(spec_unique_dates(np));
                assert forall|d: int| #[trigger] spec_lookup(np, d) == (if d == date as int {
                    Some(price_bits)
                } else {
                    spec_lookup(orig, d)
                }) by {
                    lemma_lookup_contains(np, d);
                    lemma_lookup_contains(orig, d);
                    if d == date as int {
                        assert(np[i as int] == point);
                        lemma_lookup_at_index(np, i as int);
                    } else {
                        if spec_lookup(orig, d) is Some {
                            let k = choose|k: int|
                                0 <= k < orig.len() && spec_dates(orig)[k] == d;
                            assert(orig[k].date == d);
                            let k2 = if k < i {
                                k
                            } else {
                                k + 1
                            };
                            assert(np[k2] == orig[k]);
                            lemma_lookup_at_index(orig, k);
                            lemma_lookup_at_index(np, k2);
                        } else {
                            if spec_dates(np).contains(d) {
                                let k = choose|k: int|
                                    0 <= k < np.len() && spec_dates(np)[k] == d;
                                if k < i {
                                    assert(spec_dates(orig)[k] == d);
                                } else {
                                    assert(k != i);
                                    assert(np[k] == orig[k - 1]);
                                    assert(spec_dates(orig)[k - 1] == d);
                                }
                            }
                        }
                    }
                }
            }
        }
    }

    /// The closing prices of the series in chronological order.
    pub fn prices(&self) -> (r: Vec<u64>)
        ensures
            r@ == self.points@.map_values(|p: PricePoint| p.price_bits),
    {
        let n = self.points.len();
        let mut out: Vec<u64> = Vec::new();
        let mut i: usize = 0;
        while i < n
            invariant
                i <= n,
                n == self.points@.len(),
                out@ =~= self.points@.take(i as int).map_values(|p: PricePoint| p.price_bits),
            decreases n - i,
        {
            out.push(self.points[i].price_bits);
            proof {
                assert(self.points@.take(i + 1).drop_last() =~= self.points@.take(i as int));
                assert(self.points@.take(i + 1).map_values(|p: PricePoint| p.price_bits)
                    =~= self.points@.take(i as int).map_values(|p: PricePoint| p.price_bits).push(
                    self.points@[i as int].price_bits,
                ));
            }
            i = i + 1;
        }
        proof {
            assert(self.points@.take(n as int) =~= self.points@);
        }
        out
    }
}

} // verus!
