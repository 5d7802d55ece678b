//! Reconciling two price series onto their common dates.
//!
//! Both series are restricted to the dates they share: every date one
//! side covers and the other lacks is dropped, and neither side is ever
//! extended.  After alignment the two series have identical key sets —
//! the intersection of the original key sets — and equal length.  An
//! empty intersection fails with [`ServiceError::NoOverlap`]; a
//! cardinality mismatch surviving the restriction would fail with
//! [`ServiceError::AlignmentInconsistency`], a defensive check that is
//! proved never to fire.

use crate::errors::ServiceError;
use crate::series::{spec_dates, spec_lookup, spec_unique_dates, PricePoint, Series};
use crate::token::Token;
use vstd::prelude::*;

verus! {

/// One common date with the closing prices both series record for it.
#[derive(Clone, Copy, Debug, PartialEq, Eq, Structural)]
pub struct AlignedPoint {
    pub date: i64,
    pub price_bits_1: u64,
    pub price_bits_2: u64,
}

/// The points of `points` whose date `keep` also covers, in order.
pub open spec fn spec_restrict(points: Seq<PricePoint>, keep: Seq<PricePoint>) -> Seq<PricePoint>
    decreases points.len(),
{
    if points.len() == 0 {
        Seq::empty()
    } else {
        let rest = spec_restrict(points.drop_last(), keep);
        if spec_lookup(keep, points.last().date as int) is Some {
            rest.push(points.last())
        } else {
            rest
        }
    }
}

/// The common dates of `points` and `other`, each paired with the two
/// recorded prices, in the order of `points`.
pub open spec fn spec_common(points: Seq<PricePoint>, other: Seq<PricePoint>) -> Seq<AlignedPoint>
    decreases points.len(),
{
    if points.len() == 0 {
        Seq::empty()
    } else {
        let rest = spec_common(points.drop_last(), other);
        match spec_lookup(other, points.last().date as int) {
            Some(pb2) => rest.push(
                AlignedPoint {
                    date: points.last().date,
                    price_bits_1: points.last().price_bits,
                    price_bits_2: pb2,
                },
            ),
            None => rest,
        }
    }
}

/// The set of dates a run of points covers.
pub open spec fn spec_key_set(points: Seq<PricePoint>) -> Set<int> {
    spec_dates(points).to_set()
}

/// The dates two series share.
pub open spec fn spec_common_keys(a: Seq<PricePoint>, b: Seq<PricePoint>) -> Set<int> {
    spec_key_set(a).intersect(spec_key_set(b))
}

/// The dates surviving a restriction are exactly the intersection of
/// the original dates with the keeper's key set.
pub proof fn lemma_restrict_keys(points: Seq<PricePoint>, keep: Seq<PricePoint>)
    ensures
        spec_key_set(spec_restrict(points, keep)) == spec_key_set(points).intersect(
            spec_key_set(keep),
        ),
    decreases points.len(),
{
    broadcast use vstd::set::group_set_axioms;

    if points.len() == 0 {
        assert(spec_key_set(spec_restrict(points, keep)) =~= spec_key_set(points).intersect(
            spec_key_set(keep),
        ));
    } else {
        lemma_restrict_keys(points.drop_last(), keep);
        let d = points.last().date as int;
        crate::series::lemma_lookup_contains(keep, d);
        assert(spec_dates(points) =~= spec_dates(points.drop_last()).push(d));
        Seq::lemma_push_to_set_commute(spec_dates(points.drop_last()), d);
        if spec_lookup(keep, d) is Some {
            assert(spec_dates(spec_restrict(points, keep)) =~= spec_dates(
                spec_restrict(points.drop_last(), keep),
            ).push(d));
            Seq::lemma_push_to_set_commute(spec_dates(spec_restrict(points.drop_last(), keep)), d);
            assert(spec_key_set(spec_restrict(points, keep)) =~= spec_key_set(points).intersect(
                spec_key_set(keep),
            ));
        } else {
            assert(spec_key_set(spec_restrict(points, keep)) =~= spec_key_set(points).intersect(
                spec_key_set(keep),
            ));
        }
    }
}

/// With unique dates, the number of common points is the cardinality of
/// the intersection of the two key sets.
pub proof fn lemma_common_count(points: Seq<PricePoint>, other: Seq<PricePoint>)
    requires
        spec_unique_dates(points),
    ensures
        spec_common(points, other).len() == spec_key_set(points).intersect(
            spec_key_set(other),
        ).len(),
    decreases points.len(),
{
    broadcast use vstd::set::group_set_axioms;
    broadcast use vstd::seq_lib::seq_to_set_is_finite;

    if points.len() == 0 {
        assert(spec_key_set(points).intersect(spec_key_set(other)) =~= Set::<int>::empty());
    } else {
        let rest = points.drop_last();
        lemma_common_count(rest, other);
        let d = points.last().date as int;
        crate::series::lemma_lookup_contains(other, d);
        let s_rest = spec_key_set(rest).intersect(spec_key_set(other));
        let s_all = spec_key_set(points).intersect(spec_key_set(other));
        assert(spec_dates(points) =~= spec_dates(rest).push(d));
        Seq::lemma_push_to_set_commute(spec_dates(rest), d);
        assert(!spec_key_set(rest).contains(d)) by {
            if spec_dates(rest).contains(d) {
                let j = choose|j: int| 0 <= j < rest.len() && spec_dates(rest)[j] == d;
                assert(points[j].date == points[points.len() - 1].date);
            }
        }
        if spec_lookup(other, d) is Some {
            assert(s_all =~= s_rest.insert(d));
            assert(!s_rest.contains(d));
            assert(s_all.len() == s_rest.len() + 1);
        } else {
            assert(s_all =~= s_rest);
        }
    }
}

/// The common points of a sorted run come in strictly increasing date
/// order, and every one of them carries a date of the run.
pub proof fn lemma_common_sorted(points: Seq<PricePoint>, other: Seq<PricePoint>)
    requires
        forall|i: int, j: int| 0 <= i < j < points.len() ==> points[i].date < points[j].date,
    ensures
        forall|m: int|
            #![trigger spec_common(points, other)[m]]
            0 <= m < spec_common(points, other).len() ==> exists|k: int|
                0 <= k < points.len() && spec_common(points, other)[m].date == #[trigger] points[k].date,
        forall|m1: int, m2: int|
            0 <= m1 < m2 < spec_common(points, other).len() ==> spec_common(points, other)[m1].date
                < spec_common(points, other)[m2].date,
    decreases points.len(),
{
    if points.len() == 0 {
    } else {
        let rest = points.drop_last();
        lemma_common_sorted(rest, other);
        let cm = spec_common(points, other);
        let cmr = spec_common(rest, other);
        if spec_lookup(other, points.last().date as int) is Some {
            assert forall|m: int| #![trigger cm[m]] 0 <= m < cm.len() implies exists|k: int|
                0 <= k < points.len() && cm[m].date == #[trigger] points[k].date by {
                if m < cm.len() - 1 {
                    assert(cm[m] == cmr[m]);
                    let k = choose|k: int| 0 <= k < rest.len() && cmr[m].date == rest[k].date;
                    assert(cm[m].date == points[k].date);
                } else {
                    assert(cm[m].date == points[points.len() - 1].date);
                }
            }
            assert forall|m1: int, m2: int| 0 <= m1 < m2 < cm.len() implies cm[m1].date
                < cm[m2].date by {
                if m2 < cm.len() - 1 {
                    assert(cm[m1] == cmr[m1] && cm[m2] == cmr[m2]);
                } else {
                    assert(cm[m1] == cmr[m1]);
                    let k = choose|k: int| 0 <= k < rest.len() && cmr[m1].date == rest[k].date;
                    assert(points[k].date < points[points.len() - 1].date);
                }
            }
        } else {
            assert(cm == cmr);
            assert forall|m: int| #![trigger cm[m]] 0 <= m < cm.len() implies exists|k: int|
                0 <= k < points.len() && cm[m].date == #[trigger] points[k].date by {
                let k = choose|k: int| 0 <= k < rest.len() && cmr[m].date == rest[k].date;
                assert(cm[m].date == points[k].date);
            }
        }
    }
}

/// Two series whose date ranges are disjoint — every date of one lies
/// before every date of the other — share no date at all, so aligning
/// them fails with [`ServiceError::NoOverlap`].
pub proof fn lemma_disjoint_ranges_no_overlap(a: Seq<PricePoint>, b: Seq<PricePoint>)
    requires
        (forall|i: int, j: int|
            #![trigger a[i].date, b[j].date]
            0 <= i < a.len() && 0 <= j < b.len() ==> a[i].date < b[j].date) || (forall|
            i: int,
            j: int,
        |
            #![trigger a[i].date, b[j].date]
            0 <= i < a.len() && 0 <= j < b.len() ==> b[j].date < a[i].date),
    ensures
        spec_common_keys(a, b).len() == 0,
{
    broadcast use vstd::set::group_set_axioms;
    broadcast use vstd::seq_lib::seq_to_set_is_finite;

    assert(spec_common_keys(a, b) =~= Set::<int>::empty()) by {
        assert forall|d: int| !spec_common_keys(a, b).contains(d) by {
            if spec_key_set(a).contains(d) && spec_key_set(b).contains(d) {
                let i = choose|i: int| 0 <= i < a.len() && spec_dates(a)[i] == d;
                let j = choose|j: int| 0 <= j < b.len() && spec_dates(b)[j] == d;
                assert(a[i].date == b[j].date);
            }
        }
    }
}

/// Restricts a series to the dates another series also covers.
fn restrict(x: &Series, keep: &Series) -> (r: Series)
    requires
        x.wf(),
    ensures
        r.points@ == spec_restrict(x.points@, keep.points@),
        r.wf(),
        r.spec_len() <= x.spec_len(),
{
    let n = x.points.len();
    let mut out: Vec<PricePoint> = Vec::new();
    let mut i: usize = 0;
    proof {
        assert(x.points@.take(0) =~= Seq::<PricePoint>::empty());
        assert(spec_restrict(x.points@.take(0), keep.points@) =~= Seq::<PricePoint>::empty());
    }
    while i < n
        invariant
            i <= n,
            n == x.points@.len(),
            x.wf(),
            out@ == spec_restrict(x.points@.take(i as int), keep.points@),
            out@.len() <= i,
            forall|m: int|
                #![trigger out@[m]]
                0 <= m < out@.len() ==> exists|j: int|
                    0 <= j < i && out@[m] == #[trigger] x.points@[j],
            forall|m1: int, m2: int|
                0 <= m1 < m2 < out@.len() ==> out@[m1].date < out@[m2].date,
        decreases n - i,
    {
        proof {
            assert(x.points@.take(i + 1).drop_last() =~= x.points@.take(i as int));
            assert(x.points@.take(i + 1).last() == x.points@[i as int]);
        }
        let p = x.points[i];
        if keep.contains_date(p.date) {
            proof {
                assert forall|m: int| 0 <= m < out@.len() implies out@[m].date < p.date by {
                    let j = choose|j: int| 0 <= j < i && out@[m] == x.points@[j];
                    assert(x.points@[j].date < x.points@[i as int].date);
                }
                assert(spec_restrict(x.points@.take(i + 1), keep.points@) =~= out@.push(p));
            }
            out.push(p);
            proof {
                assert forall|m: int| #![trigger out@[m]] 0 <= m < out@.len() implies exists|j: int|
                    0 <= j < i + 1 && out@[m] == #[trigger] x.points@[j] by {
                    if m < out@.len() - 1 {
                        let j = choose|j: int| 0 <= j < i && out@.drop_last()[m] == x.points@[j];
                        assert(out@[m] == x.points@[j]);
                    } else {
                        assert(out@[m] == x.points@[i as int]);
                    }
                }
            }
        } else {
            proof {
                assert(spec_restrict(x.points@.take(i + 1), keep.points@) =~= spec_restrict(
                    x.points@.take(i as int),
                    keep.points@,
                ));
            }
        }
        i = i + 1;
    }
    proof {
        assert(x.points@.take(n as int) =~= x.points@);
    }
    Series { points: out }
}

/// Pairs every date of `x` that `other` also covers with the two
/// recorded prices.
fn common_points(x: &Series, other: &Series) -> (r: Vec<AlignedPoint>)
    requires
        x.wf(),
        other.wf(),
    ensures
        r@ == spec_common(x.points@, other.points@),
{
    let n = x.points.len();
    let mut out: Vec<AlignedPoint> = Vec::new();
    let mut i: usize = 0;
    proof {
        assert(x.points@.take(0) =~= Seq::<PricePoint>::empty());
        assert(spec_common(x.points@.take(0), other.points@) =~= Seq::<AlignedPoint>::empty());
    }
    while i < n
        invariant
            i <= n,
            n == x.points@.len(),
            x.wf(),
            other.wf(),
            out@ == spec_common(x.points@.take(i as int), other.points@),
        decreases n - i,
    {
        proof {
            assert(x.points@.take(i + 1).drop_last() =~= x.points@.take(i as int));
            assert(x.points@.take(i + 1).last() == x.points@[i as int]);
        }
        let p = x.points[i];
        match other.get(p.date) {
            Some(pb2) => {
                out.push(
                    AlignedPoint { date: p.date, price_bits_1: p.price_bits, price_bits_2: pb2 },
                );
            },
            None => {},
        }
        i = i + 1;
    }
    proof {
        assert(x.points@.take(n as int) =~= x.points@);
    }
    out
}

/// The first series after alignment: restricted to the dates the second
/// one also covers.
pub open spec fn spec_aligned_1(a: Seq<PricePoint>, b: Seq<PricePoint>) -> Seq<PricePoint> {
    spec_restrict(a, b)
}

/// The second series after alignment: restricted to the dates the first
/// one also covers.
pub open spec fn spec_aligned_2(a: Seq<PricePoint>, b: Seq<PricePoint>) -> Seq<PricePoint> {
    spec_restrict(b, a)
}

/// Two aligned series with the residue of the alignment: the common
/// dates with both prices, and how many points were dropped from each
/// side.
#[derive(Debug)]
pub struct AlignedPair {
    pub series_1: Series,
    pub series_2: Series,
    pub common: Vec<AlignedPoint>,
    pub dropped_1: usize,
    pub dropped_2: usize,
}

impl AlignedPair {
    /// What a successful alignment of `a` and `b` promises: both series
    /// are well-formed, with identical key sets — the intersection of
    /// the original key sets — and equal length, which is also the
    /// number of common points; the common points enumerate the shared
    /// dates in chronological order with both prices; and the dropped
    /// counts are the points each side lost.
    pub open spec fn wf_for(self, a: Seq<PricePoint>, b: Seq<PricePoint>) -> bool {
        &&& self.series_1.wf()
        &&& self.series_2.wf()
        &&& self.series_1.points@ == spec_aligned_1(a, b)
        &&& self.series_2.points@ == spec_aligned_2(a, b)
        &&& spec_key_set(self.series_1.points@) == spec_common_keys(a, b)
        &&& spec_key_set(self.series_2.points@) == spec_common_keys(a, b)
        &&& self.series_1.spec_len() == self.common@.len()
        &&& self.series_2.spec_len() == self.common@.len()
        &&& self.common@ == spec_common(spec_aligned_1(a, b), spec_aligned_2(a, b))
        &&& self.common@.len() == spec_common_keys(a, b).len()
        &&& forall|m1: int, m2: int|
            0 <= m1 < m2 < self.common@.len() ==> self.common@[m1].date < self.common@[m2].date
        &&& self.dropped_1 == a.len() - spec_aligned_1(a, b).len()
        &&& self.dropped_2 == b.len() - spec_aligned_2(a, b).len()
    }
}

/// Aligns two series onto their common dates.
///
/// Both sides are restricted to the dates they share, so the aligned
/// series have identical key sets and equal length.  Alignment succeeds
/// exactly when the series share a date; an empty intersection fails
/// with `NoOverlap`.  The cardinality check demanded of the aligned pair
/// is kept as a defensive branch naming the two instruments, and proved
/// never to fire.
pub fn align(token_1: Token, token_2: Token, a: Series, b: Series) -> (r: Result<
    AlignedPair,
    ServiceError,
>)
    requires
        a.wf(),
        b.wf(),
    ensures
        ({
            let inter = spec_common_keys(a.points@, b.points@);
            &&& (r is Ok <==> inter.len() > 0)
            &&& (r matches Ok(p) ==> p.wf_for(a.points@, b.points@))
            &&& (r matches Err(e) ==> e is NoOverlap)
            &&& (r is Err <==> inter.len() == 0)
        }),
{
    let ghost ga = a.points@;
    let ghost gb = b.points@;
    let a_len = a.len();
    let b_len = b.len();
    let a2 = restrict(&a, &b);
    let b2 = restrict(&b, &a);
    let common = common_points(&a2, &b2);
    proof {
        broadcast use vstd::set::group_set_axioms;
        broadcast use vstd::seq_lib::seq_to_set_is_finite;

        a2.lemma_wf_unique();
        b2.lemma_wf_unique();
        lemma_restrict_keys(ga, gb);
        lemma_restrict_keys(gb, ga);
        assert(spec_key_set(b2.points@) =~= spec_common_keys(ga, gb));
        assert(spec_dates(a2.points@).no_duplicates()) by {
            assert forall|i: int, j: int|
                0 <= i < spec_dates(a2.points@).len() && 0 <= j < spec_dates(a2.points@).len() && i
                    != j implies spec_dates(a2.points@)[i] != spec_dates(a2.points@)[j] by {
                if i < j {
                    assert(a2.points@[i].date < a2.points@[j].date);
                } else {
                    assert(a2.points@[j].date < a2.points@[i].date);
                }
            }
        }
        assert(spec_dates(b2.points@).no_duplicates()) by {
            assert forall|i: int, j: int|
                0 <= i < spec_dates(b2.points@).len() && 0 <= j < spec_dates(b2.points@).len() && i
                    != j implies spec_dates(b2.points@)[i] != spec_dates(b2.points@)[j] by {
                if i < j {
                    assert(b2.points@[i].date < b2.points@[j].date);
                } else {
                    assert(b2.points@[j].date < b2.points@[i].date);
                }
            }
        }
        spec_dates(a2.points@).unique_seq_to_set();
        spec_dates(b2.points@).unique_seq_to_set();
        assert(a2.points@.len() == spec_common_keys(ga, gb).len());
        assert(b2.points@.len() == spec_common_keys(ga, gb).len());
        lemma_common_count(a2.points@, b2.points@);
        assert(spec_key_set(a2.points@).intersect(spec_key_set(b2.points@)) =~= spec_common_keys(
            ga,
            gb,
        ));
        assert(common@.len() == spec_common_keys(ga, gb).len());
        lemma_common_sorted(a2.points@, b2.points@);
    }
    if common.len() == 0 {
        return Err(ServiceError::NoOverlap);
    }
    let a2_len = a2.len();
    let b2_len = b2.len();
    if a2_len != b2_len {
        // Defensive cardinality check: both sides were restricted to the
        // same date set, so this branch is proved unreachable.
        return Err(ServiceError::AlignmentInconsistency { token_1, token_2 });
    }
    Ok(
        AlignedPair {
            series_1: a2,
            series_2: b2,
            common,
            dropped_1: a_len - a2_len,
            dropped_2: b_len - b2_len,
        },
    )
}

} // verus!
