//! The lines of a plot: reduced to what the screen can show, and smoothed for
//! the eye only.
use vstd::prelude::*;

use crate::chart::{larger, smaller, PlotPoint};
use crate::options::DisplayFilter;

verus! {

/// The first of the lowest points from `start` up to `end`.
pub open spec fn lowest(points: Seq<PlotPoint>, start: int, end: int) -> int
    decreases end - start,
{
    if end <= start + 1 {
        start
    } else {
        let before = lowest(points, start, end - 1);
        if points[end - 1].value < points[before].value {
            end - 1
        } else {
            before
        }
    }
}

/// The first of the highest points from `start` up to `end`.
pub open spec fn highest(points: Seq<PlotPoint>, start: int, end: int) -> int
    decreases end - start,
{
    if end <= start + 1 {
        start
    } else {
        let before = highest(points, start, end - 1);
        if points[end - 1].value > points[before].value {
            end - 1
        } else {
            before
        }
    }
}

/// What is kept of the points from `start` up to `end`: the lowest and the
/// highest, in the order of time, and a single point where they are one.
pub open spec fn kept(points: Seq<PlotPoint>, start: int, end: int) -> Seq<PlotPoint> {
    let low = lowest(points, start, end);
    let high = highest(points, start, end);
    if low < high {
        seq![points[low], points[high]]
    } else if low > high {
        seq![points[high], points[low]]
    } else {
        seq![points[low]]
    }
}

/// What is kept of every bucket of `size` points from `start` on.
pub open spec fn kept_from(points: Seq<PlotPoint>, size: int, start: int) -> Seq<PlotPoint>
    decreases larger(points.len() - start, 0),
{
    if size <= 0 || start >= points.len() {
        Seq::empty()
    } else {
        kept(points, start, smaller(start + size, points.len() as int)) + kept_from(
            points,
            size,
            start + size,
        )
    }
}

/// `points` with `first` before them unless they begin with it, and `last`
/// behind them unless they end with it.
pub open spec fn with_ends(
    points: Seq<PlotPoint>,
    first: PlotPoint,
    last: PlotPoint,
) -> Seq<PlotPoint> {
    let begun = if points.len() > 0 && points[0] == first {
        points
    } else {
        seq![first] + points
    };
    if begun.len() > 0 && begun.last() == last {
        begun
    } else {
        begun.push(last)
    }
}

/// How many points a bucket holds, for `count` points of which `limit` may be
/// shown.
pub open spec fn bucket_size(count: int, limit: int) -> int {
    let buckets = larger((limit - 2) / 2, 1);
    (count + buckets - 1) / buckets
}

/// What is shown of `points` where at most `max_output_points` are wanted.
pub open spec fn downsampled(points: Seq<PlotPoint>, max_output_points: int) -> Seq<PlotPoint> {
    let limit = larger(max_output_points, 4);
    if points.len() <= limit {
        points
    } else {
        with_ends(
            kept_from(points, bucket_size(points.len() as int, limit), 0),
            points[0],
            points.last(),
        )
    }
}

proof fn lemma_lowest(points: Seq<PlotPoint>, start: int, end: int)
    requires
        0 <= start < end <= points.len(),
    ensures
        start <= lowest(points, start, end) < end,
        forall|i: int|
            start <= i < end ==> points[lowest(points, start, end)].value <= #[trigger] points[i].value,
        forall|i: int|
            start <= i < lowest(points, start, end) ==> points[lowest(points, start, end)].value
                < #[trigger] points[i].value,
    decreases end - start,
{
    if end > start + 1 {
        lemma_lowest(points, start, end - 1);
    }
}

proof fn lemma_highest(points: Seq<PlotPoint>, start: int, end: int)
    requires
        0 <= start < end <= points.len(),
    ensures
        start <= highest(points, start, end) < end,
        forall|i: int|
            start <= i < end ==> #[trigger] points[i].value <= points[highest(points, start, end)].value,
        forall|i: int|
            start <= i < highest(points, start, end) ==> #[trigger] points[i].value < points[highest(
                points,
                start,
                end,
            )].value,
    decreases end - start,
{
    if end > start + 1 {
        lemma_highest(points, start, end - 1);
    }
}

/// Keeping whole buckets is associative.
proof fn lemma_kept_from_step(points: Seq<PlotPoint>, size: int, start: int, before: Seq<PlotPoint>)
    requires
        0 < size,
        0 <= start < points.len(),
    ensures
        before + kept_from(points, size, start) == (before + kept(
            points,
            start,
            smaller(start + size, points.len() as int),
        )) + kept_from(points, size, start + size),
{
    assert(before + kept_from(points, size, start) =~= (before + kept(
        points,
        start,
        smaller(start + size, points.len() as int),
    )) + kept_from(points, size, start + size));
}

/// Reduces the number of drawn points while retaining the lowest and highest
/// point of every time bucket, so that short spikes stay visible.
pub fn min_max_downsample(points: Vec<PlotPoint>, max_output_points: usize) -> (reduced: Vec<
    PlotPoint,
>)
    ensures
        reduced@ == downsampled(points@, max_output_points as int),
{
    let limit: usize = if max_output_points < 4 {
        4
    } else {
        max_output_points
    };
    if points.len() <= limit {
        return points;
    }
    let count: usize = points.len();
    let first = points[0];
    let last = points[count - 1];
    let half: usize = (limit - 2) / 2;
    let buckets: usize = if half < 1 {
        1
    } else {
        half
    };
    proof {
        lemma_bucket_size(count as int, buckets as int);
    }
    let whole: usize = count / buckets;
    let size: usize = if count % buckets == 0 {
        whole
    } else {
        whole + 1
    };
    let mut reduced: Vec<PlotPoint> = Vec::new();
    let mut start: usize = 0;
    while start < count
        invariant
            count == points@.len(),
            0 < size <= count,
            start <= count,
            reduced@ + kept_from(points@, size as int, start as int) == kept_from(
                points@,
                size as int,
                0,
            ),
            start > 0 ==> reduced@.len() > 0,
        decreases count - start,
    {
        let end: usize = if count - start < size {
            count
        } else {
            start + size
        };
        let mut low: usize = start;
        let mut high: usize = start;
        let mut index: usize = start + 1;
        while index < end
            invariant
                start < index <= end <= count,
                count == points@.len(),
                start <= low < index,
                start <= high < index,
                low == lowest(points@, start as int, index as int),
                high == highest(points@, start as int, index as int),
            decreases end - index,
        {
            if points[index].value < points[low].value {
                low = index;
            }
            if points[index].value > points[high].value {
                high = index;
            }
            index += 1;
        }
        let ghost before = reduced@;
        proof {
            lemma_kept_from_step(points@, size as int, start as int, before);
        }
        if low < high {
            reduced.push(points[low]);
            reduced.push(points[high]);
        } else if low > high {
            reduced.push(points[high]);
            reduced.push(points[low]);
        } else {
            reduced.push(points[low]);
        }
        assert(reduced@ =~= before + kept(points@, start as int, end as int));
        proof {
            lemma_past_the_end(points@, size as int, start + size, end as int);
        }
        start = end;
    }
    assert(kept_from(points@, size as int, start as int) =~= Seq::<PlotPoint>::empty());
    assert(reduced@ =~= kept_from(points@, size as int, 0));
    if !(reduced[0] == first) {
        let ghost before = reduced@;
        reduced.insert(0, first);
        assert(reduced@ =~= seq![first] + before);
    }
    if !(reduced[reduced.len() - 1] == last) {
        reduced.push(last);
    }
    reduced
}

/// Nothing is kept past the end, wherever past it one starts.
proof fn lemma_past_the_end(points: Seq<PlotPoint>, size: int, start: int, end: int)
    requires
        end == start || (end == points.len() && start >= points.len()),
    ensures
        kept_from(points, size, start) == kept_from(points, size, end),
{
}

/// The division that rounds up.
proof fn lemma_bucket_size(count: int, buckets: int)
    requires
        0 < buckets,
        4 < count,
    ensures
        (count + buckets - 1) / buckets == (if count % buckets == 0 {
            count / buckets
        } else {
            count / buckets + 1
        }),
        0 < (count + buckets - 1) / buckets <= count,
        count <= buckets * ((count + buckets - 1) / buckets),
{
    let q = count / buckets;
    let r = count % buckets;
    vstd::arithmetic::div_mod::lemma_fundamental_div_mod(count, buckets);
    assert(count == buckets * q + r);
    if r == 0 {
        assert(count + buckets - 1 == q * buckets + (buckets - 1)) by (nonlinear_arith)
            requires
                count == buckets * q + r,
                r == 0,
        ;
        vstd::arithmetic::div_mod::lemma_fundamental_div_mod_converse(
            count + buckets - 1,
            buckets,
            q,
            buckets - 1,
        );
        assert(0 < q <= count) by (nonlinear_arith)
            requires
                count == buckets * q,
                0 < buckets,
                4 < count,
        ;
    } else {
        assert(count + buckets - 1 == (q + 1) * buckets + (r - 1)) by (nonlinear_arith)
            requires
                count == buckets * q + r,
        ;
        vstd::arithmetic::div_mod::lemma_fundamental_div_mod_converse(
            count + buckets - 1,
            buckets,
            q + 1,
            r - 1,
        );
        assert(0 <= q && q + 1 <= count) by (nonlinear_arith)
            requires
                count == buckets * q + r,
                0 < r < buckets,
                4 < count,
        ;
        assert(count <= buckets * (q + 1)) by (nonlinear_arith)
            requires
                count == buckets * q + r,
                r < buckets,
        ;
    }
}

/// Whether the points are in the order of time.
pub open spec fn ordered(points: Seq<PlotPoint>) -> bool {
    forall|i: int, j: int| 0 <= i <= j < points.len() ==> points[i].time_us <= points[j].time_us
}

/// Whether `point` is one of `points` from `start` on.
spec fn occurs_from(points: Seq<PlotPoint>, start: int, point: PlotPoint) -> bool {
    exists|k: int| start <= k < points.len() && #[trigger] points[k] == point
}

/// Whether `points` reach at least as low as `value`.
pub open spec fn reaches_down(points: Seq<PlotPoint>, value: int) -> bool {
    exists|k: int| 0 <= k < points.len() && #[trigger] points[k].value <= value
}

/// Whether `points` reach at least as high as `value`.
pub open spec fn reaches_up(points: Seq<PlotPoint>, value: int) -> bool {
    exists|k: int| 0 <= k < points.len() && value <= #[trigger] points[k].value
}

/// What is kept of one bucket are points of it.
proof fn lemma_kept(points: Seq<PlotPoint>, start: int, end: int)
    requires
        0 <= start < end <= points.len(),
    ensures
        1 <= kept(points, start, end).len() <= 2,
        forall|i: int|
            0 <= i < kept(points, start, end).len() ==> exists|k: int|
                start <= k < end && #[trigger] points[k] == #[trigger] kept(points, start, end)[i],
        ordered(points) ==> ordered(kept(points, start, end)),
{
    let low = lowest(points, start, end);
    let high = highest(points, start, end);
    lemma_lowest(points, start, end);
    lemma_highest(points, start, end);
    let here = kept(points, start, end);
    assert forall|i: int| 0 <= i < here.len() implies exists|k: int|
        start <= k < end && #[trigger] points[k] == #[trigger] here[i] by {
        assert(here[i] == points[low] || here[i] == points[high]);
    }
}

/// What is kept of one bucket reaches as low and as high as each of its points
/// does.
proof fn lemma_kept_reaches(points: Seq<PlotPoint>, start: int, end: int, k: int)
    requires
        0 <= start <= k < end <= points.len(),
    ensures
        reaches_down(kept(points, start, end), points[k].value as int),
        reaches_up(kept(points, start, end), points[k].value as int),
{
    let low = lowest(points, start, end);
    let high = highest(points, start, end);
    lemma_lowest(points, start, end);
    lemma_highest(points, start, end);
    let here = kept(points, start, end);
    let (a, b): (int, int) = if low < high {
        (0, 1)
    } else if low > high {
        (1, 0)
    } else {
        (0, 0)
    };
    assert(here[a].value <= points[k].value);
    assert(points[k].value <= here[b].value);
}

/// What is kept of the buckets from `start` on: how much it is at most, and
/// that it holds points of the line.
proof fn lemma_kept_from_size(points: Seq<PlotPoint>, size: int, start: int, buckets: int)
    requires
        0 < size,
        0 <= start < points.len(),
        points.len() - start <= buckets * size,
    ensures
        0 < kept_from(points, size, start).len() <= 2 * buckets,
        forall|i: int|
            0 <= i < kept_from(points, size, start).len() ==> occurs_from(
                points,
                start,
                #[trigger] kept_from(points, size, start)[i],
            ),
    decreases points.len() - start,
{
    let end = smaller(start + size, points.len() as int);
    lemma_kept(points, start, end);
    let here = kept(points, start, end);
    let rest = kept_from(points, size, start + size);
    let all = kept_from(points, size, start);
    assert(all == here + rest);
    assert(buckets >= 1) by (nonlinear_arith)
        requires
            points.len() - start <= buckets * size,
            points.len() - start > 0,
            0 < size,
    ;
    if start + size < points.len() {
        assert(points.len() - (start + size) <= (buckets - 1) * size) by (nonlinear_arith)
            requires
                points.len() - start <= buckets * size,
        ;
        lemma_kept_from_size(points, size, start + size, buckets - 1);
    } else {
        assert(rest =~= Seq::<PlotPoint>::empty());
    }
    assert forall|i: int| 0 <= i < all.len() implies occurs_from(
        points,
        start,
        #[trigger] all[i],
    ) by {
        if i < here.len() {
            assert(all[i] == here[i]);
        } else {
            assert(all[i] == rest[i - here.len()]);
            assert(occurs_from(points, start + size, rest[i - here.len()]));
        }
    }
}

/// What is kept of the buckets from `start` on reaches as low and as high as
/// every point does.
proof fn lemma_kept_from_reaches(points: Seq<PlotPoint>, size: int, start: int, k: int)
    requires
        0 < size,
        0 <= start <= k < points.len(),
    ensures
        reaches_down(kept_from(points, size, start), points[k].value as int),
        reaches_up(kept_from(points, size, start), points[k].value as int),
    decreases points.len() - start,
{
    let end = smaller(start + size, points.len() as int);
    let here = kept(points, start, end);
    let rest = kept_from(points, size, start + size);
    let all = kept_from(points, size, start);
    let value = points[k].value as int;
    assert(all == here + rest);
    if k < end {
        lemma_kept_reaches(points, start, end, k);
        let a = choose|a: int| 0 <= a < here.len() && #[trigger] here[a].value <= value;
        let b = choose|b: int| 0 <= b < here.len() && value <= #[trigger] here[b].value;
        assert(all[a].value <= value);
        assert(value <= all[b].value);
    } else {
        lemma_kept_from_reaches(points, size, start + size, k);
        let a = choose|a: int| 0 <= a < rest.len() && #[trigger] rest[a].value <= value;
        let b = choose|b: int| 0 <= b < rest.len() && value <= #[trigger] rest[b].value;
        assert(all[here.len() + a].value <= value);
        assert(value <= all[here.len() + b].value);
    }
}

/// What is kept of ordered points is ordered.
proof fn lemma_kept_from_ordered(points: Seq<PlotPoint>, size: int, start: int)
    requires
        0 < size,
        0 <= start,
        ordered(points),
    ensures
        ordered(kept_from(points, size, start)),
    decreases larger(points.len() - start, 0),
{
    if start < points.len() {
        let end = smaller(start + size, points.len() as int);
        lemma_kept(points, start, end);
        lemma_kept_from_ordered(points, size, start + size);
        let here = kept(points, start, end);
        let rest = kept_from(points, size, start + size);
        let all = kept_from(points, size, start);
        assert(all == here + rest);
        if start + size < points.len() {
            let buckets = points.len() - (start + size);
            assert(points.len() - (start + size) <= buckets * size) by (nonlinear_arith)
                requires
                    buckets == points.len() - (start + size),
                    0 < size,
                    0 < buckets,
            ;
            lemma_kept_from_size(points, size, start + size, buckets);
        }
        assert forall|i: int, j: int| 0 <= i <= j < all.len() implies all[i].time_us
            <= all[j].time_us by {
            if j < here.len() {
                assert(here[i].time_us <= here[j].time_us);
            } else if i >= here.len() {
                assert(rest[i - here.len()].time_us <= rest[j - here.len()].time_us);
            } else {
                assert(all[i] == here[i]);
                assert(all[j] == rest[j - here.len()]);
                let a = choose|a: int| start <= a < end && #[trigger] points[a] == here[i];
                assert(occurs_from(points, start + size, rest[j - here.len()]));
                let b = choose|b: int|
                    start + size <= b < points.len() && #[trigger] points[b] == rest[j
                        - here.len()];
                assert(points[a].time_us <= points[b].time_us);
            }
        }
    }
}

/// A line with its ends added.
proof fn lemma_with_ends(points: Seq<PlotPoint>, reduced: Seq<PlotPoint>)
    requires
        points.len() > 0,
        reduced.len() > 0,
        forall|i: int|
            0 <= i < reduced.len() ==> occurs_from(points, 0, #[trigger] reduced[i]),
    ensures
        ({
            let shown = with_ends(reduced, points[0], points.last());
            &&& reduced.len() <= shown.len() <= reduced.len() + 2
            &&& shown[0] == points[0]
            &&& shown.last() == points.last()
            &&& forall|i: int|
                0 <= i < shown.len() ==> occurs_from(points, 0, #[trigger] shown[i])
            &&& forall|value: int| reaches_down(reduced, value) ==> reaches_down(shown, value)
            &&& forall|value: int| reaches_up(reduced, value) ==> reaches_up(shown, value)
            &&& ordered(points) && ordered(reduced) ==> ordered(shown)
        }),
{
    let first = points[0];
    let last = points.last();
    let shown = with_ends(reduced, first, last);
    let shift: int = if reduced[0] == first {
        0
    } else {
        1
    };
    assert(forall|i: int| 0 <= i < reduced.len() ==> shown[i + shift] == #[trigger] reduced[i]);
    assert(points[points.len() - 1] == last);
    assert forall|i: int| 0 <= i < shown.len() implies occurs_from(
        points,
        0,
        #[trigger] shown[i],
    ) by {
        if i < shift {
            assert(points[0] == shown[i]);
        } else if i - shift < reduced.len() {
            assert(shown[i] == reduced[i - shift]);
        } else {
            assert(shown[i] == last);
        }
    }
    assert forall|value: int| reaches_down(reduced, value) implies reaches_down(shown, value) by {
        let k = choose|k: int| 0 <= k < reduced.len() && #[trigger] reduced[k].value <= value;
        assert(shown[k + shift].value <= value);
    }
    assert forall|value: int| reaches_up(reduced, value) implies reaches_up(shown, value) by {
        let k = choose|k: int| 0 <= k < reduced.len() && value <= #[trigger] reduced[k].value;
        assert(value <= shown[k + shift].value);
    }
    if ordered(points) && ordered(reduced) {
        assert forall|i: int, j: int| 0 <= i <= j < shown.len() implies shown[i].time_us
            <= shown[j].time_us by {
            assert(occurs_from(points, 0, shown[i]));
            assert(occurs_from(points, 0, shown[j]));
            let a = choose|a: int| 0 <= a < points.len() && #[trigger] points[a] == shown[i];
            let b = choose|b: int| 0 <= b < points.len() && #[trigger] points[b] == shown[j];
            if i < shift {
                assert(points[0].time_us <= points[b].time_us);
            } else if j - shift < reduced.len() {
                assert(reduced[i - shift].time_us <= reduced[j - shift].time_us);
            } else {
                assert(points[a].time_us <= points[points.len() - 1].time_us);
            }
        }
    }
}

/// Whether `shown` are the points at `places`, from left to right.
pub open spec fn picks(points: Seq<PlotPoint>, places: Seq<int>, shown: Seq<PlotPoint>) -> bool {
    &&& places.len() == shown.len()
    &&& forall|i: int|
        0 <= i < places.len() ==> 0 <= #[trigger] places[i] < points.len() && shown[i]
            == points[places[i]]
    &&& forall|i: int, j: int|
        0 <= i < j < places.len() ==> #[trigger] places[i] < #[trigger] places[j]
}

/// Whether `shown` is what is left of `points` where some are left out.
pub open spec fn is_subsequence(shown: Seq<PlotPoint>, points: Seq<PlotPoint>) -> bool {
    exists|places: Seq<int>| #[trigger] picks(points, places, shown)
}

/// Where what is kept of the buckets from `start` on stands in the line.
proof fn lemma_kept_from_places(points: Seq<PlotPoint>, size: int, start: int) -> (places: Seq<int>)
    requires
        0 < size,
        0 <= start,
    ensures
        picks(points, places, kept_from(points, size, start)),
        forall|i: int| 0 <= i < places.len() ==> start <= #[trigger] places[i],
    decreases larger(points.len() - start, 0),
{
    if start >= points.len() {
        return Seq::empty();
    }
    let end = smaller(start + size, points.len() as int);
    let low = lowest(points, start, end);
    let high = highest(points, start, end);
    lemma_lowest(points, start, end);
    lemma_highest(points, start, end);
    let here = if low < high {
        seq![low, high]
    } else if low > high {
        seq![high, low]
    } else {
        seq![low]
    };
    let rest = lemma_kept_from_places(points, size, start + size);
    let kept_here = kept(points, start, end);
    assert(kept_from(points, size, start) == kept_here + kept_from(points, size, start + size));
    assert(forall|i: int| 0 <= i < here.len() ==> start <= #[trigger] here[i] < end);
    assert forall|i: int| 0 <= i < (here + rest).len() implies 0 <= #[trigger] (here + rest)[i]
        < points.len() && kept_from(points, size, start)[i] == points[(here + rest)[i]] by {
        if i >= here.len() {
            assert((here + rest)[i] == rest[i - here.len()]);
        }
    }
    assert forall|i: int, j: int| 0 <= i < j < (here + rest).len() implies #[trigger] (here
        + rest)[i] < #[trigger] (here + rest)[j] by {
        if i >= here.len() {
            assert(rest[i - here.len()] < rest[j - here.len()]);
        } else if j >= here.len() {
            assert(rest[j - here.len()] >= start + size);
        }
    }
    here + rest
}

/// Adding the ends of a line to what is left of it leaves out no order.
proof fn lemma_ends_keep_order(points: Seq<PlotPoint>, reduced: Seq<PlotPoint>, places: Seq<int>)
    requires
        points.len() > 0,
        reduced.len() > 0,
        picks(points, places, reduced),
    ensures
        is_subsequence(with_ends(reduced, points[0], points.last()), points),
{
    let first = points[0];
    let last = points.last();
    assert(points[places[0]] == reduced[0]);
    let begun = if reduced[0] == first {
        reduced
    } else {
        seq![first] + reduced
    };
    let begun_places = if reduced[0] == first {
        places
    } else {
        seq![0int] + places
    };
    assert(picks(points, begun_places, begun)) by {
        if reduced[0] != first {
            assert forall|i: int, j: int| 0 <= i < j < begun_places.len() implies
                #[trigger] begun_places[i] < #[trigger] begun_places[j] by {
                assert(places[0] <= places[j - 1]);
                if i > 0 {
                    assert(places[i - 1] < places[j - 1]);
                }
            }
            assert forall|i: int| 0 <= i < begun_places.len() implies 0
                <= #[trigger] begun_places[i] < points.len() && begun[i]
                == points[begun_places[i]] by {
                if i > 0 {
                    assert(begun_places[i] == places[i - 1]);
                }
            }
        }
    }
    let end = begun_places.len() - 1;
    assert(begun[end] == points[begun_places[end]]);
    if begun.last() != last {
        let all = begun_places.push(points.len() - 1);
        assert forall|i: int, j: int| 0 <= i < j < all.len() implies #[trigger] all[i]
            < #[trigger] all[j] by {
            assert(begun_places[i] <= begun_places[end]);
        }
        assert(picks(points, all, begun.push(last)));
    }
}

/// A reduced line is no longer than asked for (four points at least), keeps
/// the first and the last point, shows only points of the line, in the order
/// in which they stand there, and reaches as low and as high as every point
/// does: no spike is lost.
pub proof fn law_downsampling_keeps_ends_and_spikes(
    points: Seq<PlotPoint>,
    max_output_points: int,
)
    requires
        points.len() > 0,
    ensures
        ({
            let shown = downsampled(points, max_output_points);
            &&& 0 < shown.len() <= larger(max_output_points, 4)
            &&& shown[0] == points[0]
            &&& shown.last() == points.last()
            &&& is_subsequence(shown, points)
            &&& forall|k: int|
                0 <= k < points.len() ==> reaches_down(shown, #[trigger] points[k].value as int)
            &&& forall|k: int|
                0 <= k < points.len() ==> reaches_up(shown, #[trigger] points[k].value as int)
            &&& ordered(points) ==> ordered(shown)
        }),
{
    let limit = larger(max_output_points, 4);
    let shown = downsampled(points, max_output_points);
    if points.len() > limit {
        let buckets = larger((limit - 2) / 2, 1);
        let size = bucket_size(points.len() as int, limit);
        lemma_bucket_size(points.len() as int, buckets);
        lemma_kept_from_size(points, size, 0, buckets);
        if ordered(points) {
            lemma_kept_from_ordered(points, size, 0);
        }
        let reduced = kept_from(points, size, 0);
        lemma_with_ends(points, reduced);
        assert forall|k: int| 0 <= k < points.len() implies reaches_down(
            shown,
            #[trigger] points[k].value as int,
        ) && reaches_up(shown, points[k].value as int) by {
            lemma_kept_from_reaches(points, size, 0, k);
        }
        let places = lemma_kept_from_places(points, size, 0);
        lemma_ends_keep_order(points, reduced, places);
    } else {
        assert(picks(points, Seq::new(points.len(), |i: int| i), shown));
    }
}

/// How many of `values` are below `middle`.
pub open spec fn below(values: Seq<i128>, middle: i128) -> nat
    decreases values.len(),
{
    if values.len() == 0 {
        0
    } else {
        below(values.drop_last(), middle) + (if values.last() < middle {
            1nat
        } else {
            0nat
        })
    }
}

/// How many of `values` are above `middle`.
pub open spec fn above(values: Seq<i128>, middle: i128) -> nat
    decreases values.len(),
{
    if values.len() == 0 {
        0
    } else {
        above(values.drop_last(), middle) + (if values.last() > middle {
            1nat
        } else {
            0nat
        })
    }
}

/// Whether `middle` is the median of `values`: one of them, with at most half
/// of the others on either side.
pub open spec fn is_median(values: Seq<i128>, middle: i128) -> bool {
    &&& values.contains(middle)
    &&& 2 * below(values, middle) < values.len()
    &&& 2 * above(values, middle) < values.len()
}

/// The values from `start` up to `end`.
pub open spec fn window(points: Seq<PlotPoint>, start: int, end: int) -> Seq<i128> {
    Seq::new((end - start) as nat, |i: int| points[start + i].value)
}

/// How far the window of the filter reaches to either side, for `count`
/// points.
pub open spec fn reach(filter: DisplayFilter, count: nat) -> nat {
    if filter == DisplayFilter::Raw || count < 3 {
        0
    } else if count < 5 {
        1
    } else {
        2
    }
}

/// Whether `shown` is what the filter shows of `points`: every time stays,
/// every value away from the ends becomes the median of its window.
pub open spec fn is_filtered(
    points: Seq<PlotPoint>,
    filter: DisplayFilter,
    shown: Seq<PlotPoint>,
) -> bool {
    let reach = reach(filter, points.len());
    &&& shown.len() == points.len()
    &&& forall|i: int|
        0 <= i < points.len() ==> #[trigger] shown[i].time_us == points[i].time_us
    &&& forall|i: int|
        0 <= i < points.len() && (i < reach || points.len() - reach <= i)
            ==> #[trigger] shown[i].value == points[i].value
    &&& forall|i: int|
        reach <= i < points.len() - reach ==> is_median(
            window(points, i - reach, i + reach + 1),
            #[trigger] shown[i].value,
        )
}

/// The median of three values.
fn median_of_three(a: i128, b: i128, c: i128) -> (middle: i128)
    ensures
        is_median(seq![a, b, c], middle),
{
    let (low, high): (i128, i128) = if a <= b {
        (a, b)
    } else {
        (b, a)
    };
    let middle: i128 = if c <= low {
        low
    } else if c >= high {
        high
    } else {
        c
    };
    proof {
        lemma_counts_of_three(a, b, c, middle);
        let values = seq![a, b, c];
        assert(values[0] == middle || values[1] == middle || values[2] == middle);
    }
    middle
}

/// One where the condition holds.
spec fn one_if(condition: bool) -> nat {
    if condition {
        1
    } else {
        0
    }
}

proof fn lemma_counts_of_three(a: i128, b: i128, c: i128, m: i128)
    ensures
        below(seq![a, b, c], m) == one_if(a < m) + one_if(b < m) + one_if(c < m),
        above(seq![a, b, c], m) == one_if(a > m) + one_if(b > m) + one_if(c > m),
{
    reveal_with_fuel(below, 4);
    reveal_with_fuel(above, 4);
    assert(seq![a, b, c].drop_last() =~= seq![a, b]);
    assert(seq![a, b].drop_last() =~= seq![a]);
    assert(seq![a].drop_last() =~= Seq::<i128>::empty());
}

proof fn lemma_counts_of_five(a: i128, b: i128, c: i128, d: i128, e: i128, m: i128)
    ensures
        below(seq![a, b, c, d, e], m) == one_if(a < m) + one_if(b < m) + one_if(c < m) + one_if(
            d < m,
        ) + one_if(e < m),
        above(seq![a, b, c, d, e], m) == one_if(a > m) + one_if(b > m) + one_if(c > m) + one_if(
            d > m,
        ) + one_if(e > m),
{
    reveal_with_fuel(below, 6);
    reveal_with_fuel(above, 6);
    assert(seq![a, b, c, d, e].drop_last() =~= seq![a, b, c, d]);
    assert(seq![a, b, c, d].drop_last() =~= seq![a, b, c]);
    lemma_counts_of_three(a, b, c, m);
}

/// The median of five values.
fn median_of_five(a: i128, b: i128, c: i128, d: i128, e: i128) -> (middle: i128)
    ensures
        is_median(seq![a, b, c, d, e], middle),
{
    let (low_ab, high_ab): (i128, i128) = if a <= b {
        (a, b)
    } else {
        (b, a)
    };
    let (low_cd, high_cd): (i128, i128) = if c <= d {
        (c, d)
    } else {
        (d, c)
    };
    let inner_low: i128 = if low_ab >= low_cd {
        low_ab
    } else {
        low_cd
    };
    let inner_high: i128 = if high_ab <= high_cd {
        high_ab
    } else {
        high_cd
    };
    let middle: i128 = median_of_three(inner_low, inner_high, e);
    proof {
        lemma_counts_of_three(inner_low, inner_high, e, middle);
        lemma_counts_of_five(a, b, c, d, e, middle);
        let values = seq![inner_low, inner_high, e];
        assert(values[0] == middle || values[1] == middle || values[2] == middle);
        let all = seq![a, b, c, d, e];
        assert(all[0] == middle || all[1] == middle || all[2] == middle || all[3] == middle
            || all[4] == middle);
    }
    middle
}

/// What the filter shows of `points`.
///
/// A five-point median makes low-current idle traces readable without changing
/// the measured data: it rejects narrow spikes and keeps sustained steps. A
/// line of three or four points is smoothed over three.
pub fn apply_display_filter(points: Vec<PlotPoint>, filter: DisplayFilter) -> (shown: Vec<
    PlotPoint,
>)
    ensures
        is_filtered(points@, filter, shown@),
        filter == DisplayFilter::Raw ==> shown@ == points@,
{
    let count: usize = points.len();
    if filter == DisplayFilter::Raw || count < 3 {
        proof {
            assert forall|i: int| 0 <= i < points@.len() implies is_median(
                window(points@, i, i + 1),
                #[trigger] points@[i].value,
            ) by {
                lemma_median_of_one(window(points@, i, i + 1));
            }
        }
        return points;
    }
    let mut shown: Vec<PlotPoint> = Vec::new();
    if count < 5 {
        let mut index: usize = 0;
        while index < count
            invariant
                count == points@.len(),
                3 <= count < 5,
                index <= count,
                shown@.len() == index,
                forall|i: int|
                    0 <= i < index ==> #[trigger] shown@[i].time_us == points@[i].time_us,
                forall|i: int|
                    0 <= i < index && (i < 1 || count - 1 <= i) ==> #[trigger] shown@[i].value
                        == points@[i].value,
                forall|i: int|
                    1 <= i < index && i < count - 1 ==> is_median(
                        window(points@, i - 1, i + 2),
                        #[trigger] shown@[i].value,
                    ),
            decreases count - index,
        {
            let point = points[index];
            let value: i128 = if index < 1 || index >= count - 1 {
                point.value
            } else {
                let middle: i128 = median_of_three(
                    points[index - 1].value,
                    point.value,
                    points[index + 1].value,
                );
                assert(window(points@, index - 1, index + 2) =~= seq![
                    points@[index - 1].value,
                    points@[index as int].value,
                    points@[index + 1].value,
                ]);
                middle
            };
            shown.push(PlotPoint { time_us: point.time_us, value });
            index += 1;
        }
    } else {
        let mut index: usize = 0;
        while index < count
            invariant
                count == points@.len(),
                5 <= count,
                index <= count,
                shown@.len() == index,
                forall|i: int|
                    0 <= i < index ==> #[trigger] shown@[i].time_us == points@[i].time_us,
                forall|i: int|
                    0 <= i < index && (i < 2 || count - 2 <= i) ==> #[trigger] shown@[i].value
                        == points@[i].value,
                forall|i: int|
                    2 <= i < index && i < count - 2 ==> is_median(
                        window(points@, i - 2, i + 3),
                        #[trigger] shown@[i].value,
                    ),
            decreases count - index,
        {
            let point = points[index];
            let value: i128 = if index < 2 || index >= count - 2 {
                point.value
            } else {
                let middle: i128 = median_of_five(
                    points[index - 2].value,
                    points[index - 1].value,
                    point.value,
                    points[index + 1].value,
                    points[index + 2].value,
                );
                assert(window(points@, index - 2, index + 3) =~= seq![
                    points@[index - 2].value,
                    points@[index - 1].value,
                    points@[index as int].value,
                    points@[index + 1].value,
                    points@[index + 2].value,
                ]);
                middle
            };
            shown.push(PlotPoint { time_us: point.time_us, value });
            index += 1;
        }
    }
    shown
}

proof fn lemma_median_of_one(values: Seq<i128>)
    requires
        values.len() == 1,
    ensures
        is_median(values, values[0]),
{
    reveal_with_fuel(below, 2);
    reveal_with_fuel(above, 2);
}

/// Counting to either side of `a` and `b`, where `a` is below `b`.
proof fn lemma_counts_part(values: Seq<i128>, a: i128, b: i128)
    requires
        a < b,
    ensures
        below(values, b) + above(values, a) >= values.len(),
    decreases values.len(),
{
    if values.len() > 0 {
        lemma_counts_part(values.drop_last(), a, b);
    }
}

/// The filter leaves nothing to choice: two lines that are what it shows of the
/// same points are the same line.
pub proof fn law_filter_is_determined(
    points: Seq<PlotPoint>,
    filter: DisplayFilter,
    first: Seq<PlotPoint>,
    second: Seq<PlotPoint>,
)
    requires
        is_filtered(points, filter, first),
        is_filtered(points, filter, second),
    ensures
        first == second,
{
    let reach = reach(filter, points.len());
    assert forall|i: int| 0 <= i < first.len() implies first[i] == second[i] by {
        if reach <= i < points.len() - reach {
            let values = window(points, i - reach, i + reach + 1);
            let a = first[i].value;
            let b = second[i].value;
            assert(is_median(values, a));
            assert(is_median(values, b));
            if a < b {
                lemma_counts_part(values, a, b);
            } else if b < a {
                lemma_counts_part(values, b, a);
            }
        }
        assert(first[i].time_us == second[i].time_us);
        assert(first[i].value == second[i].value);
    }
    assert(first =~= second);
}

/// A single sample that stands out from four equal neighbours is not shown.
pub proof fn law_filter_rejects_a_single_spike(
    points: Seq<PlotPoint>,
    shown: Seq<PlotPoint>,
    at: int,
    level: i128,
)
    requires
        is_filtered(points, DisplayFilter::Median5, shown),
        points.len() >= 5,
        2 <= at < points.len() - 2,
        points[at - 2].value == level,
        points[at - 1].value == level,
        points[at + 1].value == level,
        points[at + 2].value == level,
    ensures
        shown[at].value == level,
{
    let values = window(points, at - 2, at + 3);
    let middle = shown[at].value;
    assert(is_median(values, middle));
    assert(values =~= seq![level, level, points[at].value, level, level]);
    lemma_counts_of_five(level, level, points[at].value, level, level, middle);
}

/// A line that fits is shown as it is.
pub proof fn law_a_line_that_fits_is_not_reduced(points: Seq<PlotPoint>, max_output_points: int)
    requires
        points.len() <= max_output_points || points.len() <= 4,
    ensures
        downsampled(points, max_output_points) == points,
{
}

/// Whether one of `points` that is shown lies less than `size` places from
/// place `k` and is at least as low.
pub open spec fn dips_near(
    points: Seq<PlotPoint>,
    shown: Seq<PlotPoint>,
    k: int,
    size: int,
) -> bool {
    exists|p: int|
        0 <= p < points.len() && k - size < p < k + size && #[trigger] points[p].value
            <= points[k].value && shown.contains(points[p])
}

/// Whether one of `points` that is shown lies less than `size` places from
/// place `k` and is at least as high.
pub open spec fn peaks_near(
    points: Seq<PlotPoint>,
    shown: Seq<PlotPoint>,
    k: int,
    size: int,
) -> bool {
    exists|p: int|
        0 <= p < points.len() && k - size < p < k + size && #[trigger] points[p].value
            >= points[k].value && shown.contains(points[p])
}

/// What is kept of the buckets from `start` on reaches as low and as high as a
/// point does, in the bucket of the point.
proof fn lemma_kept_near(points: Seq<PlotPoint>, size: int, start: int, k: int)
    requires
        0 < size,
        0 <= start <= k < points.len(),
    ensures
        dips_near(points, kept_from(points, size, start), k, size),
        peaks_near(points, kept_from(points, size, start), k, size),
    decreases points.len() - start,
{
    let end = smaller(start + size, points.len() as int);
    let here = kept(points, start, end);
    let rest = kept_from(points, size, start + size);
    let all = kept_from(points, size, start);
    assert(all == here + rest);
    if k < end {
        let low = lowest(points, start, end);
        let high = highest(points, start, end);
        lemma_lowest(points, start, end);
        lemma_highest(points, start, end);
        let (a, b): (int, int) = if low < high {
            (0, 1)
        } else if low > high {
            (1, 0)
        } else {
            (0, 0)
        };
        assert(all[a] == points[low]);
        assert(all[b] == points[high]);
        assert(points[low].value <= points[k].value);
        assert(points[high].value >= points[k].value);
    } else {
        lemma_kept_near(points, size, start + size, k);
        let p = choose|p: int|
            0 <= p < points.len() && k - size < p < k + size && #[trigger] points[p].value
                <= points[k].value && rest.contains(points[p]);
        let q = choose|q: int|
            0 <= q < points.len() && k - size < q < k + size && #[trigger] points[q].value
                >= points[k].value && rest.contains(points[q]);
        let i = choose|i: int| 0 <= i < rest.len() && rest[i] == points[p];
        let j = choose|j: int| 0 <= j < rest.len() && rest[j] == points[q];
        assert(all[here.len() + i] == points[p]);
        assert(all[here.len() + j] == points[q]);
        assert(points[p].value <= points[k].value);
        assert(points[q].value >= points[k].value);
    }
}

/// No stretch of a long line is thinned out more than the rest: next to each
/// point, no farther than the line is long for every two points that may be
/// shown between its ends, stand a shown point that is as low and one that is
/// as high.
pub proof fn law_downsampling_keeps_every_stretch(
    points: Seq<PlotPoint>,
    max_output_points: int,
    k: int,
    near: int,
)
    requires
        4 <= max_output_points < points.len(),
        0 <= k < points.len(),
        points.len() <= near * ((max_output_points - 2) / 2),
    ensures
        dips_near(points, downsampled(points, max_output_points), k, near),
        peaks_near(points, downsampled(points, max_output_points), k, near),
{
    let buckets = (max_output_points - 2) / 2;
    let count = points.len() as int;
    let size = bucket_size(count, max_output_points);
    lemma_bucket_size(count, buckets);
    vstd::arithmetic::div_mod::lemma_fundamental_div_mod(count + buckets - 1, buckets);
    vstd::arithmetic::div_mod::lemma_mod_bound(count + buckets - 1, buckets);
    assert(size <= near) by (nonlinear_arith)
        requires
            buckets * size <= count + buckets - 1,
            count <= near * buckets,
            buckets > 0,
    ;
    let reduced = kept_from(points, size, 0);
    let shown = downsampled(points, max_output_points);
    lemma_kept_near(points, size, 0, k);
    let shift: int = if reduced.len() > 0 && reduced[0] == points[0] {
        0
    } else {
        1
    };
    assert forall|point: PlotPoint| #[trigger] reduced.contains(point) implies shown.contains(
        point,
    ) by {
        let i = choose|i: int| 0 <= i < reduced.len() && reduced[i] == point;
        assert(shown[i + shift] == point);
    }
    let p = choose|p: int|
        0 <= p < points.len() && k - size < p < k + size && #[trigger] points[p].value
            <= points[k].value && reduced.contains(points[p]);
    let q = choose|q: int|
        0 <= q < points.len() && k - size < q < k + size && #[trigger] points[q].value
            >= points[k].value && reduced.contains(points[q]);
    assert(points[p].value <= points[k].value);
    assert(points[q].value >= points[k].value);
}

/// How many of the five points around `at` lie on the far side of `value`.
pub open spec fn beyond(points: Seq<PlotPoint>, at: int, value: i128, up: bool) -> int {
    let far = |i: int|
        if up {
            points[i].value > value
        } else {
            points[i].value < value
        };
    (if far(at - 2) {
        1int
    } else {
        0int
    }) + (if far(at - 1) {
        1int
    } else {
        0int
    }) + (if far(at) {
        1int
    } else {
        0int
    }) + (if far(at + 1) {
        1int
    } else {
        0int
    }) + (if far(at + 2) {
        1int
    } else {
        0int
    })
}

/// The filter shows one of the five values around a place, with no more than
/// two of them above it and no more than two below it; a sustained step stays
/// where it was, and the two points at either end stay as they are. Without a
/// filter every point does.
pub proof fn law_filter_shows_the_middle_of_five(
    points: Seq<PlotPoint>,
    shown: Seq<PlotPoint>,
    at: int,
)
    requires
        is_filtered(points, DisplayFilter::Median5, shown),
        points.len() >= 5,
        0 <= at < points.len(),
    ensures
        shown.len() == points.len(),
        shown[at].time_us == points[at].time_us,
        at < 2 || at >= points.len() - 2 ==> shown[at] == points[at],
        2 <= at < points.len() - 2 ==> {
            let value = shown[at].value;
            &&& beyond(points, at, value, true) <= 2
            &&& beyond(points, at, value, false) <= 2
            &&& value == points[at - 2].value || value == points[at - 1].value || value
                == points[at].value || value == points[at + 1].value || value == points[at
                + 2].value
        },
{
    assert(shown[at].time_us == points[at].time_us);
    if 2 <= at < points.len() - 2 {
        let values = window(points, at - 2, at + 3);
        let middle = shown[at].value;
        assert(is_median(values, middle));
        let a = points[at - 2].value;
        let b = points[at - 1].value;
        let c = points[at].value;
        let d = points[at + 1].value;
        let e = points[at + 2].value;
        assert(values =~= seq![a, b, c, d, e]);
        lemma_counts_of_five(a, b, c, d, e, middle);
        let i = choose|i: int| 0 <= i < values.len() && values[i] == middle;
        assert(values[i] == middle);
    } else {
        assert(shown[at].value == points[at].value);
    }
}

/// A line of three or four points is smoothed over three; without a filter, and
/// where there are fewer points, every point is shown as it is.
pub proof fn law_short_lines_are_hardly_filtered(
    points: Seq<PlotPoint>,
    filter: DisplayFilter,
    shown: Seq<PlotPoint>,
    at: int,
)
    requires
        is_filtered(points, filter, shown),
        points.len() < 5 || filter == DisplayFilter::Raw,
        0 <= at < points.len(),
    ensures
        shown.len() == points.len(),
        filter == DisplayFilter::Raw || points.len() < 3 || at == 0 || at == points.len() - 1
            ==> shown[at] == points[at],
        filter == DisplayFilter::Median5 && points.len() >= 3 && 0 < at < points.len() - 1 ==> {
            let a = points[at - 1].value;
            let b = points[at].value;
            let c = points[at + 1].value;
            let value = shown[at].value;
            &&& shown[at].time_us == points[at].time_us
            &&& value == a || value == b || value == c
            &&& a <= value <= b || b <= value <= a || a <= value <= c || c <= value <= a || b
                <= value <= c || c <= value <= b
            &&& !(a < value && b < value)
            &&& !(a < value && c < value)
            &&& !(b < value && c < value)
            &&& !(a > value && b > value)
            &&& !(a > value && c > value)
            &&& !(b > value && c > value)
        },
{
    assert(shown[at].time_us == points[at].time_us);
    if reach(filter, points.len()) == 1 && 0 < at < points.len() - 1 {
        let values = window(points, at - 1, at + 2);
        let middle = shown[at].value;
        assert(is_median(values, middle));
        let a = points[at - 1].value;
        let b = points[at].value;
        let c = points[at + 1].value;
        assert(values =~= seq![a, b, c]);
        lemma_counts_of_three(a, b, c, middle);
        let i = choose|i: int| 0 <= i < values.len() && values[i] == middle;
        assert(values[i] == middle);
    } else {
        if reach(filter, points.len()) == 0 {
            let values = window(points, at, at + 1);
            assert(is_median(values, shown[at].value));
            let i = choose|i: int| 0 <= i < values.len() && values[i] == shown[at].value;
            assert(values[i] == shown[at].value);
        }
        assert(shown[at].value == points[at].value);
    }
}

} // verus!
