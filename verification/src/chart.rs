//! What the chart shows: the viewport, the points that are drawn, the point
//! under the cursor.
//!
//! Times are whole microseconds. The values of a channel are billionths of a
//! millionth of its unit, so that averages keep their fractions; those of the
//! advanced analysis are whole millionths, or the exact units of a charge or an
//! energy.
use vstd::prelude::*;

use crate::options::{ChartFollowMode, SampleRateOption, TimeWindow};

verus! {

/// The narrowest viewport, in microseconds.
pub const NARROWEST_US: i64 = 1_000;

/// The narrowest viewport that zooming leads to, in microseconds.
pub const NARROWEST_ZOOM_US: i64 = 50_000;

/// The smaller of two numbers.
pub open spec fn smaller(a: int, b: int) -> int {
    if a <= b {
        a
    } else {
        b
    }
}

/// The larger of two numbers.
pub open spec fn larger(a: int, b: int) -> int {
    if a >= b {
        a
    } else {
        b
    }
}

/// `value`, moved into the range from `low` to `high`.
pub open spec fn between(value: int, low: int, high: int) -> int {
    if value < low {
        low
    } else if value > high {
        high
    } else {
        value
    }
}

/// The distance of two numbers.
pub open spec fn distance(a: int, b: int) -> int {
    if a <= b {
        b - a
    } else {
        a - b
    }
}

/// The distance of two times.
fn apart(a: i64, b: i64) -> (result: u64)
    ensures
        result == distance(a as int, b as int),
{
    if a <= b {
        (b as i128 - a as i128) as u64
    } else {
        (a as i128 - b as i128) as u64
    }
}

/// A time of the device as a time of the chart.
pub open spec fn charted(elapsed_us: u64) -> i64 {
    smaller(elapsed_us as int, i64::MAX as int) as i64
}

/// A time of the device as a time of the chart.
pub fn chart_time(elapsed_us: u64) -> (time_us: i64)
    ensures
        time_us == charted(elapsed_us),
        time_us >= 0,
{
    if elapsed_us > i64::MAX as u64 {
        i64::MAX
    } else {
        elapsed_us as i64
    }
}

/// `time_us` counted from `origin_us`, and zero before it.
pub open spec fn since(time_us: i64, origin_us: i64) -> i64 {
    if time_us < origin_us {
        0
    } else {
        (time_us - origin_us) as i64
    }
}

/// `time_us` counted from `origin_us`, and zero before it.
pub fn display_time(time_us: i64, origin_us: i64) -> (display_us: i64)
    requires
        0 <= origin_us,
    ensures
        display_us == since(time_us, origin_us),
        display_us >= 0,
{
    if time_us < origin_us {
        0
    } else {
        time_us - origin_us
    }
}

/// The part of the time axis that is shown.
#[derive(Debug, Clone, Copy, PartialEq, Eq, Structural)]
pub struct NavigatorSelection {
    pub start_us: i64,
    pub end_us: i64,
}

/// The end of the time axis, which is never empty.
pub open spec fn axis_end(full_end: int) -> int {
    larger(full_end, NARROWEST_US as int)
}

/// The viewport from `start` to `end`, moved and narrowed until it lies on the
/// axis.
pub open spec fn settled(start: int, end: int, full_end: int) -> NavigatorSelection {
    let width = between(end - start, NARROWEST_US as int, axis_end(full_end));
    let moved = between(start, 0, axis_end(full_end) - width);
    NavigatorSelection { start_us: moved as i64, end_us: (moved + width) as i64 }
}

/// The viewport from `start` to `end`, moved and narrowed until it lies on the
/// axis.
fn settle(start: i128, end: i128, full_end: i64) -> (selection: NavigatorSelection)
    requires
        -0x1_0000_0000_0000_0000 <= start <= 0x1_0000_0000_0000_0000,
        -0x1_0000_0000_0000_0000 <= end <= 0x1_0000_0000_0000_0000,
    ensures
        selection == settled(start as int, end as int, full_end as int),
        0 <= selection.start_us < selection.end_us,
{
    let last: i64 = if full_end < NARROWEST_US {
        NARROWEST_US
    } else {
        full_end
    };
    let wanted: i128 = end - start;
    let width: i64 = if wanted < NARROWEST_US as i128 {
        NARROWEST_US
    } else if wanted > last as i128 {
        last
    } else {
        wanted as i64
    };
    let moved: i64 = if start < 0 {
        0
    } else if start > (last - width) as i128 {
        last - width
    } else {
        start as i64
    };
    NavigatorSelection { start_us: moved, end_us: moved + width }
}

impl NavigatorSelection {
    /// The whole axis.
    pub open spec fn whole(full_end: int) -> NavigatorSelection {
        NavigatorSelection { start_us: 0, end_us: axis_end(full_end) as i64 }
    }

    /// Whether the viewport shows `time`.
    pub open spec fn shows(self, time: int) -> bool {
        self.start_us <= time <= self.end_us
    }

    /// The viewport, moved and narrowed until it lies on the axis.
    pub fn clamped(self, full_end: i64) -> (selection: NavigatorSelection)
        ensures
            selection == settled(self.start_us as int, self.end_us as int, full_end as int),
            0 <= selection.start_us < selection.end_us,
    {
        settle(self.start_us as i128, self.end_us as i128, full_end)
    }

    /// The viewport's width.
    pub fn width(self) -> (width: i64)
        requires
            0 <= self.start_us <= self.end_us,
        ensures
            width == self.end_us - self.start_us,
    {
        self.end_us - self.start_us
    }

    /// Whether the viewport shows `time_us`.
    pub fn contains(self, time_us: i64) -> (shown: bool)
        ensures
            shown == self.shows(time_us as int),
    {
        time_us >= self.start_us && time_us <= self.end_us
    }

    /// The viewport moved by `shift_us`.
    pub fn shifted(self, shift_us: i64, full_end: i64) -> (selection: NavigatorSelection)
        ensures
            selection == settled(
                self.start_us + shift_us,
                self.end_us + shift_us,
                full_end as int,
            ),
            0 <= selection.start_us < selection.end_us,
    {
        settle(
            self.start_us as i128 + shift_us as i128,
            self.end_us as i128 + shift_us as i128,
            full_end,
        )
    }

    /// The viewport with its left edge at `time_us`, at least `minimum_width_us`
    /// wide.
    pub fn with_start(self, time_us: i64, minimum_width_us: i64, full_end: i64) -> (selection:
        NavigatorSelection)
        ensures
            selection == settled(
                smaller(time_us as int, self.end_us - minimum_width_us),
                self.end_us as int,
                full_end as int,
            ),
            0 <= selection.start_us < selection.end_us,
    {
        let limit: i128 = self.end_us as i128 - minimum_width_us as i128;
        let start: i128 = if (time_us as i128) <= limit {
            time_us as i128
        } else {
            limit
        };
        settle(start, self.end_us as i128, full_end)
    }

    /// The viewport with its right edge at `time_us`, at least
    /// `minimum_width_us` wide.
    pub fn with_end(self, time_us: i64, minimum_width_us: i64, full_end: i64) -> (selection:
        NavigatorSelection)
        ensures
            selection == settled(
                self.start_us as int,
                larger(time_us as int, self.start_us + minimum_width_us),
                full_end as int,
            ),
            0 <= selection.start_us < selection.end_us,
    {
        let limit: i128 = self.start_us as i128 + minimum_width_us as i128;
        let end: i128 = if (time_us as i128) >= limit {
            time_us as i128
        } else {
            limit
        };
        settle(self.start_us as i128, end, full_end)
    }

    /// How much of a viewport `width_us` wide lies left of `anchor_us` when it
    /// divides the new viewport as it divides this one.
    pub open spec fn left_of(self, anchor_us: int, width_us: int) -> int {
        let width = self.end_us - self.start_us;
        width_us * between(anchor_us - self.start_us, 0, width) / width
    }

    /// The viewport `width_us` wide, or as near to it as zooming goes, in which
    /// `anchor_us` keeps its place.
    pub open spec fn zoom(self, anchor_us: int, width_us: int, full_end: int) -> NavigatorSelection {
        let wanted = between(width_us, NARROWEST_ZOOM_US as int, axis_end(full_end));
        let left = self.left_of(anchor_us, wanted);
        settled(anchor_us - left, anchor_us + (wanted - left), full_end)
    }

    /// The viewport `width_us` wide, or as near to it as zooming goes, in which
    /// `anchor_us` keeps its place.
    pub fn zoomed(self, anchor_us: i64, width_us: i64, full_end: i64) -> (selection:
        NavigatorSelection)
        requires
            0 <= self.start_us < self.end_us,
            full_end >= NARROWEST_ZOOM_US,
        ensures
            selection == self.zoom(anchor_us as int, width_us as int, full_end as int),
            0 <= selection.start_us < selection.end_us,
    {
        let wanted: i64 = if width_us < NARROWEST_ZOOM_US {
            NARROWEST_ZOOM_US
        } else if width_us > full_end {
            full_end
        } else {
            width_us
        };
        let width: i64 = self.end_us - self.start_us;
        let offset: i128 = anchor_us as i128 - self.start_us as i128;
        let inside: i64 = if offset < 0 {
            0
        } else if offset > width as i128 {
            width
        } else {
            offset as i64
        };
        assert(0 <= wanted * inside <= wanted * width) by (nonlinear_arith)
            requires
                0 <= wanted,
                0 <= inside <= width,
        ;
        assert(wanted * width <= 0x7fff_ffff_ffff_ffff * 0x7fff_ffff_ffff_ffff) by (nonlinear_arith)
            requires
                0 <= wanted <= 0x7fff_ffff_ffff_ffff,
                0 <= width <= 0x7fff_ffff_ffff_ffff,
        ;
        let scaled: i128 = wanted as i128 * inside as i128;
        let left: i128 = scaled / width as i128;
        assert(0 <= left <= wanted) by (nonlinear_arith)
            requires
                0 <= scaled <= wanted * width,
                0 < width,
                left == scaled as int / width as int,
        ;
        settle(anchor_us as i128 - left, anchor_us as i128 + (wanted as i128 - left), full_end)
    }
}

/// A settled viewport lies on the axis, keeps its width where the axis has
/// room for it, stays where it is when it already fits, and does not move when
/// it is settled again.
pub proof fn law_viewport_stays_on_the_axis(start: int, end: int, full_end: int)
    requires
        full_end <= i64::MAX,
    ensures
        ({
            let selection = settled(start, end, full_end);
            &&& 0 <= selection.start_us < selection.end_us <= axis_end(full_end)
            &&& NARROWEST_US <= end - start <= axis_end(full_end) ==> selection.end_us
                - selection.start_us == end - start
            &&& 0 <= start && start + NARROWEST_US <= end <= axis_end(full_end) ==> selection == (
            NavigatorSelection { start_us: start as i64, end_us: end as i64 })
            &&& settled(selection.start_us as int, selection.end_us as int, full_end) == selection
        }),
{
}

/// Zooming keeps the point under the cursor in view.
pub proof fn law_zoom_keeps_its_anchor(
    selection: NavigatorSelection,
    anchor: int,
    width: int,
    full_end: int,
)
    requires
        0 <= selection.start_us <= anchor <= selection.end_us,
        selection.start_us < selection.end_us,
        selection.end_us <= full_end <= i64::MAX,
        NARROWEST_ZOOM_US <= full_end,
    ensures
        selection.zoom(anchor, width, full_end).shows(anchor),
{
    let wanted = between(width, NARROWEST_ZOOM_US as int, axis_end(full_end));
    let old_width = selection.end_us - selection.start_us;
    let inside = anchor - selection.start_us;
    let left = selection.left_of(anchor, wanted);
    assert(0 <= left <= wanted) by (nonlinear_arith)
        requires
            left == wanted * inside / old_width,
            0 <= inside <= old_width,
            0 < old_width,
            0 < wanted,
    ;
}

/// What dragging the navigator moves.
#[derive(Debug, Clone, Copy, PartialEq, Eq, Structural)]
pub enum NavigatorDrag {
    Start,
    Range,
    End,
}

impl NavigatorDrag {
    /// What a drag moves that begins at the left handle, at the right handle
    /// or elsewhere.
    pub fn begun(at_start: bool, at_end: bool) -> (drag: NavigatorDrag)
        ensures
            drag == (if at_start {
                NavigatorDrag::Start
            } else if at_end {
                NavigatorDrag::End
            } else {
                NavigatorDrag::Range
            }),
    {
        if at_start {
            NavigatorDrag::Start
        } else if at_end {
            NavigatorDrag::End
        } else {
            NavigatorDrag::Range
        }
    }

    /// The viewport after dragging to `time_us`, or by `shift_us` where the
    /// whole range is dragged.
    pub fn dragged(
        self,
        selection: NavigatorSelection,
        time_us: i64,
        shift_us: i64,
        minimum_width_us: i64,
        full_end: i64,
    ) -> (result: NavigatorSelection)
        ensures
            result == (match self {
                NavigatorDrag::Start => settled(
                    smaller(time_us as int, selection.end_us - minimum_width_us),
                    selection.end_us as int,
                    full_end as int,
                ),
                NavigatorDrag::End => settled(
                    selection.start_us as int,
                    larger(time_us as int, selection.start_us + minimum_width_us),
                    full_end as int,
                ),
                NavigatorDrag::Range => settled(
                    selection.start_us + shift_us,
                    selection.end_us + shift_us,
                    full_end as int,
                ),
            }),
            0 <= result.start_us < result.end_us,
    {
        match self {
            NavigatorDrag::Start => selection.with_start(time_us, minimum_width_us, full_end),
            NavigatorDrag::End => selection.with_end(time_us, minimum_width_us, full_end),
            NavigatorDrag::Range => selection.shifted(shift_us, full_end),
        }
    }
}

/// The narrowest viewport that dragging a handle leads to: one sample period,
/// or fifty milliseconds where that is more.
pub fn minimum_drag_width(rate: SampleRateOption) -> (width_us: i64)
    ensures
        width_us == larger(1_000_000int / rate.samples_per_second() as int, 50_000),
{
    let period: i64 = 1_000_000 / rate.hertz() as i64;
    if period >= 50_000 {
        period
    } else {
        50_000
    }
}

/// The viewport and the drag that is under way.
#[derive(Debug, Clone, Copy, PartialEq, Eq, Structural)]
pub struct ChartViewport {
    pub selection: Option<NavigatorSelection>,
    pub drag: Option<NavigatorDrag>,
}

impl Default for ChartViewport {
    fn default() -> (viewport: ChartViewport)
        ensures
            viewport == (ChartViewport { selection: None, drag: None }),
    {
        ChartViewport { selection: None, drag: None }
    }
}

/// The width of a following window in microseconds: the configured width, as
/// far as the axis reaches.
pub open spec fn window_width(window: TimeWindow, full_end: int) -> int {
    match window.width() {
        Some(seconds) => smaller(seconds * 1_000_000, axis_end(full_end)),
        None => axis_end(full_end),
    }
}

/// The viewport that `mode` asks for, given the one shown before.
pub open spec fn followed(
    mode: ChartFollowMode,
    window: TimeWindow,
    selection: Option<NavigatorSelection>,
    full_end: int,
) -> NavigatorSelection {
    match mode {
        ChartFollowMode::FullSession => NavigatorSelection::whole(full_end),
        ChartFollowMode::LatestWindow => NavigatorSelection {
            start_us: (axis_end(full_end) - window_width(window, full_end)) as i64,
            end_us: axis_end(full_end) as i64,
        },
        ChartFollowMode::Manual => match selection {
            Some(selection) => settled(
                selection.start_us as int,
                selection.end_us as int,
                full_end,
            ),
            None => NavigatorSelection::whole(full_end),
        },
    }
}

/// The viewport that `mode` asks for, given the one shown before.
pub fn follow(
    mode: ChartFollowMode,
    window: TimeWindow,
    selection: Option<NavigatorSelection>,
    full_end: i64,
) -> (result: NavigatorSelection)
    ensures
        result == followed(mode, window, selection, full_end as int),
        0 <= result.start_us < result.end_us,
{
    let last: i64 = if full_end < NARROWEST_US {
        NARROWEST_US
    } else {
        full_end
    };
    match mode {
        ChartFollowMode::FullSession => NavigatorSelection { start_us: 0, end_us: last },
        ChartFollowMode::LatestWindow => {
            let width: i64 = match window.seconds() {
                Some(seconds) => {
                    let wanted: i64 = seconds as i64 * 1_000_000;
                    if wanted < last {
                        wanted
                    } else {
                        last
                    }
                },
                None => last,
            };
            NavigatorSelection { start_us: last - width, end_us: last }
        },
        ChartFollowMode::Manual => match selection {
            Some(selection) => selection.clamped(last),
            None => NavigatorSelection { start_us: 0, end_us: last },
        },
    }
}

/// While a session is followed from its start the viewport begins at zero and
/// grows with the axis; a following window ends at the newest sample; a manual
/// viewport that fits stays where it is however far the axis grows.
pub proof fn law_following_a_growing_session(
    window: TimeWindow,
    selection: NavigatorSelection,
    full_end: int,
    later_end: int,
)
    requires
        NARROWEST_US <= full_end <= later_end <= i64::MAX,
        0 <= selection.start_us,
        selection.start_us + NARROWEST_US <= selection.end_us <= full_end,
    ensures
        ({
            let before = followed(ChartFollowMode::FullSession, window, None, full_end);
            let after = followed(ChartFollowMode::FullSession, window, Some(before), later_end);
            &&& before == (NavigatorSelection { start_us: 0, end_us: full_end as i64 })
            &&& after == (NavigatorSelection { start_us: 0, end_us: later_end as i64 })
        }),
        followed(ChartFollowMode::LatestWindow, window, None, later_end).end_us == later_end,
        followed(ChartFollowMode::Manual, window, Some(selection), later_end) == selection,
{
}

/// A point of a plotted line.
#[derive(Debug, Clone, Copy, PartialEq, Eq, Structural)]
pub struct PlotPoint {
    pub time_us: i64,
    pub value: i128,
}

/// Whether `times` are in order.
pub open spec fn in_order(times: Seq<i64>) -> bool {
    forall|i: int, j: int| 0 <= i <= j < times.len() ==> times[i] <= times[j]
}

/// Whether `time_at` reports `times`.
pub open spec fn reports<F: Fn(usize) -> i64>(time_at: F, times: Seq<i64>) -> bool {
    forall|i: usize, time: i64|
        i < times.len() && #[trigger] call_ensures(time_at, (i,), time) ==> time == times[i as int]
}

/// Whether `index` is the one of `times` that is nearest to `target`: the
/// earlier one of two that are equally near, and of equal times the one next
/// to the target.
pub open spec fn is_nearest(times: Seq<i64>, target: int, index: int) -> bool {
    &&& 0 <= index < times.len()
    &&& forall|i: int|
        0 <= i < times.len() ==> distance(times[index] as int, target) <= distance(
            #[trigger] times[i] as int,
            target,
        )
    &&& forall|i: int|
        0 <= i < times.len() && distance(#[trigger] times[i] as int, target) == distance(
            times[index] as int,
            target,
        ) ==> times[index] <= times[i]
    &&& times[index] < target ==> forall|i: int|
        index < i < times.len() ==> target <= #[trigger] times[i]
    &&& target <= times[index] ==> forall|i: int| 0 <= i < index ==> #[trigger] times[i] < target
}

/// The one of `len` ordered times that is nearest to `target`.
pub fn nearest_time_index<F: Fn(usize) -> i64>(len: usize, target: i64, time_at: F) -> (index:
    Option<usize>)
    requires
        forall|i: usize| i < len ==> call_requires(time_at, (i,)),
    ensures
        index is None <==> len == 0,
        index matches Some(i) ==> i < len,
        index matches Some(i) ==> forall|times: Seq<i64>|
            times.len() == len && in_order(times) && #[trigger] reports(time_at, times)
                ==> is_nearest(times, larger(target as int, 0), i as int),
{
    if len == 0 {
        return None;
    }
    let target: i64 = if target < 0 {
        0
    } else {
        target
    };
    let mut low: usize = 0;
    let mut high: usize = len;
    while low < high
        invariant
            low <= high <= len,
            forall|i: usize| i < len ==> call_requires(time_at, (i,)),
            forall|times: Seq<i64>, i: int|
                #![trigger reports(time_at, times), times[i]]
                times.len() == len && in_order(times) && reports(time_at, times) ==> (0 <= i < low
                    ==> times[i] < target) && (high <= i < len ==> target <= times[i]),
        decreases high - low,
    {
        let middle: usize = low + (high - low) / 2;
        let time: i64 = time_at(middle);
        assert forall|times: Seq<i64>, i: int|
            #![trigger reports(time_at, times), times[i]]
            times.len() == len && in_order(times) && reports(time_at, times) implies (time < target
            && 0 <= i <= middle ==> times[i] < target) && (time >= target && middle <= i < len
            ==> target <= times[i]) by {
            assert(times[middle as int] == time);
            if 0 <= i <= middle {
                assert(times[i] <= times[middle as int]);
            }
            if middle <= i < len {
                assert(times[middle as int] <= times[i]);
            }
        }
        if time < target {
            low = middle + 1;
        } else {
            high = middle;
        }
    }
    if low == 0 {
        proof {
            lemma_nearest_after::<F>(time_at, len, target, 0);
        }
        return Some(0);
    }
    let before: usize = low - 1;
    if low == len {
        proof {
            lemma_nearest_before::<F>(time_at, len, target, before);
        }
        return Some(before);
    }
    let before_time: i64 = time_at(before);
    let after_time: i64 = time_at(low);
    let before_distance: u64 = apart(before_time, target);
    let after_distance: u64 = apart(after_time, target);
    proof {
        lemma_nearest_of_two::<F>(time_at, len, target, before, before_time, after_time);
    }
    if before_distance <= after_distance {
        Some(before)
    } else {
        Some(low)
    }
}

/// Every time that `time_at` may report lies on the side of the target that
/// the split at `low` puts it on.
spec fn split_at<F: Fn(usize) -> i64>(time_at: F, len: usize, target: i64, low: int) -> bool {
    forall|times: Seq<i64>, i: int|
        #![trigger reports(time_at, times), times[i]]
        times.len() == len && in_order(times) && reports(time_at, times) ==> (0 <= i < low
            ==> times[i] < target) && (low <= i < len ==> target <= times[i])
}

proof fn lemma_nearest_after<F: Fn(usize) -> i64>(time_at: F, len: usize, target: i64, low: usize)
    requires
        split_at(time_at, len, target, low as int),
        low == 0,
        len > 0,
    ensures
        forall|times: Seq<i64>|
            times.len() == len && in_order(times) && #[trigger] reports(time_at, times)
                ==> is_nearest(times, target as int, low as int),
{
    assert forall|times: Seq<i64>|
        times.len() == len && in_order(times) && #[trigger] reports(
            time_at,
            times,
        ) implies is_nearest(times, target as int, low as int) by {
        assert(target <= times[0]);
        assert(forall|i: int| 0 <= i < times.len() ==> times[0] <= #[trigger] times[i]);
    }
}

proof fn lemma_nearest_before<F: Fn(usize) -> i64>(
    time_at: F,
    len: usize,
    target: i64,
    before: usize,
)
    requires
        split_at(time_at, len, target, before + 1),
        before + 1 == len,
    ensures
        forall|times: Seq<i64>|
            times.len() == len && in_order(times) && #[trigger] reports(time_at, times)
                ==> is_nearest(times, target as int, before as int),
{
    assert forall|times: Seq<i64>|
        times.len() == len && in_order(times) && #[trigger] reports(
            time_at,
            times,
        ) implies is_nearest(times, target as int, before as int) by {
        assert(times[before as int] < target);
        assert(forall|i: int| 0 <= i < times.len() ==> #[trigger] times[i] <= times[before as int]);
    }
}

proof fn lemma_nearest_of_two<F: Fn(usize) -> i64>(
    time_at: F,
    len: usize,
    target: i64,
    before: usize,
    before_time: i64,
    after_time: i64,
)
    requires
        split_at(time_at, len, target, before + 1),
        before + 1 < len,
        call_ensures(time_at, (before,), before_time),
        call_ensures(time_at, ((before + 1) as usize,), after_time),
    ensures
        forall|times: Seq<i64>|
            times.len() == len && in_order(times) && #[trigger] reports(time_at, times)
                ==> is_nearest(
                times,
                target as int,
                if distance(before_time as int, target as int) <= distance(
                    after_time as int,
                    target as int,
                ) {
                    before as int
                } else {
                    before + 1
                },
            ),
{
    assert forall|times: Seq<i64>|
        times.len() == len && in_order(times) && #[trigger] reports(
            time_at,
            times,
        ) implies is_nearest(
        times,
        target as int,
        if distance(before_time as int, target as int) <= distance(
            after_time as int,
            target as int,
        ) {
            before as int
        } else {
            before + 1
        },
    ) by {
        assert(times[before as int] == before_time);
        assert(times[before + 1] == after_time);
        assert(before_time < target <= after_time);
        assert(forall|i: int| 0 <= i <= before ==> #[trigger] times[i] <= before_time);
        assert(forall|i: int| before < i < len ==> after_time <= #[trigger] times[i]);
    }
}

/// A viewport that is too wide shows the whole axis, one that is too narrow is
/// a millisecond wide, and one that hangs over an end of the axis is moved,
/// without a change of its width, until it touches that end.
pub proof fn law_viewport_is_moved_no_farther_than_needed(start: int, end: int, full_end: int)
    requires
        1_000 <= full_end <= i64::MAX,
    ensures
        ({
            let shown = settled(start, end, full_end);
            &&& end - start >= full_end ==> shown.start_us == 0 && shown.end_us == full_end
            &&& end - start <= 1_000 ==> shown.end_us - shown.start_us == 1_000
            &&& start < 0 && 1_000 <= end - start <= full_end ==> {
                &&& shown.start_us == 0
                &&& shown.end_us == end - start
            }
            &&& end > full_end && 1_000 <= end - start <= full_end ==> {
                &&& shown.end_us == full_end
                &&& shown.start_us == full_end - (end - start)
            }
        }),
{
}

/// Moving a viewport by some time and back again leaves it where it was, as
/// long as it does not reach an end of the axis; both its edges move alike.
pub proof fn law_shifting_moves_both_edges(
    selection: NavigatorSelection,
    shift: int,
    full_end: int,
)
    requires
        1_000 <= full_end <= i64::MAX,
        0 <= selection.start_us + shift,
        selection.start_us + 1_000 <= selection.end_us,
        selection.end_us + shift <= full_end,
        0 <= selection.start_us,
        selection.end_us <= full_end,
    ensures
        ({
            let moved = settled(selection.start_us + shift, selection.end_us + shift, full_end);
            &&& moved.start_us == selection.start_us + shift
            &&& moved.end_us == selection.end_us + shift
            &&& settled(moved.start_us - shift, moved.end_us - shift, full_end) == selection
        }),
{
}

/// Zooming shows as much time as asked for, from fifty milliseconds up to the
/// whole axis, and what lies under the cursor divides the viewport as before:
/// to the microsecond, and where the ends of the axis do not push it.
pub proof fn law_zoom_shows_the_width_asked_for(
    selection: NavigatorSelection,
    anchor: int,
    width: int,
    full_end: int,
)
    requires
        0 <= selection.start_us <= anchor <= selection.end_us,
        selection.start_us < selection.end_us,
        selection.end_us <= full_end <= i64::MAX,
        50_000 <= full_end,
    ensures
        ({
            let zoomed = selection.zoom(anchor, width, full_end);
            let wide = zoomed.end_us - zoomed.start_us;
            let before = selection.end_us - selection.start_us;
            &&& 50_000 <= width <= full_end ==> wide == width
            &&& width < 50_000 ==> wide == 50_000
            &&& width > full_end ==> zoomed.start_us == 0 && zoomed.end_us == full_end
            &&& 0 < zoomed.start_us && zoomed.end_us < full_end ==> {
                &&& (anchor - zoomed.start_us) * before <= wide * (anchor - selection.start_us)
                &&& wide * (anchor - selection.start_us) < (anchor - zoomed.start_us + 1) * before
            }
        }),
{
    let wanted = between(width, NARROWEST_ZOOM_US as int, axis_end(full_end));
    let before = selection.end_us - selection.start_us;
    let inside = anchor - selection.start_us;
    let left = selection.left_of(anchor, wanted);
    assert(0 <= left <= wanted) by (nonlinear_arith)
        requires
            left == wanted * inside / before,
            0 <= inside <= before,
            0 < before,
            0 < wanted,
    ;
    let scaled = wanted * inside;
    vstd::arithmetic::div_mod::lemma_fundamental_div_mod(scaled, before);
    vstd::arithmetic::div_mod::lemma_mod_bound(scaled, before);
    assert(left * before <= scaled < (left + 1) * before) by (nonlinear_arith)
        requires
            scaled == before * left + scaled % before,
            0 <= scaled % before < before,
    ;
}

/// A following window shows the newest seconds, as many as its name says, or
/// the whole session while it is shorter.
pub proof fn law_a_window_shows_its_newest_seconds(
    window: TimeWindow,
    selection: Option<NavigatorSelection>,
    full_end: int,
)
    requires
        1_000 <= full_end <= i64::MAX,
    ensures
        ({
            let shown = followed(ChartFollowMode::LatestWindow, window, selection, full_end);
            let seconds = match window {
                TimeWindow::Sec2 => 2int,
                TimeWindow::Sec10 => 10int,
                TimeWindow::Sec30 => 30int,
                TimeWindow::Min1 => 60int,
                TimeWindow::Min5 => 5 * 60int,
                TimeWindow::All => full_end,
            };
            &&& shown.end_us == full_end
            &&& seconds * 1_000_000 >= full_end ==> shown.start_us == 0
            &&& seconds * 1_000_000 <= full_end ==> shown.start_us + seconds * 1_000_000
                == full_end
        }),
{
}

/// The place that is nearest to a time lies no farther from it than any other
/// does.
pub proof fn law_nothing_lies_nearer(times: Seq<i64>, target: int, index: int, other: int)
    requires
        in_order(times),
        is_nearest(times, target, index),
        0 <= other < times.len(),
    ensures
        target <= times[other] ==> times[index] - target <= times[other] - target && target
            - times[index] <= times[other] - target,
        times[other] <= target ==> target - times[index] <= target - times[other] && times[index]
            - target <= target - times[other],
{
    assert(distance(times[index] as int, target) <= distance(times[other] as int, target));
}

} // verus!
