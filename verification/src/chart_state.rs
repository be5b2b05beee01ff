//! What the monitor chart shows: the source, the range, the cursor, and the
//! lines that are switched on.
use vstd::prelude::*;
use vstd::string::*;

use crate::chart::{
    axis_end, follow, followed, larger, minimum_drag_width, settled, smaller, ChartViewport,
    NavigatorDrag, NavigatorSelection, NARROWEST_US, NARROWEST_ZOOM_US,
};
use crate::i18n::Language;
use crate::lines::Channel;
use crate::navigator::CursorReadout;
use crate::options::{ChartFollowMode, DisplayFilter, PlotSource, SampleRateOption, TimeWindow};
use crate::presentation::{duration_text, format_plot_time};

verus! {

/// Which lines are drawn.
#[derive(Debug, Clone, Copy, PartialEq, Eq, Structural)]
pub struct VisibleSeries {
    pub voltage: bool,
    pub current: bool,
    pub power: bool,
}

impl VisibleSeries {
    /// Every line is drawn.
    pub open spec fn every() -> VisibleSeries {
        VisibleSeries { voltage: true, current: true, power: true }
    }

    /// Whether any line is drawn.
    pub open spec fn some(self) -> bool {
        self.voltage || self.current || self.power
    }

    /// The lines, or every line where none is drawn.
    pub open spec fn at_least_one(self) -> VisibleSeries {
        if self.some() {
            self
        } else {
            VisibleSeries::every()
        }
    }

    /// Whether the line of `channel` is drawn.
    pub open spec fn draws(self, channel: Channel) -> bool {
        match channel {
            Channel::Voltage => self.voltage,
            Channel::Current => self.current,
            Channel::Power => self.power,
        }
    }

    /// The lines with that of `channel` switched.
    pub open spec fn with(self, channel: Channel, drawn: bool) -> VisibleSeries {
        match channel {
            Channel::Voltage => VisibleSeries { voltage: drawn, ..self },
            Channel::Current => VisibleSeries { current: drawn, ..self },
            Channel::Power => VisibleSeries { power: drawn, ..self },
        }
    }

    /// The lines after the one of `channel` was clicked: the last line that is
    /// drawn stays.
    pub open spec fn toggled(self, channel: Channel) -> VisibleSeries {
        let switched = self.with(channel, !self.draws(channel));
        if switched.some() {
            switched
        } else {
            self
        }
    }

    /// Every line is drawn.
    pub fn all() -> (series: VisibleSeries)
        ensures
            series == VisibleSeries::every(),
    {
        VisibleSeries { voltage: true, current: true, power: true }
    }

    /// The lines, or every line where none is drawn.
    pub fn or_all(self) -> (series: VisibleSeries)
        ensures
            series == self.at_least_one(),
    {
        if self.voltage || self.current || self.power {
            self
        } else {
            VisibleSeries::all()
        }
    }

    /// Whether the line of `channel` is drawn.
    pub fn shows(self, channel: Channel) -> (drawn: bool)
        ensures
            drawn == self.draws(channel),
    {
        match channel {
            Channel::Voltage => self.voltage,
            Channel::Current => self.current,
            Channel::Power => self.power,
        }
    }

    /// Switches the line of `channel`, unless it is the last one.
    pub fn toggle(&mut self, channel: Channel)
        ensures
            *final(self) == old(self).toggled(channel),
    {
        let mut switched = *self;
        match channel {
            Channel::Voltage => {
                switched.voltage = !self.voltage;
            },
            Channel::Current => {
                switched.current = !self.current;
            },
            Channel::Power => {
                switched.power = !self.power;
            },
        }
        if switched.voltage || switched.current || switched.power {
            *self = switched;
        }
    }
}

/// Which cumulative lines are drawn.
#[derive(Debug, Clone, Copy, PartialEq, Eq, Structural)]
pub struct AccumulatedSeries {
    pub energy: bool,
    pub capacity: bool,
}

/// What the monitor chart shows.
#[derive(Debug, Clone, Copy, PartialEq, Eq, Structural)]
pub struct ChartState {
    pub source: PlotSource,
    pub window: TimeWindow,
    pub mode: ChartFollowMode,
    pub viewport: ChartViewport,
    pub cursor: Option<CursorReadout>,
    pub pinned: bool,
    /// Whether the plots begin anew with the next frame.
    pub reset: bool,
    pub visible: VisibleSeries,
    pub accumulated: AccumulatedSeries,
    pub filter: DisplayFilter,
}

impl ChartState {
    /// The chart before anything was shown.
    pub open spec fn initial() -> ChartState {
        ChartState {
            source: PlotSource::Live,
            window: TimeWindow::Sec30,
            mode: ChartFollowMode::LatestWindow,
            viewport: ChartViewport { selection: None, drag: None },
            cursor: None,
            pinned: false,
            reset: false,
            visible: VisibleSeries::every(),
            accumulated: AccumulatedSeries { energy: true, capacity: true },
            filter: DisplayFilter::Median5,
        }
    }

    /// A viewport that was shown has a width.
    pub open spec fn well_formed(self) -> bool {
        &&& self.visible.some()
        &&& self.viewport.selection matches Some(selection) ==> 0 <= selection.start_us
            < selection.end_us
    }

    /// The chart without a viewport.
    pub open spec fn unplaced(self) -> ChartState {
        ChartState { viewport: ChartViewport { selection: None, ..self.viewport }, ..self }
    }

    /// The chart with another viewport.
    pub open spec fn placed(self, selection: NavigatorSelection) -> ChartState {
        ChartState {
            viewport: ChartViewport { selection: Some(selection), ..self.viewport },
            ..self
        }
    }

    /// The chart without a cursor.
    pub open spec fn uncursored(self) -> ChartState {
        ChartState { cursor: None, pinned: false, ..self }
    }

    /// The chart, following the newest sample with its window.
    pub open spec fn resumed(self) -> ChartState {
        ChartState { mode: ChartFollowMode::following(self.window), ..self.unplaced() }
    }

    /// The chart, as the user wants it after losing their way.
    pub open spec fn restored(self) -> ChartState {
        ChartState { reset: true, ..self.uncursored().resumed() }
    }

    /// The chart after an imported recording was closed.
    pub open spec fn closed_import(self) -> ChartState {
        ChartState {
            source: if self.source == PlotSource::Imported {
                PlotSource::Live
            } else {
                self.source
            },
            ..self.restored()
        }
    }

    /// The chart, showing a recording that was loaded from `source`.
    pub open spec fn showing(self, source: PlotSource) -> ChartState {
        ChartState {
            source,
            window: TimeWindow::All,
            mode: ChartFollowMode::FullSession,
            reset: true,
            ..self.uncursored().unplaced()
        }
    }

    /// The chart, showing a session that begins.
    pub open spec fn begun(self) -> ChartState {
        ChartState {
            source: PlotSource::Live,
            mode: ChartFollowMode::FullSession,
            viewport: ChartViewport { selection: None, drag: None },
            reset: true,
            ..self.uncursored()
        }
    }

    /// The chart, showing an earlier session that goes on.
    pub open spec fn reloaded(self) -> ChartState {
        ChartState {
            source: PlotSource::Live,
            mode: ChartFollowMode::FullSession,
            reset: true,
            ..self.unplaced()
        }
    }

    /// The chart after the live data were cleared.
    pub open spec fn cleared(self) -> ChartState {
        ChartState {
            mode: ChartFollowMode::LatestWindow,
            reset: true,
            ..self.uncursored().unplaced()
        }
    }

    /// The chart with another source; one that was loaded is shown as a whole.
    pub open spec fn switched(self, source: PlotSource) -> ChartState {
        if source == self.source {
            self
        } else {
            ChartState {
                source,
                window: if source == PlotSource::Live {
                    self.window
                } else {
                    TimeWindow::All
                },
                ..self
            }.restored()
        }
    }

    /// The chart, following with `window`.
    pub open spec fn following(self, window: TimeWindow) -> ChartState {
        ChartState { window, ..self }.resumed()
    }

    /// The chart, following the newest sample again after a manual view.
    pub open spec fn at_latest(self) -> ChartState {
        ChartState {
            window: if self.window == TimeWindow::All {
                TimeWindow::Sec30
            } else {
                self.window
            },
            mode: ChartFollowMode::LatestWindow,
            ..self.unplaced()
        }
    }

    /// The chart in a manual view.
    pub open spec fn manual(self, selection: NavigatorSelection) -> ChartState {
        ChartState { mode: ChartFollowMode::Manual, ..self.placed(selection) }
    }

    /// The mode with which a frame is drawn.
    pub open spec fn frame_mode(self) -> ChartFollowMode {
        if self.reset {
            ChartFollowMode::following(self.window)
        } else {
            self.mode
        }
    }

    /// The range that a frame shows, on an axis that ends at `full_end`.
    pub open spec fn frame_selection(self, full_end: int) -> NavigatorSelection {
        let selection = followed(
            self.frame_mode(),
            self.window,
            if self.reset {
                None
            } else {
                self.viewport.selection
            },
            full_end,
        );
        settled(selection.start_us as int, selection.end_us as int, full_end)
    }

    /// The chart of a frame.
    pub open spec fn framed(self, full_end: int) -> ChartState {
        ChartState { mode: self.frame_mode(), ..self.placed(self.frame_selection(full_end)) }
    }

    /// The range that the navigator shows.
    pub open spec fn navigated(self, full_end: int) -> NavigatorSelection {
        match self.viewport.selection {
            Some(selection) => selection,
            None => NavigatorSelection::whole(full_end),
        }
    }

    /// Whether the whole recording is shown.
    pub open spec fn shows_everything(self, selection: NavigatorSelection, full_end: int) -> bool {
        self.mode == ChartFollowMode::FullSession || (selection.start_us <= 0 && selection.end_us
            >= full_end)
    }

    // -- The same, for use --

    /// The chart before anything was shown.
    pub fn new() -> (state: ChartState)
        ensures
            state == ChartState::initial(),
            state.well_formed(),
    {
        ChartState {
            source: PlotSource::Live,
            window: TimeWindow::Sec30,
            mode: ChartFollowMode::LatestWindow,
            viewport: ChartViewport { selection: None, drag: None },
            cursor: None,
            pinned: false,
            reset: false,
            visible: VisibleSeries::all(),
            accumulated: AccumulatedSeries { energy: true, capacity: true },
            filter: DisplayFilter::Median5,
        }
    }

    /// The mode that follows the newest sample with the selected window.
    pub fn preferred_follow_mode(&self) -> (mode: ChartFollowMode)
        ensures
            mode == ChartFollowMode::following(self.window),
    {
        ChartFollowMode::for_window(self.window)
    }

    /// Follows the newest sample again.
    pub fn resume_chart_following(&mut self)
        ensures
            *final(self) == old(self).resumed(),
    {
        self.mode = self.preferred_follow_mode();
        self.viewport.selection = None;
    }

    /// Keeps the viewport where it is.
    pub fn enter_manual_chart_view(&mut self)
        ensures
            *final(self) == (ChartState { mode: ChartFollowMode::Manual, ..*old(self) }),
    {
        self.mode = ChartFollowMode::Manual;
    }

    /// Shows the newest samples without a cursor.
    pub fn reset_view(&mut self)
        ensures
            *final(self) == old(self).restored(),
    {
        self.cursor = None;
        self.pinned = false;
        self.resume_chart_following();
        self.reset = true;
    }

    /// No longer shows an imported recording.
    pub fn close_imported_recording(&mut self)
        ensures
            *final(self) == old(self).closed_import(),
    {
        if self.source == PlotSource::Imported {
            self.source = PlotSource::Live;
        }
        self.reset_view();
    }

    /// Shows a recording that was loaded from `source`.
    pub fn show_loaded(&mut self, source: PlotSource)
        ensures
            *final(self) == old(self).showing(source),
    {
        self.source = source;
        self.window = TimeWindow::All;
        self.mode = ChartFollowMode::FullSession;
        self.viewport.selection = None;
        self.cursor = None;
        self.pinned = false;
        self.reset = true;
    }

    /// Shows a session that begins.
    pub fn begin_session(&mut self)
        ensures
            *final(self) == old(self).begun(),
    {
        self.source = PlotSource::Live;
        self.mode = ChartFollowMode::FullSession;
        self.viewport = ChartViewport { selection: None, drag: None };
        self.cursor = None;
        self.pinned = false;
        self.reset = true;
    }

    /// Shows an earlier session that goes on.
    pub fn reload_session(&mut self)
        ensures
            *final(self) == old(self).reloaded(),
    {
        self.source = PlotSource::Live;
        self.mode = ChartFollowMode::FullSession;
        self.viewport.selection = None;
        self.reset = true;
    }

    /// Shows that the live data were cleared.
    pub fn clear(&mut self)
        ensures
            *final(self) == old(self).cleared(),
    {
        self.cursor = None;
        self.pinned = false;
        self.reset = true;
        self.viewport.selection = None;
        self.mode = ChartFollowMode::LatestWindow;
    }

    /// Shows another source.
    pub fn select_source(&mut self, source: PlotSource)
        ensures
            *final(self) == old(self).switched(source),
    {
        if source != self.source {
            self.source = source;
            if source != PlotSource::Live {
                self.window = TimeWindow::All;
            }
            self.reset_view();
        }
    }

    /// Follows the newest sample with `window`.
    pub fn follow_window(&mut self, window: TimeWindow)
        ensures
            *final(self) == old(self).following(window),
    {
        self.window = window;
        self.resume_chart_following();
    }

    /// Follows the newest sample after a manual view.
    pub fn back_to_latest(&mut self)
        ensures
            *final(self) == old(self).at_latest(),
    {
        if self.window == TimeWindow::All {
            self.window = TimeWindow::Sec30;
        }
        self.mode = ChartFollowMode::LatestWindow;
        self.viewport.selection = None;
    }

    /// Switches the line of `channel`, unless it is the last one.
    pub fn toggle_series(&mut self, channel: Channel)
        ensures
            *final(self) == (ChartState {
                visible: old(self).visible.toggled(channel),
                ..*old(self)
            }),
            old(self).well_formed() ==> final(self).well_formed(),
    {
        self.visible.toggle(channel);
    }

    /// Pins the cursor, or releases it.
    pub fn toggle_pin(&mut self)
        ensures
            *final(self) == (ChartState { pinned: !old(self).pinned, ..*old(self) }),
    {
        self.pinned = !self.pinned;
    }

    /// Notes what the cursor reads, unless it is pinned.
    pub fn hover(&mut self, readout: CursorReadout)
        ensures
            *final(self) == (if old(self).pinned {
                *old(self)
            } else {
                ChartState { cursor: Some(readout), ..*old(self) }
            }),
    {
        if !self.pinned {
            self.cursor = Some(readout);
        }
    }

    /// Settles the range of a frame on an axis that ends at `full_end_us`.
    pub fn ensure_chart_selection(&mut self, full_end_us: i64) -> (selection: NavigatorSelection)
        ensures
            *final(self) == old(self).framed(full_end_us as int),
            selection == old(self).frame_selection(full_end_us as int),
            0 <= selection.start_us < selection.end_us,
    {
        if self.reset {
            self.viewport.selection = None;
            self.mode = self.preferred_follow_mode();
        }
        let wanted = follow(self.mode, self.window, self.viewport.selection, full_end_us);
        let selection = wanted.clamped(full_end_us);
        self.viewport.selection = Some(selection);
        selection
    }

    /// The frame was drawn.
    pub fn frame_drawn(&mut self)
        ensures
            *final(self) == (ChartState { reset: false, ..*old(self) }),
    {
        self.reset = false;
    }

    /// Moves `selection` by `shift_us`.
    pub fn pan(&mut self, selection: NavigatorSelection, shift_us: i64, full_end_us: i64)
        ensures
            *final(self) == old(self).manual(
                settled(
                    selection.start_us + shift_us,
                    selection.end_us + shift_us,
                    full_end_us as int,
                ),
            ),
    {
        self.viewport.selection = Some(selection.shifted(shift_us, full_end_us));
        self.enter_manual_chart_view();
    }

    /// Zooms `selection` to `width_us` around `anchor_us`.
    pub fn zoom(
        &mut self,
        selection: NavigatorSelection,
        anchor_us: i64,
        width_us: i64,
        full_end_us: i64,
    )
        requires
            0 <= selection.start_us < selection.end_us,
            full_end_us >= NARROWEST_ZOOM_US,
        ensures
            *final(self) == old(self).manual(
                selection.zoom(anchor_us as int, width_us as int, full_end_us as int),
            ),
    {
        self.viewport.selection = Some(selection.zoomed(anchor_us, width_us, full_end_us));
        self.enter_manual_chart_view();
    }

    /// The range that the navigator shows.
    pub fn navigator_selection(&self, full_end_us: i64) -> (selection: NavigatorSelection)
        ensures
            selection == self.navigated(full_end_us as int),
    {
        match self.viewport.selection {
            Some(selection) => selection,
            None => NavigatorSelection {
                start_us: 0,
                end_us: if full_end_us < NARROWEST_US {
                    NARROWEST_US
                } else {
                    full_end_us
                },
            },
        }
    }

    /// Shows the whole recording after a double click on the navigator.
    pub fn show_full_session(&mut self, full_end_us: i64)
        ensures
            *final(self) == (ChartState {
                mode: ChartFollowMode::FullSession,
                viewport: ChartViewport {
                    selection: Some(NavigatorSelection::whole(full_end_us as int)),
                    drag: None,
                },
                ..*old(self)
            }),
    {
        self.mode = ChartFollowMode::FullSession;
        self.viewport = ChartViewport {
            selection: Some(
                NavigatorSelection {
                    start_us: 0,
                    end_us: if full_end_us < NARROWEST_US {
                        NARROWEST_US
                    } else {
                        full_end_us
                    },
                },
            ),
            drag: None,
        };
    }

    /// Begins to drag the navigator at the left handle, at the right handle or
    /// elsewhere.
    pub fn begin_drag(&mut self, at_start: bool, at_end: bool)
        ensures
            *final(self) == (ChartState {
                mode: ChartFollowMode::Manual,
                viewport: ChartViewport {
                    drag: Some(
                        if at_start {
                            NavigatorDrag::Start
                        } else if at_end {
                            NavigatorDrag::End
                        } else {
                            NavigatorDrag::Range
                        },
                    ),
                    ..old(self).viewport
                },
                ..*old(self)
            }),
    {
        self.viewport.drag = Some(NavigatorDrag::begun(at_start, at_end));
        self.enter_manual_chart_view();
    }

    /// Drags the navigator to `time_us`, or by `shift_us` where the whole range
    /// is dragged.
    pub fn drag(
        &mut self,
        time_us: i64,
        shift_us: i64,
        rate: SampleRateOption,
        full_end_us: i64,
    )
        ensures
            ({
                let shown = old(self).navigated(full_end_us as int);
                let narrowest = larger(1_000_000int / rate.samples_per_second() as int, 50_000);
                *final(self) == old(self).placed(
                    match old(self).viewport.drag {
                        Some(NavigatorDrag::Start) => settled(
                            smaller(time_us as int, shown.end_us - narrowest),
                            shown.end_us as int,
                            full_end_us as int,
                        ),
                        Some(NavigatorDrag::End) => settled(
                            shown.start_us as int,
                            larger(time_us as int, shown.start_us + narrowest),
                            full_end_us as int,
                        ),
                        _ => settled(
                            shown.start_us + shift_us,
                            shown.end_us + shift_us,
                            full_end_us as int,
                        ),
                    },
                )
            }),
    {
        let shown = self.navigator_selection(full_end_us);
        let drag = match self.viewport.drag {
            Some(drag) => drag,
            None => NavigatorDrag::Range,
        };
        self.viewport.selection = Some(
            drag.dragged(shown, time_us, shift_us, minimum_drag_width(rate), full_end_us),
        );
    }

    /// Ends the drag.
    pub fn end_drag(&mut self)
        ensures
            *final(self) == (ChartState {
                viewport: ChartViewport { drag: None, ..old(self).viewport },
                ..*old(self)
            }),
    {
        self.viewport.drag = None;
    }

    /// Whether the whole recording is shown.
    pub fn is_everything(&self, selection: NavigatorSelection, full_end_us: i64) -> (all: bool)
        ensures
            all == self.shows_everything(selection, full_end_us as int),
    {
        self.mode == ChartFollowMode::FullSession || (selection.start_us <= 0 && selection.end_us
            >= full_end_us)
    }

    /// What the list of ranges shows as selected.
    pub open spec fn range_text(self, language: Language) -> Seq<char> {
        match self.mode {
            ChartFollowMode::FullSession => language.chosen("全程"@, "Full session"@),
            ChartFollowMode::LatestWindow => language.chosen("最近"@, "Latest"@) + " "@
                + self.window.caption(language),
            ChartFollowMode::Manual => language.chosen("手动窗口"@, "Manual window"@),
        }
    }

    /// What the list of ranges shows as selected.
    pub fn range_label(&self, language: Language) -> (label: String)
        ensures
            label@ == self.range_text(language),
    {
        match self.mode {
            ChartFollowMode::FullSession => language.pick("全程", "Full session").to_owned(),
            ChartFollowMode::LatestWindow => {
                let mut label = language.pick("最近", "Latest").to_owned();
                label.append(" ");
                label.append(self.window.localized_label(language));
                label
            },
            ChartFollowMode::Manual => language.pick("手动窗口", "Manual window").to_owned(),
        }
    }

    /// What the navigator says above the overview.
    pub open spec fn navigator_text(
        self,
        language: Language,
        selection: NavigatorSelection,
        full_end: i64,
    ) -> Seq<char> {
        let whole = language.chosen("全程"@, "Full"@) + " "@ + time_text(axis_end(full_end as int));
        let width = time_text(selection.end_us - selection.start_us);
        match self.mode {
            ChartFollowMode::FullSession => whole + " · "@ + language.chosen(
                "已跟随最新"@,
                "Following latest"@,
            ),
            ChartFollowMode::LatestWindow => whole + " · "@ + language.chosen("最近"@, "Latest"@)
                + " "@ + width + " · "@ + language.chosen("已跟随最新"@, "Following latest"@),
            ChartFollowMode::Manual => whole + " · "@ + language.chosen("视窗"@, "Window"@) + " "@
                + width + " · "@ + language.chosen("距最新"@, "Behind latest"@) + " "@ + time_text(
                axis_end(full_end as int) - selection.end_us,
            ),
        }
    }

    /// What the navigator says above the overview.
    pub fn navigator_label(
        &self,
        language: Language,
        selection: NavigatorSelection,
        full_end_us: i64,
    ) -> (label: String)
        requires
            0 <= selection.start_us <= selection.end_us,
        ensures
            label@ == self.navigator_text(language, selection, full_end_us),
    {
        let last: i64 = if full_end_us < NARROWEST_US {
            NARROWEST_US
        } else {
            full_end_us
        };
        let width: i64 = selection.end_us - selection.start_us;
        let mut label = language.pick("全程", "Full").to_owned();
        label.append(" ");
        label.append(plot_time(last).as_str());
        label.append(" · ");
        match self.mode {
            ChartFollowMode::FullSession => {
                label.append(language.pick("已跟随最新", "Following latest"));
            },
            ChartFollowMode::LatestWindow => {
                label.append(language.pick("最近", "Latest"));
                label.append(" ");
                label.append(plot_time(width).as_str());
                label.append(" · ");
                label.append(language.pick("已跟随最新", "Following latest"));
            },
            ChartFollowMode::Manual => {
                let lag: i64 = if last < selection.end_us {
                    0
                } else {
                    last - selection.end_us
                };
                label.append(language.pick("视窗", "Window"));
                label.append(" ");
                label.append(plot_time(width).as_str());
                label.append(" · ");
                label.append(language.pick("距最新", "Behind latest"));
                label.append(" ");
                label.append(plot_time(lag).as_str());
            },
        }
        label
    }

    /// What the button that pins the cursor says.
    pub fn pin_label(&self, language: Language, compact: bool) -> (label: &'static str)
        ensures
            label@ == (if self.pinned {
                if compact {
                    language.chosen("取消固定"@, "Unpin"@)
                } else {
                    language.chosen("取消固定游标"@, "Unpin cursor"@)
                }
            } else if compact {
                language.chosen("固定"@, "Pin"@)
            } else {
                language.chosen("固定游标"@, "Pin cursor"@)
            }),
    {
        if self.pinned {
            if compact {
                language.pick("取消固定", "Unpin")
            } else {
                language.pick("取消固定游标", "Unpin cursor")
            }
        } else if compact {
            language.pick("固定", "Pin")
        } else {
            language.pick("固定游标", "Pin cursor")
        }
    }
}

/// A time on the plot as text, and zero before the plot begins.
pub open spec fn time_text(time: int) -> Seq<char> {
    duration_text(larger(time, 0) as nat / 1_000)
}

/// A time on the plot as text, and zero before the plot begins.
pub fn plot_time(time_us: i64) -> (text: String)
    ensures
        text@ == time_text(time_us as int),
{
    if time_us < 0 {
        format_plot_time(0)
    } else {
        format_plot_time(time_us as u64)
    }
}

/// Switching lines off never leaves the chart empty, and switching the same
/// line twice leaves what was drawn before, unless it was the only one.
pub proof fn law_some_line_is_always_drawn(series: VisibleSeries, channel: Channel)
    requires
        series.some(),
    ensures
        series.toggled(channel).some(),
        series.toggled(channel) != series ==> series.toggled(channel).toggled(channel) == series,
        series.toggled(channel) == series ==> series.draws(channel),
{
}

/// A manual view stays where it is from frame to frame as long as it fits; a
/// following view ends at the newest sample in every frame.
pub proof fn law_frames_follow_or_stay(state: ChartState, full_end: i64, later: i64)
    requires
        !state.reset,
        state.well_formed(),
        full_end <= later,
        NARROWEST_US <= full_end,
    ensures
        ({
            let frame = state.framed(full_end as int);
            let next = frame.framed(later as int);
            &&& state.mode == ChartFollowMode::Manual ==> next.viewport == frame.viewport
            &&& state.mode != ChartFollowMode::Manual ==> next.viewport.selection->0.end_us == later
            &&& state.mode == ChartFollowMode::FullSession ==> next.viewport.selection->0.start_us
                == 0
        }),
{
}

/// Dragging or zooming ends the following, and only asking for it begins it
/// again.
pub proof fn law_manual_views_are_left_on_request(
    state: ChartState,
    selection: NavigatorSelection,
    window: TimeWindow,
    full_end: int,
)
    ensures
        state.manual(selection).mode == ChartFollowMode::Manual,
        !state.reset ==> state.manual(selection).framed(full_end).mode == ChartFollowMode::Manual,
        state.manual(selection).at_latest().mode == ChartFollowMode::LatestWindow,
        state.manual(selection).following(window).mode != ChartFollowMode::Manual,
        state.manual(selection).restored().framed(full_end).mode != ChartFollowMode::Manual,
{
}

/// Switching a line on or off touches that line and no other.
pub proof fn law_lines_are_switched_one_by_one(
    series: VisibleSeries,
    channel: Channel,
    other: Channel,
    drawn: bool,
)
    ensures
        series.with(channel, drawn).draws(channel) == drawn,
        channel != other ==> series.with(channel, drawn).draws(other) == series.draws(other),
        channel != other && series.draws(other) ==> series.toggled(channel).draws(channel)
            == !series.draws(channel),
        channel != other ==> series.toggled(channel).draws(other) == series.draws(other),
        series.at_least_one().draws(Channel::Voltage) || series.at_least_one().draws(
            Channel::Current,
        ) || series.at_least_one().draws(Channel::Power),
        series.draws(channel) ==> series.at_least_one() == series,
{
}

/// A recording that is opened is shown from its start to its end, without a
/// cursor of what was shown before; so is a session that begins or is taken up.
pub proof fn law_what_is_opened_is_shown_whole(
    state: ChartState,
    source: PlotSource,
    full_end: int,
)
    requires
        1_000 <= full_end <= i64::MAX,
    ensures
        ({
            let opened = state.showing(source);
            let frame = opened.framed(full_end);
            &&& opened.source == source
            &&& opened.cursor is None
            &&& !opened.pinned
            &&& frame.viewport.selection == Some(
                NavigatorSelection { start_us: 0, end_us: full_end as i64 },
            )
            &&& opened.shows_everything(opened.frame_selection(full_end), full_end)
        }),
        ({
            let begun = state.begun();
            &&& begun.source == PlotSource::Live
            &&& begun.mode == ChartFollowMode::FullSession
            &&& begun.cursor is None
            &&& begun.viewport.selection is None
            &&& begun.viewport.drag is None
            &&& begun.window == state.window
        }),
        state.reloaded().source == PlotSource::Live,
        state.reloaded().mode == ChartFollowMode::FullSession,
        state.cleared().source == state.source,
        state.cleared().mode == ChartFollowMode::LatestWindow,
        state.cleared().cursor is None,
{
}

/// Looking at another source drops the cursor and the place of the viewport;
/// looking at the same one changes nothing. Closing an imported recording leads
/// back to the live data, and closing it while something else is shown does not.
pub proof fn law_another_source_is_looked_at_anew(state: ChartState, source: PlotSource)
    ensures
        source == state.source ==> state.switched(source) == state,
        source != state.source ==> {
            &&& state.switched(source).source == source
            &&& state.switched(source).cursor is None
            &&& state.switched(source).viewport.selection is None
            &&& state.switched(source).mode != ChartFollowMode::Manual
            &&& source != PlotSource::Live ==> state.switched(source).window == TimeWindow::All
            &&& source == PlotSource::Live ==> state.switched(source).window == state.window
        },
        state.source == PlotSource::Imported ==> state.closed_import().source == PlotSource::Live,
        state.source != PlotSource::Imported ==> state.closed_import().source == state.source,
        state.closed_import().cursor is None,
{
}

/// Everything is shown exactly where the viewport reaches from the start to the
/// end, or follows the whole session.
pub proof fn law_everything_is_shown_from_start_to_end(
    state: ChartState,
    selection: NavigatorSelection,
    full_end: int,
)
    requires
        state.mode != ChartFollowMode::FullSession,
    ensures
        state.shows_everything(selection, full_end) <==> (selection.start_us <= 0
            && selection.end_us >= full_end),
{
}

/// A window that was chosen is shown in the next frame: its newest seconds, up
/// to the newest sample.
pub proof fn law_a_chosen_window_is_shown(state: ChartState, full_end: int)
    requires
        300_000_000 <= full_end <= i64::MAX,
        !state.reset,
    ensures
        state.following(TimeWindow::Sec2).framed(full_end).viewport.selection == Some(
            NavigatorSelection {
                start_us: (full_end - 2_000_000) as i64,
                end_us: full_end as i64,
            },
        ),
        state.following(TimeWindow::Sec10).framed(full_end).viewport.selection == Some(
            NavigatorSelection {
                start_us: (full_end - 10_000_000) as i64,
                end_us: full_end as i64,
            },
        ),
        state.following(TimeWindow::Sec30).framed(full_end).viewport.selection == Some(
            NavigatorSelection {
                start_us: (full_end - 30_000_000) as i64,
                end_us: full_end as i64,
            },
        ),
        state.following(TimeWindow::Min1).framed(full_end).viewport.selection == Some(
            NavigatorSelection {
                start_us: (full_end - 60_000_000) as i64,
                end_us: full_end as i64,
            },
        ),
        state.following(TimeWindow::Min5).framed(full_end).viewport.selection == Some(
            NavigatorSelection {
                start_us: (full_end - 300_000_000) as i64,
                end_us: full_end as i64,
            },
        ),
        state.following(TimeWindow::All).framed(full_end).viewport.selection == Some(
            NavigatorSelection { start_us: 0, end_us: full_end as i64 },
        ),
{
}

} // verus!
