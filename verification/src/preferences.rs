//! What is kept between launches: choices of the user, and nothing that was
//! measured.
use vstd::prelude::*;

use crate::chart_state::{AccumulatedSeries, ChartState, VisibleSeries};
use crate::control_model::ControlView;
use crate::i18n::Language;
use crate::link::{DeviceLink, LinkView};
use crate::measurement::PlotMetric;
use crate::options::{
    AutoCaptureMetric, AutoCaptureRule, ChartFollowMode, DisplayFilter, SampleRateOption,
    TimeWindow, WorkspaceTab,
};
use crate::pd_panel::{PdPanel, PdPanelView};
use crate::recording::RecordingFormat;
use crate::recording_control::RecordingControl;
use crate::session_core::SessionCore;
use crate::workbench::{Workbench, WorkbenchView};

verus! {

/// The choices of the user. Samples, serial numbers and what was recorded are
/// no part of them.
#[derive(Debug, Clone, Copy)]
pub struct AppPreferences {
    pub language: Language,
    pub selected_rate: SampleRateOption,
    pub time_window: TimeWindow,
    pub plot_metrics: [PlotMetric; 3],
    pub recording_format: RecordingFormat,
    pub pd_auto_scroll: bool,
    pub pd_panel_visible: bool,
    pub pd_protocol_visible: bool,
    pub pd_trace_enabled: bool,
    pub usb_reset: bool,
    pub sleep_protection_enabled: bool,
    pub auto_pause_enabled: bool,
    pub auto_capture_metric: AutoCaptureMetric,
    pub auto_pause_threshold_mw: u32,
    pub auto_pause_delay_ms: u32,
    pub active_tab: WorkspaceTab,
    pub visible_series: VisibleSeries,
    /// Kept apart from the three lines, so that older choices still hold.
    pub visible_accumulated_series: AccumulatedSeries,
    pub follow_latest: bool,
    pub display_filter: DisplayFilter,
}

/// What is known of the choices of the user.
#[verifier::ext_equal]
pub ghost struct Choices {
    pub language: Language,
    pub selected_rate: SampleRateOption,
    pub window: TimeWindow,
    pub metrics: Seq<PlotMetric>,
    pub format: RecordingFormat,
    pub auto_scroll: bool,
    pub panel_visible: bool,
    pub protocol_visible: bool,
    pub trace_enabled: bool,
    pub usb_reset: bool,
    pub sleep_protection: bool,
    pub rule: AutoCaptureRule,
    pub tab: WorkspaceTab,
    pub visible: VisibleSeries,
    pub accumulated: AccumulatedSeries,
    pub follow_latest: bool,
    pub filter: DisplayFilter,
}

impl View for AppPreferences {
    type V = Choices;

    open spec fn view(&self) -> Choices {
        Choices {
            language: self.language,
            selected_rate: self.selected_rate,
            window: self.time_window,
            metrics: self.plot_metrics@,
            format: self.recording_format,
            auto_scroll: self.pd_auto_scroll,
            panel_visible: self.pd_panel_visible,
            protocol_visible: self.pd_protocol_visible,
            trace_enabled: self.pd_trace_enabled,
            usb_reset: self.usb_reset,
            sleep_protection: self.sleep_protection_enabled,
            rule: AutoCaptureRule {
                enabled: self.auto_pause_enabled,
                metric: self.auto_capture_metric,
                threshold_milli: self.auto_pause_threshold_mw,
                sustain_ms: self.auto_pause_delay_ms,
            },
            tab: self.active_tab,
            visible: self.visible_series,
            accumulated: self.visible_accumulated_series,
            follow_latest: self.follow_latest,
            filter: self.display_filter,
        }
    }
}

impl Choices {
    /// Before the user chose anything.
    pub open spec fn initial() -> Choices {
        Choices {
            language: Language::SimplifiedChinese,
            selected_rate: SampleRateOption::Sps50,
            window: TimeWindow::Sec30,
            metrics: seq![PlotMetric::Voltage, PlotMetric::Current, PlotMetric::Power],
            format: RecordingFormat::Parquet,
            auto_scroll: true,
            panel_visible: true,
            protocol_visible: true,
            trace_enabled: false,
            usb_reset: false,
            sleep_protection: true,
            rule: AutoCaptureRule {
                enabled: false,
                metric: AutoCaptureMetric::Power,
                threshold_milli: 100,
                sustain_ms: 3_000,
            },
            tab: WorkspaceTab::Monitor,
            visible: VisibleSeries::every(),
            accumulated: AccumulatedSeries { energy: true, capacity: true },
            follow_latest: true,
            filter: DisplayFilter::Median5,
        }
    }

    /// How the chart moves with these choices.
    pub open spec fn mode(self) -> ChartFollowMode {
        if self.follow_latest {
            ChartFollowMode::following(self.window)
        } else {
            ChartFollowMode::Manual
        }
    }
}

impl Default for AppPreferences {
    fn default() -> (preferences: AppPreferences)
        ensures
            preferences@ == Choices::initial(),
    {
        let preferences = AppPreferences {
            language: Language::SimplifiedChinese,
            selected_rate: SampleRateOption::Sps50,
            time_window: TimeWindow::Sec30,
            plot_metrics: [PlotMetric::Voltage, PlotMetric::Current, PlotMetric::Power],
            recording_format: RecordingFormat::Parquet,
            pd_auto_scroll: true,
            pd_panel_visible: true,
            pd_protocol_visible: true,
            pd_trace_enabled: false,
            usb_reset: false,
            sleep_protection_enabled: true,
            auto_pause_enabled: false,
            auto_capture_metric: AutoCaptureMetric::Power,
            auto_pause_threshold_mw: 100,
            auto_pause_delay_ms: 3_000,
            active_tab: WorkspaceTab::Monitor,
            visible_series: VisibleSeries::all(),
            visible_accumulated_series: AccumulatedSeries { energy: true, capacity: true },
            follow_latest: true,
            display_filter: DisplayFilter::Median5,
        };
        assert(preferences@ =~= Choices::initial());
        preferences
    }
}

impl WorkbenchView {
    /// The workbench as the user left it.
    #[verifier::opaque]
    pub open spec fn preferring(self, choices: Choices) -> WorkbenchView {
        WorkbenchView {
            language: choices.language,
            link: LinkView {
                selected_rate: choices.selected_rate,
                current_rate: choices.selected_rate,
                usb_reset: choices.usb_reset,
                ..self.link
            },
            metrics: choices.metrics,
            control: ControlView {
                format: choices.format,
                sleep_protection: choices.sleep_protection,
                rule: choices.rule,
                ..self.control
            },
            pd: PdPanelView {
                auto_scroll: choices.auto_scroll,
                panel_visible: choices.panel_visible,
                protocol_visible: choices.protocol_visible,
                trace_enabled: choices.trace_enabled,
                ..self.pd
            },
            tab: choices.tab,
            chart: ChartState {
                window: choices.window,
                visible: choices.visible.at_least_one(),
                accumulated: choices.accumulated,
                mode: choices.mode(),
                filter: choices.filter,
                ..self.chart
            },
            ..self
        }
    }

    /// What is kept of the workbench.
    #[verifier::opaque]
    pub open spec fn choices(self) -> Choices {
        Choices {
            language: self.language,
            selected_rate: self.link.selected_rate,
            window: self.chart.window,
            metrics: self.metrics,
            format: self.control.format,
            auto_scroll: self.pd.auto_scroll,
            panel_visible: self.pd.panel_visible,
            protocol_visible: self.pd.protocol_visible,
            trace_enabled: self.pd.trace_enabled,
            usb_reset: self.link.usb_reset,
            sleep_protection: self.control.sleep_protection,
            rule: self.control.rule,
            tab: self.tab,
            visible: self.chart.visible,
            accumulated: self.chart.accumulated,
            follow_latest: self.chart.mode != ChartFollowMode::Manual,
            filter: self.chart.filter,
        }
    }
}

/// Sets the link up as the user left it.
fn prefer_rate(link: &mut DeviceLink, rate: SampleRateOption, usb_reset: bool)
    ensures
        final(link)@ == (LinkView {
            selected_rate: rate,
            current_rate: rate,
            usb_reset,
            ..old(link)@
        }),
{
    link.selected_rate = rate;
    link.current_rate = rate;
    link.usb_reset = usb_reset;
}

/// Sets the recording controls up as the user left them.
fn prefer_recording(
    control: &mut RecordingControl,
    format: RecordingFormat,
    sleep_protection: bool,
    rule: AutoCaptureRule,
)
    requires
        old(control)@.well_formed(),
    ensures
        final(control)@ == (ControlView { format, sleep_protection, rule, ..old(control)@ }),
        final(control)@.well_formed(),
{
    control.format = format;
    control.sleep_protection = sleep_protection;
    control.rule = rule;
}

/// Sets the protocol page up as the user left it.
fn prefer_protocol_page(pd: &mut PdPanel, preferences: &AppPreferences)
    ensures
        final(pd)@ == (PdPanelView {
            auto_scroll: preferences@.auto_scroll,
            panel_visible: preferences@.panel_visible,
            protocol_visible: preferences@.protocol_visible,
            trace_enabled: preferences@.trace_enabled,
            ..old(pd)@
        }),
{
    pd.auto_scroll = preferences.pd_auto_scroll;
    pd.panel_visible = preferences.pd_panel_visible;
    pd.protocol_visible = preferences.pd_protocol_visible;
    pd.trace_enabled = preferences.pd_trace_enabled;
}

/// Sets the chart up as the user left it.
fn prefer_chart(chart: &mut ChartState, preferences: &AppPreferences)
    ensures
        *final(chart) == (ChartState {
            window: preferences@.window,
            visible: preferences@.visible.at_least_one(),
            accumulated: preferences@.accumulated,
            mode: preferences@.mode(),
            filter: preferences@.filter,
            ..*old(chart)
        }),
{
    chart.window = preferences.time_window;
    chart.visible = preferences.visible_series.or_all();
    chart.accumulated = preferences.visible_accumulated_series;
    chart.mode = if preferences.follow_latest {
        ChartFollowMode::for_window(preferences.time_window)
    } else {
        ChartFollowMode::Manual
    };
    chart.filter = preferences.display_filter;
}

impl Workbench {
    /// Sets the workbench up as the user left it.
    pub fn apply_preferences(&mut self, preferences: AppPreferences)
        requires
            old(self)@.well_formed(),
        ensures
            final(self)@ == old(self)@.preferring(preferences@),
            final(self)@.well_formed(),
    {
        proof {
            reveal(WorkbenchView::preferring);
        }
        self.language = preferences.language;
        self.metrics = preferences.plot_metrics;
        self.tab = preferences.active_tab;
        prefer_rate(&mut self.link, preferences.selected_rate, preferences.usb_reset);
        let rule = AutoCaptureRule {
            enabled: preferences.auto_pause_enabled,
            metric: preferences.auto_capture_metric,
            threshold_milli: preferences.auto_pause_threshold_mw,
            sustain_ms: preferences.auto_pause_delay_ms,
        };
        prefer_recording(
            &mut self.control,
            preferences.recording_format,
            preferences.sleep_protection_enabled,
            rule,
        );
        prefer_protocol_page(&mut self.pd, &preferences);
        prefer_chart(&mut self.chart, &preferences);
    }

    /// What is kept of the workbench.
    pub fn preferences(&self) -> (preferences: AppPreferences)
        ensures
            preferences@ == self@.choices(),
    {
        proof {
            reveal(WorkbenchView::choices);
        }
        AppPreferences {
            language: self.language,
            selected_rate: self.link.selected_rate,
            time_window: self.chart.window,
            plot_metrics: self.metrics,
            recording_format: self.control.format,
            pd_auto_scroll: self.pd.auto_scroll,
            pd_panel_visible: self.pd.panel_visible,
            pd_protocol_visible: self.pd.protocol_visible,
            pd_trace_enabled: self.pd.trace_enabled,
            usb_reset: self.link.usb_reset,
            sleep_protection_enabled: self.control.sleep_protection,
            auto_pause_enabled: self.control.rule.enabled,
            auto_capture_metric: self.control.rule.metric,
            auto_pause_threshold_mw: self.control.rule.threshold_milli,
            auto_pause_delay_ms: self.control.rule.sustain_ms,
            active_tab: self.tab,
            visible_series: self.chart.visible,
            visible_accumulated_series: self.chart.accumulated,
            follow_latest: self.chart.mode.is_following(),
            display_filter: self.chart.filter,
        }
    }

    /// Changes the rule of the automatic pause; what it has watched so far is
    /// forgotten.
    pub fn change_rule(&mut self, rule: AutoCaptureRule)
        requires
            old(self)@.well_formed(),
        ensures
            final(self)@ == (WorkbenchView {
                control: ControlView {
                    rule,
                    core: SessionCore {
                        below_since_us: None,
                        above_since_us: None,
                        ..old(self)@.control.core
                    },
                    ..old(self)@.control
                },
                ..old(self)@
            }),
            old(self)@.control.at_rest() ==> final(self)@.well_formed(),
    {
        self.control.rule = rule;
        self.control.core.below_since_us = None;
        self.control.core.above_since_us = None;
    }
}

/// What the user chose comes back: a workbench that is set up with what was
/// kept keeps the same again, and set up with any choices it keeps those, but
/// for a chart without a line, which gets all three.
pub proof fn law_choices_come_back(view: WorkbenchView, choices: Choices)
    ensures
        view.preferring(choices).choices() == (Choices {
            visible: choices.visible.at_least_one(),
            ..choices
        }),
        choices.visible.some() ==> view.preferring(choices).choices() == choices,
        view.chart.visible.some() ==> view.preferring(view.choices()).choices() == view.choices(),
{
    reveal(WorkbenchView::preferring);
    reveal(WorkbenchView::choices);
}

/// What is kept holds nothing that was measured: two workbenches that differ
/// only in their data keep the same.
pub proof fn law_measurements_are_not_kept(view: WorkbenchView, other: WorkbenchView)
    requires
        other == (WorkbenchView {
            live: other.live,
            progress: other.progress,
            pending: other.pending,
            offline: other.offline,
            shelf: other.shelf,
            handled: other.handled,
            link: LinkView {
                device: other.link.device,
                status: other.link.status,
                last_error: other.link.last_error,
                ..view.link
            },
            control: ControlView {
                core: other.control.core,
                recorder: other.control.recorder,
                facts: other.control.facts,
                last_facts: other.control.last_facts,
                last_recording: other.control.last_recording,
                pauses: other.control.pauses,
                ..view.control
            },
            pd: PdPanelView {
                log: other.pd.log,
                trace: other.pd.trace,
                session: other.pd.session,
                ..view.pd
            },
            ..view
        }),
    ensures
        other.choices() == view.choices(),
{
    reveal(WorkbenchView::choices);
}

/// What the user chose takes effect: the device is asked for the rate, the
/// recording follows the rule and the format, and the chart follows the window.
pub proof fn law_choices_take_effect(view: WorkbenchView, choices: Choices)
    ensures
        ({
            let after = view.preferring(choices);
            &&& after.language == choices.language
            &&& after.link.selected_rate == choices.selected_rate
            &&& after.link.current_rate == choices.selected_rate
            &&& after.link.usb_reset == choices.usb_reset
            &&& after.metrics == choices.metrics
            &&& after.control.format == choices.format
            &&& after.control.sleep_protection == choices.sleep_protection
            &&& after.control.rule == choices.rule
            &&& after.control.core == view.control.core
            &&& after.pd.auto_scroll == choices.auto_scroll
            &&& after.pd.panel_visible == choices.panel_visible
            &&& after.pd.protocol_visible == choices.protocol_visible
            &&& after.pd.trace_enabled == choices.trace_enabled
            &&& after.tab == choices.tab
            &&& after.chart.window == choices.window
            &&& after.chart.filter == choices.filter
            &&& after.chart.accumulated == choices.accumulated
            &&& choices.visible.voltage || choices.visible.current || choices.visible.power
                ==> after.chart.visible == choices.visible
            &&& !choices.follow_latest <==> after.chart.mode == ChartFollowMode::Manual
            &&& after.live == view.live
        }),
{
    reveal(WorkbenchView::preferring);
}

} // verus!
