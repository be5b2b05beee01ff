//! The choices a user makes in the interface and the states it shows.
use vstd::prelude::*;

use crate::i18n::Language;
use crate::measurement::GraphSampleRate;
use crate::recording_session::{IntervalReason, SessionState};

verus! {

/// Where the plotted samples come from.
#[derive(Debug, Clone, Copy, PartialEq, Eq, Structural)]
pub enum PlotSource {
    Live,
    Offline,
    Imported,
}

/// A page of the settings window.
#[derive(Debug, Clone, Copy, PartialEq, Eq, Structural)]
pub enum SettingsPage {
    General,
    Recording,
    Chart,
    DataAndDevice,
    Diagnostics,
}

impl Default for SettingsPage {
    fn default() -> (page: SettingsPage)
        ensures
            page == SettingsPage::General,
    {
        SettingsPage::General
    }
}

impl SettingsPage {
    /// Every page, in the order of the navigation column.
    pub fn all() -> (pages: [SettingsPage; 5])
        ensures
            pages@ == seq![
                SettingsPage::General,
                SettingsPage::Recording,
                SettingsPage::Chart,
                SettingsPage::DataAndDevice,
                SettingsPage::Diagnostics,
            ],
    {
        let pages = [
            SettingsPage::General,
            SettingsPage::Recording,
            SettingsPage::Chart,
            SettingsPage::DataAndDevice,
            SettingsPage::Diagnostics,
        ];
        assert(pages@ =~= seq![
            SettingsPage::General,
            SettingsPage::Recording,
            SettingsPage::Chart,
            SettingsPage::DataAndDevice,
            SettingsPage::Diagnostics,
        ]);
        pages
    }

    /// The page's title.
    pub fn localized_label(self, language: Language) -> (label: &'static str)
        ensures
            label@ == match self {
                SettingsPage::General => language.chosen("通用设置"@, "General"@),
                SettingsPage::Recording => language.chosen("录制与恢复"@, "Recording & recovery"@),
                SettingsPage::Chart => language.chosen("图表与显示"@, "Chart & display"@),
                SettingsPage::DataAndDevice => language.chosen("数据与设备"@, "Data & device"@),
                SettingsPage::Diagnostics => language.chosen(
                    "诊断与关于"@,
                    "Diagnostics & about"@,
                ),
            },
    {
        match self {
            SettingsPage::General => language.pick("通用设置", "General"),
            SettingsPage::Recording => language.pick("录制与恢复", "Recording & recovery"),
            SettingsPage::Chart => language.pick("图表与显示", "Chart & display"),
            SettingsPage::DataAndDevice => language.pick("数据与设备", "Data & device"),
            SettingsPage::Diagnostics => language.pick("诊断与关于", "Diagnostics & about"),
        }
    }

    /// The sentence under the page's title.
    pub fn localized_description(self, language: Language) -> (description: &'static str)
        ensures
            description@ == match self {
                SettingsPage::General => language.chosen(
                    "设置界面语言、当前数据源和 KM003C 连接选项。"@,
                    "Choose the interface language, data source, and KM003C connection options."@,
                ),
                SettingsPage::Recording => language.chosen(
                    "管理录制格式、睡眠保护、自动暂停和待恢复会话。"@,
                    "Manage recording format, sleep protection, automatic pause, and recoverable sessions."@,
                ),
                SettingsPage::Chart => language.chosen(
                    "调整时间范围、屏幕降噪和高级分析曲线。"@,
                    "Adjust the time range, display smoothing, and advanced-analysis traces."@,
                ),
                SettingsPage::DataAndDevice => language.chosen(
                    "检查数据完整度，并下载 KM003C 内置存储中的记录。"@,
                    "Inspect data integrity and download recordings stored on the KM003C."@,
                ),
                SettingsPage::Diagnostics => language.chosen(
                    "查看版本、日志位置、开源许可和项目来源。"@,
                    "View version details, log location, licenses, and project sources."@,
                ),
            },
    {
        match self {
            SettingsPage::General => language.pick(
                "设置界面语言、当前数据源和 KM003C 连接选项。",
                "Choose the interface language, data source, and KM003C connection options.",
            ),
            SettingsPage::Recording => language.pick(
                "管理录制格式、睡眠保护、自动暂停和待恢复会话。",
                "Manage recording format, sleep protection, automatic pause, and recoverable sessions.",
            ),
            SettingsPage::Chart => language.pick(
                "调整时间范围、屏幕降噪和高级分析曲线。",
                "Adjust the time range, display smoothing, and advanced-analysis traces.",
            ),
            SettingsPage::DataAndDevice => language.pick(
                "检查数据完整度，并下载 KM003C 内置存储中的记录。",
                "Inspect data integrity and download recordings stored on the KM003C.",
            ),
            SettingsPage::Diagnostics => language.pick(
                "查看版本、日志位置、开源许可和项目来源。",
                "View version details, log location, licenses, and project sources.",
            ),
        }
    }
}

/// What the recording controls are doing.
#[derive(Debug, Clone, Copy, PartialEq, Eq, Structural)]
pub enum RecordingPhase {
    Idle,
    Recording,
    Paused,
    Finalizing,
    Saved,
    Interrupted,
    WaitingForReconnect,
    Recovering,
}

impl Default for RecordingPhase {
    fn default() -> (phase: RecordingPhase)
        ensures
            phase == RecordingPhase::Idle,
    {
        RecordingPhase::Idle
    }
}

impl RecordingPhase {
    /// The text of the phase in `language`.
    pub open spec fn caption(self, language: Language) -> Seq<char> {
        match self {
            RecordingPhase::Idle => language.chosen("未记录"@, "Not recording"@),
            RecordingPhase::Recording => language.chosen("记录中"@, "Recording"@),
            RecordingPhase::Paused => language.chosen("已暂停"@, "Paused"@),
            RecordingPhase::Finalizing => language.chosen("正在保存"@, "Saving"@),
            RecordingPhase::Saved => language.chosen("已保存"@, "Saved"@),
            RecordingPhase::Interrupted => language.chosen("记录中断"@, "Interrupted"@),
            RecordingPhase::WaitingForReconnect => language.chosen(
                "等待重连"@,
                "Waiting to reconnect"@,
            ),
            RecordingPhase::Recovering => language.chosen("正在恢复"@, "Recovering"@),
        }
    }

    /// The text of the phase in `language`.
    pub fn localized_label(self, language: Language) -> (label: &'static str)
        ensures
            label@ == self.caption(language),
    {
        match self {
            RecordingPhase::Idle => language.pick("未记录", "Not recording"),
            RecordingPhase::Recording => language.pick("记录中", "Recording"),
            RecordingPhase::Paused => language.pick("已暂停", "Paused"),
            RecordingPhase::Finalizing => language.pick("正在保存", "Saving"),
            RecordingPhase::Saved => language.pick("已保存", "Saved"),
            RecordingPhase::Interrupted => language.pick("记录中断", "Interrupted"),
            RecordingPhase::WaitingForReconnect => language.pick("等待重连", "Waiting to reconnect"),
            RecordingPhase::Recovering => language.pick("正在恢复", "Recovering"),
        }
    }
}

/// The quantity that an automatic pause watches.
#[derive(Debug, Clone, Copy, PartialEq, Eq, Structural)]
pub enum AutoCaptureMetric {
    Power,
    Current,
    Voltage,
}

impl Default for AutoCaptureMetric {
    fn default() -> (metric: AutoCaptureMetric)
        ensures
            metric == AutoCaptureMetric::Power,
    {
        AutoCaptureMetric::Power
    }
}

impl AutoCaptureMetric {
    /// Every metric, in the order in which it is offered.
    pub fn all() -> (metrics: [AutoCaptureMetric; 3])
        ensures
            metrics@ == seq![
                AutoCaptureMetric::Power,
                AutoCaptureMetric::Current,
                AutoCaptureMetric::Voltage,
            ],
    {
        let metrics = [
            AutoCaptureMetric::Power,
            AutoCaptureMetric::Current,
            AutoCaptureMetric::Voltage,
        ];
        assert(metrics@ =~= seq![
            AutoCaptureMetric::Power,
            AutoCaptureMetric::Current,
            AutoCaptureMetric::Voltage,
        ]);
        metrics
    }

    /// The metric's name in `language`.
    pub open spec fn caption(self, language: Language) -> Seq<char> {
        match self {
            AutoCaptureMetric::Power => language.chosen("功率"@, "Power"@),
            AutoCaptureMetric::Current => language.chosen("电流"@, "Current"@),
            AutoCaptureMetric::Voltage => language.chosen("电压"@, "Voltage"@),
        }
    }

    /// The metric's name in `language`.
    pub fn localized_label(self, language: Language) -> (label: &'static str)
        ensures
            label@ == self.caption(language),
    {
        match self {
            AutoCaptureMetric::Power => language.pick("功率", "Power"),
            AutoCaptureMetric::Current => language.pick("电流", "Current"),
            AutoCaptureMetric::Voltage => language.pick("电压", "Voltage"),
        }
    }

    /// The symbol of a thousandth of the metric's unit.
    pub fn milli_unit(self) -> (symbol: &'static str)
        ensures
            symbol@ == match self {
                AutoCaptureMetric::Power => "mW"@,
                AutoCaptureMetric::Current => "mA"@,
                AutoCaptureMetric::Voltage => "mV"@,
            },
    {
        match self {
            AutoCaptureMetric::Power => "mW",
            AutoCaptureMetric::Current => "mA",
            AutoCaptureMetric::Voltage => "mV",
        }
    }

    /// The symbol of the metric's unit.
    pub open spec fn symbol(self) -> Seq<char> {
        match self {
            AutoCaptureMetric::Power => "W"@,
            AutoCaptureMetric::Current => "A"@,
            AutoCaptureMetric::Voltage => "V"@,
        }
    }

    /// The symbol of the metric's unit.
    pub fn unit(self) -> (symbol: &'static str)
        ensures
            symbol@ == self.symbol(),
    {
        match self {
            AutoCaptureMetric::Power => "W",
            AutoCaptureMetric::Current => "A",
            AutoCaptureMetric::Voltage => "V",
        }
    }

    /// The largest threshold that can be set, in the metric's milli-unit.
    pub fn threshold_limit(self) -> (limit: u32)
        ensures
            limit == match self {
                AutoCaptureMetric::Power => 100_000u32,
                AutoCaptureMetric::Current => 20_000u32,
                AutoCaptureMetric::Voltage => 50_000u32,
            },
    {
        match self {
            AutoCaptureMetric::Power => 100_000,
            AutoCaptureMetric::Current => 20_000,
            AutoCaptureMetric::Voltage => 50_000,
        }
    }
}

/// Why a recording is paused.
#[derive(Debug, Clone, Copy, PartialEq, Eq, Structural)]
pub enum PauseReason {
    Manual,
    Automatic(AutoCaptureMetric),
    UsbDisconnected,
}

impl PauseReason {
    /// The reason that the session metadata records.
    pub open spec fn recorded(self) -> IntervalReason {
        match self {
            PauseReason::Manual => IntervalReason::ManualPause,
            PauseReason::Automatic(_) => IntervalReason::AutomaticPause,
            PauseReason::UsbDisconnected => IntervalReason::UsbDisconnected,
        }
    }

    /// The reason that the session metadata records.
    pub fn interval_reason(self) -> (reason: IntervalReason)
        ensures
            reason == self.recorded(),
    {
        match self {
            PauseReason::Manual => IntervalReason::ManualPause,
            PauseReason::Automatic(_) => IntervalReason::AutomaticPause,
            PauseReason::UsbDisconnected => IntervalReason::UsbDisconnected,
        }
    }
}

/// When a recording pauses and continues by itself.
#[derive(Debug, Clone, Copy, PartialEq, Eq, Structural)]
pub struct AutoCaptureRule {
    pub enabled: bool,
    pub metric: AutoCaptureMetric,
    /// Threshold in the metric's milli-unit: mW, mA, or mV.
    pub threshold_milli: u32,
    pub sustain_ms: u32,
}

impl Default for AutoCaptureRule {
    fn default() -> (rule: AutoCaptureRule)
        ensures
            rule == (AutoCaptureRule {
                enabled: false,
                metric: AutoCaptureMetric::Power,
                threshold_milli: 100,
                sustain_ms: 3_000,
            }),
    {
        AutoCaptureRule {
            enabled: false,
            metric: AutoCaptureMetric::Power,
            threshold_milli: 100,
            sustain_ms: 3_000,
        }
    }
}

/// A page of the workspace.
#[derive(Debug, Clone, Copy, PartialEq, Eq, Structural)]
pub enum WorkspaceTab {
    Monitor,
    PdAnalysis,
}

impl Default for WorkspaceTab {
    fn default() -> (tab: WorkspaceTab)
        ensures
            tab == WorkspaceTab::Monitor,
    {
        WorkspaceTab::Monitor
    }
}

/// A presentation-only filter for the monitor traces. The underlying samples,
/// recording statistics and exported files always remain untouched.
#[derive(Debug, Clone, Copy, PartialEq, Eq, Structural)]
pub enum DisplayFilter {
    Raw,
    Median5,
}

impl Default for DisplayFilter {
    fn default() -> (filter: DisplayFilter)
        ensures
            filter == DisplayFilter::Median5,
    {
        DisplayFilter::Median5
    }
}

impl DisplayFilter {
    /// The filter's name in `language`.
    pub fn localized_label(self, language: Language) -> (label: &'static str)
        ensures
            label@ == match self {
                DisplayFilter::Raw => language.chosen("原始曲线"@, "Raw traces"@),
                DisplayFilter::Median5 => language.chosen(
                    "五点中值降噪"@,
                    "5-point median filter"@,
                ),
            },
    {
        match self {
            DisplayFilter::Raw => language.pick("原始曲线", "Raw traces"),
            DisplayFilter::Median5 => language.pick("五点中值降噪", "5-point median filter"),
        }
    }
}

/// A sample rate that can be selected.
#[derive(Debug, Clone, Copy, PartialEq, Eq, Structural)]
pub enum SampleRateOption {
    Sps2,
    Sps10,
    Sps50,
    Sps1000,
}

impl SampleRateOption {
    /// The device's name for the rate.
    pub open spec fn rate(self) -> GraphSampleRate {
        match self {
            SampleRateOption::Sps2 => GraphSampleRate::Sps2,
            SampleRateOption::Sps10 => GraphSampleRate::Sps10,
            SampleRateOption::Sps50 => GraphSampleRate::Sps50,
            SampleRateOption::Sps1000 => GraphSampleRate::Sps1000,
        }
    }

    /// The device's name for the rate.
    pub fn to_graph_rate(self) -> (rate: GraphSampleRate)
        ensures
            rate == self.rate(),
    {
        match self {
            SampleRateOption::Sps2 => GraphSampleRate::Sps2,
            SampleRateOption::Sps10 => GraphSampleRate::Sps10,
            SampleRateOption::Sps50 => GraphSampleRate::Sps50,
            SampleRateOption::Sps1000 => GraphSampleRate::Sps1000,
        }
    }

    /// The option for a rate that the device reports.
    pub fn from_graph_rate(rate: GraphSampleRate) -> (option: SampleRateOption)
        ensures
            option.rate() == rate,
    {
        match rate {
            GraphSampleRate::Sps2 => SampleRateOption::Sps2,
            GraphSampleRate::Sps10 => SampleRateOption::Sps10,
            GraphSampleRate::Sps50 => SampleRateOption::Sps50,
            GraphSampleRate::Sps1000 => SampleRateOption::Sps1000,
        }
    }

    /// The text of the option.
    pub open spec fn caption(self) -> Seq<char> {
        match self {
            SampleRateOption::Sps2 => "2 SPS"@,
            SampleRateOption::Sps10 => "10 SPS"@,
            SampleRateOption::Sps50 => "50 SPS"@,
            SampleRateOption::Sps1000 => "1000 SPS"@,
        }
    }

    /// The text of the option.
    pub fn label(self) -> (label: &'static str)
        ensures
            label@ == self.caption(),
    {
        match self {
            SampleRateOption::Sps2 => "2 SPS",
            SampleRateOption::Sps10 => "10 SPS",
            SampleRateOption::Sps50 => "50 SPS",
            SampleRateOption::Sps1000 => "1000 SPS",
        }
    }

    /// Samples per second.
    pub open spec fn samples_per_second(self) -> u32 {
        match self {
            SampleRateOption::Sps2 => 2,
            SampleRateOption::Sps10 => 10,
            SampleRateOption::Sps50 => 50,
            SampleRateOption::Sps1000 => 1_000,
        }
    }

    /// Samples per second.
    pub fn hertz(self) -> (hertz: u32)
        ensures
            hertz == self.samples_per_second(),
    {
        match self {
            SampleRateOption::Sps2 => 2,
            SampleRateOption::Sps10 => 10,
            SampleRateOption::Sps50 => 50,
            SampleRateOption::Sps1000 => 1_000,
        }
    }

    /// Every option, slowest first.
    pub fn all() -> (options: [SampleRateOption; 4])
        ensures
            options@ == seq![
                SampleRateOption::Sps2,
                SampleRateOption::Sps10,
                SampleRateOption::Sps50,
                SampleRateOption::Sps1000,
            ],
    {
        let options = [
            SampleRateOption::Sps2,
            SampleRateOption::Sps10,
            SampleRateOption::Sps50,
            SampleRateOption::Sps1000,
        ];
        assert(options@ =~= seq![
            SampleRateOption::Sps2,
            SampleRateOption::Sps10,
            SampleRateOption::Sps50,
            SampleRateOption::Sps1000,
        ]);
        options
    }
}

/// The width of the plotted window.
#[derive(Debug, Clone, Copy, PartialEq, Eq, Structural)]
pub enum TimeWindow {
    Sec2,
    Sec10,
    Sec30,
    Min1,
    Min5,
    All,
}

impl TimeWindow {
    /// The width in seconds, none for the whole session.
    pub open spec fn width(self) -> Option<u64> {
        match self {
            TimeWindow::Sec2 => Some(2),
            TimeWindow::Sec10 => Some(10),
            TimeWindow::Sec30 => Some(30),
            TimeWindow::Min1 => Some(60),
            TimeWindow::Min5 => Some(300),
            TimeWindow::All => None,
        }
    }

    /// The width in seconds, none for the whole session.
    pub fn seconds(self) -> (seconds: Option<u64>)
        ensures
            seconds == self.width(),
    {
        match self {
            TimeWindow::Sec2 => Some(2),
            TimeWindow::Sec10 => Some(10),
            TimeWindow::Sec30 => Some(30),
            TimeWindow::Min1 => Some(60),
            TimeWindow::Min5 => Some(300),
            TimeWindow::All => None,
        }
    }

    /// The window's name in `language`.
    pub open spec fn caption(self, language: Language) -> Seq<char> {
        match self {
            TimeWindow::Sec2 => language.chosen("2 秒"@, "2 seconds"@),
            TimeWindow::Sec10 => language.chosen("10 秒"@, "10 seconds"@),
            TimeWindow::Sec30 => language.chosen("30 秒"@, "30 seconds"@),
            TimeWindow::Min1 => language.chosen("1 分钟"@, "1 minute"@),
            TimeWindow::Min5 => language.chosen("5 分钟"@, "5 minutes"@),
            TimeWindow::All => language.chosen("全部"@, "All"@),
        }
    }

    /// The window's name in `language`.
    pub fn localized_label(self, language: Language) -> (label: &'static str)
        ensures
            label@ == self.caption(language),
    {
        match self {
            TimeWindow::Sec2 => language.pick("2 秒", "2 seconds"),
            TimeWindow::Sec10 => language.pick("10 秒", "10 seconds"),
            TimeWindow::Sec30 => language.pick("30 秒", "30 seconds"),
            TimeWindow::Min1 => language.pick("1 分钟", "1 minute"),
            TimeWindow::Min5 => language.pick("5 分钟", "5 minutes"),
            TimeWindow::All => language.pick("全部", "All"),
        }
    }

    /// Every window, narrowest first.
    pub fn all() -> (windows: [TimeWindow; 6])
        ensures
            windows@ == seq![
                TimeWindow::Sec2,
                TimeWindow::Sec10,
                TimeWindow::Sec30,
                TimeWindow::Min1,
                TimeWindow::Min5,
                TimeWindow::All,
            ],
    {
        let windows = [
            TimeWindow::Sec2,
            TimeWindow::Sec10,
            TimeWindow::Sec30,
            TimeWindow::Min1,
            TimeWindow::Min5,
            TimeWindow::All,
        ];
        assert(windows@ =~= seq![
            TimeWindow::Sec2,
            TimeWindow::Sec10,
            TimeWindow::Sec30,
            TimeWindow::Min1,
            TimeWindow::Min5,
            TimeWindow::All,
        ]);
        windows
    }
}

/// How the chart viewport moves as samples arrive.
#[derive(Debug, Clone, Copy, PartialEq, Eq, Structural)]
pub enum ChartFollowMode {
    /// Keep the viewport anchored to zero and grow it with the recording.
    FullSession,
    /// Keep a configured-width window anchored to the newest sample.
    LatestWindow,
    /// Preserve the user's dragged or zoomed viewport while acquisition continues.
    Manual,
}

impl Default for ChartFollowMode {
    fn default() -> (mode: ChartFollowMode)
        ensures
            mode == ChartFollowMode::LatestWindow,
    {
        ChartFollowMode::LatestWindow
    }
}

impl ChartFollowMode {
    /// The mode that follows the newest sample with `window`.
    pub open spec fn following(window: TimeWindow) -> ChartFollowMode {
        if window == TimeWindow::All {
            ChartFollowMode::FullSession
        } else {
            ChartFollowMode::LatestWindow
        }
    }

    /// Whether the viewport moves by itself.
    pub fn is_following(self) -> (following: bool)
        ensures
            following == (self != ChartFollowMode::Manual),
    {
        !matches!(self, ChartFollowMode::Manual)
    }

    /// The mode that follows the newest sample with `window`.
    pub fn for_window(window: TimeWindow) -> (mode: ChartFollowMode)
        ensures
            mode == ChartFollowMode::following(window),
    {
        if window == TimeWindow::All {
            ChartFollowMode::FullSession
        } else {
            ChartFollowMode::LatestWindow
        }
    }
}

/// The state of a recoverable session in `language`.
pub fn localized_session_state(state: SessionState, language: Language) -> (label: &'static str)
    ensures
        label@ == match state {
            SessionState::Recording => language.chosen("录制中"@, "Recording"@),
            SessionState::Paused => language.chosen("已暂停"@, "Paused"@),
            SessionState::WaitingForReconnect => language.chosen(
                "等待重连"@,
                "Waiting to reconnect"@,
            ),
            SessionState::Finalizing => language.chosen("正在保存"@, "Saving"@),
            SessionState::Saved => language.chosen("已保存"@, "Saved"@),
            SessionState::Interrupted => language.chosen("异常中断"@, "Interrupted"@),
        },
{
    match state {
        SessionState::Recording => language.pick("录制中", "Recording"),
        SessionState::Paused => language.pick("已暂停", "Paused"),
        SessionState::WaitingForReconnect => language.pick("等待重连", "Waiting to reconnect"),
        SessionState::Finalizing => language.pick("正在保存", "Saving"),
        SessionState::Saved => language.pick("已保存", "Saved"),
        SessionState::Interrupted => language.pick("异常中断", "Interrupted"),
    }
}

/// The two modes that follow the newest sample are the only ones that a
/// window selects, and each differs from the manual view.
pub proof fn law_a_window_always_follows(window: TimeWindow)
    ensures
        ChartFollowMode::following(window) != ChartFollowMode::Manual,
        ChartFollowMode::following(window) == ChartFollowMode::FullSession <==> window.width()
            is None,
{
}

/// A rate is one rate, however it is told: the device is asked for as many
/// samples in a second as the option says and names.
pub proof fn law_a_rate_is_what_it_is_called(option: SampleRateOption, other: SampleRateOption)
    ensures
        option.samples_per_second() == option.rate().per_second(),
        option.rate() == other.rate() ==> option == other,
        option.caption() == crate::text::decimal(option.rate().per_second()) + " SPS"@,
{
    reveal_strlit("2 SPS");
    reveal_strlit("10 SPS");
    reveal_strlit("50 SPS");
    reveal_strlit("1000 SPS");
    reveal_strlit(" SPS");
    reveal_with_fuel(crate::text::numeral, 5);
    assert(option.caption() =~= crate::text::decimal(option.rate().per_second()) + " SPS"@);
}

} // verus!
