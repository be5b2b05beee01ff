//! The header, the toolbar and the status bar: what they say, and what can be
//! clicked.
use vstd::prelude::*;
use vstd::string::*;

use crate::connection::ConnectionPhase;
use crate::i18n::{connection_status, status_text, Language};
use crate::layout::ToolbarDensity;
use crate::options::{PlotSource, RecordingPhase, SampleRateOption};
use crate::presentation::{duration_text, format_plot_time};
use crate::session_text::{said, say};
use crate::text::{append_decimal, decimal};
use crate::theme::{Color, CURRENT, POWER, RECORDING, TEXT_MUTED, TEXT_SECONDARY};
use crate::workbench::Workbench;

verus! {

// -- The connection --

/// What the button of the connection says.
pub fn connection_label(streaming: bool, language: Language) -> (label: &'static str)
    ensures
        label@ == (if streaming {
            language.chosen("断开"@, "Disconnect"@)
        } else {
            language.chosen("连接"@, "Connect"@)
        }),
{
    if streaming {
        language.pick("断开", "Disconnect")
    } else {
        language.pick("连接", "Connect")
    }
}

/// The colour of a connection phase.
pub fn connection_color(phase: ConnectionPhase) -> (color: Color)
    ensures
        color == (match phase {
            ConnectionPhase::DeviceBusy => RECORDING,
            ConnectionPhase::ConnectionError => RECORDING,
            ConnectionPhase::NoDevice => TEXT_MUTED,
            ConnectionPhase::Disconnected => TEXT_MUTED,
            _ => TEXT_SECONDARY,
        }),
{
    match phase {
        ConnectionPhase::DeviceBusy => RECORDING,
        ConnectionPhase::ConnectionError => RECORDING,
        ConnectionPhase::NoDevice => TEXT_MUTED,
        ConnectionPhase::Disconnected => TEXT_MUTED,
        _ => TEXT_SECONDARY,
    }
}

/// What the header says of the device.
pub fn device_label(model: Option<&str>, phase: ConnectionPhase, language: Language) -> (label:
    String)
    ensures
        label@ == said(
            match model {
                Some(model) => model@,
                None => "KM003C"@,
            },
            " · "@,
            status_text(language, phase),
        ),
{
    let name: &str = match model {
        Some(model) => model,
        None => "KM003C",
    };
    say(name, " · ", connection_status(language, phase))
}

// -- The recording --

/// What a click on the record button does.
#[derive(Debug, Clone, Copy, PartialEq, Eq, Structural)]
pub enum RecordAction {
    Start,
    Pause,
    Resume,
    Nothing,
}

/// What the record button says.
pub open spec fn record_text(phase: RecordingPhase, session: bool, language: Language) -> Seq<
    char,
> {
    match phase {
        RecordingPhase::Recording => language.chosen("Ⅱ 暂停记录"@, "Ⅱ Pause"@),
        RecordingPhase::Paused => language.chosen("▶ 继续记录"@, "▶ Resume"@),
        RecordingPhase::Interrupted if session => language.chosen("▶ 恢复记录"@, "▶ Recover"@),
        RecordingPhase::WaitingForReconnect => language.chosen(
            "等待重连…"@,
            "Waiting to reconnect…"@,
        ),
        RecordingPhase::Recovering => language.chosen("正在恢复…"@, "Recovering…"@),
        RecordingPhase::Finalizing => language.chosen("正在保存…"@, "Saving…"@),
        _ => language.chosen("● 开始记录"@, "● Record"@),
    }
}

/// What the record button says.
pub fn record_label(phase: RecordingPhase, session: bool, language: Language) -> (label:
    &'static str)
    ensures
        label@ == record_text(phase, session, language),
{
    match phase {
        RecordingPhase::Recording => language.pick("Ⅱ 暂停记录", "Ⅱ Pause"),
        RecordingPhase::Paused => language.pick("▶ 继续记录", "▶ Resume"),
        RecordingPhase::Interrupted => if session {
            language.pick("▶ 恢复记录", "▶ Recover")
        } else {
            language.pick("● 开始记录", "● Record")
        },
        RecordingPhase::WaitingForReconnect => language.pick("等待重连…", "Waiting to reconnect…"),
        RecordingPhase::Recovering => language.pick("正在恢复…", "Recovering…"),
        RecordingPhase::Finalizing => language.pick("正在保存…", "Saving…"),
        _ => language.pick("● 开始记录", "● Record"),
    }
}

/// Whether the record button can be clicked.
pub open spec fn is_clickable(
    phase: RecordingPhase,
    session: bool,
    streaming: bool,
    writing: bool,
) -> bool {
    &&& phase != RecordingPhase::Finalizing
    &&& phase != RecordingPhase::WaitingForReconnect
    &&& phase != RecordingPhase::Recovering
    &&& session || (streaming && !writing)
}

/// Whether the record button can be clicked.
pub fn can_toggle_recording(
    phase: RecordingPhase,
    session: bool,
    streaming: bool,
    writing: bool,
) -> (can: bool)
    ensures
        can == is_clickable(phase, session, streaming, writing),
{
    phase != RecordingPhase::Finalizing && phase != RecordingPhase::WaitingForReconnect && phase
        != RecordingPhase::Recovering && (session || (streaming && !writing))
}

/// What a click on the record button does.
pub open spec fn click(phase: RecordingPhase) -> RecordAction {
    match phase {
        RecordingPhase::Recording => RecordAction::Pause,
        RecordingPhase::Paused => RecordAction::Resume,
        RecordingPhase::Interrupted => RecordAction::Resume,
        RecordingPhase::Idle => RecordAction::Start,
        RecordingPhase::Saved => RecordAction::Start,
        RecordingPhase::WaitingForReconnect => RecordAction::Nothing,
        RecordingPhase::Recovering => RecordAction::Nothing,
        RecordingPhase::Finalizing => RecordAction::Nothing,
    }
}

/// What a click on the record button does.
pub fn record_action(phase: RecordingPhase) -> (action: RecordAction)
    ensures
        action == click(phase),
{
    match phase {
        RecordingPhase::Recording => RecordAction::Pause,
        RecordingPhase::Paused => RecordAction::Resume,
        RecordingPhase::Interrupted => RecordAction::Resume,
        RecordingPhase::Idle => RecordAction::Start,
        RecordingPhase::Saved => RecordAction::Start,
        RecordingPhase::WaitingForReconnect => RecordAction::Nothing,
        RecordingPhase::Recovering => RecordAction::Nothing,
        RecordingPhase::Finalizing => RecordAction::Nothing,
    }
}

/// The colour of the record button.
pub fn record_color(phase: RecordingPhase) -> (color: Color)
    ensures
        color == (match phase {
            RecordingPhase::Paused => POWER,
            RecordingPhase::WaitingForReconnect => POWER,
            RecordingPhase::Recovering => POWER,
            RecordingPhase::Finalizing => TEXT_SECONDARY,
            _ => RECORDING,
        }),
{
    match phase {
        RecordingPhase::Paused => POWER,
        RecordingPhase::WaitingForReconnect => POWER,
        RecordingPhase::Recovering => POWER,
        RecordingPhase::Finalizing => TEXT_SECONDARY,
        _ => RECORDING,
    }
}

/// What the save button says.
pub fn save_label(compact: bool, language: Language) -> (label: &'static str)
    ensures
        label@ == (if compact {
            language.chosen("保存"@, "Save"@)
        } else {
            language.chosen("保存录制"@, "Save recording"@)
        }),
{
    if compact {
        language.pick("保存", "Save")
    } else {
        language.pick("保存录制", "Save recording")
    }
}

/// The colour of the recording's clock.
pub fn clock_color(phase: RecordingPhase) -> (color: Color)
    ensures
        color == (match phase {
            RecordingPhase::Recording => RECORDING,
            RecordingPhase::Paused => POWER,
            _ => TEXT_SECONDARY,
        }),
{
    match phase {
        RecordingPhase::Recording => RECORDING,
        RecordingPhase::Paused => POWER,
        _ => TEXT_SECONDARY,
    }
}

/// What the recording's clock says.
pub fn clock_label(phase: RecordingPhase, duration_us: u64) -> (label: String)
    ensures
        label@ == (if phase == RecordingPhase::Recording {
            "●"@
        } else {
            "Ⅱ"@
        }) + " "@ + duration_text(duration_us as nat / 1_000),
{
    let mut label = (if phase == RecordingPhase::Recording {
        "●"
    } else {
        "Ⅱ"
    }).to_owned();
    label.append(" ");
    label.append(format_plot_time(duration_us).as_str());
    label
}

/// What is said where the device does not stream at the selected rate.
pub fn actual_rate_label(
    streaming: bool,
    current: SampleRateOption,
    selected: SampleRateOption,
    language: Language,
) -> (label: Option<String>)
    ensures
        label is Some <==> streaming && current != selected,
        label matches Some(label) ==> label@ == said(
            language.chosen("实际"@, "Actual"@),
            " "@,
            current.caption(),
        ),
{
    if streaming && current != selected {
        Some(say(language.pick("实际", "Actual"), " ", current.label()))
    } else {
        None
    }
}

/// What the switch of the automatic pause says.
pub fn auto_label(density: ToolbarDensity, language: Language) -> (label: &'static str)
    ensures
        label@ == (match density {
            ToolbarDensity::Full => language.chosen("自动暂停/继续"@, "Auto pause/resume"@),
            ToolbarDensity::Compact => language.chosen("自动控制"@, "Auto control"@),
            ToolbarDensity::Narrow => language.chosen("自动"@, "Auto"@),
        }),
{
    match density {
        ToolbarDensity::Full => language.pick("自动暂停/继续", "Auto pause/resume"),
        ToolbarDensity::Compact => language.pick("自动控制", "Auto control"),
        ToolbarDensity::Narrow => language.pick("自动", "Auto"),
    }
}

impl Workbench {
    /// Whether the record button can be clicked.
    pub fn can_toggle(&self) -> (can: bool)
        ensures
            can == is_clickable(
                self@.control.core.phase,
                self@.control.core.session,
                self@.link.streaming,
                self@.control.writing(),
            ),
    {
        can_toggle_recording(
            self.control.core.phase,
            self.control.core.session,
            self.link.streaming,
            self.control.is_writing(),
        )
    }

    /// Whether the live buffer can be exported.
    pub fn can_export(&self) -> (can: bool)
        ensures
            can == (self@.chart.source == PlotSource::Live && self@.live.points.len() > 0
                && !self@.control.writing()),
    {
        self.chart.source == PlotSource::Live && self.live.points.len() > 0
            && !self.control.is_writing()
    }

    /// What the status bar says in the middle: the rate, and how many samples
    /// there are.
    pub fn sample_label(&self) -> (label: String)
        ensures
            label@ == self@.link.current_rate.caption() + " · "@ + decimal(
                if self@.chart.source == PlotSource::Live {
                    self@.live.total as nat
                } else {
                    self@.loaded().len()
                },
            ) + " pts"@,
    {
        let mut label = self.link.current_rate.label().to_owned();
        label.append(" · ");
        append_decimal(&mut label, self.counted_samples() as u128);
        label.append(" pts");
        label
    }

    /// Whether nothing is missing, and what the status bar says of it.
    pub fn completeness_label(&self) -> (label: (Color, String))
        ensures
            label.0 == (if self@.live.dropped == 0 && self@.live.discarded == 0 {
                CURRENT
            } else {
                POWER
            }),
            label.1@ == "● "@ + completeness_text(
                self@.live.dropped,
                self@.live.discarded,
                self@.language,
            ),
    {
        let language = self.language;
        let mut text = "● ".to_owned();
        if self.live.dropped_samples == 0 && self.live.discarded_sequence_samples == 0 {
            text.append(language.pick("数据完整", "Data complete"));
            return (CURRENT, text);
        }
        let ghost head = text@;
        text.append(language.pick("缺失", "Missing"));
        text.append(" ");
        append_decimal(&mut text, self.live.dropped_samples as u128);
        text.append(" · ");
        text.append(language.pick("丢弃", "Discarded"));
        text.append(" ");
        append_decimal(&mut text, self.live.discarded_sequence_samples as u128);
        assert(text@ =~= head + completeness_text(
            self@.live.dropped,
            self@.live.discarded,
            self@.language,
        ));
        (POWER, text)
    }

    /// What the workspace says while no chart is shown.
    pub fn idle_title(&self) -> (title: &'static str)
        ensures
            title@ == (if self@.control.last_recording is Some {
                self@.language.chosen(
                    "上一段录制已结束"@,
                    "The previous recording has ended"@,
                )
            } else if self@.link.streaming {
                self@.language.chosen("实时读数已就绪"@, "Live readings are ready"@)
            } else {
                self@.language.chosen("等待 KM003C 采样"@, "Waiting for KM003C samples"@)
            }),
    {
        if self.control.last_recording.is_some() {
            self.language.pick("上一段录制已结束", "The previous recording has ended")
        } else if self.link.streaming {
            self.language.pick("实时读数已就绪", "Live readings are ready")
        } else {
            self.language.pick("等待 KM003C 采样", "Waiting for KM003C samples")
        }
    }

    /// What the workspace explains while no chart is shown.
    pub fn idle_hint(&self) -> (hint: &'static str)
        ensures
            hint@ == (if self@.control.last_recording is Some {
                self@.language.chosen(
                    "左侧保留上一段统计；开始新录制后显示新的完整波形。"@,
                    "The previous statistics remain on the left. Start a new recording to begin a new full trace."@,
                )
            } else {
                self@.language.chosen(
                    "电压、电流和功率继续实时显示；开始记录后才展开波形、窗口统计和时间导航。"@,
                    "Voltage, current, and power remain live. The trace, window statistics, and navigator appear after recording starts."@,
                )
            }),
    {
        if self.control.last_recording.is_some() {
            self.language.pick(
                "左侧保留上一段统计；开始新录制后显示新的完整波形。",
                "The previous statistics remain on the left. Start a new recording to begin a new full trace.",
            )
        } else {
            self.language.pick(
                "电压、电流和功率继续实时显示；开始记录后才展开波形、窗口统计和时间导航。",
                "Voltage, current, and power remain live. The trace, window statistics, and navigator appear after recording starts.",
            )
        }
    }
}

/// What the status bar says of missing and discarded samples.
pub open spec fn completeness_text(dropped: u64, discarded: u64, language: Language) -> Seq<char> {
    if dropped == 0 && discarded == 0 {
        language.chosen("数据完整"@, "Data complete"@)
    } else {
        language.chosen("缺失"@, "Missing"@) + " "@ + decimal(dropped as nat) + " · "@
            + language.chosen("丢弃"@, "Discarded"@) + " "@ + decimal(discarded as nat)
    }
}

/// The colour of a recording phase in the status bar.
pub fn phase_color(phase: RecordingPhase) -> (color: Color)
    ensures
        color == (match phase {
            RecordingPhase::Recording => RECORDING,
            RecordingPhase::Interrupted => RECORDING,
            RecordingPhase::WaitingForReconnect => POWER,
            RecordingPhase::Recovering => POWER,
            RecordingPhase::Paused => TEXT_SECONDARY,
            RecordingPhase::Saved => TEXT_SECONDARY,
            _ => TEXT_MUTED,
        }),
{
    match phase {
        RecordingPhase::Recording => RECORDING,
        RecordingPhase::Interrupted => RECORDING,
        RecordingPhase::WaitingForReconnect => POWER,
        RecordingPhase::Recovering => POWER,
        RecordingPhase::Paused => TEXT_SECONDARY,
        RecordingPhase::Saved => TEXT_SECONDARY,
        _ => TEXT_MUTED,
    }
}

/// What the badge of the chart says of a recording, where it says anything.
pub open spec fn badge_text(phase: RecordingPhase, compact: bool, language: Language) -> Option<
    Seq<char>,
> {
    match phase {
        RecordingPhase::Recording => Some(
            if compact {
                language.chosen("● 录制中"@, "● Recording"@)
            } else {
                language.chosen("● 正在录制"@, "● Recording in progress"@)
            },
        ),
        RecordingPhase::Paused => Some(
            if compact {
                language.chosen("Ⅱ 录制暂停"@, "Ⅱ Paused"@)
            } else {
                language.chosen(
                    "Ⅱ 录制已暂停 · 设备仍在采样"@,
                    "Ⅱ Recording paused · Device still sampling"@,
                )
            },
        ),
        RecordingPhase::WaitingForReconnect => Some(
            language.chosen("USB 中断 · 等待重连"@, "USB interrupted · Waiting to reconnect"@),
        ),
        RecordingPhase::Recovering => Some(
            language.chosen("正在恢复续录"@, "Restoring recording"@),
        ),
        RecordingPhase::Interrupted => Some(
            language.chosen("录制中断 · 可恢复"@, "Recording interrupted · Recoverable"@),
        ),
        _ => None,
    }
}

/// The badge of the chart, and its colour.
pub fn recording_badge(phase: RecordingPhase, compact: bool, language: Language) -> (badge: Option<
    (Color, &'static str),
>)
    ensures
        match badge {
            Some((_, text)) => Some(text@),
            None => None,
        } == badge_text(phase, compact, language),
        badge matches Some((color, _)) ==> color == (match phase {
            RecordingPhase::Paused => TEXT_SECONDARY,
            RecordingPhase::WaitingForReconnect => POWER,
            RecordingPhase::Recovering => POWER,
            _ => RECORDING,
        }),
{
    match phase {
        RecordingPhase::Recording => Some(
            (
                RECORDING,
                if compact {
                    language.pick("● 录制中", "● Recording")
                } else {
                    language.pick("● 正在录制", "● Recording in progress")
                },
            ),
        ),
        RecordingPhase::Paused => Some(
            (
                TEXT_SECONDARY,
                if compact {
                    language.pick("Ⅱ 录制暂停", "Ⅱ Paused")
                } else {
                    language.pick(
                        "Ⅱ 录制已暂停 · 设备仍在采样",
                        "Ⅱ Recording paused · Device still sampling",
                    )
                },
            ),
        ),
        RecordingPhase::WaitingForReconnect => Some(
            (POWER, language.pick("USB 中断 · 等待重连", "USB interrupted · Waiting to reconnect")),
        ),
        RecordingPhase::Recovering => Some(
            (POWER, language.pick("正在恢复续录", "Restoring recording")),
        ),
        RecordingPhase::Interrupted => Some(
            (
                RECORDING,
                language.pick("录制中断 · 可恢复", "Recording interrupted · Recoverable"),
            ),
        ),
        _ => None,
    }
}

/// A record button that can be clicked does something.
pub proof fn law_clickable_buttons_act(
    phase: RecordingPhase,
    session: bool,
    streaming: bool,
    writing: bool,
)
    requires
        is_clickable(phase, session, streaming, writing),
    ensures
        click(phase) != RecordAction::Nothing,
{
}

/// The record button goes by the phase: it pauses what is recorded, resumes what
/// is paused or was interrupted, and starts where nothing is recorded; while a
/// session is saved, or waits for its device, it does nothing.
pub proof fn law_the_record_button_goes_by_the_phase(phase: RecordingPhase)
    ensures
        click(phase) == RecordAction::Pause <==> phase == RecordingPhase::Recording,
        click(phase) == RecordAction::Resume <==> phase == RecordingPhase::Paused || phase
            == RecordingPhase::Interrupted,
        click(phase) == RecordAction::Start <==> phase == RecordingPhase::Idle || phase
            == RecordingPhase::Saved,
{
}

/// A running session can always be clicked on unless it is being saved or waits
/// for its device; without one a device must stream and nothing be written.
pub proof fn law_the_record_button_needs_a_session_or_a_device(
    phase: RecordingPhase,
    streaming: bool,
    writing: bool,
)
    requires
        phase == RecordingPhase::Idle || phase == RecordingPhase::Recording || phase
            == RecordingPhase::Paused || phase == RecordingPhase::Saved || phase
            == RecordingPhase::Interrupted,
    ensures
        is_clickable(phase, true, streaming, writing),
        is_clickable(phase, false, streaming, writing) <==> streaming && !writing,
        !is_clickable(RecordingPhase::Finalizing, true, streaming, writing),
        !is_clickable(RecordingPhase::WaitingForReconnect, true, streaming, writing),
        !is_clickable(RecordingPhase::Recovering, true, streaming, writing),
{
}

/// The badge says so exactly while a session is recorded, paused, interrupted or
/// waits for its device.
pub proof fn law_the_badge_shows_a_session(
    phase: RecordingPhase,
    compact: bool,
    language: Language,
)
    ensures
        badge_text(phase, compact, language) is None <==> phase == RecordingPhase::Idle || phase
            == RecordingPhase::Saved || phase == RecordingPhase::Finalizing,
{
}

} // verus!
