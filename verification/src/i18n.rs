//! The two languages of the interface and the texts of the connection state.
use vstd::prelude::*;
use vstd::string::*;

use crate::connection::ConnectionPhase;
use crate::text::{contains_text, lowercase_characters};

verus! {

pub const APP_TITLE: &'static str = "KM003C 工作台";

pub const APP_ID: &'static str = "com.weixun.km003cworkbench";

pub const APP_VERSION: &'static str = "0.1.0";

pub const APP_BUILD: &'static str = "1";

/// A language of the interface.
#[derive(Debug, Clone, Copy, PartialEq, Eq, Structural)]
pub enum Language {
    SimplifiedChinese,
    English,
}

impl Default for Language {
    fn default() -> (language: Language)
        ensures
            language == Language::SimplifiedChinese,
    {
        Language::SimplifiedChinese
    }
}

impl Language {
    /// The text of the two that is in this language.
    pub open spec fn chosen(self, zh_cn: Seq<char>, en: Seq<char>) -> Seq<char> {
        match self {
            Language::SimplifiedChinese => zh_cn,
            Language::English => en,
        }
    }

    /// Every language, in the order in which it is offered.
    pub fn all() -> (languages: [Language; 2])
        ensures
            languages@ == seq![Language::SimplifiedChinese, Language::English],
    {
        let languages = [Language::SimplifiedChinese, Language::English];
        assert(languages@ =~= seq![Language::SimplifiedChinese, Language::English]);
        languages
    }

    /// The text of the two that is in this language.
    pub fn pick<'a>(self, zh_cn: &'a str, en: &'a str) -> (text: &'a str)
        ensures
            text@ == self.chosen(zh_cn@, en@),
    {
        match self {
            Language::SimplifiedChinese => zh_cn,
            Language::English => en,
        }
    }

    /// The language's name in itself.
    pub fn native_name(self) -> (name: &'static str)
        ensures
            name@ == self.chosen("简体中文"@, "English"@),
    {
        self.pick("简体中文", "English")
    }

    /// The language's short name.
    pub fn short_name(self) -> (name: &'static str)
        ensures
            name@ == self.chosen("简中"@, "EN"@),
    {
        self.pick("简中", "EN")
    }
}

/// The window title.
pub fn app_title(language: Language) -> (title: &'static str)
    ensures
        title@ == language.chosen("KM003C 工作台"@, "KM003C Workbench"@),
{
    language.pick("KM003C 工作台", "KM003C Workbench")
}

/// The status text of `phase` in `language`.
pub open spec fn status_text(language: Language, phase: ConnectionPhase) -> Seq<char> {
    language.chosen(
        phase.caption(),
        match phase {
            ConnectionPhase::Searching => "Searching for device"@,
            ConnectionPhase::Connecting => "Connecting"@,
            ConnectionPhase::Streaming => "Sampling"@,
            ConnectionPhase::NoDevice => "Device not found"@,
            ConnectionPhase::DeviceBusy => "Device in use"@,
            ConnectionPhase::ConnectionError => "Connection error"@,
            ConnectionPhase::Disconnected => "Disconnected"@,
        },
    )
}

/// The status text of `phase` in `language`.
pub fn connection_status(language: Language, phase: ConnectionPhase) -> (status: &'static str)
    ensures
        status@ == status_text(language, phase),
{
    match phase {
        ConnectionPhase::Searching => language.pick("搜索设备", "Searching for device"),
        ConnectionPhase::Connecting => language.pick("连接中", "Connecting"),
        ConnectionPhase::Streaming => language.pick("设备采样中", "Sampling"),
        ConnectionPhase::NoDevice => language.pick("未发现设备", "Device not found"),
        ConnectionPhase::DeviceBusy => language.pick("设备被占用", "Device in use"),
        ConnectionPhase::ConnectionError => language.pick("连接错误", "Connection error"),
        ConnectionPhase::Disconnected => language.pick("已断开", "Disconnected"),
    }
}

/// Whether the error text `raw` says, in any ASCII case, what `words` says.
pub open spec fn mentions(raw: Seq<char>, words: Seq<char>) -> bool {
    crate::text::occurs_in(crate::text::ascii_lowercase(raw), words)
}

/// The phase that an error text stands for.
pub open spec fn error_phase(raw: Seq<char>) -> ConnectionPhase {
    if mentions(raw, "not found"@) {
        ConnectionPhase::NoDevice
    } else if mentions(raw, "busy"@) || mentions(raw, "in use"@) || mentions(raw, "resource"@) {
        ConnectionPhase::DeviceBusy
    } else {
        ConnectionPhase::ConnectionError
    }
}

/// The message shown for an error text.
pub open spec fn error_message(language: Language, raw: Seq<char>) -> Seq<char> {
    match error_phase(raw) {
        ConnectionPhase::NoDevice => language.chosen(
            "未发现 KM003C。请插入数据线；系统会自动重试。"@,
            "KM003C was not found. Connect a data-capable USB cable; the app will retry automatically."@,
        ),
        ConnectionPhase::DeviceBusy => language.chosen(
            "设备被占用。请关闭其它 POWER-Z/USB 工具后再连接。"@,
            "The device is in use. Close other POWER-Z or USB utilities, then reconnect."@,
        ),
        _ => if mentions(raw, "adcqueue not enabled"@) || mentions(raw, "protocol"@) || mentions(
            raw,
            "invalid packet"@,
        ) {
            language.chosen(
                "设备协议或鉴权失败。请重新插拔设备，必要时在高级设置中手动 USB reset。"@,
                "The device protocol or authentication failed. Reconnect the device; if needed, enable USB reset in Advanced settings."@,
            )
        } else {
            language.chosen("连接错误"@, "Connection error"@) + ": "@ + raw
        },
    }
}

/// `text: raw`.
fn labelled(label: &str, raw: &str) -> (text: String)
    ensures
        text@ == label@ + ": "@ + raw@,
{
    let mut text = label.to_owned();
    text.append(": ");
    text.append(raw);
    text
}

/// Turns the stable portions of a device error text into a phase and an
/// actionable message; the original text stays available for the diagnostics
/// log.
pub fn connection_error(language: Language, raw: &str) -> (outcome: (ConnectionPhase, String))
    ensures
        outcome.0 == error_phase(raw@),
        outcome.1@ == error_message(language, raw@),
{
    let lower = lowercase_characters(raw);
    if contains_text(&lower, "not found") {
        return (
            ConnectionPhase::NoDevice,
            language.pick(
                "未发现 KM003C。请插入数据线；系统会自动重试。",
                "KM003C was not found. Connect a data-capable USB cable; the app will retry automatically.",
            ).to_owned(),
        );
    }
    if contains_text(&lower, "busy") || contains_text(&lower, "in use") || contains_text(
        &lower,
        "resource",
    ) {
        return (
            ConnectionPhase::DeviceBusy,
            language.pick(
                "设备被占用。请关闭其它 POWER-Z/USB 工具后再连接。",
                "The device is in use. Close other POWER-Z or USB utilities, then reconnect.",
            ).to_owned(),
        );
    }
    if contains_text(&lower, "adcqueue not enabled") || contains_text(&lower, "protocol")
        || contains_text(&lower, "invalid packet") {
        return (
            ConnectionPhase::ConnectionError,
            language.pick(
                "设备协议或鉴权失败。请重新插拔设备，必要时在高级设置中手动 USB reset。",
                "The device protocol or authentication failed. Reconnect the device; if needed, enable USB reset in Advanced settings.",
            ).to_owned(),
        );
    }
    (
        ConnectionPhase::ConnectionError,
        labelled(language.pick("连接错误", "Connection error"), raw),
    )
}

/// The diagnostics line that keeps the original error text.
pub fn original_error_context(language: Language, raw: &str) -> (text: String)
    ensures
        text@ == language.chosen("原始 USB 错误"@, "Original USB error"@) + ": "@ + raw@,
{
    labelled(language.pick("原始 USB 错误", "Original USB error"), raw)
}

/// An error is taken for a missing device exactly where its text says, in any
/// ASCII case, "not found": no other error is retried on its own.
pub proof fn law_only_missing_devices_are_retried(raw: Seq<char>)
    ensures
        (error_phase(raw) == ConnectionPhase::NoDevice) == mentions(raw, "not found"@),
        error_phase(raw) == ConnectionPhase::NoDevice || error_phase(raw)
            == ConnectionPhase::DeviceBusy || error_phase(raw) == ConnectionPhase::ConnectionError,
{
}

/// The ASCII case of an error text never matters to the phase.
pub proof fn law_error_phase_ignores_ascii_case(raw: Seq<char>)
    ensures
        error_phase(crate::text::ascii_lowercase(raw)) == error_phase(raw),
{
    let lower = crate::text::ascii_lowercase(raw);
    assert(crate::text::ascii_lowercase(lower) =~= lower);
}

} // verus!
