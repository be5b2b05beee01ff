//! What the interface says about a recording session.
use vstd::prelude::*;
use vstd::string::*;

use crate::binary64::{append_quotient, nearest};
use crate::i18n::Language;
use crate::options::AutoCaptureRule;
use crate::presentation::{
    append_percent, cumulative_energy_text, duration_text, format_cumulative_energy,
    format_plot_time, percent_text,
};
use crate::recording::{Completeness, RecordingFormat};
use crate::session_core::recovery_threshold_micro;
use crate::text::{append_decimal, append_padded, decimal, padded};

verus! {

/// The name of a session's file number `index`.
#[verifier::opaque]
pub open spec fn segment_name(index: u32, format: RecordingFormat) -> Seq<char> {
    "segment-"@ + (if index < 1_000_000 {
        padded(index as nat, 10, 6)
    } else {
        decimal(index as nat)
    }) + "."@ + format.suffix()
}

/// The name of a session's file number `index`.
pub fn segment_file_name(index: u32, format: RecordingFormat) -> (name: String)
    ensures
        name@ == segment_name(index, format),
{
    proof {
        reveal(segment_name);
    }
    let mut name = "segment-".to_owned();
    if index < 1_000_000 {
        append_padded(&mut name, index as u128, 10, 6);
    } else {
        append_decimal(&mut name, index as u128);
    }
    name.append(".");
    name.append(format.extension());
    name
}

/// The status of a paused recording.
#[verifier::opaque]
pub open spec fn paused_text(elapsed_us: u64, energy: i128) -> Seq<char> {
    "已暂停录制 · 时长 "@ + duration_text(elapsed_us as nat / 1_000) + " · 累计能量 "@
        + cumulative_energy_text(energy as int)
}

/// The status of a paused recording.
pub fn paused_status(elapsed_us: u64, energy: i128) -> (text: String)
    ensures
        text@ == paused_text(elapsed_us, energy),
{
    proof {
        reveal(paused_text);
    }
    let mut text = "已暂停录制 · 时长 ".to_owned();
    let duration = format_plot_time(elapsed_us);
    text.append(duration.as_str());
    text.append(" · 累计能量 ");
    let energy = format_cumulative_energy(energy);
    text.append(energy.as_str());
    text
}

/// The status of a recording that paused by itself.
#[verifier::opaque]
pub open spec fn auto_paused_text(language: Language, rule: AutoCaptureRule) -> Seq<char> {
    language.chosen("已自动暂停"@, "Auto-paused"@) + " · "@ + rule.metric.caption(language) + " "@
        + nearest(rule.sustain_ms as nat, 1_000).text(1) + " s ≤ "@ + nearest(
        rule.threshold_milli as nat,
        1_000,
    ).text(3) + " "@ + rule.metric.symbol()
}

/// The status of a recording that paused by itself.
pub fn auto_paused_status(language: Language, rule: AutoCaptureRule) -> (text: String)
    ensures
        text@ == auto_paused_text(language, rule),
{
    proof {
        reveal(auto_paused_text);
    }
    let mut text = language.pick("已自动暂停", "Auto-paused").to_owned();
    text.append(" · ");
    text.append(rule.metric.localized_label(language));
    text.append(" ");
    append_quotient(&mut text, rule.sustain_ms as u64, 1_000, 1);
    text.append(" s ≤ ");
    append_quotient(&mut text, rule.threshold_milli as u64, 1_000, 3);
    text.append(" ");
    text.append(rule.metric.unit());
    text
}

/// The status of a recording that went on by itself.
#[verifier::opaque]
pub open spec fn auto_resumed_text(language: Language, rule: AutoCaptureRule) -> Seq<char> {
    language.chosen("已自动继续"@, "Automatically resumed"@) + " · "@ + rule.metric.caption(
        language,
    ) + " ≥ "@ + nearest(rule.recovery(), 1_000_000).text(3) + " "@ + rule.metric.symbol()
}

/// The status of a recording that went on by itself.
pub fn auto_resumed_status(language: Language, rule: AutoCaptureRule) -> (text: String)
    ensures
        text@ == auto_resumed_text(language, rule),
{
    proof {
        reveal(auto_resumed_text);
    }
    let mut text = language.pick("已自动继续", "Automatically resumed").to_owned();
    text.append(" · ");
    text.append(rule.metric.localized_label(language));
    text.append(" ≥ ");
    append_quotient(&mut text, recovery_threshold_micro(rule), 1_000_000, 3);
    text.append(" ");
    text.append(rule.metric.unit());
    text
}

/// The status of a recording whose writer failed; `seal_error` says why its
/// last file could not be closed, if it could not.
#[verifier::opaque]
pub open spec fn writer_fault_text(
    language: Language,
    error: Seq<char>,
    seal_error: Option<Seq<char>>,
) -> Seq<char> {
    let said = language.chosen("录制写入中断"@, "Recording writer interrupted"@) + ": "@ + error;
    match seal_error {
        Some(seal_error) => said + "; "@ + language.chosen(
            "数据段封口失败"@,
            "Failed to seal the data segment"@,
        ) + ": "@ + seal_error,
        None => said + " · "@ + language.chosen(
            "已保留数据，可继续记录"@,
            "Data retained; recording can be resumed"@,
        ),
    }
}

/// The status of a recording whose writer failed.
pub fn writer_fault_status(language: Language, error: &str, seal_error: Option<&str>) -> (text:
    String)
    ensures
        text@ == writer_fault_text(
            language,
            error@,
            match seal_error {
                Some(seal_error) => Some(seal_error@),
                None => None,
            },
        ),
{
    proof {
        reveal(writer_fault_text);
    }
    let mut text = language.pick("录制写入中断", "Recording writer interrupted").to_owned();
    text.append(": ");
    text.append(error);
    match seal_error {
        Some(seal_error) => {
            text.append("; ");
            text.append(language.pick("数据段封口失败", "Failed to seal the data segment"));
            text.append(": ");
            text.append(seal_error);
        },
        None => {
            text.append(" · ");
            text.append(
                language.pick("已保留数据，可继续记录", "Data retained; recording can be resumed"),
            );
        },
    }
    text
}

/// `label`, a separator and `detail`.
#[verifier::opaque]
pub open spec fn said(label: Seq<char>, separator: Seq<char>, detail: Seq<char>) -> Seq<char> {
    label + separator + detail
}

/// `label`, a separator and `detail`.
pub fn say(label: &str, separator: &str, detail: &str) -> (text: String)
    ensures
        text@ == said(label@, separator@, detail@),
{
    proof {
        reveal(said);
    }
    let mut text = label.to_owned();
    text.append(separator);
    text.append(detail);
    text
}

/// The status of a saved recording.
#[verifier::opaque]
pub open spec fn saved_text(
    language: Language,
    started: Seq<char>,
    ended: Option<Seq<char>>,
    rows: u64,
    completeness: Completeness,
    destination: Seq<char>,
) -> Seq<char> {
    language.chosen("已保存"@, "Saved"@) + " · "@ + started + " → "@ + (match ended {
        Some(ended) => ended,
        None => language.chosen("结束时间未知"@, "End time unknown"@),
    }) + " · "@ + decimal(rows as nat) + " pts · "@ + percent_text(completeness, 3) + " · "@
        + destination
}

/// The status of a saved recording.
pub fn saved_status(
    language: Language,
    started: &str,
    ended: Option<&str>,
    rows: u64,
    completeness: Completeness,
    destination: &str,
) -> (text: String)
    requires
        completeness.elapsed_us > 0,
    ensures
        text@ == saved_text(
            language,
            started@,
            match ended {
                Some(ended) => Some(ended@),
                None => None,
            },
            rows,
            completeness,
            destination@,
        ),
{
    proof {
        reveal(saved_text);
    }
    let mut text = language.pick("已保存", "Saved").to_owned();
    text.append(" · ");
    text.append(started);
    text.append(" → ");
    match ended {
        Some(ended) => text.append(ended),
        None => text.append(language.pick("结束时间未知", "End time unknown")),
    }
    text.append(" · ");
    append_decimal(&mut text, rows as u128);
    text.append(" pts · ");
    append_percent(&mut text, completeness, 3);
    text.append(" · ");
    text.append(destination);
    text
}

/// The status of a recording that could not be saved to its destination.
#[verifier::opaque]
pub open spec fn save_failed_text(
    language: Language,
    error: Seq<char>,
    directory: Seq<char>,
) -> Seq<char> {
    language.chosen("保存失败"@, "Save failed"@) + "："@ + error + "；"@ + language.chosen(
        "恢复会话保留在"@,
        "Recovery session retained at"@,
    ) + " "@ + directory
}

/// The status of a recording that could not be saved to its destination.
pub fn save_failed_status(language: Language, error: &str, directory: &str) -> (text: String)
    ensures
        text@ == save_failed_text(language, error@, directory@),
{
    proof {
        reveal(save_failed_text);
    }
    let mut text = language.pick("保存失败", "Save failed").to_owned();
    text.append("：");
    text.append(error);
    text.append("；");
    text.append(language.pick("恢复会话保留在", "Recovery session retained at"));
    text.append(" ");
    text.append(directory);
    text
}

/// The error of a merged file that holds another number of samples.
#[verifier::opaque]
pub open spec fn row_mismatch_text(expected: u64, actual: u64) -> Seq<char> {
    "合并校验失败：预期 "@ + decimal(expected as nat) + " 点，实际 "@ + decimal(actual as nat)
        + " 点"@
}

/// The error of a merged file that holds another number of samples.
pub fn row_mismatch(expected: u64, actual: u64) -> (text: String)
    ensures
        text@ == row_mismatch_text(expected, actual),
{
    proof {
        reveal(row_mismatch_text);
    }
    let mut text = "合并校验失败：预期 ".to_owned();
    append_decimal(&mut text, expected as u128);
    text.append(" 点，实际 ");
    append_decimal(&mut text, actual as u128);
    text.append(" 点");
    text
}

/// The status of a file that was written completely.
#[verifier::opaque]
pub open spec fn written_text(rows: u64, path: Seq<char>, completeness: Completeness) -> Seq<char> {
    "已保存 "@ + decimal(rows as nat) + " 个采样点到 "@ + path + "（完整度 "@ + percent_text(
        completeness,
        4,
    ) + "）"@
}

/// The status of a file that was written completely.
pub fn written_status(rows: u64, path: &str, completeness: Completeness) -> (text: String)
    requires
        completeness.elapsed_us > 0,
    ensures
        text@ == written_text(rows, path@, completeness),
{
    proof {
        reveal(written_text);
    }
    let mut text = "已保存 ".to_owned();
    append_decimal(&mut text, rows as u128);
    text.append(" 个采样点到 ");
    text.append(path);
    text.append("（完整度 ");
    append_percent(&mut text, completeness, 4);
    text.append("）");
    text
}

/// The status of a file that was cut short.
#[verifier::opaque]
pub open spec fn cut_short_text(reason: Seq<char>, rows: u64, path: Seq<char>) -> Seq<char> {
    reason + "；已保存 "@ + decimal(rows as nat) + " 个采样点到 "@ + path
}

/// The status of a file that was cut short.
pub fn cut_short_status(reason: &str, rows: u64, path: &str) -> (text: String)
    ensures
        text@ == cut_short_text(reason@, rows, path@),
{
    proof {
        reveal(cut_short_text);
    }
    let mut text = reason.to_owned();
    text.append("；已保存 ");
    append_decimal(&mut text, rows as u128);
    text.append(" 个采样点到 ");
    text.append(path);
    text
}

} // verus!
