//! Recordings that are loaded from files, and sessions that were cut short.
use vstd::prelude::*;
use vstd::string::*;

use crate::i18n::Language;
use crate::measurement::MeasurementSample;
use crate::options::localized_session_state;
use crate::presentation::{append_percent, duration_text, format_plot_time, percent_text};
use crate::recording::RecordingFormat;
use crate::recording_session::{
    filename_text, RecordingSessionManifestV1, RecordingSessionMetadataV1, SessionFacts,
    SessionState,
};
use crate::session_text::{said, say};
use crate::text::{append_decimal, decimal};
use crate::utc::compact_beijing_text;

verus! {

/// A recording that was loaded from a file.
#[derive(Debug)]
pub struct ImportedRecording {
    pub path: String,
    /// The last part of the path, where it has one.
    pub file_name: Option<String>,
    pub samples: Vec<MeasurementSample>,
    pub metadata: Option<RecordingSessionMetadataV1>,
}

/// What is known of a recording that was loaded from a file.
#[verifier::ext_equal]
pub ghost struct ImportFacts {
    pub path: Seq<char>,
    pub file_name: Option<Seq<char>>,
    pub samples: Seq<MeasurementSample>,
    pub metadata: Option<SessionFacts>,
}

impl View for ImportedRecording {
    type V = ImportFacts;

    open spec fn view(&self) -> ImportFacts {
        ImportFacts {
            path: self.path@,
            file_name: match self.file_name {
                Some(name) => Some(name@),
                None => None,
            },
            samples: self.samples@,
            metadata: match self.metadata {
                Some(metadata) => Some(metadata@),
                None => None,
            },
        }
    }
}

/// The recording that was loaded, if there is one.
#[verifier::ext_equal]
pub ghost struct ShelfView {
    pub recording: Option<ImportFacts>,
    /// Whether a file is being loaded.
    pub loading: bool,
    pub status: Seq<char>,
}

impl ShelfView {
    /// Nothing was loaded.
    pub open spec fn fresh() -> ShelfView {
        ShelfView { recording: None, loading: false, status: "尚未导入桌面录制"@ }
    }

    /// The shelf, showing `status`.
    pub open spec fn says(self, status: Seq<char>) -> ShelfView {
        ShelfView { status, ..self }
    }

    /// A recording was loaded.
    pub open spec fn loaded(self, recording: ImportFacts) -> ShelfView {
        ShelfView {
            recording: Some(recording),
            loading: false,
            ..self.says(
                "已导入 "@ + decimal(recording.samples.len()) + " 个采样点："@ + recording.path,
            )
        }
    }

    /// The recording was closed.
    pub open spec fn closed(self, language: Language) -> ShelfView {
        ShelfView {
            recording: None,
            ..self.says(
                language.chosen("尚未导入桌面录制"@, "No desktop recording imported"@),
            )
        }
    }
}

/// The recording that was loaded, if there is one.
#[derive(Debug)]
pub struct ImportShelf {
    pub recording: Option<ImportedRecording>,
    pub loading: bool,
    pub status: String,
}

impl View for ImportShelf {
    type V = ShelfView;

    open spec fn view(&self) -> ShelfView {
        ShelfView {
            recording: match self.recording {
                Some(recording) => Some(recording@),
                None => None,
            },
            loading: self.loading,
            status: self.status@,
        }
    }
}

impl ImportShelf {
    /// Nothing was loaded.
    pub fn new() -> (shelf: ImportShelf)
        ensures
            shelf@ == ShelfView::fresh(),
    {
        ImportShelf { recording: None, loading: false, status: "尚未导入桌面录制".to_owned() }
    }

    /// The loading of `path` began, or did not.
    pub fn import_started(&mut self, path: &str, outcome: Result<(), String>)
        ensures
            final(self)@ == (if old(self)@.loading {
                old(self)@
            } else {
                match outcome {
                    Ok(_) => ShelfView {
                        loading: true,
                        ..old(self)@.says(said("正在校验并导入 "@, ""@, path@))
                    },
                    Err(error) => old(self)@.says(error@),
                }
            }),
    {
        if !self.loading {
            match outcome {
                Ok(_) => {
                    self.status = say("正在校验并导入 ", "", path);
                    self.loading = true;
                },
                Err(error) => {
                    self.status = error;
                },
            }
        }
    }

    /// A recording was loaded.
    pub fn import_finished(&mut self, recording: ImportedRecording)
        ensures
            final(self)@ == old(self)@.loaded(recording@),
    {
        let mut status = "已导入 ".to_owned();
        append_decimal(&mut status, recording.samples.len() as u128);
        status.append(" 个采样点：");
        status.append(recording.path.as_str());
        self.status = status;
        self.recording = Some(recording);
        self.loading = false;
    }

    /// The file could not be loaded.
    pub fn import_failed(&mut self, error: &str)
        ensures
            final(self)@ == (ShelfView {
                loading: false,
                ..old(self)@.says(said("导入失败："@, ""@, error@))
            }),
    {
        self.status = say("导入失败：", "", error);
        self.loading = false;
    }

    /// A copy of the recording was saved to `destination`, or was not.
    pub fn copy_finished(&mut self, outcome: Result<(), String>, destination: &str)
        ensures
            final(self)@ == old(self)@.says(
                match outcome {
                    Ok(_) => destination@,
                    Err(error) => error@,
                },
            ),
    {
        self.status = match outcome {
            Ok(_) => destination.to_owned(),
            Err(error) => error,
        };
    }

    /// Closes the recording.
    pub fn close(&mut self, language: Language)
        ensures
            final(self)@ == old(self)@.closed(language),
    {
        self.recording = None;
        self.status = language.pick(
            "尚未导入桌面录制",
            "No desktop recording imported",
        ).to_owned();
    }

    /// A session that was cut short could not be shown.
    pub fn view_failed(&mut self, error: &str, language: Language)
        ensures
            final(self)@ == old(self)@.says(
                said(
                    language.chosen(
                        "无法查看恢复会话"@,
                        "Unable to view the recovery session"@,
                    ),
                    "："@,
                    error@,
                ),
            ),
    {
        self.status = say(
            language.pick("无法查看恢复会话", "Unable to view the recovery session"),
            "：",
            error,
        );
    }

    /// A session that was cut short was saved to `destination`, or stays in
    /// `directory`.
    pub fn recovery_saved(
        &mut self,
        outcome: Result<(), String>,
        destination: &str,
        directory: &str,
        language: Language,
    )
        ensures
            final(self)@ == old(self)@.says(
                match outcome {
                    Ok(_) => said(
                        language.chosen("恢复录制已保存"@, "Recoverable recording saved"@),
                        "："@,
                        destination@,
                    ),
                    Err(error) => unsaved_text(language, error@, directory@),
                },
            ),
    {
        self.status = match outcome {
            Ok(_) => say(
                language.pick("恢复录制已保存", "Recoverable recording saved"),
                "：",
                destination,
            ),
            Err(error) => unsaved_status(language, error.as_str(), directory),
        };
    }
}

/// What is said of a session that could not be saved.
pub open spec fn unsaved_text(
    language: Language,
    error: Seq<char>,
    directory: Seq<char>,
) -> Seq<char> {
    language.chosen("恢复录制保存失败"@, "Failed to save recoverable recording"@) + "："@ + error
        + "；"@ + language.chosen("原会话仍保留在"@, "The original session remains at"@) + " "@
        + directory
}

/// What is said of a session that could not be saved.
fn unsaved_status(language: Language, error: &str, directory: &str) -> (text: String)
    ensures
        text@ == unsaved_text(language, error@, directory@),
{
    let mut text = language.pick(
        "恢复录制保存失败",
        "Failed to save recoverable recording",
    ).to_owned();
    text.append("：");
    text.append(error);
    text.append("；");
    text.append(language.pick("原会话仍保留在", "The original session remains at"));
    text.append(" ");
    text.append(directory);
    text
}

/// Whether the file of a session that was cut short holds every row: `restored`
/// samples were read back of `rows` that were written.
pub fn check_recovery(restored: u64, rows: u64) -> (outcome: Result<(), String>)
    ensures
        outcome is Ok <==> restored == rows,
        outcome matches Err(error) ==> error@ == "恢复文件校验点数不一致"@,
{
    if restored == rows {
        Ok(())
    } else {
        Err("恢复文件校验点数不一致".to_owned())
    }
}

/// `text` with every space and colon replaced by a hyphen.
pub open spec fn hyphenated(text: Seq<char>) -> Seq<char> {
    text.map_values(
        |c: char|
            if c == ' ' || c == ':' {
                '-'
            } else {
                c
            },
    )
}

/// `text` with every space and colon replaced by a hyphen.
fn hyphenate(text: &str) -> (result: String)
    ensures
        result@ == hyphenated(text@),
{
    let mut result = "".to_owned();
    let count: usize = text.unicode_len();
    let mut index: usize = 0;
    proof {
        reveal_strlit("");
        reveal_strlit("-");
    }
    while index < count
        invariant
            index <= count,
            count == text@.len(),
            result@ =~= hyphenated(text@).take(index as int),
            "-"@ == seq!['-'],
        decreases count - index,
    {
        let c = text.get_char(index);
        if c == ' ' || c == ':' {
            result.append("-");
        } else {
            result.append(text.substring_char(index, index + 1));
        }
        assert(result@ =~= hyphenated(text@).take(index + 1));
        index += 1;
    }
    result
}

/// The name under which a session that was cut short is offered.
pub open spec fn recovered_filename(
    started: Seq<char>,
    sample_rate_hz: u32,
    format: RecordingFormat,
) -> Seq<char> {
    "KM003C_"@ + hyphenated(started) + "_recovered_"@ + decimal(sample_rate_hz as nat) + "SPS."@
        + format.suffix()
}

/// The name under which a session that was cut short is offered: like any
/// other where its end is known.
pub fn recoverable_filename(manifest: &RecordingSessionManifestV1) -> (name: String)
    requires
        manifest.metadata.valid(),
    ensures
        name@ == (match manifest.metadata.timestamps.ended_at_utc {
            Some(ended) => filename_text(
                compact_beijing_text(manifest.metadata.timestamps.started_at_utc),
                compact_beijing_text(ended),
                manifest.metadata.sample_rate_hz,
                manifest.format,
            ),
            None => recovered_filename(
                manifest.metadata.timestamps.started_at_beijing@,
                manifest.metadata.sample_rate_hz,
                manifest.format,
            ),
        }),
{
    match manifest.metadata.timestamps.ended_at_utc {
        Some(ended) => manifest.metadata.suggested_filename(manifest.format, ended),
        None => {
            let mut name = "KM003C_".to_owned();
            let started = hyphenate(manifest.metadata.timestamps.started_at_beijing.as_str());
            name.append(started.as_str());
            name.append("_recovered_");
            append_decimal(&mut name, manifest.metadata.sample_rate_hz as u128);
            name.append("SPS.");
            name.append(manifest.format.extension());
            name
        },
    }
}

/// The state of a session in `language`.
pub open spec fn state_text(state: SessionState, language: Language) -> Seq<char> {
    match state {
        SessionState::Recording => language.chosen("录制中"@, "Recording"@),
        SessionState::Paused => language.chosen("已暂停"@, "Paused"@),
        SessionState::WaitingForReconnect => language.chosen("等待重连"@, "Waiting to reconnect"@),
        SessionState::Finalizing => language.chosen("正在保存"@, "Saving"@),
        SessionState::Saved => language.chosen("已保存"@, "Saved"@),
        SessionState::Interrupted => language.chosen("异常中断"@, "Interrupted"@),
    }
}

/// What a session that was cut short amounts to.
pub fn recoverable_detail(manifest: &RecordingSessionManifestV1, language: Language) -> (text:
    String)
    ensures
        text@ == decimal(manifest.metadata.sample_rate_hz as nat) + " SPS · "@ + decimal(
            manifest.metadata.rows as nat,
        ) + " pts · "@ + state_text(manifest.state, language),
{
    let mut text = "".to_owned();
    proof {
        reveal_strlit("");
    }
    append_decimal(&mut text, manifest.metadata.sample_rate_hz as u128);
    text.append(" SPS · ");
    append_decimal(&mut text, manifest.metadata.rows as u128);
    text.append(" pts · ");
    text.append(localized_session_state(manifest.state, language));
    assert(text@ =~= decimal(manifest.metadata.sample_rate_hz as nat) + " SPS · "@ + decimal(
        manifest.metadata.rows as nat,
    ) + " pts · "@ + state_text(manifest.state, language));
    text
}

/// The title of the list of `count` recordings that can be recovered.
pub fn recoverable_title(count: usize, language: Language) -> (text: String)
    ensures
        text@ == language.chosen("可恢复录制"@, "Recoverable recordings"@) + " ("@ + decimal(
            count as nat,
        ) + ")"@,
{
    let mut text = language.pick("可恢复录制", "Recoverable recordings").to_owned();
    text.append(" (");
    append_decimal(&mut text, count as u128);
    text.append(")");
    text
}

/// What the banner says of a recording with known metadata: how long it is,
/// how many points it has, and how complete it is.
pub fn banner_text(metadata: &RecordingSessionMetadataV1, points: usize) -> (text: String)
    requires
        metadata.completeness.elapsed_us > 0,
    ensures
        text@ == duration_text(metadata.effective_duration_us as nat / 1_000) + " · "@ + decimal(
            points as nat,
        ) + " pts · "@ + percent_text(metadata.completeness, 3),
{
    let mut text = format_plot_time(metadata.effective_duration_us);
    text.append(" · ");
    append_decimal(&mut text, points as u128);
    text.append(" pts · ");
    append_percent(&mut text, metadata.completeness, 3);
    text
}

/// The end of a recording as the banner shows it.
pub fn banner_end<'a>(metadata: &'a RecordingSessionMetadataV1, language: Language) -> (text: &'a
    str)
    ensures
        text@ == (match metadata.timestamps.ended_at_beijing {
            Some(ended) => ended@,
            None => language.chosen("结束时间未知"@, "End time unknown"@),
        }),
{
    match &metadata.timestamps.ended_at_beijing {
        Some(ended) => ended.as_str(),
        None => language.pick("结束时间未知", "End time unknown"),
    }
}

/// A recording that was loaded stands on the shelf with everything that was
/// read, in place of the last one, and is there until it is closed.
pub proof fn law_a_loaded_recording_stands_on_the_shelf(
    shelf: ShelfView,
    recording: ImportFacts,
    language: Language,
)
    ensures
        ShelfView::fresh().recording is None,
        !ShelfView::fresh().loading,
        shelf.loaded(recording).recording == Some(recording),
        !shelf.loaded(recording).loading,
        shelf.closed(language).recording is None,
        shelf.closed(language).loading == shelf.loading,
{
}

/// In a file name a blank and a colon read as a hyphen, and every other character
/// as itself.
pub proof fn law_file_names_have_no_blanks_or_colons(text: Seq<char>, i: int)
    requires
        0 <= i < text.len(),
    ensures
        hyphenated(text).len() == text.len(),
        hyphenated(text)[i] != ' ',
        hyphenated(text)[i] != ':',
        text[i] != ' ' && text[i] != ':' ==> hyphenated(text)[i] == text[i],
        text[i] == ' ' || text[i] == ':' ==> hyphenated(text)[i] == '-',
{
}

} // verus!
