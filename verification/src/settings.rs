//! The settings window: what can be changed, and what it says.
use vstd::prelude::*;
use vstd::string::*;

use crate::i18n::{app_title, Language};
use crate::measurement::PlotMetric;
use crate::options::PlotSource;
use crate::recording::RecordingFormat;
use crate::text::{append_decimal, decimal};
use crate::theme::{Color, CURRENT, POWER};
use crate::workbench::Workbench;

verus! {

impl Workbench {
    /// Whether the file format can be changed: not while a file is written.
    pub fn can_change_format(&self) -> (can: bool)
        ensures
            can == !self@.control.writing(),
    {
        !self.control.is_writing()
    }

    /// Whether the protection against idle sleep can be changed: not during a
    /// session.
    pub fn can_change_sleep_protection(&self) -> (can: bool)
        ensures
            can == !self@.control.core.session,
    {
        !self.control.core.session
    }

    /// Whether the settings say that a recording keeps some of them as they
    /// are.
    pub fn recording_is_active(&self) -> (active: bool)
        ensures
            active == (self@.control.writing() || self@.control.core.session),
    {
        self.control.is_writing() || self.control.core.session
    }

    /// Whether an earlier session can go on: with a device, and while no other
    /// session is recorded.
    pub fn can_continue_session(&self) -> (can: bool)
        ensures
            can == (!self@.control.core.session && self@.link.device is Some),
    {
        !self.control.core.session && self.link.device.is_some()
    }

    /// Whether the advanced analysis offers `metric` for the source shown.
    pub fn offers_metric(&self, metric: PlotMetric) -> (offers: bool)
        ensures
            offers == (self@.chart.source != PlotSource::Offline || !metric.is_line()),
    {
        self.chart.source != PlotSource::Offline || metric.supports_offline()
    }

    /// Whether `source` can be shown.
    pub fn offers_source(&self, source: PlotSource) -> (offers: bool)
        ensures
            offers == (match source {
                PlotSource::Live => true,
                PlotSource::Offline => self@.offline.recording is Some,
                PlotSource::Imported => self@.shelf.recording is Some,
            }),
    {
        match source {
            PlotSource::Live => true,
            PlotSource::Offline => self.offline.recording.is_some(),
            PlotSource::Imported => self.shelf.recording.is_some(),
        }
    }

    /// How many samples the live buffer holds.
    pub fn buffer_label(&self) -> (label: String)
        ensures
            label@ == decimal(self@.live.points.len()) + " "@ + self@.language.chosen(
                "点"@,
                "points"@,
            ),
    {
        let mut label = String::new();
        append_decimal(&mut label, self.live.points.len() as u128);
        label.append(" ");
        label.append(self.language.pick("点", "points"));
        assert(label@ =~= decimal(self@.live.points.len()) + " "@ + self@.language.chosen(
            "点"@,
            "points"@,
        ));
        label
    }
}

/// What is said of the protection against idle sleep, and its colour.
pub fn sleep_label(protected: bool, language: Language) -> (label: (Color, &'static str))
    ensures
        label.0 == (if protected {
            CURRENT
        } else {
            POWER
        }),
        label.1@ == (if protected {
            language.chosen("● 防空闲睡眠已生效"@, "● Idle-sleep protection active"@)
        } else {
            language.chosen("○ 当前未建立睡眠保护"@, "○ Sleep protection is not active"@)
        }),
{
    if protected {
        (CURRENT, language.pick("● 防空闲睡眠已生效", "● Idle-sleep protection active"))
    } else {
        (POWER, language.pick("○ 当前未建立睡眠保护", "○ Sleep protection is not active"))
    }
}

/// Which version is running.
pub fn version_label(version: &str, build: &str, language: Language) -> (label: String)
    ensures
        label@ == language.chosen("KM003C 工作台"@, "KM003C Workbench"@) + " v"@ + version@ + " ("@
            + build@ + ")"@,
{
    let mut label = app_title(language).to_owned();
    label.append(" v");
    label.append(version);
    label.append(" (");
    label.append(build);
    label.append(")");
    label
}

/// The name under which a file is offered: what it holds, and when.
pub fn dated_filename(prefix: &str, unix_seconds: u64, format: RecordingFormat) -> (name: String)
    ensures
        name@ == prefix@ + "-"@ + decimal(unix_seconds as nat) + "."@ + format.suffix(),
{
    let mut name = prefix.to_owned();
    name.append("-");
    append_decimal(&mut name, unix_seconds as u128);
    name.append(".");
    name.append(format.extension());
    name
}

/// What the file list shows where a file has no name.
pub fn listed_name<'a>(file_name: Option<&'a str>, language: Language) -> (name: &'a str)
    ensures
        name@ == (match file_name {
            Some(name) => name@,
            None => language.chosen("录制文件"@, "Recording file"@),
        }),
{
    match file_name {
        Some(name) => name,
        None => language.pick("录制文件", "Recording file"),
    }
}

} // verus!
