//! The recordings that the device stores: their catalog, the one that was
//! downloaded, and its export.
use vstd::prelude::*;
use vstd::string::*;

use crate::i18n::Language;
use crate::link::device_facts;
use crate::measurement::{MeasurementSample, PlotMetric};
use crate::recording::{DeviceFacts, RecordingMetadata};
use crate::session_text::{said, say};
use crate::streaming::UsbCommand;
use crate::text::{append_decimal, characters, decimal, same_text};

verus! {

/// What the catalog says of a stored recording.
#[derive(Debug, Clone)]
pub struct CatalogEntry {
    pub filename: String,
    pub sample_count: u16,
}

/// What is known of a stored recording.
#[verifier::ext_equal]
pub ghost struct CatalogFacts {
    pub filename: Seq<char>,
    pub sample_count: u16,
}

impl View for CatalogEntry {
    type V = CatalogFacts;

    open spec fn view(&self) -> CatalogFacts {
        CatalogFacts { filename: self.filename@, sample_count: self.sample_count }
    }
}

/// What is known of the stored recordings.
pub open spec fn catalog_facts(catalog: Seq<CatalogEntry>) -> Seq<CatalogFacts> {
    catalog.map_values(|entry: CatalogEntry| entry@)
}

impl CatalogEntry {
    /// The line of the catalog.
    pub fn label(&self, language: Language) -> (label: String)
        ensures
            label@ == self@.filename + " · "@ + decimal(self@.sample_count as nat) + " "@
                + language.chosen("点"@, "points"@),
    {
        let mut label = self.filename.clone();
        label.append(" · ");
        append_decimal(&mut label, self.sample_count as u128);
        label.append(" ");
        label.append(language.pick("点", "points"));
        label
    }
}

/// A recording that was downloaded.
#[derive(Debug)]
pub struct OfflineRecording {
    pub filename: String,
    pub samples: Vec<MeasurementSample>,
}

/// What is known of a recording that was downloaded.
#[verifier::ext_equal]
pub ghost struct OfflineFacts {
    pub filename: Seq<char>,
    pub samples: Seq<MeasurementSample>,
}

impl View for OfflineRecording {
    type V = OfflineFacts;

    open spec fn view(&self) -> OfflineFacts {
        OfflineFacts { filename: self.filename@, samples: self.samples@ }
    }
}

/// The recordings that the device stores.
#[verifier::ext_equal]
pub ghost struct OfflineView {
    pub catalog: Seq<CatalogFacts>,
    pub selected: Option<usize>,
    pub recording: Option<OfflineFacts>,
    /// The device that the recording comes from.
    pub device: Option<DeviceFacts>,
    /// Whether the device is being read.
    pub busy: bool,
    /// Whether the recording is being exported.
    pub exporting: bool,
    pub status: Seq<char>,
}

impl OfflineView {
    /// Nothing was asked of the device.
    pub open spec fn fresh() -> OfflineView {
        OfflineView {
            catalog: Seq::empty(),
            selected: None,
            recording: None,
            device: None,
            busy: false,
            exporting: false,
            status: "尚未加载设备离线记录"@,
        }
    }

    /// The browser, showing `status`.
    pub open spec fn says(self, status: Seq<char>) -> OfflineView {
        OfflineView { status, ..self }
    }

    /// Whether the device may be read.
    pub open spec fn may_read(self, writing: bool) -> bool {
        !self.busy && !writing && !self.exporting
    }

    /// The selected line of the catalog.
    pub open spec fn selection(self) -> Option<CatalogFacts> {
        match self.selected {
            Some(row) => if row < self.catalog.len() {
                Some(self.catalog[row as int])
            } else {
                None
            },
            None => None,
        }
    }

    /// The catalog was asked for.
    pub open spec fn listing(self, connected: bool, writing: bool) -> OfflineView {
        if !connected {
            self.says("请先连接 KM003C，再加载设备离线记录"@)
        } else if !self.may_read(writing) {
            self
        } else {
            OfflineView { busy: true, ..self.says("正在加载设备离线记录目录…"@) }
        }
    }

    /// The selected recording was asked for.
    pub open spec fn downloading(self, connected: bool, writing: bool) -> OfflineView {
        if !connected {
            self.says("请先连接 KM003C，再下载离线记录"@)
        } else if !self.may_read(writing) {
            self
        } else {
            match self.selection() {
                Some(entry) => OfflineView {
                    busy: true,
                    ..self.says(
                        "正在从 "@ + entry.filename + " 下载 "@ + decimal(entry.sample_count as nat)
                            + " 个采样点…"@,
                    )
                },
                None => self.says("请先选择一条离线记录"@),
            }
        }
    }

    /// The catalog arrived.
    pub open spec fn listed(self, catalog: Seq<CatalogFacts>) -> OfflineView {
        OfflineView {
            busy: false,
            catalog,
            selected: if catalog.len() == 0 {
                None
            } else {
                Some(0)
            },
            ..self.says(
                if catalog.len() == 0 {
                    "设备中没有离线记录"@
                } else {
                    "已加载 "@ + decimal(catalog.len()) + " 条离线记录"@
                },
            )
        }
    }

    /// A recording of `device` arrived.
    pub open spec fn downloaded(
        self,
        recording: OfflineFacts,
        device: Option<DeviceFacts>,
    ) -> OfflineView {
        OfflineView {
            busy: false,
            recording: Some(recording),
            device,
            ..self.says(
                "已下载 "@ + decimal(recording.samples.len()) + " 个采样点："@
                    + recording.filename,
            )
        }
    }

    /// A device was connected: what the last one stored is forgotten.
    pub open spec fn renewed(self) -> OfflineView {
        OfflineView {
            catalog: Seq::empty(),
            selected: None,
            ..self.says("尚未加载设备离线记录"@)
        }
    }

    /// Whether the recording can be exported.
    pub open spec fn may_export(self) -> bool {
        !self.exporting && self.recording is Some && self.device is Some
    }
}

/// The recordings that the device stores.
#[derive(Debug)]
pub struct OfflineBrowser {
    pub catalog: Vec<CatalogEntry>,
    pub selected: Option<usize>,
    pub recording: Option<OfflineRecording>,
    pub device: Option<RecordingMetadata>,
    pub busy: bool,
    pub exporting: bool,
    pub status: String,
}

impl View for OfflineBrowser {
    type V = OfflineView;

    open spec fn view(&self) -> OfflineView {
        OfflineView {
            catalog: catalog_facts(self.catalog@),
            selected: self.selected,
            recording: match self.recording {
                Some(recording) => Some(recording@),
                None => None,
            },
            device: device_facts(self.device),
            busy: self.busy,
            exporting: self.exporting,
            status: self.status@,
        }
    }
}

impl OfflineBrowser {
    /// Nothing was asked of the device.
    pub fn new() -> (browser: OfflineBrowser)
        ensures
            browser@ == OfflineView::fresh(),
    {
        let browser = OfflineBrowser {
            catalog: Vec::new(),
            selected: None,
            recording: None,
            device: None,
            busy: false,
            exporting: false,
            status: "尚未加载设备离线记录".to_owned(),
        };
        assert(browser@ =~= OfflineView::fresh());
        browser
    }

    /// Asks for the catalog.
    pub fn request_offline_catalog(&mut self, connected: bool, writing: bool) -> (command: Option<
        UsbCommand,
    >)
        ensures
            final(self)@ == old(self)@.listing(connected, writing),
            command == (if connected && old(self)@.may_read(writing) {
                Some(UsbCommand::RequestOfflineCatalog)
            } else {
                None
            }),
    {
        if !connected {
            self.status = "请先连接 KM003C，再加载设备离线记录".to_owned();
            return None;
        }
        if self.busy || writing || self.exporting {
            return None;
        }
        self.busy = true;
        self.status = "正在加载设备离线记录目录…".to_owned();
        Some(UsbCommand::RequestOfflineCatalog)
    }

    /// Asks for the selected recording.
    pub fn download_selected_offline_log(&mut self, connected: bool, writing: bool) -> (command:
        Option<UsbCommand>)
        ensures
            final(self)@ == old(self)@.downloading(connected, writing),
            command == (if connected && old(self)@.may_read(writing) && old(self)@.selection()
                is Some {
                Some(UsbCommand::DownloadOfflineLog(old(self)@.selected->0))
            } else {
                None
            }),
    {
        if !connected {
            self.status = "请先连接 KM003C，再下载离线记录".to_owned();
            return None;
        }
        if self.busy || writing || self.exporting {
            return None;
        }
        let row: usize = match self.selected {
            Some(row) => row,
            None => {
                self.status = "请先选择一条离线记录".to_owned();
                return None;
            },
        };
        if row >= self.catalog.len() {
            self.status = "请先选择一条离线记录".to_owned();
            return None;
        }
        assert(self@.catalog[row as int] == self.catalog@[row as int]@);
        let mut status = "正在从 ".to_owned();
        status.append(self.catalog[row].filename.as_str());
        status.append(" 下载 ");
        append_decimal(&mut status, self.catalog[row].sample_count as u128);
        status.append(" 个采样点…");
        self.busy = true;
        self.status = status;
        Some(UsbCommand::DownloadOfflineLog(row))
    }

    /// The task that talks to the device took no command.
    pub fn command_lost(&mut self)
        ensures
            final(self)@ == (OfflineView { busy: false, ..old(self)@.says("USB 任务不可用"@) }),
    {
        self.busy = false;
        self.status = "USB 任务不可用".to_owned();
    }

    /// The catalog arrived.
    pub fn catalog_received(&mut self, catalog: Vec<CatalogEntry>)
        ensures
            final(self)@ == old(self)@.listed(catalog_facts(catalog@)),
    {
        self.busy = false;
        if catalog.len() == 0 {
            self.status = "设备中没有离线记录".to_owned();
            self.selected = None;
        } else {
            let mut status = "已加载 ".to_owned();
            append_decimal(&mut status, catalog.len() as u128);
            status.append(" 条离线记录");
            self.status = status;
            self.selected = Some(0);
        }
        self.catalog = catalog;
    }

    /// A recording of `device` arrived.
    pub fn log_downloaded(
        &mut self,
        recording: OfflineRecording,
        device: Option<RecordingMetadata>,
    )
        ensures
            final(self)@ == old(self)@.downloaded(recording@, device_facts(device)),
    {
        let mut status = "已下载 ".to_owned();
        append_decimal(&mut status, recording.samples.len() as u128);
        status.append(" 个采样点：");
        status.append(recording.filename.as_str());
        self.status = status;
        self.busy = false;
        self.device = device;
        self.recording = Some(recording);
    }

    /// The device could not be read.
    pub fn operation_failed(&mut self, error: &str)
        ensures
            final(self)@ == (OfflineView {
                busy: false,
                ..old(self)@.says(said("离线记录操作失败："@, ""@, error@))
            }),
    {
        self.busy = false;
        self.status = say("离线记录操作失败：", "", error);
    }

    /// A device was connected.
    pub fn device_connected(&mut self)
        ensures
            final(self)@ == old(self)@.renewed(),
    {
        self.catalog = Vec::new();
        self.selected = None;
        self.status = "尚未加载设备离线记录".to_owned();
        assert(self@ =~= old(self)@.renewed());
    }

    /// The device is gone.
    pub fn device_gone(&mut self)
        ensures
            final(self)@ == (OfflineView { busy: false, ..old(self)@ }),
    {
        self.busy = false;
    }

    /// Whether the recording can be exported; says why not where none was
    /// downloaded.
    pub fn can_export_log(&mut self) -> (can: bool)
        ensures
            can == old(self)@.may_export(),
            final(self)@ == (if !old(self)@.exporting && !can {
                old(self)@.says("请先下载一条离线记录，再导出"@)
            } else {
                old(self)@
            }),
    {
        if self.exporting {
            return false;
        }
        if self.recording.is_some() && self.device.is_some() {
            true
        } else {
            self.status = "请先下载一条离线记录，再导出".to_owned();
            false
        }
    }

    /// The export to `path` began, or did not.
    pub fn export_started(&mut self, path: &str, outcome: Result<(), String>)
        ensures
            final(self)@ == (match outcome {
                Ok(_) => OfflineView {
                    exporting: true,
                    ..old(self)@.says(said("正在导出到 "@, ""@, path@))
                },
                Err(error) => old(self)@.says(error@),
            }),
    {
        match outcome {
            Ok(_) => {
                self.status = say("正在导出到 ", "", path);
                self.exporting = true;
            },
            Err(error) => {
                self.status = error;
            },
        }
    }

    /// The export ended: so many samples were written to a path, or it failed.
    pub fn export_ended(&mut self, outcome: Result<(usize, String), String>)
        ensures
            final(self)@ == (OfflineView {
                exporting: false,
                ..old(self)@.says(
                    match outcome {
                        Ok((rows, path)) => "已导出 "@ + decimal(rows as nat) + " 个采样点到 "@
                            + path@,
                        Err(error) => error@,
                    },
                )
            }),
    {
        self.status = match outcome {
            Ok((rows, path)) => {
                let mut status = "已导出 ".to_owned();
                append_decimal(&mut status, rows as u128);
                status.append(" 个采样点到 ");
                status.append(path.as_str());
                status
            },
            Err(error) => error,
        };
        self.exporting = false;
    }

    /// Whether the catalog can be asked for.
    pub fn can_refresh(&self, connected: bool, writing: bool) -> (can: bool)
        ensures
            can == (connected && self@.may_read(writing)),
    {
        connected && !self.busy && !writing && !self.exporting
    }

    /// Whether the button that downloads is enabled.
    pub fn can_download(&self, writing: bool) -> (can: bool)
        ensures
            can == (self@.selected is Some && !self@.busy && !writing),
    {
        self.selected.is_some() && !self.busy && !writing
    }

    /// Whether the button that exports is enabled.
    pub fn can_export(&self, writing: bool) -> (can: bool)
        ensures
            can == (!self@.exporting && !writing),
    {
        !self.exporting && !writing
    }

    /// What the list of recordings shows as selected.
    pub fn selected_text(&self, language: Language) -> (text: String)
        ensures
            text@ == (match self@.selection() {
                Some(entry) => entry.filename,
                None => language.chosen("选择记录"@, "Select a recording"@),
            }),
    {
        match self.selected {
            Some(row) => if row < self.catalog.len() {
                assert(self@.catalog[row as int] == self.catalog@[row as int]@);
                self.catalog[row].filename.clone()
            } else {
                language.pick("选择记录", "Select a recording").to_owned()
            },
            None => language.pick("选择记录", "Select a recording").to_owned(),
        }
    }

    /// The status in `language`.
    pub fn status_label(&self, language: Language) -> (text: String)
        ensures
            text@ == (if self@.status == "尚未加载设备离线记录"@ {
                language.chosen(
                    "尚未加载设备离线记录"@,
                    "No on-device recordings have been loaded"@,
                )
            } else {
                self@.status
            }),
    {
        if same_text(&characters(self.status.as_str()), "尚未加载设备离线记录") {
            language.pick(
                "尚未加载设备离线记录",
                "No on-device recordings have been loaded",
            ).to_owned()
        } else {
            self.status.clone()
        }
    }
}

/// The name under which a downloaded recording is offered for export, given
/// the last part of the path that the device gave it.
pub fn export_prefix(file_name: Option<&str>) -> (prefix: String)
    ensures
        prefix@ == (match file_name {
            Some(name) => if name@.len() > 0 {
                name@
            } else {
                "offline-log"@
            },
            None => "offline-log"@,
        }),
{
    match file_name {
        Some(name) => if name.unicode_len() > 0 {
            name.to_owned()
        } else {
            "offline-log".to_owned()
        },
        None => "offline-log".to_owned(),
    }
}

/// The quantity that is drawn instead of `metric` from a downloaded recording.
pub open spec fn drawable(metric: PlotMetric) -> PlotMetric {
    if metric.is_line() {
        PlotMetric::Voltage
    } else {
        metric
    }
}

/// Replaces quantities that a downloaded recording does not hold.
pub fn drop_unsupported_metrics(metrics: [PlotMetric; 3]) -> (kept: [PlotMetric; 3])
    ensures
        kept@ == seq![drawable(metrics@[0]), drawable(metrics@[1]), drawable(metrics@[2])],
{
    let kept = [
        if metrics[0].supports_offline() {
            metrics[0]
        } else {
            PlotMetric::Voltage
        },
        if metrics[1].supports_offline() {
            metrics[1]
        } else {
            PlotMetric::Voltage
        },
        if metrics[2].supports_offline() {
            metrics[2]
        } else {
            PlotMetric::Voltage
        },
    ];
    assert(kept@ =~= seq![drawable(metrics@[0]), drawable(metrics@[1]), drawable(metrics@[2])]);
    kept
}

/// The device is read by one job at a time, and never while something is being
/// written: as long as the browser is busy, no further job is begun.
pub proof fn law_one_job_at_a_time(browser: OfflineView, connected: bool, writing: bool)
    requires
        browser.busy || writing || browser.exporting,
    ensures
        !browser.may_read(writing),
        browser.listing(connected, writing).busy == browser.busy,
        browser.downloading(connected, writing).busy == browser.busy,
{
}

/// A catalog that arrives replaces the last one and selects its first line; an
/// empty one selects nothing.
pub proof fn law_selection_lies_in_the_catalog(browser: OfflineView, catalog: Seq<CatalogFacts>)
    ensures
        browser.listed(catalog).selected is None <==> catalog.len() == 0,
        browser.listed(catalog).selection() is Some <==> catalog.len() > 0,
{
}

/// A connected device that is free is read: the browser is then busy until the
/// answer comes. Without a device, or without a selected line, nothing is read.
pub proof fn law_a_free_device_is_read(browser: OfflineView)
    requires
        !browser.busy,
        !browser.exporting,
    ensures
        browser.listing(true, false).busy,
        !browser.listing(false, false).busy,
        browser.downloading(true, false).busy <==> browser.selection() is Some,
        !browser.downloading(false, false).busy,
        browser.listing(true, false).catalog == browser.catalog,
        browser.downloading(true, false).recording == browser.recording,
        browser.selected matches Some(row) ==> (row < browser.catalog.len()
            ==> browser.selection() == Some(browser.catalog[row as int])),
        browser.selected is None ==> browser.selection() is None,
{
}

/// What arrives is kept as it arrived: the catalog line by line with its first
/// line selected, the recording with its samples and the device that it comes
/// from; the browser is free again.
pub proof fn law_what_the_device_stored_is_kept(
    browser: OfflineView,
    catalog: Seq<CatalogFacts>,
    recording: OfflineFacts,
    device: Option<DeviceFacts>,
)
    ensures
        browser.listed(catalog).catalog == catalog,
        catalog.len() > 0 ==> browser.listed(catalog).selection() == Some(catalog[0]),
        !browser.listed(catalog).busy,
        browser.listed(catalog).recording == browser.recording,
        browser.downloaded(recording, device).recording == Some(recording),
        browser.downloaded(recording, device).device == device,
        !browser.downloaded(recording, device).busy,
        browser.downloaded(recording, device).catalog == browser.catalog,
{
}

/// Another device has another memory: its catalog is asked for anew, and what
/// was downloaded before stays.
pub proof fn law_another_device_has_another_catalog(browser: OfflineView)
    ensures
        browser.renewed().catalog.len() == 0,
        browser.renewed().selection() is None,
        browser.renewed().recording == browser.recording,
        browser.renewed().device == browser.device,
{
}

/// A recording is exported that is there with its device, one at a time.
pub proof fn law_a_downloaded_recording_is_exported(browser: OfflineView)
    ensures
        browser.may_export() <==> browser.recording is Some && browser.device is Some
            && !browser.exporting,
        OfflineView::fresh().recording is None,
        !OfflineView::fresh().may_export(),
        OfflineView::fresh().may_read(false),
{
}

/// A stored recording shows no signal line: one that was chosen gives way to the
/// voltage, and every other choice stays.
pub proof fn law_signal_lines_give_way_to_the_voltage(metric: PlotMetric)
    ensures
        metric == PlotMetric::Cc1 || metric == PlotMetric::Cc2 || metric == PlotMetric::DPlus
            || metric == PlotMetric::DMinus ==> drawable(metric) == PlotMetric::Voltage,
        !(metric == PlotMetric::Cc1 || metric == PlotMetric::Cc2 || metric == PlotMetric::DPlus
            || metric == PlotMetric::DMinus) ==> drawable(metric) == metric,
{
}

} // verus!
