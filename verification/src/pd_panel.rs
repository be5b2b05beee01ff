//! The protocol page: what the decoder makes of the events, the two logs, and
//! what is said of the protocol.
use std::collections::VecDeque;

use vstd::prelude::*;
use vstd::string::*;

use crate::i18n::Language;
use crate::options::PlotSource;
use crate::pd_decoder::{
    log_entries, DecodedPdEntry, PdCategory, PdContract, PdContractKind, PdDecoder, PdEntryText,
    PdEvent, PdSession, PowerProtocolState,
};
use crate::pd_quantity::{PdQuantity, PdStep};
use crate::streaming::UsbCommand;
use crate::text::{append_decimal, decimal};
use crate::theme::{Color, CURRENT, EXTENDED, POWER, RECORDING, TEXT_MUTED, VOLTAGE};
use crate::timeline::{
    extend_log, newest_entries, pd_timeline_entries, shown_times, PdTimelineEntry,
    PdTraceCategory, PdTraceEntry, PROTOCOL_ENTRIES, TRACE_ENTRIES,
};

verus! {

/// The text of log entries.
pub open spec fn entry_texts(entries: Seq<DecodedPdEntry>) -> Seq<PdEntryText> {
    entries.map_values(|e: DecodedPdEntry| e@)
}

/// The entries that `events` add to the log of a decoder in `session`.
pub open spec fn logged(session: PdSession, events: Seq<PdEvent>) -> Seq<PdEntryText>
    decreases events.len(),
{
    if events.len() == 0 {
        Seq::empty()
    } else {
        logged(session, events.drop_last()) + log_entries(
            session.after_all(events.drop_last()),
            events.last(),
        )
    }
}

/// The protocol page.
#[verifier::ext_equal]
pub ghost struct PdPanelView {
    pub session: PdSession,
    pub log: Seq<PdEntryText>,
    pub trace: Seq<PdTraceEntry>,
    pub trace_enabled: bool,
    pub protocol_visible: bool,
    pub auto_scroll: bool,
    pub panel_visible: bool,
}

impl PdPanelView {
    /// Nothing was received.
    pub open spec fn fresh() -> PdPanelView {
        PdPanelView {
            session: PdSession::initial(),
            log: Seq::empty(),
            trace: Seq::empty(),
            trace_enabled: false,
            protocol_visible: true,
            auto_scroll: true,
            panel_visible: true,
        }
    }

    /// The logs keep no more than they are meant to.
    pub open spec fn well_formed(self) -> bool {
        self.log.len() <= PROTOCOL_ENTRIES && self.trace.len() <= TRACE_ENTRIES
    }

    /// The page after `events`.
    pub open spec fn after_events(self, events: Seq<PdEvent>) -> PdPanelView {
        PdPanelView {
            session: self.session.after_all(events),
            log: newest_entries(
                self.log + logged(self.session, events),
                PROTOCOL_ENTRIES as int,
            ),
            ..self
        }
    }

    /// What is shown of the protocol: nothing for a recording that was loaded,
    /// and what the device senses and the events say otherwise.
    pub open spec fn shown_state(
        self,
        source: PlotSource,
        demo: bool,
        device: bool,
        sensed: Option<bool>,
    ) -> PowerProtocolState {
        if source != PlotSource::Live {
            PowerProtocolState::Unavailable
        } else if demo {
            PowerProtocolState::Confirmed(demo_contract())
        } else if !device {
            PowerProtocolState::Disconnected
        } else {
            self.session.shown(sensed)
        }
    }
}

/// The contract that demonstration data show: nine volts and two amperes.
pub open spec fn demo_contract() -> PdContract {
    PdContract {
        kind: PdContractKind::Fixed,
        object_position: 2,
        voltage: Some(PdQuantity { count: 180, step: PdStep::Milli50 }),
        current: Some(PdQuantity { count: 200, step: PdStep::Milli10 }),
        power: None,
    }
}

/// The protocol page.
pub struct PdPanel {
    pub decoder: PdDecoder,
    pub log: VecDeque<DecodedPdEntry>,
    pub trace_log: VecDeque<PdTraceEntry>,
    pub trace_enabled: bool,
    pub protocol_visible: bool,
    pub auto_scroll: bool,
    pub panel_visible: bool,
}

impl View for PdPanel {
    type V = PdPanelView;

    open spec fn view(&self) -> PdPanelView {
        PdPanelView {
            session: self.decoder@,
            log: entry_texts(self.log@),
            trace: self.trace_log@,
            trace_enabled: self.trace_enabled,
            protocol_visible: self.protocol_visible,
            auto_scroll: self.auto_scroll,
            panel_visible: self.panel_visible,
        }
    }
}

/// The text of the newest entries.
proof fn lemma_newest_texts(
    kept: Seq<DecodedPdEntry>,
    added: Seq<DecodedPdEntry>,
    limit: int,
)
    requires
        0 <= limit,
    ensures
        entry_texts(newest_entries(kept + added, limit)) == newest_entries(
            entry_texts(kept) + entry_texts(added),
            limit,
        ),
{
    assert(entry_texts(newest_entries(kept + added, limit)) =~= newest_entries(
        entry_texts(kept) + entry_texts(added),
        limit,
    ));
}

/// Keeping the newest of what was kept and added in two goes.
proof fn lemma_newest_twice(
    kept: Seq<PdEntryText>,
    first: Seq<PdEntryText>,
    second: Seq<PdEntryText>,
    limit: int,
)
    requires
        0 <= limit,
    ensures
        newest_entries(newest_entries(kept + first, limit) + second, limit) == newest_entries(
            kept + (first + second),
            limit,
        ),
{
    assert(newest_entries(newest_entries(kept + first, limit) + second, limit) =~= newest_entries(
        kept + (first + second),
        limit,
    ));
}

impl PdPanel {
    /// Nothing was received.
    pub fn new() -> (panel: PdPanel)
        ensures
            panel@ == PdPanelView::fresh(),
            panel@.well_formed(),
    {
        let panel = PdPanel {
            decoder: PdDecoder::new(),
            log: VecDeque::new(),
            trace_log: VecDeque::new(),
            trace_enabled: false,
            protocol_visible: true,
            auto_scroll: true,
            panel_visible: true,
        };
        assert(panel@ =~= PdPanelView::fresh());
        panel
    }

    /// Follows `events` and logs them.
    pub fn receive_events(&mut self, events: &Vec<PdEvent>)
        requires
            old(self)@.well_formed(),
        ensures
            final(self)@ == old(self)@.after_events(events@),
            final(self)@.well_formed(),
    {
        let ghost before = self@;
        let mut index: usize = 0;
        proof {
            assert(events@.take(0) =~= Seq::<PdEvent>::empty());
            assert(newest_entries(
                before.log + logged(before.session, events@.take(0)),
                PROTOCOL_ENTRIES as int,
            ) =~= before.log);
        }
        while index < events.len()
            invariant
                index <= events@.len(),
                before.well_formed(),
                self@.well_formed(),
                self@ == before.after_events(events@.take(index as int)),
            decreases events.len() - index,
        {
            let ghost kept = self.log@;
            let entries = self.decoder.decode_event(&events[index]);
            let ghost added = entries@;
            extend_log(&mut self.log, entries, PROTOCOL_ENTRIES);
            proof {
                assert(events@.take(index + 1).drop_last() =~= events@.take(index as int));
                lemma_newest_texts(kept, added, PROTOCOL_ENTRIES as int);
                lemma_newest_twice(
                    before.log,
                    logged(before.session, events@.take(index as int)),
                    entry_texts(added),
                    PROTOCOL_ENTRIES as int,
                );
                assert(self@ =~= before.after_events(events@.take(index + 1)));
            }
            index += 1;
        }
        assert(events@.take(index as int) =~= events@);
    }

    /// Logs entries of the firmware's trace.
    pub fn receive_trace(&mut self, entries: Vec<PdTraceEntry>)
        requires
            old(self)@.well_formed(),
        ensures
            final(self)@ == (PdPanelView {
                trace: newest_entries(old(self)@.trace + entries@, TRACE_ENTRIES as int),
                ..old(self)@
            }),
            final(self)@.well_formed(),
    {
        extend_log(&mut self.trace_log, entries, TRACE_ENTRIES);
    }

    /// Forgets the negotiation.
    pub fn reset_decoder(&mut self)
        ensures
            final(self)@ == (PdPanelView { session: PdSession::initial(), ..old(self)@ }),
    {
        self.decoder.reset();
    }

    /// Empties both logs.
    pub fn clear_pd_log(&mut self)
        ensures
            final(self)@ == (PdPanelView {
                log: Seq::empty(),
                trace: Seq::empty(),
                ..old(self)@
            }),
            final(self)@.well_formed(),
    {
        self.log.clear();
        self.trace_log.clear();
        assert(self@.log =~= Seq::<PdEntryText>::empty());
    }

    /// Collects the firmware's trace, or no longer does; a device that is there
    /// is told.
    pub fn set_trace_enabled(&mut self, enabled: bool, device: bool) -> (command: Option<
        UsbCommand,
    >)
        ensures
            final(self)@ == (PdPanelView { trace_enabled: enabled, ..old(self)@ }),
            command == (if enabled != old(self)@.trace_enabled && device {
                Some(UsbCommand::SetPdTraceEnabled(enabled))
            } else {
                None
            }),
    {
        let changed: bool = enabled != self.trace_enabled;
        self.trace_enabled = enabled;
        if changed && device {
            Some(UsbCommand::SetPdTraceEnabled(enabled))
        } else {
            None
        }
    }

    /// The timeline of what is shown.
    pub fn timeline(&self) -> (entries: Vec<PdTimelineEntry>)
        ensures
            shown_times(
                self.log@,
                self.trace_log@,
                self.protocol_visible,
                self.trace_enabled,
            ).is_timeline(entries@),
    {
        pd_timeline_entries(
            &self.log,
            &self.trace_log,
            self.protocol_visible,
            self.trace_enabled,
        )
    }

    /// What is shown of the protocol.
    pub fn displayed_protocol_state(
        &self,
        source: PlotSource,
        demo: bool,
        device: bool,
        sensed: Option<bool>,
    ) -> (state: PowerProtocolState)
        ensures
            state == self@.shown_state(source, demo, device, sensed),
    {
        if source != PlotSource::Live {
            return PowerProtocolState::Unavailable;
        }
        if demo {
            return PowerProtocolState::Confirmed(
                PdContract {
                    kind: PdContractKind::Fixed,
                    object_position: 2,
                    voltage: Some(PdQuantity { count: 180, step: PdStep::Milli50 }),
                    current: Some(PdQuantity { count: 200, step: PdStep::Milli10 }),
                    power: None,
                },
            );
        }
        if !device {
            return PowerProtocolState::Disconnected;
        }
        self.decoder.display_state(sensed)
    }

    /// How many protocol entries there are.
    pub fn protocol_count_label(&self, language: Language) -> (label: String)
        ensures
            label@ == "WIRE  "@ + decimal(self@.log.len()) + " "@ + language.chosen(
                "条"@,
                "entries"@,
            ),
    {
        let mut label = "WIRE  ".to_owned();
        append_decimal(&mut label, self.log.len() as u128);
        label.append(" ");
        label.append(language.pick("条", "entries"));
        label
    }

    /// How many trace entries there are.
    pub fn trace_count_label(&self, language: Language) -> (label: String)
        ensures
            label@ == "FW    "@ + decimal(self@.trace.len()) + " "@ + language.chosen(
                "条"@,
                "entries"@,
            ),
    {
        let mut label = "FW    ".to_owned();
        append_decimal(&mut label, self.trace_log.len() as u128);
        label.append(" ");
        label.append(language.pick("条", "entries"));
        label
    }
}

// -- What is said --

/// What the monitor says of the protocol.
pub open spec fn summary_text(state: PowerProtocolState, language: Language) -> Seq<char> {
    match state {
        PowerProtocolState::Confirmed(contract) => contract.summary_text(
            contract.kind.localized_name(language),
        ),
        PowerProtocolState::Negotiating(contract) => contract.summary_text(
            contract.kind.localized_name(language),
        ),
        PowerProtocolState::PdDetected => language.chosen(
            "检测到 USB PD · 等待合同"@,
            "USB PD detected · Waiting for contract"@,
        ),
        PowerProtocolState::TraditionalUnconfirmed => language.chosen(
            "协议未确认 · 不推测 QC / VOOC / UFCS"@,
            "Protocol unconfirmed · QC / VOOC / UFCS not inferred"@,
        ),
        PowerProtocolState::Waiting => language.chosen(
            "等待 Type-C / PD 协商"@,
            "Waiting for Type-C / PD negotiation"@,
        ),
        PowerProtocolState::Disconnected => language.chosen(
            "未检测到受测设备"@,
            "No device detected on the test port"@,
        ),
        PowerProtocolState::Unavailable => language.chosen(
            "离线文件未保存 PD 合同"@,
            "The offline file does not contain a PD contract"@,
        ),
    }
}

/// What the monitor says of the protocol.
pub fn protocol_summary(state: PowerProtocolState, language: Language) -> (text: String)
    ensures
        text@ == summary_text(state, language),
{
    match state {
        PowerProtocolState::Confirmed(contract) => contract.localized_summary(language),
        PowerProtocolState::Negotiating(contract) => contract.localized_summary(language),
        PowerProtocolState::PdDetected => language.pick(
            "检测到 USB PD · 等待合同",
            "USB PD detected · Waiting for contract",
        ).to_owned(),
        PowerProtocolState::TraditionalUnconfirmed => language.pick(
            "协议未确认 · 不推测 QC / VOOC / UFCS",
            "Protocol unconfirmed · QC / VOOC / UFCS not inferred",
        ).to_owned(),
        PowerProtocolState::Waiting => language.pick(
            "等待 Type-C / PD 协商",
            "Waiting for Type-C / PD negotiation",
        ).to_owned(),
        PowerProtocolState::Disconnected => language.pick(
            "未检测到受测设备",
            "No device detected on the test port",
        ).to_owned(),
        PowerProtocolState::Unavailable => language.pick(
            "离线文件未保存 PD 合同",
            "The offline file does not contain a PD contract",
        ).to_owned(),
    }
}

/// What the protocol page says of the protocol.
pub open spec fn detail_text(state: PowerProtocolState, language: Language) -> Seq<char> {
    match state {
        PowerProtocolState::Confirmed(contract) => contract.summary_text(
            contract.kind.localized_name(language),
        ),
        PowerProtocolState::Negotiating(contract) => contract.summary_text(
            contract.kind.localized_name(language),
        ),
        PowerProtocolState::PdDetected => language.chosen(
            "已收到 Source Capabilities，但合同尚未完成"@,
            "Source Capabilities received, but the power contract is not complete"@,
        ),
        PowerProtocolState::TraditionalUnconfirmed => language.chosen(
            "未捕获完整 PD 协商；不根据电压猜测 QC、VOOC 或 UFCS"@,
            "A complete PD negotiation was not captured; QC, VOOC, and UFCS are not inferred from voltage"@,
        ),
        PowerProtocolState::Waiting => language.chosen(
            "等待 Source Capabilities / Request"@,
            "Waiting for Source Capabilities / Request"@,
        ),
        PowerProtocolState::Disconnected => language.chosen(
            "请在 KM003C 受测端接入设备"@,
            "Connect a device to the KM003C test port"@,
        ),
        PowerProtocolState::Unavailable => language.chosen(
            "当前离线数据不包含类型化 PD 合同"@,
            "The current offline data does not include a typed PD contract"@,
        ),
    }
}

/// What the protocol page says of the protocol.
pub fn protocol_detail(state: PowerProtocolState, language: Language) -> (text: String)
    ensures
        text@ == detail_text(state, language),
{
    match state {
        PowerProtocolState::Confirmed(contract) => contract.localized_summary(language),
        PowerProtocolState::Negotiating(contract) => contract.localized_summary(language),
        PowerProtocolState::PdDetected => language.pick(
            "已收到 Source Capabilities，但合同尚未完成",
            "Source Capabilities received, but the power contract is not complete",
        ).to_owned(),
        PowerProtocolState::TraditionalUnconfirmed => language.pick(
            "未捕获完整 PD 协商；不根据电压猜测 QC、VOOC 或 UFCS",
            "A complete PD negotiation was not captured; QC, VOOC, and UFCS are not inferred from voltage",
        ).to_owned(),
        PowerProtocolState::Waiting => language.pick(
            "等待 Source Capabilities / Request",
            "Waiting for Source Capabilities / Request",
        ).to_owned(),
        PowerProtocolState::Disconnected => language.pick(
            "请在 KM003C 受测端接入设备",
            "Connect a device to the KM003C test port",
        ).to_owned(),
        PowerProtocolState::Unavailable => language.pick(
            "当前离线数据不包含类型化 PD 合同",
            "The current offline data does not include a typed PD contract",
        ).to_owned(),
    }
}

/// The colour of the protocol card.
pub fn protocol_color(state: PowerProtocolState) -> (color: Color)
    ensures
        color == (match state {
            PowerProtocolState::Confirmed(_) => CURRENT,
            PowerProtocolState::PdDetected => POWER,
            PowerProtocolState::Negotiating(_) => POWER,
            PowerProtocolState::Waiting => POWER,
            PowerProtocolState::Disconnected => TEXT_MUTED,
            PowerProtocolState::Unavailable => TEXT_MUTED,
            PowerProtocolState::TraditionalUnconfirmed => TEXT_MUTED,
        }),
{
    match state {
        PowerProtocolState::Confirmed(_) => CURRENT,
        PowerProtocolState::PdDetected => POWER,
        PowerProtocolState::Negotiating(_) => POWER,
        PowerProtocolState::Waiting => POWER,
        PowerProtocolState::Disconnected => TEXT_MUTED,
        PowerProtocolState::Unavailable => TEXT_MUTED,
        PowerProtocolState::TraditionalUnconfirmed => TEXT_MUTED,
    }
}

/// The colour of a protocol entry.
pub fn category_color(category: PdCategory) -> (color: Color)
    ensures
        color == (match category {
            PdCategory::Connect => CURRENT,
            PdCategory::Disconnect => RECORDING,
            PdCategory::Error => RECORDING,
            PdCategory::SourceCaps => VOLTAGE,
            PdCategory::Request => POWER,
            PdCategory::Contract => CURRENT,
            PdCategory::Control => TEXT_MUTED,
            PdCategory::Extended => EXTENDED,
        }),
{
    match category {
        PdCategory::Connect => CURRENT,
        PdCategory::Disconnect => RECORDING,
        PdCategory::Error => RECORDING,
        PdCategory::SourceCaps => VOLTAGE,
        PdCategory::Request => POWER,
        PdCategory::Contract => CURRENT,
        PdCategory::Control => TEXT_MUTED,
        PdCategory::Extended => EXTENDED,
    }
}

/// The colour of a trace entry.
pub fn trace_color(category: PdTraceCategory) -> (color: Color)
    ensures
        color == (match category {
            PdTraceCategory::TypeCState => VOLTAGE,
            PdTraceCategory::ProtocolEvent => CURRENT,
            PdTraceCategory::Unknown => POWER,
        }),
{
    match category {
        PdTraceCategory::TypeCState => VOLTAGE,
        PdTraceCategory::ProtocolEvent => CURRENT,
        PdTraceCategory::Unknown => POWER,
    }
}

/// What is said of the connection that the device senses, and its colour.
pub fn sensed_label(sensed: Option<bool>, language: Language) -> (label: (Color, &'static str))
    ensures
        label.0 == (match sensed {
            Some(true) => CURRENT,
            Some(false) => RECORDING,
            None => POWER,
        }),
        label.1@ == (match sensed {
            Some(true) => language.chosen("已连接"@, "Connected"@),
            Some(false) => language.chosen("未连接"@, "Disconnected"@),
            None => language.chosen("检测中"@, "Detecting"@),
        }),
{
    match sensed {
        Some(true) => (CURRENT, language.pick("已连接", "Connected")),
        Some(false) => (RECORDING, language.pick("未连接", "Disconnected")),
        None => (POWER, language.pick("检测中", "Detecting")),
    }
}

/// A contract is shown only for live data, and only where the negotiation was
/// seen, or demonstration data stand for it.
pub proof fn law_contracts_are_shown_only_live(
    panel: PdPanelView,
    source: PlotSource,
    demo: bool,
    device: bool,
    sensed: Option<bool>,
)
    ensures
        ({
            let shown = panel.shown_state(source, demo, device, sensed);
            &&& shown.shown_contract() is Some ==> source == PlotSource::Live
            &&& shown.shown_contract() is Some && !demo ==> device && shown == panel.session.state
        }),
{
}

/// It does not matter in how many goes events arrive: the page is the same, and
/// so is its log.
pub proof fn law_events_may_arrive_in_batches(
    panel: PdPanelView,
    first: Seq<PdEvent>,
    second: Seq<PdEvent>,
)
    ensures
        panel.after_events(first).after_events(second) == panel.after_events(first + second),
{
    lemma_logged_in_two(panel.session, first, second);
    let all = panel.log + logged(panel.session, first);
    let more = logged(panel.session.after_all(first), second);
    let limit = PROTOCOL_ENTRIES as int;
    assert(newest_entries(newest_entries(all, limit) + more, limit) =~= newest_entries(
        all + more,
        limit,
    ));
    assert(all + more =~= panel.log + logged(panel.session, first + second));
}

/// The entries of two batches follow one another.
proof fn lemma_logged_in_two(session: PdSession, first: Seq<PdEvent>, second: Seq<PdEvent>)
    ensures
        session.after_all(first + second) == session.after_all(first).after_all(second),
        logged(session, first + second) == logged(session, first) + logged(
            session.after_all(first),
            second,
        ),
    decreases second.len(),
{
    if second.len() == 0 {
        assert(first + second =~= first);
        assert(logged(session, first) + logged(session.after_all(first), second) =~= logged(
            session,
            first,
        ));
    } else {
        assert((first + second).drop_last() =~= first + second.drop_last());
        lemma_logged_in_two(session, first, second.drop_last());
        assert(logged(session, first + second) =~= logged(session, first) + logged(
            session.after_all(first),
            second,
        ));
    }
}

/// No event goes by without an entry at the end of the log, and the log never
/// holds more than a thousand.
pub proof fn law_every_event_is_logged(panel: PdPanelView, events: Seq<PdEvent>, event: PdEvent)
    ensures
        ({
            let before = panel.after_events(events);
            let after = panel.after_events(events.push(event));
            let entries = log_entries(before.session, event);
            &&& after.session == before.session.after(event)
            &&& after.log.len() <= 1_000
            &&& entries.len() >= 1
            &&& entries.len() <= 2
            &&& forall|i: int|
                0 <= i < entries.len() ==> after.log[after.log.len() - entries.len() + i]
                    == #[trigger] entries[i]
            &&& before.log.len() + entries.len() <= 1_000 ==> after.log == before.log + entries
        }),
{
    let one = seq![event];
    assert(events.push(event) =~= events + one);
    law_events_may_arrive_in_batches(panel, events, one);
    let before = panel.after_events(events);
    assert(one.drop_last() =~= Seq::<PdEvent>::empty());
    assert(one.last() == event);
    assert(before.session.after_all(one.drop_last()) == before.session);
    assert(logged(before.session, one.drop_last()) =~= Seq::<PdEntryText>::empty());
    assert(logged(before.session, one) =~= log_entries(before.session, event));
    assert(before.session.after_all(one) == before.session.after(event));
}

/// What is shown of the protocol goes by what is looked at: nothing for a
/// recording, the demonstration for demonstration data, nothing connected where
/// there is no device, and the negotiation otherwise.
pub proof fn law_the_shown_protocol_belongs_to_what_is_looked_at(
    panel: PdPanelView,
    source: PlotSource,
    demo: bool,
    device: bool,
    sensed: Option<bool>,
)
    ensures
        ({
            let shown = panel.shown_state(source, demo, device, sensed);
            &&& source != PlotSource::Live ==> shown == PowerProtocolState::Unavailable
            &&& source == PlotSource::Live && demo ==> shown is Confirmed
            &&& source == PlotSource::Live && !demo && !device ==> shown
                == PowerProtocolState::Disconnected
            &&& source == PlotSource::Live && !demo && device && panel.session.state is Confirmed
                ==> shown == panel.session.state
        }),
{
}

} // verus!
