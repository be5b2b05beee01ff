//! The connection to the device, as the interface sees it.
use vstd::prelude::*;
use vstd::string::*;

use crate::connection::ConnectionPhase;
use crate::i18n::{connection_error, error_message, error_phase, Language};
use crate::measurement::GraphSampleRate;
use crate::options::SampleRateOption;
use crate::recording::{in_counter, DeviceFacts, RecordingMetadata};
use crate::session_text::{said, say};
use crate::streaming::UsbCommand;

verus! {

/// How long to wait before a missing device is looked for again.
pub const RETRY_US: u64 = 3_000_000;

/// What is known of a device that may be missing.
pub open spec fn device_facts(device: Option<RecordingMetadata>) -> Option<DeviceFacts> {
    match device {
        Some(device) => Some(device@),
        None => None,
    }
}

/// The connection to the device.
#[verifier::ext_equal]
pub ghost struct LinkView {
    pub phase: ConnectionPhase,
    pub status: Seq<char>,
    /// When a missing device is looked for again.
    pub next_retry_us: u64,
    /// The error as the device gave it.
    pub last_error: Option<Seq<char>>,
    /// Whether the user asked to disconnect.
    pub disconnect_requested: bool,
    /// Whether demonstration data stand for a device.
    pub demo: bool,
    pub streaming: bool,
    pub current_rate: SampleRateOption,
    pub selected_rate: SampleRateOption,
    pub usb_reset: bool,
    pub device: Option<DeviceFacts>,
}

impl LinkView {
    /// The serial number of the device that is there.
    pub open spec fn serial(self) -> Option<Seq<char>> {
        match self.device {
            Some(device) => Some(device.serial),
            None => None,
        }
    }

    /// Nothing was asked of a device yet.
    pub open spec fn fresh(demo: bool, now: u64) -> LinkView {
        LinkView {
            phase: if demo {
                ConnectionPhase::Streaming
            } else {
                ConnectionPhase::Searching
            },
            status: if demo {
                "演示数据"@
            } else {
                "搜索设备"@
            },
            next_retry_us: now,
            last_error: None,
            disconnect_requested: false,
            demo,
            streaming: false,
            current_rate: SampleRateOption::Sps50,
            selected_rate: SampleRateOption::Sps50,
            usb_reset: false,
            device: None,
        }
    }

    /// The link, showing `status` in `phase`.
    pub open spec fn enters(self, phase: ConnectionPhase, status: Seq<char>) -> LinkView {
        LinkView { phase, status, ..self }
    }

    /// Whether a connection may be asked for.
    pub open spec fn may_connect(self) -> bool {
        !self.demo && !self.streaming && self.phase != ConnectionPhase::Connecting
    }

    /// A connection was asked for.
    pub open spec fn connecting(self, now: u64) -> LinkView {
        if self.may_connect() {
            LinkView {
                disconnect_requested: false,
                next_retry_us: in_counter(now + RETRY_US),
                ..self.enters(ConnectionPhase::Connecting, ConnectionPhase::Connecting.caption())
            }
        } else {
            self
        }
    }

    /// The command that asks for the connection.
    pub open spec fn connect_command(self) -> UsbCommand {
        UsbCommand::Connect(self.selected_rate.rate(), self.usb_reset)
    }

    /// Whether the device is looked for again at `now`.
    pub open spec fn retries(self, now: u64) -> bool {
        !self.demo && self.phase == ConnectionPhase::NoDevice && now >= self.next_retry_us
    }

    /// Whether `serial` is the device that a session waits for.
    pub open spec fn is_awaited(expected: Seq<char>, serial: Seq<char>) -> bool {
        expected.len() == 0 || expected == serial
    }

    /// A device was connected, while a session waits for its own or does not.
    pub open spec fn connected(
        self,
        device: DeviceFacts,
        awaited: Option<Seq<char>>,
        language: Language,
    ) -> LinkView {
        let status = match awaited {
            Some(expected) => if LinkView::is_awaited(expected, device.serial) {
                language.chosen(
                    "已找到原设备 · 正在恢复采样"@,
                    "Original device found · Restoring sampling"@,
                )
            } else {
                said(
                    language.chosen(
                        "已连接另一台 KM003C，录制仍等待原序列号"@,
                        "A different KM003C is connected; the recording is still waiting for the original serial number"@,
                    ),
                    "："@,
                    expected,
                )
            },
            None => said("已连接 · "@, ""@, device.model),
        };
        LinkView {
            disconnect_requested: false,
            last_error: None,
            device: Some(device),
            ..self.enters(ConnectionPhase::Streaming, status)
        }
    }

    /// The connection failed.
    pub open spec fn failed_to_connect(
        self,
        error: Seq<char>,
        language: Language,
        now: u64,
    ) -> LinkView {
        LinkView {
            last_error: Some(error),
            next_retry_us: if error_phase(error) == ConnectionPhase::NoDevice {
                in_counter(now + RETRY_US)
            } else {
                self.next_retry_us
            },
            ..self.enters(error_phase(error), error_message(language, error))
        }
    }

    /// The device streams at `rate`.
    pub open spec fn started(self, rate: SampleRateOption) -> LinkView {
        LinkView {
            streaming: true,
            current_rate: rate,
            selected_rate: rate,
            ..self.enters(
                ConnectionPhase::Streaming,
                said("设备采样中 · "@, ""@, rate.caption()),
            )
        }
    }

    /// The device stopped streaming.
    pub open spec fn stopped(self) -> LinkView {
        LinkView {
            streaming: false,
            ..self.enters(
                if self.device is Some {
                    ConnectionPhase::Disconnected
                } else {
                    self.phase
                },
                "采集已停止"@,
            )
        }
    }

    /// The device reported an error.
    pub open spec fn broken(self, error: Seq<char>) -> LinkView {
        LinkView {
            last_error: Some(error),
            ..self.enters(
                ConnectionPhase::ConnectionError,
                said("连接错误："@, ""@, error),
            )
        }
    }

    /// The device is gone.
    pub open spec fn gone(self, now: u64) -> LinkView {
        LinkView {
            streaming: false,
            device: None,
            next_retry_us: if self.disconnect_requested {
                self.next_retry_us
            } else {
                in_counter(now + RETRY_US)
            },
            ..if self.disconnect_requested {
                self.enters(ConnectionPhase::Disconnected, "已断开"@)
            } else {
                self.enters(ConnectionPhase::NoDevice, "已断开 · 等待重新插入"@)
            }
        }
    }

    /// Demonstration data stand for `device`.
    pub open spec fn demonstrating(self, device: DeviceFacts) -> LinkView {
        LinkView {
            device: Some(device),
            streaming: true,
            ..self.enters(ConnectionPhase::Streaming, "演示数据 · 实时采集模拟中"@)
        }
    }
}

/// The connection to the device.
#[derive(Debug)]
pub struct DeviceLink {
    pub phase: ConnectionPhase,
    pub status: String,
    pub next_retry_us: u64,
    pub last_error: Option<String>,
    pub disconnect_requested: bool,
    pub demo: bool,
    pub streaming: bool,
    pub current_rate: SampleRateOption,
    pub selected_rate: SampleRateOption,
    pub usb_reset: bool,
    pub device: Option<RecordingMetadata>,
}

impl View for DeviceLink {
    type V = LinkView;

    open spec fn view(&self) -> LinkView {
        LinkView {
            phase: self.phase,
            status: self.status@,
            next_retry_us: self.next_retry_us,
            last_error: match self.last_error {
                Some(error) => Some(error@),
                None => None,
            },
            disconnect_requested: self.disconnect_requested,
            demo: self.demo,
            streaming: self.streaming,
            current_rate: self.current_rate,
            selected_rate: self.selected_rate,
            usb_reset: self.usb_reset,
            device: device_facts(self.device),
        }
    }
}

impl DeviceLink {
    /// Nothing was asked of a device yet.
    pub fn new(demo: bool, now_us: u64) -> (link: DeviceLink)
        ensures
            link@ == LinkView::fresh(demo, now_us),
    {
        DeviceLink {
            phase: if demo {
                ConnectionPhase::Streaming
            } else {
                ConnectionPhase::Searching
            },
            status: if demo {
                "演示数据".to_owned()
            } else {
                "搜索设备".to_owned()
            },
            next_retry_us: now_us,
            last_error: None,
            disconnect_requested: false,
            demo,
            streaming: false,
            current_rate: SampleRateOption::Sps50,
            selected_rate: SampleRateOption::Sps50,
            usb_reset: false,
            device: None,
        }
    }

    /// Asks for a connection, where one may be asked for.
    pub fn request_connect(&mut self, now_us: u64) -> (command: Option<UsbCommand>)
        ensures
            final(self)@ == old(self)@.connecting(now_us),
            command == (if old(self)@.may_connect() {
                Some(old(self)@.connect_command())
            } else {
                None
            }),
    {
        if self.demo || self.streaming || self.phase == ConnectionPhase::Connecting {
            return None;
        }
        self.phase = ConnectionPhase::Connecting;
        self.disconnect_requested = false;
        self.status = ConnectionPhase::Connecting.label().to_owned();
        self.next_retry_us = now_us.saturating_add(RETRY_US);
        Some(UsbCommand::Connect(self.selected_rate.to_graph_rate(), self.usb_reset))
    }

    /// The task that talks to the device took no command.
    pub fn command_lost(&mut self)
        ensures
            final(self)@ == old(self)@.enters(
                ConnectionPhase::ConnectionError,
                "USB 任务不可用"@,
            ),
    {
        self.phase = ConnectionPhase::ConnectionError;
        self.status = "USB 任务不可用".to_owned();
    }

    /// Looks for a missing device again, once it is time.
    pub fn maybe_retry_connection(&mut self, now_us: u64) -> (command: Option<UsbCommand>)
        ensures
            final(self)@ == (if old(self)@.retries(now_us) {
                old(self)@.connecting(now_us)
            } else {
                old(self)@
            }),
            command == (if old(self)@.retries(now_us) && old(self)@.may_connect() {
                Some(old(self)@.connect_command())
            } else {
                None
            }),
    {
        if !self.demo && self.phase == ConnectionPhase::NoDevice && now_us >= self.next_retry_us {
            self.request_connect(now_us)
        } else {
            None
        }
    }

    /// Notes that the user wants to disconnect.
    pub fn request_disconnect(&mut self) -> (command: UsbCommand)
        ensures
            final(self)@ == (LinkView { disconnect_requested: true, ..old(self)@ }),
            command == UsbCommand::Disconnect,
    {
        self.disconnect_requested = true;
        UsbCommand::Disconnect
    }

    /// Notes the rate that the user picked; the device is told where it is
    /// there and nothing is being written.
    pub fn select_rate(&mut self, rate: SampleRateOption, writing: bool) -> (command: Option<
        UsbCommand,
    >)
        ensures
            final(self)@ == (LinkView { selected_rate: rate, ..old(self)@ }),
            command == (if rate != old(self)@.selected_rate && old(self)@.device is Some && !writing {
                Some(UsbCommand::SetSampleRate(rate.rate()))
            } else {
                None
            }),
    {
        let changed: bool = rate != self.selected_rate;
        self.selected_rate = rate;
        if changed && self.device.is_some() && !writing {
            Some(UsbCommand::SetSampleRate(rate.to_graph_rate()))
        } else {
            None
        }
    }

    /// A device was connected; where a session waits for its own, `awaited` is
    /// the serial number of that. Returns whether this is the one.
    pub fn connected(
        &mut self,
        device: RecordingMetadata,
        awaited: Option<&str>,
        language: Language,
    ) -> (found: bool)
        ensures
            final(self)@ == old(self)@.connected(
                device@,
                match awaited {
                    Some(expected) => Some(expected@),
                    None => None,
                },
                language,
            ),
            found == (awaited matches Some(expected) && LinkView::is_awaited(
                expected@,
                device@.serial,
            )),
    {
        let mut found: bool = false;
        self.status = match awaited {
            Some(expected) => {
                found = expected.unicode_len() == 0 || crate::text::same_text(
                    &crate::text::characters(expected),
                    device.serial.as_str(),
                );
                if found {
                    language.pick(
                        "已找到原设备 · 正在恢复采样",
                        "Original device found · Restoring sampling",
                    ).to_owned()
                } else {
                    say(
                        language.pick(
                            "已连接另一台 KM003C，录制仍等待原序列号",
                            "A different KM003C is connected; the recording is still waiting for the original serial number",
                        ),
                        "：",
                        expected,
                    )
                }
            },
            None => say("已连接 · ", "", device.model.as_str()),
        };
        self.phase = ConnectionPhase::Streaming;
        self.disconnect_requested = false;
        self.last_error = None;
        self.device = Some(device);
        found
    }

    /// The connection failed.
    pub fn connection_failed(&mut self, error: String, language: Language, now_us: u64)
        ensures
            final(self)@ == old(self)@.failed_to_connect(error@, language, now_us),
    {
        let (phase, message) = connection_error(language, error.as_str());
        self.phase = phase;
        self.status = message;
        self.last_error = Some(error);
        if phase == ConnectionPhase::NoDevice {
            self.next_retry_us = now_us.saturating_add(RETRY_US);
        }
    }

    /// The device streams at `rate`.
    pub fn streaming_started(&mut self, rate: GraphSampleRate)
        ensures
            final(self)@.current_rate.rate() == rate,
            final(self)@ == old(self)@.started(final(self)@.current_rate),
    {
        self.streaming = true;
        self.phase = ConnectionPhase::Streaming;
        self.current_rate = SampleRateOption::from_graph_rate(rate);
        self.selected_rate = self.current_rate;
        self.status = say("设备采样中 · ", "", self.current_rate.label());
    }

    /// The device stopped streaming.
    pub fn streaming_stopped(&mut self)
        ensures
            final(self)@ == old(self)@.stopped(),
    {
        self.streaming = false;
        if self.device.is_some() {
            self.phase = ConnectionPhase::Disconnected;
        }
        self.status = "采集已停止".to_owned();
    }

    /// The device reported an error.
    pub fn error(&mut self, error: String)
        ensures
            final(self)@ == old(self)@.broken(error@),
    {
        self.phase = ConnectionPhase::ConnectionError;
        self.status = say("连接错误：", "", error.as_str());
        self.last_error = Some(error);
    }

    /// The device is gone.
    pub fn disconnected(&mut self, now_us: u64)
        ensures
            final(self)@ == old(self)@.gone(now_us),
    {
        if self.disconnect_requested {
            self.status = "已断开".to_owned();
            self.phase = ConnectionPhase::Disconnected;
        } else {
            self.status = "已断开 · 等待重新插入".to_owned();
            self.next_retry_us = now_us.saturating_add(RETRY_US);
            self.phase = ConnectionPhase::NoDevice;
        }
        self.streaming = false;
        self.device = None;
    }

    /// Lets demonstration data stand for `device`.
    pub fn enable_demo_device(&mut self, device: RecordingMetadata)
        ensures
            final(self)@ == old(self)@.demonstrating(device@),
    {
        self.device = Some(device);
        self.streaming = true;
        self.phase = ConnectionPhase::Streaming;
        self.status = "演示数据 · 实时采集模拟中".to_owned();
    }
}

/// A failed connection is tried again by itself exactly where the device was
/// not found: three seconds later, and not before. A device that is in use, or
/// that answers wrongly, waits for the user.
pub proof fn law_only_a_missing_device_is_looked_for(
    link: LinkView,
    error: Seq<char>,
    language: Language,
    now: u64,
    later: u64,
)
    requires
        !link.demo,
    ensures
        link.failed_to_connect(error, language, now).retries(later) <==> (error_phase(error)
            == ConnectionPhase::NoDevice && later >= in_counter(now + RETRY_US)),
{
}

/// A cable that was pulled is looked for again; a device that the user
/// disconnected is left alone.
pub proof fn law_a_requested_disconnection_is_final(link: LinkView, now: u64, later: u64)
    requires
        !link.demo,
    ensures
        link.gone(now).retries(later) <==> (!link.disconnect_requested && later >= in_counter(
            now + RETRY_US,
        )),
        !link.gone(now).streaming,
        link.gone(now).device is None,
{
}

/// Demonstration data never reach for a device.
pub proof fn law_demonstrations_do_not_connect(link: LinkView, now: u64)
    requires
        link.demo,
    ensures
        !link.may_connect(),
        !link.retries(now),
        link.connecting(now) == link,
{
}

/// A connection is asked for once: until the device answers, neither the user
/// nor the passing of time asks for another, and an earlier wish to disconnect
/// is forgotten.
pub proof fn law_a_connection_is_asked_for_once(link: LinkView, now: u64, later: u64)
    requires
        !link.demo,
        !link.streaming,
        link.phase != ConnectionPhase::Connecting,
    ensures
        ({
            let after = link.connecting(now);
            &&& link.may_connect()
            &&& after.phase == ConnectionPhase::Connecting
            &&& !after.disconnect_requested
            &&& !after.may_connect()
            &&& !after.retries(later)
            &&& after.connecting(later) == after
            &&& after.device == link.device
            &&& after.selected_rate == link.selected_rate
            &&& after.connect_command() == link.connect_command()
        }),
        link.streaming || link.phase == ConnectionPhase::Connecting ==> !link.may_connect(),
        link.connect_command() == UsbCommand::Connect(link.selected_rate.rate(), link.usb_reset),
{
}

/// A device that was pulled is looked for three seconds later and not before;
/// one that the user disconnected is never looked for by itself.
pub proof fn law_a_lost_device_is_looked_for_after_three_seconds(
    link: LinkView,
    now: u64,
    later: u64,
)
    requires
        !link.demo,
        now + 3_000_000 <= u64::MAX,
    ensures
        !link.disconnect_requested ==> {
            &&& link.gone(now).phase == ConnectionPhase::NoDevice
            &&& link.gone(now).retries(later) <==> later >= now + 3_000_000
        },
        link.disconnect_requested ==> {
            &&& link.gone(now).phase == ConnectionPhase::Disconnected
            &&& !link.gone(now).retries(later)
        },
        link.gone(now).may_connect(),
        link.gone(now).selected_rate == link.selected_rate,
{
}

/// A device that was not found is looked for again three seconds later; after
/// another error nothing is tried until the user asks, and the error is kept
/// as the device gave it.
pub proof fn law_a_failed_connection_keeps_its_error(
    link: LinkView,
    error: Seq<char>,
    language: Language,
    now: u64,
)
    requires
        now + 3_000_000 <= u64::MAX,
    ensures
        ({
            let after = link.failed_to_connect(error, language, now);
            &&& after.last_error == Some(error)
            &&& after.phase == ConnectionPhase::NoDevice ==> after.next_retry_us == now + 3_000_000
            &&& after.phase != ConnectionPhase::NoDevice ==> after.next_retry_us
                == link.next_retry_us
            &&& after.device == link.device
        }),
{
}

/// A session that waits for its device goes on with that one and with no
/// other: where it knows the serial number, only the same number will do.
pub proof fn law_only_the_awaited_device_is_recognised(expected: Seq<char>, serial: Seq<char>)
    ensures
        expected.len() > 0 ==> (LinkView::is_awaited(expected, serial) <==> serial == expected),
        expected.len() == 0 ==> LinkView::is_awaited(expected, serial),
{
}

/// A device that is connected is there, its errors are forgotten, and a wish to
/// disconnect as well; once it streams, the rate that it streams at is the one
/// that is shown as chosen, until it stops.
pub proof fn law_a_connected_device_streams_at_its_rate(
    link: LinkView,
    device: DeviceFacts,
    awaited: Option<Seq<char>>,
    language: Language,
    rate: SampleRateOption,
)
    ensures
        ({
            let there = link.connected(device, awaited, language);
            let streams = there.started(rate);
            let stopped = streams.stopped();
            &&& there.device == Some(device)
            &&& there.serial() == Some(device.serial)
            &&& there.last_error is None
            &&& !there.disconnect_requested
            &&& there.phase == ConnectionPhase::Streaming
            &&& streams.streaming
            &&& streams.current_rate == rate
            &&& streams.selected_rate == rate
            &&& streams.phase == ConnectionPhase::Streaming
            &&& streams.device == Some(device)
            &&& !stopped.streaming
            &&& stopped.phase == ConnectionPhase::Disconnected
            &&& stopped.device == Some(device)
            &&& stopped.current_rate == rate
        }),
{
}

/// An error of the device is told and kept, and does not change what the device
/// does; demonstration data stand for a device that streams.
pub proof fn law_an_error_is_kept(link: LinkView, error: Seq<char>, device: DeviceFacts)
    ensures
        link.broken(error).last_error == Some(error),
        link.broken(error).phase == ConnectionPhase::ConnectionError,
        link.broken(error).streaming == link.streaming,
        link.broken(error).device == link.device,
        link.demonstrating(device).device == Some(device),
        link.demonstrating(device).streaming,
        link.demonstrating(device).phase == ConnectionPhase::Streaming,
{
}

/// At the start nothing is connected; a real device is asked for at once, a
/// demonstration asks for none.
pub proof fn law_a_fresh_link_has_no_device(now: u64, demo: bool)
    ensures
        LinkView::fresh(demo, now).device is None,
        !LinkView::fresh(demo, now).streaming,
        LinkView::fresh(demo, now).last_error is None,
        LinkView::fresh(demo, now).may_connect() <==> !demo,
        !LinkView::fresh(demo, now).disconnect_requested,
{
}

} // verus!
