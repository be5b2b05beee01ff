//! The connection state shown in the status rail.
use vstd::prelude::*;

verus! {

/// The small, explicit connection state machine shown in the status rail.
///
/// A missing device is `NoDevice`, while busy and protocol failures have their
/// own terminal states. This lets the interface retry only the safe case
/// without hiding actionable USB errors.
#[derive(Debug, Clone, Copy, PartialEq, Eq, Structural)]
pub enum ConnectionPhase {
    Searching,
    Connecting,
    Streaming,
    NoDevice,
    DeviceBusy,
    ConnectionError,
    Disconnected,
}

impl ConnectionPhase {
    /// The Chinese caption of the phase.
    pub open spec fn caption(self) -> Seq<char> {
        match self {
            ConnectionPhase::Searching => "搜索设备"@,
            ConnectionPhase::Connecting => "连接中"@,
            ConnectionPhase::Streaming => "设备采样中"@,
            ConnectionPhase::NoDevice => "未发现设备"@,
            ConnectionPhase::DeviceBusy => "设备被占用"@,
            ConnectionPhase::ConnectionError => "连接错误"@,
            ConnectionPhase::Disconnected => "已断开"@,
        }
    }

    /// The Chinese caption of the phase.
    pub fn label(self) -> (label: &'static str)
        ensures
            label@ == self.caption(),
    {
        match self {
            ConnectionPhase::Searching => "搜索设备",
            ConnectionPhase::Connecting => "连接中",
            ConnectionPhase::Streaming => "设备采样中",
            ConnectionPhase::NoDevice => "未发现设备",
            ConnectionPhase::DeviceBusy => "设备被占用",
            ConnectionPhase::ConnectionError => "连接错误",
            ConnectionPhase::Disconnected => "已断开",
        }
    }

    /// Whether the phase waits for the user instead of retrying.
    pub fn is_terminal_failure(self) -> (terminal: bool)
        ensures
            terminal == (self == ConnectionPhase::DeviceBusy || self
                == ConnectionPhase::ConnectionError),
    {
        matches!(self, ConnectionPhase::DeviceBusy | ConnectionPhase::ConnectionError)
    }
}

} // verus!
