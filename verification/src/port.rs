//! The test port: the last status that the device reported of it, and what is
//! told to the tracker that decides whether something is attached.
use vstd::prelude::*;

use crate::pd_decoder::PdEvent;

verus! {

/// What the device reports of its port.
#[derive(Debug, Clone, Copy, PartialEq, Eq, Structural)]
pub struct PortStatus {
    pub timestamp_ms: u64,
    pub vbus_uv: i64,
    pub ibus_ua: i64,
    /// The voltages of the configuration channels.
    pub cc1_uv: i64,
    pub cc2_uv: i64,
}

/// What the tracker of the connection is told.
#[derive(Debug, Clone, Copy, PartialEq, Eq, Structural)]
pub enum PortNotice {
    /// Everything before belongs to another device.
    Forget,
    /// Something was attached, or removed.
    Event { connected: bool, now_us: u64 },
    /// The device reported its port.
    Status { status: PortStatus, now_us: u64 },
    /// A frame ended.
    Tick { now_us: u64 },
}

/// What the tracker is told of `event`.
pub open spec fn notice_of(event: PdEvent, now_us: u64) -> Option<PortNotice> {
    match event {
        PdEvent::Connect { .. } => Some(PortNotice::Event { connected: true, now_us }),
        PdEvent::Disconnect { .. } => Some(PortNotice::Event { connected: false, now_us }),
        _ => None,
    }
}

/// What the tracker is told of `events`, in their order.
pub open spec fn notices_of(events: Seq<PdEvent>, now_us: u64) -> Seq<PortNotice>
    decreases events.len(),
{
    if events.len() == 0 {
        Seq::empty()
    } else {
        let before = notices_of(events.drop_last(), now_us);
        match notice_of(events.last(), now_us) {
            Some(notice) => before.push(notice),
            None => before,
        }
    }
}

/// What is known of the port.
#[verifier::ext_equal]
pub ghost struct PortView {
    pub status: Option<PortStatus>,
    /// What the tracker was not told yet.
    pub notices: Seq<PortNotice>,
}

impl PortView {
    /// Nothing was reported.
    pub open spec fn fresh() -> PortView {
        PortView { status: None, notices: Seq::empty() }
    }

    /// The tracker is to be told `notice`.
    pub open spec fn tells(self, notice: PortNotice) -> PortView {
        PortView { notices: self.notices.push(notice), ..self }
    }

    /// The device reported its port.
    pub open spec fn reported(self, status: PortStatus, now_us: u64) -> PortView {
        PortView { status: Some(status), ..self.tells(PortNotice::Status { status, now_us }) }
    }

    /// The port after `events`.
    pub open spec fn after_events(self, events: Seq<PdEvent>, now_us: u64) -> PortView {
        PortView { notices: self.notices + notices_of(events, now_us), ..self }
    }

    /// The device is gone.
    pub open spec fn gone(self) -> PortView {
        PortView { status: None, ..self.tells(PortNotice::Forget) }
    }
}

/// What is known of the port.
#[derive(Debug)]
pub struct PortWatch {
    pub status: Option<PortStatus>,
    pub notices: Vec<PortNotice>,
}

impl View for PortWatch {
    type V = PortView;

    open spec fn view(&self) -> PortView {
        PortView { status: self.status, notices: self.notices@ }
    }
}

impl PortWatch {
    /// Nothing was reported.
    pub fn new() -> (port: PortWatch)
        ensures
            port@ == PortView::fresh(),
    {
        PortWatch { status: None, notices: Vec::new() }
    }

    /// Notes what the tracker is to be told.
    pub fn tell(&mut self, notice: PortNotice)
        ensures
            final(self)@ == old(self)@.tells(notice),
    {
        self.notices.push(notice);
    }

    /// The device reported its port.
    pub fn report(&mut self, status: PortStatus, now_us: u64)
        ensures
            final(self)@ == old(self)@.reported(status, now_us),
    {
        self.status = Some(status);
        self.notices.push(PortNotice::Status { status, now_us });
    }

    /// Notes what `events` say of the connection.
    pub fn receive_events(&mut self, events: &Vec<PdEvent>, now_us: u64)
        ensures
            final(self)@ == old(self)@.after_events(events@, now_us),
    {
        let ghost before = self@;
        let mut index: usize = 0;
        assert(events@.take(0) =~= Seq::<PdEvent>::empty());
        assert(before.notices + notices_of(events@.take(0), now_us) =~= before.notices);
        while index < events.len()
            invariant
                index <= events@.len(),
                self@ == before.after_events(events@.take(index as int), now_us),
            decreases events.len() - index,
        {
            proof {
                assert(events@.take(index + 1).drop_last() =~= events@.take(index as int));
            }
            match &events[index] {
                PdEvent::Connect { .. } => {
                    self.notices.push(PortNotice::Event { connected: true, now_us });
                },
                PdEvent::Disconnect { .. } => {
                    self.notices.push(PortNotice::Event { connected: false, now_us });
                },
                _ => {},
            }
            assert(self@ =~= before.after_events(events@.take(index + 1), now_us));
            index += 1;
        }
        assert(events@.take(index as int) =~= events@);
    }

    /// The device is gone.
    pub fn leave(&mut self)
        ensures
            final(self)@ == old(self)@.gone(),
    {
        self.status = None;
        self.notices.push(PortNotice::Forget);
    }

    /// Hands over what the tracker is to be told.
    pub fn take_notices(&mut self) -> (notices: Vec<PortNotice>)
        ensures
            notices@ == old(self)@.notices,
            final(self)@ == (PortView { notices: Seq::empty(), ..old(self)@ }),
    {
        let mut notices: Vec<PortNotice> = Vec::new();
        std::mem::swap(&mut notices, &mut self.notices);
        notices
    }
}

/// The tracker misses nothing: it is told of every attachment and removal among
/// two lists of events in the order in which they came, whether they come as
/// one list or as two.
pub proof fn law_notices_follow_the_events(
    port: PortView,
    first: Seq<PdEvent>,
    second: Seq<PdEvent>,
    now_us: u64,
)
    ensures
        port.after_events(first, now_us).after_events(second, now_us) == port.after_events(
            first + second,
            now_us,
        ),
    decreases second.len(),
{
    if second.len() == 0 {
        assert(first + second =~= first);
        assert(port.after_events(first, now_us).after_events(second, now_us) =~= port.after_events(
            first + second,
            now_us,
        ));
    } else {
        law_notices_follow_the_events(port, first, second.drop_last(), now_us);
        assert((first + second).drop_last() =~= first + second.drop_last());
        assert((first + second).last() == second.last());
        assert(notices_of(first, now_us) + notices_of(second.drop_last(), now_us) =~= notices_of(
            first + second.drop_last(),
            now_us,
        )) by {
            let one = port.after_events(first, now_us).after_events(
                second.drop_last(),
                now_us,
            ).notices;
            let all = port.after_events(first + second.drop_last(), now_us).notices;
            let kept = port.notices.len();
            assert(one.skip(kept as int) =~= notices_of(first, now_us) + notices_of(
                second.drop_last(),
                now_us,
            ));
            assert(all.skip(kept as int) =~= notices_of(first + second.drop_last(), now_us));
        }
        assert(port.after_events(first, now_us).after_events(second, now_us) =~= port.after_events(
            first + second,
            now_us,
        ));
    }
}

} // verus!
