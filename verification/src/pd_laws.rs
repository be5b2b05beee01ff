//! What always holds of the negotiation that the protocol page shows.
use vstd::prelude::*;

use crate::pd_decoder::{
    log_entries, requested_contract, selected_offer, Augmented, BatteryRequest, EprRequest,
    FixedRequest, PdCategory, PdContract, PdContractKind, PdControl, PdEvent, PdMessage, PdPayload,
    PdSession, PowerDataObject, PowerProtocolState, PowerSource, RawRequest, SetpointRequest,
};
use crate::pd_log::{confirmation_entry_text, entry_text};
use crate::pd_quantity::PdQuantity;

verus! {

/// Whether a message offers capabilities or asks for a contract.
pub open spec fn offers_or_asks(message: PdMessage) -> bool {
    ||| message.payload matches Some(PdPayload::SourceCapabilities(_))
    ||| message.payload matches Some(PdPayload::EprSourceCapabilities(_))
    ||| message.payload matches Some(PdPayload::Request(_))
}

/// Whether `event` is the control message `control` between source and sink.
pub open spec fn is_control(event: PdEvent, control: PdControl) -> bool {
    event matches PdEvent::Message(message) && message.sop == 0 && message.control == control
        && !offers_or_asks(message)
}

/// Whether a pending contract outlives `event`, if it does not come into force.
pub open spec fn leaves_pending(event: PdEvent) -> bool {
    match event {
        PdEvent::Connect { .. } | PdEvent::Disconnect { .. } => false,
        PdEvent::Message(message) => message.sop != 0 || is_control(event, PdControl::Accept)
            || is_control(event, PdControl::PsRdy) || is_control(event, PdControl::Other),
        _ => true,
    }
}

/// Whether event `i` asks for `contract` between source and sink.
pub open spec fn asks_for(events: Seq<PdEvent>, i: int, contract: PdContract) -> bool {
    &&& 0 <= i < events.len()
    &&& events[i] matches PdEvent::Message(message)
    &&& message.sop == 0
    &&& message.payload matches Some(PdPayload::Request(request))
    &&& contract == requested_contract(request, message.offered())
}

/// Whether a pending contract outlives every event after `i` and before `end`.
pub open spec fn undisturbed(events: Seq<PdEvent>, i: int, end: int) -> bool {
    forall|m: int| i < m < end ==> leaves_pending(#[trigger] events[m])
}

/// Whether `contract` was asked for at `i`, accepted at `j` and declared ready
/// at `k`, in this order and with nothing between that withdraws it.
pub open spec fn full_chain(
    events: Seq<PdEvent>,
    i: int,
    j: int,
    k: int,
    contract: PdContract,
) -> bool {
    &&& asks_for(events, i, contract)
    &&& i < j < k < events.len()
    &&& is_control(events[j], PdControl::Accept)
    &&& is_control(events[k], PdControl::PsRdy)
    &&& undisturbed(events, i, k)
}

/// Where the request of the pending contract, its acceptance, and the chain of
/// the contract in force stand among `events`.
spec fn explained(events: Seq<PdEvent>) -> bool {
    let session = PdSession::initial().after_all(events);
    let end = events.len() as int;
    &&& session.well_formed()
    &&& session.pending matches Some(contract) ==> exists|i: int| #[trigger]
        asks_for(events, i, contract) && undisturbed(events, i, end)
    &&& session.accepted ==> exists|i: int, j: int|
        #![trigger asks_for(events, i, session.pending->0), events[j]]
        asks_for(events, i, session.pending->0) && i < j < end && is_control(
            events[j],
            PdControl::Accept,
        ) && undisturbed(events, i, end)
    &&& session.active matches Some(contract) ==> exists|i: int, j: int, k: int| #[trigger]
        full_chain(events, i, j, k, contract)
}

/// One more event keeps every earlier finding.
proof fn lemma_findings_stay(events: Seq<PdEvent>, event: PdEvent)
    ensures
        forall|i: int, contract: PdContract|
            #![trigger asks_for(events.push(event), i, contract)]
            #![trigger asks_for(events, i, contract)]
            asks_for(events, i, contract) ==> asks_for(events.push(event), i, contract),
        forall|i: int, j: int, k: int, contract: PdContract|
            #![trigger full_chain(events.push(event), i, j, k, contract)]
            #![trigger full_chain(events, i, j, k, contract)]
            full_chain(events, i, j, k, contract) ==> full_chain(
                events.push(event),
                i,
                j,
                k,
                contract,
            ),
{
}

/// A session that explains `events` explains one more.
proof fn lemma_explained_step(events: Seq<PdEvent>, event: PdEvent)
    requires
        explained(events),
    ensures
        explained(events.push(event)),
{
    let longer = events.push(event);
    let before = PdSession::initial().after_all(events);
    let after = before.after(event);
    let end = events.len() as int;
    assert(longer.drop_last() =~= events);
    assert(PdSession::initial().after_all(longer) == after);
    law_sessions_stay_consistent(before, event);
    lemma_findings_stay(events, event);
    if after.pending is Some {
        let contract = after.pending->0;
        if leaves_pending(event) {
            assert(before.pending == after.pending);
            let i = choose|i: int| #[trigger]
                asks_for(events, i, contract) && undisturbed(events, i, end);
            assert(asks_for(longer, i, contract) && undisturbed(longer, i, end + 1));
            if after.accepted {
                if before.accepted {
                    let (i, j) = choose|i: int, j: int|
                        #![trigger asks_for(events, i, contract), events[j]]
                        asks_for(events, i, contract) && i < j < end && is_control(
                            events[j],
                            PdControl::Accept,
                        ) && undisturbed(events, i, end);
                    assert(asks_for(longer, i, contract) && longer[j] == events[j]);
                } else {
                    assert(is_control(longer[end], PdControl::Accept));
                }
            }
        } else {
            assert(asks_for(longer, end, contract));
            assert(undisturbed(longer, end, end + 1));
        }
    }
    if after.active is Some {
        let contract = after.active->0;
        if after.active == before.active {
            let (i, j, k) = choose|i: int, j: int, k: int| #[trigger]
                full_chain(events, i, j, k, contract);
            assert(full_chain(longer, i, j, k, contract));
        } else {
            assert(before.accepted && before.pending == Some(contract));
            let (i, j) = choose|i: int, j: int|
                #![trigger asks_for(events, i, contract), events[j]]
                asks_for(events, i, contract) && i < j < end && is_control(
                    events[j],
                    PdControl::Accept,
                ) && undisturbed(events, i, end);
            assert(longer[j] == events[j]);
            assert(longer[end] == event);
            assert(full_chain(longer, i, j, end, contract));
        }
    }
}

/// Every session explains its events.
proof fn lemma_explained(events: Seq<PdEvent>)
    ensures
        explained(events),
    decreases events.len(),
{
    if events.len() > 0 {
        lemma_explained(events.drop_last());
        lemma_explained_step(events.drop_last(), events.last());
        assert(events.drop_last().push(events.last()) =~= events);
    }
}

/// The shown state, the pending contract and the contract in force agree after
/// every event.
pub proof fn law_sessions_stay_consistent(session: PdSession, event: PdEvent)
    requires
        session.well_formed(),
    ensures
        PdSession::initial().well_formed(),
        session.after(event).well_formed(),
{
}

/// A contract is confirmed only after the sink asked for it, the source
/// accepted and then declared its supply ready, in this order and with nothing
/// between that withdraws the request; and what is confirmed is what was asked
/// for.
pub proof fn law_confirmed_only_after_request_accept_and_ready(events: Seq<PdEvent>)
    ensures
        PdSession::initial().after_all(events).state matches PowerProtocolState::Confirmed(contract)
            ==> exists|i: int, j: int, k: int| #[trigger] full_chain(events, i, j, k, contract),
{
    lemma_explained(events);
}

/// Capabilities, a rejection or a request to wait never claim a contract: what
/// is shown afterwards is the contract in force, or that USB PD was detected.
pub proof fn law_offers_and_rejections_claim_no_contract(session: PdSession, event: PdEvent)
    requires
        session.well_formed(),
        event matches PdEvent::Message(message) && message.sop == 0 && (
        message.payload matches Some(PdPayload::SourceCapabilities(_)) || message.payload matches Some(
            PdPayload::EprSourceCapabilities(_),
        ) || is_control(event, PdControl::Reject) || is_control(event, PdControl::Wait)),
    ensures
        session.active is None ==> session.after(event).state == PowerProtocolState::PdDetected,
        session.active matches Some(contract) ==> session.after(event).state
            == PowerProtocolState::Confirmed(contract),
        session.after(event).active == session.active,
        session.after(event).pending is None,
{
}

/// A disconnection forgets everything, like a new decoder.
pub proof fn law_disconnection_forgets_everything(session: PdSession, timestamp_ms: u64)
    ensures
        session.after(PdEvent::Disconnect { timestamp_ms }) == PdSession::initial(),
        session.after(PdEvent::Disconnect { timestamp_ms }).shown(Some(false))
            == PowerProtocolState::Disconnected,
{
}

/// Cable traffic, incomplete chunks and messages that cannot be decoded leave
/// the negotiation alone.
pub proof fn law_other_traffic_leaves_the_negotiation(session: PdSession, event: PdEvent)
    requires
        (event matches PdEvent::Message(message) && message.sop != 0) || event is Chunk
            || event is Error,
    ensures
        session.after(event) == session,
{
}

/// Whether the meter senses a connection matters only while no USB PD message
/// was seen; a connection without one is shown as unconfirmed.
pub proof fn law_sensed_connection_never_hides_the_protocol(
    session: PdSession,
    connected: Option<bool>,
)
    requires
        session.well_formed(),
    ensures
        session.state is PdDetected || session.state is Negotiating || session.state is Confirmed
            ==> session.shown(connected) == session.state,
        !(session.state is PdDetected || session.state is Negotiating
            || session.state is Confirmed) ==> (session.shown(connected)
            == PowerProtocolState::TraditionalUnconfirmed <==> connected == Some(true)),
        !(session.shown(connected) is Confirmed) || session.active is Some,
{
}

/// Whether the contract in force outlives `event`: nothing is plugged, asked
/// for or reset by it.
pub open spec fn leaves_contract(event: PdEvent) -> bool {
    match event {
        PdEvent::Connect { .. } | PdEvent::Disconnect { .. } => false,
        PdEvent::Message(message) => message.sop != 0 || !((message.payload matches Some(
            PdPayload::Request(_),
        )) || is_control(event, PdControl::SoftReset)),
        _ => true,
    }
}

/// Whether `contract` is shown as confirmed, is in force and none is pending.
spec fn in_force(session: PdSession, contract: PdContract) -> bool {
    &&& session.state == PowerProtocolState::Confirmed(contract)
    &&& session.active == Some(contract)
    &&& session.pending is None
    &&& !session.accepted
}

/// Between a request and the end of its chain the contract waits, accepted or
/// not yet, or is already in force.
proof fn lemma_chain_so_far(
    session: PdSession,
    events: Seq<PdEvent>,
    i: int,
    j: int,
    k: int,
    contract: PdContract,
    upto: int,
)
    requires
        full_chain(events, i, j, k, contract),
        i < upto <= k,
    ensures
        ({
            let so_far = session.after_all(events.take(upto));
            ||| so_far.pending == Some(contract) && (j < upto ==> so_far.accepted)
            ||| in_force(so_far, contract)
        }),
    decreases upto,
{
    assert(events.take(upto).drop_last() =~= events.take(upto - 1));
    assert(events.take(upto).last() == events[upto - 1]);
    if upto > i + 1 {
        lemma_chain_so_far(session, events, i, j, k, contract, upto - 1);
        assert(leaves_pending(events[upto - 1]));
    }
}

/// A contract in force stays in force until something is plugged, asked for or
/// reset.
proof fn lemma_stays_in_force(
    session: PdSession,
    events: Seq<PdEvent>,
    k: int,
    contract: PdContract,
    upto: int,
)
    requires
        0 <= k < upto <= events.len(),
        in_force(session.after_all(events.take(k + 1)), contract),
        forall|m: int| k < m < events.len() ==> leaves_contract(#[trigger] events[m]),
    ensures
        in_force(session.after_all(events.take(upto)), contract),
    decreases upto,
{
    if upto > k + 1 {
        lemma_stays_in_force(session, events, k, contract, upto - 1);
        assert(events.take(upto).drop_last() =~= events.take(upto - 1));
        assert(events.take(upto).last() == events[upto - 1]);
        assert(leaves_contract(events[upto - 1]));
    }
}

/// The newest complete chain decides: once a request was accepted and the supply
/// declared ready, with nothing between that withdraws the request, the contract
/// of that request is confirmed and in force, whatever the session showed and
/// whichever contract was in force before; and it stays so until something is
/// plugged, asked for or reset.
pub proof fn law_the_newest_complete_chain_is_in_force(
    session: PdSession,
    events: Seq<PdEvent>,
    i: int,
    j: int,
    k: int,
    contract: PdContract,
)
    requires
        full_chain(events, i, j, k, contract),
        forall|m: int| k < m < events.len() ==> leaves_contract(#[trigger] events[m]),
    ensures
        session.after_all(events).state == PowerProtocolState::Confirmed(contract),
        session.after_all(events).active == Some(contract),
        session.after_all(events).pending is None,
{
    lemma_chain_so_far(session, events, i, j, k, contract, k);
    assert(events.take(k + 1).drop_last() =~= events.take(k));
    assert(events.take(k + 1).last() == events[k]);
    assert(in_force(session.after_all(events.take(k + 1)), contract));
    lemma_stays_in_force(session, events, k, contract, events.len() as int);
    assert(events.take(events.len() as int) =~= events);
}

/// A request is shown as negotiating from the moment it is made, before it is
/// accepted and after; the contract in force stays in force meanwhile, and is
/// shown again when the request is rejected or put off.
pub proof fn law_a_request_waits_for_its_supply(
    session: PdSession,
    events: Seq<PdEvent>,
    i: int,
    contract: PdContract,
    refusal: PdEvent,
)
    requires
        asks_for(events, i, contract),
        forall|m: int|
            i < m < events.len() ==> leaves_pending(#[trigger] events[m]) && !is_control(
                events[m],
                PdControl::PsRdy,
            ),
        is_control(refusal, PdControl::Reject) || is_control(refusal, PdControl::Wait),
    ensures
        ({
            let before = session.after_all(events.take(i));
            let asked = session.after_all(events);
            &&& asked.state == PowerProtocolState::Negotiating(contract)
            &&& asked.pending == Some(contract)
            &&& asked.active == before.active
            &&& asked.after(refusal).active == before.active
            &&& asked.after(refusal).pending is None
            &&& asked.after(refusal).state == (match before.active {
                Some(old) => PowerProtocolState::Confirmed(old),
                None => PowerProtocolState::PdDetected,
            })
        }),
    decreases events.len(),
{
    let front = events.drop_last();
    assert(events.take(i) =~= front.take(i));
    if i < events.len() - 1 {
        assert forall|m: int| i < m < front.len() implies leaves_pending(#[trigger] front[m])
            && !is_control(front[m], PdControl::PsRdy) by {
            assert(front[m] == events[m]);
        }
        assert(front[i] == events[i]);
        law_a_request_waits_for_its_supply(session, front, i, contract, refusal);
        assert(leaves_pending(events[events.len() - 1]));
    } else {
        assert(front =~= events.take(i));
    }
}

/// A supply that is declared ready without a request that was accepted before
/// changes nothing, and neither does an acceptance of nothing.
pub proof fn law_ready_without_acceptance_confirms_nothing(session: PdSession, event: PdEvent)
    requires
        session.well_formed(),
        is_control(event, PdControl::PsRdy) && !session.accepted || is_control(
            event,
            PdControl::Accept,
        ) && session.pending is None,
    ensures
        session.after(event) == session,
{
}

/// A plug and a reset begin anew: no contract is in force or pending, and what
/// is shown is that a negotiation is awaited, or that USB PD was detected.
pub proof fn law_a_plug_or_a_reset_forgets_the_contract(
    session: PdSession,
    event: PdEvent,
    timestamp_ms: u64,
)
    requires
        is_control(event, PdControl::SoftReset),
    ensures
        session.after(event).state == PowerProtocolState::PdDetected,
        session.after(event).active is None && session.after(event).pending is None,
        session.after(PdEvent::Connect { timestamp_ms }).state == PowerProtocolState::Waiting,
        session.after(PdEvent::Connect { timestamp_ms }).active is None,
        session.after(PdEvent::Connect { timestamp_ms }).pending is None,
{
}

/// Whether a quantity is `milli` thousandths of its unit.
pub open spec fn amounts_to(quantity: Option<PdQuantity>, milli: int) -> bool {
    quantity matches Some(shown) && shown.thousandths() == milli
}

/// A contract says what was asked for: it names the object that was asked for,
/// the voltage that this object offers or that was set, in steps of 50, 20 or
/// 25 mV, and the current that was asked for, in steps of 10 or 50 mA.
pub proof fn law_contracts_say_what_was_asked_for(
    fixed: FixedRequest,
    battery: BatteryRequest,
    setpoint: SetpointRequest,
    unknown: RawRequest,
    offers: Seq<PowerDataObject>,
)
    requires
        1 <= fixed.object_position <= offers.len(),
    ensures
        ({
            let contract = requested_contract(
                PowerSource::FixedVariableSupply(fixed),
                Some(offers),
            );
            &&& contract.object_position == fixed.object_position
            &&& amounts_to(contract.current, fixed.operating_current * 10)
            &&& offers[fixed.object_position - 1] matches PowerDataObject::FixedSupply(offer) ==> {
                &&& contract.kind == PdContractKind::Fixed
                &&& amounts_to(contract.voltage, offer.voltage * 50)
                &&& contract.power is None
            }
            &&& offers[fixed.object_position - 1] matches PowerDataObject::VariableSupply(
                offer,
            ) ==> {
                &&& contract.kind == PdContractKind::Variable
                &&& amounts_to(contract.voltage, offer.max_voltage * 50)
                &&& contract.power is None
            }
            &&& offers[fixed.object_position - 1] matches PowerDataObject::Battery(offer) ==> {
                &&& contract.kind == PdContractKind::Battery
                &&& contract.voltage is None
                &&& amounts_to(contract.power, offer.max_power * 250)
            }
        }),
        ({
            let contract = requested_contract(PowerSource::Battery(battery), Some(offers));
            &&& contract.kind == PdContractKind::Battery
            &&& contract.object_position == battery.object_position
            &&& amounts_to(contract.power, battery.operating_power * 250)
            &&& contract.voltage is None && contract.current is None
        }),
        ({
            let pps = requested_contract(PowerSource::Pps(setpoint), Some(offers));
            let avs = requested_contract(PowerSource::Avs(setpoint), Some(offers));
            &&& pps.kind == PdContractKind::Pps && avs.kind == PdContractKind::Avs
            &&& pps.object_position == setpoint.object_position
            &&& avs.object_position == setpoint.object_position
            &&& amounts_to(pps.voltage, setpoint.output_voltage * 20)
            &&& amounts_to(avs.voltage, setpoint.output_voltage * 25)
            &&& amounts_to(pps.current, setpoint.operating_current * 50)
            &&& amounts_to(avs.current, setpoint.operating_current * 50)
            &&& pps.power is None && avs.power is None
        }),
        ({
            let contract = requested_contract(PowerSource::Unknown(unknown), Some(offers));
            &&& contract.kind == PdContractKind::Unknown
            &&& contract.object_position == unknown.object_position
            &&& amounts_to(contract.current, unknown.operating_current * 10)
            &&& contract.voltage is None && contract.power is None
        }),
{
}

/// A request in extended-range mode is read by the object that it copies: as a
/// fixed one, or as a setpoint in steps of 25 mV and 50 mA.
pub proof fn law_extended_contracts_follow_their_object(
    request: EprRequest,
    offers: Option<Seq<PowerDataObject>>,
)
    ensures
        ({
            let contract = requested_contract(PowerSource::EprRequest(request), offers);
            &&& contract.object_position == request.object_position
            &&& request.pdo matches PowerDataObject::FixedSupply(offer) ==> {
                &&& contract.kind == PdContractKind::EprFixed
                &&& amounts_to(contract.voltage, offer.voltage * 50)
                &&& amounts_to(contract.current, request.operating_current * 10)
                &&& contract.power is None
            }
            &&& request.pdo matches PowerDataObject::Augmented(Augmented::Spr(_)) ==> {
                &&& contract.kind == PdContractKind::EprPps
                &&& amounts_to(contract.voltage, request.output_voltage * 25)
                &&& amounts_to(contract.current, request.setpoint_current * 50)
                &&& contract.power is None
            }
            &&& request.pdo matches PowerDataObject::Augmented(Augmented::Epr(offer)) ==> {
                &&& contract.kind == PdContractKind::Avs
                &&& amounts_to(contract.voltage, request.output_voltage * 25)
                &&& amounts_to(contract.current, request.setpoint_current * 50)
                &&& amounts_to(contract.power, offer.pd_power * 1_000)
            }
            &&& request.pdo matches PowerDataObject::Battery(offer) ==> {
                &&& contract.kind == PdContractKind::Battery
                &&& amounts_to(contract.power, offer.max_power * 250)
                &&& contract.voltage is None && contract.current is None
            }
            &&& request.pdo matches PowerDataObject::VariableSupply(offer) ==> {
                &&& contract.kind == PdContractKind::Variable
                &&& amounts_to(contract.voltage, offer.max_voltage * 50)
                &&& contract.current is None && contract.power is None
            }
        }),
{
}

/// Every event gives one entry of the log, and the event by which a contract
/// comes into force a second one, which announces it at the same time.
pub proof fn law_a_confirmed_contract_is_announced(session: PdSession, event: PdEvent)
    ensures
        ({
            let entries = log_entries(session, event);
            let after = session.after(event);
            let announced = after.state is Confirmed && after.state != session.state;
            &&& entries.len() == (if announced {
                2int
            } else {
                1int
            })
            &&& entries[0] == entry_text(event)
            &&& announced ==> {
                &&& entries[1].category == PdCategory::Contract
                &&& entries[1].timestamp_ms == entries[0].timestamp_ms
                &&& entries[1] == confirmation_entry_text(
                    entries[0].timestamp_ms,
                    after.state->Confirmed_0,
                )
            }
        }),
{
}

/// A request names its offer by its place in the list, counted from one; a place
/// that is not in the list names none.
pub proof fn law_offers_are_counted_from_one(pdos: Seq<PowerDataObject>, position: u8)
    requires
        position >= 1,
    ensures
        position <= pdos.len() ==> selected_offer(position, Some(pdos)) == Some(
            pdos[position - 1],
        ),
        position > pdos.len() ==> selected_offer(position, Some(pdos)) is None,
        selected_offer(position, None) is None,
{
}

/// Before any message was seen the page shows what the meter senses: something
/// connected without a known protocol, nothing connected, or that it waits while
/// it does not know. Once there were messages, they are what is shown.
pub proof fn law_what_is_sensed_is_shown_before_messages(session: PdSession)
    ensures
        session.state is Disconnected || session.state is Waiting ==> {
            &&& session.shown(Some(true)) == PowerProtocolState::TraditionalUnconfirmed
            &&& session.shown(Some(false)) == PowerProtocolState::Disconnected
            &&& session.shown(None) == PowerProtocolState::Waiting
        },
        session.state is Confirmed || session.state is Negotiating || session.state is PdDetected
            ==> {
            &&& session.shown(Some(true)) == session.state
            &&& session.shown(Some(false)) == session.state
            &&& session.shown(None) == session.state
        },
{
}

} // verus!
