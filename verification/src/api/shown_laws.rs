//! What is shown of the traffic is what went over the wire: everything shown reads back.

use vstd::prelude::*;

use crate::api::diagnostics::is_answer;
use crate::api::diagnostics::is_error_result;
use crate::api::diagnostics::shows_ecu;
use crate::api::diagnostics::EcuStateDto;
use crate::api::diagnostics::RequestResultDto;
use crate::api::emitter::describes_response;
use crate::api::emitter::frame_of;
use crate::api::emitter::frames_of;
use crate::api::emitter::is_ascending_plan;
use crate::api::emitter::SimulationResponseDto;
use crate::api::events::doip_event;
use crate::api::events::exchange_event;
use crate::api::events::frame_event;
use crate::api::events::outcome_description;
use crate::api::events::EventView;
use crate::api::input::can_id;
use crate::api::input::hex_input;
use crate::api::input::trimmed;
use crate::api::input::without_white_space;
use crate::api::input_laws::law_a_number_reads_back;
use crate::api::input_laws::law_can_id_reads_back;
use crate::api::input_laws::law_hex_text_reads_back;
use crate::api::reading_laws::is_blank;
use crate::api::reading_laws::law_a_name_is_not_blank;
use crate::api::simulation::addressing_of;
use crate::api::simulation::rename_of;
use crate::api::simulation::shows_running_ecu;
use crate::api::simulation::SimulationEcuDto;
use crate::bridge::observer::FrameDirection;
use crate::can::CanFrame;
use crate::core_domain::address::CanAddress;
use crate::doip_server::observer::DoIpDirection;
use crate::ecu::schedule::warning_texts;
use crate::ecu::schedule::ScheduledResponse;
use crate::ecu::schedule_laws::law_the_final_step_is_the_first_answer;
use crate::ecu::LiveState;
use crate::ecu::VirtualEcu;
use crate::simulation::timeline::goes_before;
use crate::simulation::timeline::is_on;
use crate::simulation::timeline::is_step;
use crate::simulation::timeline::is_timeline;
use crate::simulation::timeline::steps_of;
use crate::simulation::timeline::TimelineStep;
use crate::simulation::RoutedResponse;
use crate::simulation::RoutingOutcome;
use crate::text::decimal;
use crate::text::hex_bytes;
use crate::text::parsed_hex;

verus! {

/// A text shows bytes: read back, it gives them. Of no bytes nothing is shown.
pub open spec fn shows_bytes(text: Seq<char>, bytes: Seq<u8>) -> bool {
    if bytes.len() == 0 {
        text.len() == 0
    } else {
        hex_input(without_white_space(text)) == Ok::<Seq<u8>, Seq<char>>(bytes)
    }
}

/// A text shows an identifier: read back, it gives it.
pub open spec fn shows_id(text: Seq<char>, id: u32) -> bool {
    can_id(text, trimmed(text)) == Ok::<u32, Seq<char>>(id)
}

proof fn lemma_bytes_shown(bytes: Seq<u8>)
    requires
        2 * bytes.len() <= usize::MAX,
    ensures
        shows_bytes(hex_bytes(bytes), bytes),
{
    if bytes.len() > 0 {
        law_hex_text_reads_back(bytes);
    }
}

/// A frame is shown with its direction, its identifier, its data and how many bytes they are; it
/// is marked where the upper four bits of its first byte say flow control.
pub proof fn law_a_frame_is_shown_as_it_was(at_ms: u64, direction: FrameDirection, frame: CanFrame)
    requires
        frame.m_u32CanId <= 0x1FFF_FFFF,
        frame.m_vecData@.len() <= 64,
    ensures
        match frame_event(at_ms, direction, frame) {
            EventView::Frame {
                at_ms: shown_at,
                direction: shown_direction,
                can_id_hex,
                data_hex,
                length,
                is_flow_control,
            } => {
                &&& shown_at == at_ms
                &&& shown_direction == match direction {
                    FrameDirection::Received => "rx"@,
                    FrameDirection::Sent => "tx"@,
                }
                &&& shows_id(can_id_hex, frame.m_u32CanId)
                &&& shows_bytes(data_hex, frame.m_vecData@)
                &&& length == frame.m_vecData@.len()
                &&& is_flow_control <==> frame.m_vecData@.len() > 0 && 0x30 <= frame.m_vecData@[0]
                    <= 0x3F
            },
            _ => false,
        },
{
    law_can_id_reads_back(frame.m_u32CanId);
    lemma_bytes_shown(frame.m_vecData@);
}

/// A DoIP message is shown with who it was for or from, over which transport, and without its
/// eight-byte header; one shorter than a header is shown whole and said to be cut short.
pub proof fn law_a_message_is_shown_as_it_was(
    at_ms: u64,
    direction: DoIpDirection,
    peer: Seq<char>,
    is_udp: bool,
    message: Seq<u8>,
)
    requires
        2 * message.len() <= usize::MAX,
    ensures
        match doip_event(at_ms, direction, peer, is_udp, message) {
            EventView::DoIp {
                at_ms: shown_at,
                direction: shown_direction,
                peer: shown_peer,
                transport,
                payload_type_hex,
                payload_name,
                payload_hex,
                length,
            } => {
                &&& shown_at == at_ms
                &&& shown_direction == match direction {
                    DoIpDirection::Received => "rx"@,
                    DoIpDirection::Sent => "tx"@,
                }
                &&& shown_peer == peer
                &&& transport == if is_udp {
                    "UDP"@
                } else {
                    "TCP"@
                }
                &&& message.len() >= 8 ==> {
                    &&& shows_bytes(payload_hex, message.subrange(8, message.len() as int))
                    &&& length == message.len() - 8
                    &&& parsed_hex(payload_type_hex) == Some(
                        (message[2] as int * 256 + message[3] as int) as nat,
                    )
                    &&& message[2] == 0x80 && message[3] == 0x01 ==> payload_name
                        == "DiagnosticMessage"@
                    &&& message[2] == 0x00 && message[3] == 0x05 ==> payload_name
                        == "RoutingActivationRequest"@
                    &&& message[2] == 0x00 && message[3] == 0x04 ==> payload_name
                        == "VehicleAnnouncement"@
                }
                &&& message.len() < 8 ==> {
                    &&& shows_bytes(payload_hex, message)
                    &&& length == message.len()
                    &&& payload_type_hex == "----"@
                    &&& payload_name == "truncated (shorter than a header)"@
                }
            },
            _ => false,
        },
{
    if message.len() >= 8 {
        assert(message.skip(8) =~= message.subrange(8, message.len() as int));
        lemma_bytes_shown(message.skip(8));
        law_a_number_reads_back(
            (message[2] as int * 256 + message[3] as int) as nat,
            4,
        );
    } else {
        lemma_bytes_shown(message);
    }
}

/// An exchange is shown with the request and every answer to it, in their order. It counts as
/// routed exactly where an ECU took it, as a broadcast exactly where several did, and a reason is
/// given exactly where none did.
pub proof fn law_an_exchange_is_shown_whole(
    at_ms: u64,
    request_id: u32,
    request: Seq<u8>,
    outcome: RoutingOutcome,
)
    requires
        request_id <= 0x1FFF_FFFF,
        2 * request.len() <= usize::MAX,
        outcome matches RoutingOutcome::Handled(answers) ==> forall|i: int|
            0 <= i < answers@.len() ==> (#[trigger] answers@[i]).m_u32ResponseCanId <= 0x1FFF_FFFF
                && 2 * answers@[i].m_vecResponse@.len() <= usize::MAX,
    ensures
        match exchange_event(at_ms, request_id, request, outcome) {
            EventView::Exchange {
                at_ms: shown_at,
                can_id_hex,
                request_hex,
                addressing,
                routed,
                responses,
                reason,
            } => {
                &&& shown_at == at_ms
                &&& shows_id(can_id_hex, request_id)
                &&& shows_bytes(request_hex, request)
                &&& routed <==> outcome is Handled
                &&& reason is None <==> outcome is Handled
                &&& !(outcome is Handled) ==> responses.len() == 0
                &&& outcome is Stopped ==> addressing == "stopped"@
                &&& outcome is NoTarget ==> addressing == "unrouted"@
                &&& outcome is TooLargeForSubnetwork ==> addressing == "refused"@
                &&& outcome is Silenced ==> addressing == "silenced"@
                &&& outcome matches RoutingOutcome::Silenced { strEcuName, strReason }
                    ==> reason == Some(strEcuName@ + ": "@ + strReason@)
                &&& outcome matches RoutingOutcome::TooLargeForSubnetwork {
                    uRequestBytes,
                    uMaxBytes,
                    strEcuName,
                } ==> reason == Some(
                    "a functional request of "@ + decimal(uRequestBytes as nat)
                        + " bytes is longer than the "@ + decimal(uMaxBytes as nat)
                        + " a CAN sub-network can carry, and '"@ + strEcuName@ + "' is on one"@,
                )
                &&& outcome matches RoutingOutcome::Handled(answers) ==> {
                    &&& addressing == if answers@.len() >= 2 {
                        "functional"@
                    } else {
                        "physical"@
                    }
                    &&& responses.len() == answers@.len()
                    &&& forall|i: int|
                        0 <= i < answers@.len() ==> {
                            &&& (#[trigger] responses[i]).ecu_name == answers@[i].m_strEcuName@
                            &&& shows_id(
                                responses[i].response_can_id_hex,
                                answers@[i].m_u32ResponseCanId,
                            )
                            &&& shows_bytes(
                                responses[i].response_hex,
                                answers@[i].m_vecResponse@,
                            )
                            &&& responses[i].suppressed <==> answers@[i].m_plan.m_vecSteps@.len()
                                == 0
                            &&& responses[i].overridden == answers@[i].m_plan.m_bIsOverridden
                        }
                }
            },
            _ => false,
        },
{
    law_can_id_reads_back(request_id);
    lemma_bytes_shown(request);
    if let RoutingOutcome::Handled(answers) = outcome {
        let responses = outcome_description(outcome).responses;
        assert forall|i: int| 0 <= i < answers@.len() implies shows_id(
            (#[trigger] responses[i]).response_can_id_hex,
            answers@[i].m_u32ResponseCanId,
        ) && shows_bytes(responses[i].response_hex, answers@[i].m_vecResponse@) by {
            let answer = answers@[i];
            law_can_id_reads_back(answer.m_u32ResponseCanId);
            lemma_bytes_shown(answer.m_vecResponse@);
        }
    }
}

/// A description of an answer says who answered, on which identifiers, with what, in which state
/// the ECU is afterwards, and how the plan came out; the time given is that of the first message
/// that is no response-pending one.
pub proof fn law_an_answer_is_described_as_it_is(
    dto: SimulationResponseDto,
    response: RoutedResponse,
    at: int,
)
    requires
        describes_response(dto, response),
        response.m_u32RequestCanId <= 0x1FFF_FFFF,
        response.m_u32ResponseCanId <= 0x1FFF_FFFF,
        2 * response.m_vecResponse@.len() <= usize::MAX,
    ensures
        dto.ecu_name@ == response.m_strEcuName@,
        shows_id(dto.request_can_id_hex@, response.m_u32RequestCanId),
        shows_id(dto.response_can_id_hex@, response.m_u32ResponseCanId),
        shows_bytes(dto.response_hex@, response.m_vecResponse@),
        dto.suppressed <==> response.m_plan.m_vecSteps@.len() == 0,
        dto.session == response.m_bySession,
        dto.session == 1 ==> dto.session_name@ == "Default"@,
        dto.session == 2 ==> dto.session_name@ == "Programming"@,
        dto.session == 3 ==> dto.session_name@ == "Extended"@,
        dto.security_unlocked == response.m_bIsSecurityUnlocked,
        dto.response_pending_count == response.m_plan.m_u8ResponsePendingCount,
        dto.final_response_dropped == response.m_plan.m_bIsFinalResponseDropped,
        dto.iso_conformant == response.m_plan.m_bIsIsoConformant,
        dto.conformance_warnings@.len() == response.m_plan.m_vecConformanceWarnings@.len(),
        ({
            let steps = response.m_plan.m_vecSteps@;
            &&& 0 <= at < steps.len() && !steps[at].m_bIsResponsePending && (forall|j: int|
                0 <= j < at ==> (#[trigger] steps[j]).m_bIsResponsePending) ==> dto.final_at_ms
                == Some(steps[at].m_u32AtMs)
            &&& (forall|j: int|
                0 <= j < steps.len() ==> (#[trigger] steps[j]).m_bIsResponsePending)
                ==> dto.final_at_ms is None
        }),
{
    law_can_id_reads_back(response.m_u32RequestCanId);
    law_can_id_reads_back(response.m_u32ResponseCanId);
    lemma_bytes_shown(response.m_vecResponse@);
    let steps = response.m_plan.m_vecSteps@;
    law_the_final_step_is_the_first_answer(response.m_plan);
    assert(warning_texts(dto.conformance_warnings@).len()
        == warning_texts(response.m_plan.m_vecConformanceWarnings@).len());
}

/// A message on record is shown with its bytes, when it was due, when it went out, and whether it
/// was a response-pending one.
pub proof fn law_a_sent_message_is_recorded(step: ScheduledResponse, actual_ms: u64)
    requires
        2 * step.m_vecBytes@.len() <= usize::MAX,
    ensures
        frame_of(step, actual_ms).at_ms == step.m_u32AtMs,
        frame_of(step, actual_ms).actual_ms == actual_ms,
        shows_bytes(frame_of(step, actual_ms).hex, step.m_vecBytes@),
        step.m_bIsResponsePending ==> frame_of(step, actual_ms).kind == "responsePending"@,
        !step.m_bIsResponsePending ==> frame_of(step, actual_ms).kind == "final"@,
{
    lemma_bytes_shown(step.m_vecBytes@);
}

proof fn lemma_recorded_time(
    timeline: Seq<TimelineStep>,
    responses: Seq<RoutedResponse>,
    actual: Seq<u64>,
    response: int,
)
    requires
        is_timeline(timeline, responses),
        actual.len() <= timeline.len(),
        0 <= response < responses.len(),
        is_ascending_plan(steps_of(responses, response)),
    ensures
        ({
            let frames = frames_of(timeline, responses, actual, response);
            &&& forall|i: int|
                0 <= i < actual.len() && (#[trigger] timeline[i]).m_uResponse == response
                    ==> timeline[i].m_uStep < frames.len()
                    && frames[timeline[i].m_uStep as int].actual_ms == actual[i]
            &&& forall|i: int|
                actual.len() <= i < timeline.len() && (#[trigger] timeline[i]).m_uResponse
                    == response ==> timeline[i].m_uStep >= frames.len()
        }),
    decreases actual.len(),
{
    let frames = frames_of(timeline, responses, actual, response);
    if actual.len() > 0 {
        let past = actual.drop_last();
        lemma_recorded_time(timeline, responses, past, response);
        let before = frames_of(timeline, responses, past, response);
        let last = actual.len() - 1;
        let step = timeline[last];
        let steps = steps_of(responses, response);
        assert(is_step(responses, timeline[last]));
        if step.m_uResponse == response {
            if step.m_uStep > before.len() {
                let missing = before.len() as int;
                assert(is_on(timeline, response, missing));
                let i = choose|i: int|
                    0 <= i < timeline.len() && (#[trigger] timeline[i]).m_uResponse == response
                        && timeline[i].m_uStep == missing;
                assert(is_step(responses, timeline[i]));
                assert(steps[missing].m_u32AtMs <= steps[step.m_uStep as int].m_u32AtMs);
                if i > last {
                    assert(goes_before(timeline[last], timeline[i]));
                }
                assert(i < last);
                assert(timeline[i].m_uStep < before.len());
            }
            assert(step.m_uStep == before.len());
            assert forall|i: int|
                actual.len() <= i < timeline.len() && (#[trigger] timeline[i]).m_uResponse
                    == response implies timeline[i].m_uStep >= frames.len() by {
                assert(timeline[i].m_uStep >= before.len());
                assert(goes_before(timeline[last], timeline[i]));
            }
            assert forall|i: int|
                0 <= i < actual.len() && (#[trigger] timeline[i]).m_uResponse
                    == response implies timeline[i].m_uStep < frames.len()
                && frames[timeline[i].m_uStep as int].actual_ms == actual[i] by {
                if i < last {
                    assert(past[i] == actual[i]);
                    assert(timeline[i].m_uStep < before.len());
                }
            }
        } else {
            assert forall|i: int|
                0 <= i < actual.len() && (#[trigger] timeline[i]).m_uResponse
                    == response implies timeline[i].m_uStep < frames.len()
                && frames[timeline[i].m_uStep as int].actual_ms == actual[i] by {
                assert(i < last);
                assert(past[i] == actual[i]);
            }
        }
    } else {
        assert forall|i: int|
            0 <= i < timeline.len() && (#[trigger] timeline[i]).m_uResponse
                == response implies timeline[i].m_uStep >= frames.len() by {}
    }
}

/// Each message that went out is on record under its own answer with the time it went out at, and
/// no message that has not gone out yet is.
pub proof fn law_the_record_says_when_each_message_went_out(
    timeline: Seq<TimelineStep>,
    responses: Seq<RoutedResponse>,
    actual: Seq<u64>,
    response: int,
    i: int,
)
    requires
        is_timeline(timeline, responses),
        actual.len() <= timeline.len(),
        0 <= response < responses.len(),
        is_ascending_plan(steps_of(responses, response)),
        0 <= i < timeline.len(),
        timeline[i].m_uResponse == response,
    ensures
        ({
            let frames = frames_of(timeline, responses, actual, response);
            let step = timeline[i].m_uStep as int;
            &&& step < frames.len() <==> i < actual.len()
            &&& i < actual.len() ==> frames[step].actual_ms == actual[i]
        }),
{
    lemma_recorded_time(timeline, responses, actual, response);
}

/// What the result of a request says: the request and the answer as they were, suppressed exactly
/// where there is no answer, and the state afterwards.
pub proof fn law_a_result_shows_the_answer(
    dto: RequestResultDto,
    request: Seq<u8>,
    response: Seq<u8>,
    state: LiveState,
)
    requires
        is_answer(dto, request, response, state),
        2 * request.len() <= usize::MAX,
        2 * response.len() <= usize::MAX,
    ensures
        shows_bytes(dto.request_hex@, request),
        shows_bytes(dto.response_hex@, response),
        dto.suppressed <==> response.len() == 0,
        dto.session == state.session,
        dto.session == 1 ==> dto.session_name@ == "Default"@,
        dto.session == 2 ==> dto.session_name@ == "Programming"@,
        dto.session == 3 ==> dto.session_name@ == "Extended"@,
        dto.session == 4 ==> dto.session_name@ == "SafetySystem"@,
        dto.security_unlocked <==> state.unlocked != 0,
        dto.error is None,
{
    lemma_bytes_shown(request);
    lemma_bytes_shown(response);
}

/// A result that reports an error shows no answer.
pub proof fn law_an_error_shows_no_answer(
    dto: RequestResultDto,
    request_hex: Seq<char>,
    error: Seq<char>,
)
    requires
        is_error_result(dto, request_hex, error),
    ensures
        dto.request_hex@ == request_hex,
        dto.response_hex@.len() == 0,
        !dto.suppressed,
        !dto.security_unlocked,
        dto.error is Some,
        dto.error->0@ == error,
{
}

/// A running ECU is shown as it is configured and as it stands: its name, its identifiers, its
/// timing, what it offers, and the session and security level it is in.
pub proof fn law_a_running_ecu_is_shown_as_it_is(
    dto: SimulationEcuDto,
    ecu: VirtualEcu,
    address: CanAddress,
)
    requires
        shows_running_ecu(dto, ecu),
        ecu.config().m_optCanAddress == Some(address),
        address.m_u32RequestCanId <= 0x1FFF_FFFF,
        address.m_u32ResponseCanId <= 0x1FFF_FFFF,
        address.m_optU32FunctionalCanId matches Some(id) ==> id <= 0x1FFF_FFFF,
    ensures
        dto.name@ == ecu.config().m_strName@,
        dto.logical_address == ecu.config().m_u16LogicalAddress,
        shows_id(dto.request_can_id_hex@, address.m_u32RequestCanId),
        shows_id(dto.response_can_id_hex@, address.m_u32ResponseCanId),
        address.m_optU32FunctionalCanId is None <==> dto.functional_can_id_hex is None,
        address.m_optU32FunctionalCanId is Some ==> shows_id(
            dto.functional_can_id_hex->0@,
            address.m_optU32FunctionalCanId->0,
        ),
        dto.timing.response_delay_ms == ecu.config().m_timing.m_u32ResponseDelayMs,
        dto.timing.p2_server_max_ms == ecu.config().m_timing.m_u32P2ServerMaxMs,
        dto.timing.p2_star_server_max_ms == ecu.config().m_timing.m_u32P2StarServerMaxMs,
        dto.timing.p4_server_max_ms == ecu.config().m_timing.m_u32P4ServerMaxMs,
        dto.session == ecu.state().session,
        dto.security_level == ecu.state().unlocked,
        dto.security_unlocked <==> ecu.state().unlocked > 0,
        dto.supported_services@ == ecu.config().m_vecSupportedServices@,
        dto.dtc_count == ecu.config().m_vecDtcs@.len(),
        forall|did: u16|
            dto.dids@.contains(did) <==> #[trigger] ecu.config().m_mapDids@.contains_key(did),
{
    law_can_id_reads_back(address.m_u32RequestCanId);
    law_can_id_reads_back(address.m_u32ResponseCanId);
    if let Some(id) = address.m_optU32FunctionalCanId {
        law_can_id_reads_back(id);
    }
}

/// The state of an ECU is shown as it is.
pub proof fn law_the_state_of_an_ecu_is_shown(
    dto: EcuStateDto,
    ecu: VirtualEcu,
    protocol_loaded: bool,
)
    requires
        shows_ecu(dto, ecu, protocol_loaded),
    ensures
        dto.name@ == ecu.config().m_strName@,
        dto.logical_address == ecu.config().m_u16LogicalAddress,
        dto.session == ecu.state().session,
        dto.security_level == ecu.state().unlocked,
        dto.security_unlocked <==> ecu.state().unlocked > 0,
        dto.supported_services@ == ecu.config().m_vecSupportedServices@,
        dto.dtc_count == ecu.config().m_vecDtcs@.len(),
        dto.protocol_loaded == protocol_loaded,
        forall|did: u16|
            dto.dids@.contains(did) <==> #[trigger] ecu.config().m_mapDids@.contains_key(did),
{
}

/// How a request was addressed is told by what became of it, and where ECUs took it by whether it
/// was a broadcast.
pub proof fn law_how_a_request_was_addressed(outcome: RoutingOutcome, is_functional: bool)
    ensures
        outcome is Handled && is_functional ==> addressing_of(outcome, is_functional)
            == "functional"@,
        outcome is Handled && !is_functional ==> addressing_of(outcome, is_functional)
            == "physical"@,
        !(outcome is Handled) ==> addressing_of(outcome, is_functional) == outcome_description(
            outcome,
        ).addressing,
        outcome is Stopped ==> addressing_of(outcome, is_functional) == "stopped"@,
        outcome is NoTarget ==> addressing_of(outcome, is_functional) == "unrouted"@,
{
}

/// Renaming an ECU needs an identifier that reads and a name that is not blank; the name is taken
/// without the blanks around it.
pub proof fn law_a_rename_needs_both(id_text: Seq<char>, name: Seq<char>)
    ensures
        rename_of(id_text, name) is Ok <==> can_id(id_text, trimmed(id_text)) is Ok && !is_blank(
            name,
        ),
        rename_of(id_text, name) matches Ok(both) ==> can_id(id_text, trimmed(id_text)) == Ok::<
            u32,
            Seq<char>,
        >(both.0) && both.1 == trimmed(name),
{
    law_a_name_is_not_blank(name, "the ECU needs a name"@);
}

} // verus!
