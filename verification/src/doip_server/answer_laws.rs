//! What a tester that diagnoses an ECU over DoIP is answered, byte by byte.

use vstd::prelude::*;

use crate::bytes::be16;
use crate::bytes::be32;
use crate::bytes::law_be16_round_trip;
use crate::bytes::law_be32_round_trip;
use crate::doip::header::message_bytes;
use crate::doip::messages::ack_bytes;
use crate::doip::messages::diagnostic_bytes;
use crate::doip::payload::PayloadType;
use crate::doip_server::entity::response_messages;
use crate::doip_server::entity::routed_reaction;
use crate::doip_server::entity::step_messages;
use crate::ecu::schedule::ScheduledResponse;
use crate::simulation::RoutedResponse;
use crate::simulation::RoutingOutcome;

verus! {

/// A message on the wire, read by its places: the version and its complement, the payload type, the
/// length of what follows the header, and the payload.
pub open spec fn is_message(message: Seq<u8>, version: u8, kind: int, payload: Seq<u8>) -> bool {
    &&& message.len() == 8 + payload.len()
    &&& message[0] == version
    &&& message[1] == 255 - version
    &&& message[2] * 256 + message[3] == kind
    &&& message[4] * 16777216 + message[5] * 65536 + message[6] * 256 + message[7] == payload.len()
    &&& message.skip(8) == payload
}

/// A message is its header and its payload, and the header says what follows it.
pub proof fn law_a_message_says_what_it_carries(version: u8, kind: PayloadType, payload: Seq<u8>)
    requires
        payload.len() < 0x1_0000_0000,
    ensures
        is_message(message_bytes(version, kind, payload), version, kind.code() as int, payload),
{
    let message = message_bytes(version, kind, payload);
    let n = payload.len() as u32;
    let code = be16(kind.code() as int);
    let length = be32(n as int);
    law_be16_round_trip(kind.code());
    law_be32_round_trip(n);
    assert(message.skip(8) =~= payload);
    assert(message[2] == code[0] && message[3] == code[1]);
    assert(message[4] == length[0] && message[5] == length[1] && message[6] == length[2]
        && message[7] == length[3]);
}

/// A payload between two addresses.
pub open spec fn is_between(payload: Seq<u8>, from: u16, to: u16, data: Seq<u8>) -> bool {
    &&& payload.len() == 4 + data.len()
    &&& payload[0] * 256 + payload[1] == from
    &&& payload[2] * 256 + payload[3] == to
    &&& payload.skip(4) == data
}

proof fn lemma_diagnostic_payload(from: u16, to: u16, data: Seq<u8>)
    ensures
        is_between(diagnostic_bytes(from, to, data), from, to, data),
{
    assert(diagnostic_bytes(from, to, data).skip(4) =~= data);
}

/// All the messages the plans of a list of responses put on the wire, in order.
pub open spec fn all_steps(responses: Seq<RoutedResponse>) -> Seq<ScheduledResponse> {
    responses.map_values(|response: RoutedResponse| response.m_plan.m_vecSteps@).flatten()
}

proof fn lemma_all_steps_grow(responses: Seq<RoutedResponse>)
    requires
        responses.len() > 0,
    ensures
        all_steps(responses) == all_steps(responses.drop_last())
            + responses.last().m_plan.m_vecSteps@,
{
    let plans = responses.map_values(|response: RoutedResponse| response.m_plan.m_vecSteps@);
    let head = responses.drop_last().map_values(
        |response: RoutedResponse| response.m_plan.m_vecSteps@,
    );
    assert(plans =~= head.push(responses.last().m_plan.m_vecSteps@));
    head.lemma_flatten_push(responses.last().m_plan.m_vecSteps@);
}

proof fn lemma_every_step_is_sent(
    version: u8,
    ecu: u16,
    tester: u16,
    responses: Seq<RoutedResponse>,
)
    ensures
        response_messages(version, ecu, tester, responses) == step_messages(
            version,
            ecu,
            tester,
            all_steps(responses),
        ),
    decreases responses.len(),
{
    let messages = response_messages(version, ecu, tester, responses);
    if responses.len() == 0 {
        assert(all_steps(responses) =~= seq![]) by {
            assert(responses.map_values(
                |response: RoutedResponse| response.m_plan.m_vecSteps@,
            ).len() == 0);
        }
        assert(messages =~= step_messages(version, ecu, tester, all_steps(responses)));
    } else {
        lemma_every_step_is_sent(version, ecu, tester, responses.drop_last());
        lemma_all_steps_grow(responses);
        let before = all_steps(responses.drop_last());
        let steps = responses.last().m_plan.m_vecSteps@;
        assert(messages =~= step_messages(version, ecu, tester, before) + step_messages(
            version,
            ecu,
            tester,
            steps,
        ));
        assert(messages =~= step_messages(version, ecu, tester, before + steps));
    }
}

/// A handled request is acknowledged, and then every message of every ECU's answer is sent: one
/// reply for each step of the plans taken in order, ResponsePending and final responses alike,
/// each a diagnostic message of its own from the ECU to the tester, its bytes unchanged. Nothing
/// else is sent, and the socket stays open.
pub proof fn law_every_message_of_an_answer_is_sent(
    version: u8,
    tester: u16,
    ecu: u16,
    outcome: RoutingOutcome,
    j: int,
)
    requires
        outcome is Handled,
        0 <= j < all_steps(outcome->Handled_0@).len(),
        all_steps(outcome->Handled_0@)[j].m_vecBytes@.len() + 4 < 0x1_0000_0000,
    ensures
        ({
            let steps = all_steps(outcome->Handled_0@);
            let reaction = routed_reaction(version, tester, ecu, outcome);
            &&& !reaction.close
            &&& reaction.replies.len() == 1 + steps.len()
            &&& is_message(reaction.replies[1 + j], version, 0x8001, reaction.replies[1 + j].skip(8))
            &&& is_between(reaction.replies[1 + j].skip(8), ecu, tester, steps[j].m_vecBytes@)
        }),
{
    let responses = outcome->Handled_0@;
    let steps = all_steps(responses);
    let reaction = routed_reaction(version, tester, ecu, outcome);
    lemma_every_step_is_sent(version, ecu, tester, responses);
    let payload = diagnostic_bytes(ecu, tester, steps[j].m_vecBytes@);
    assert(reaction.replies[1 + j] == message_bytes(
        version,
        PayloadType::DiagnosticMessage,
        payload,
    ));
    law_a_message_says_what_it_carries(version, PayloadType::DiagnosticMessage, payload);
    lemma_diagnostic_payload(ecu, tester, steps[j].m_vecBytes@);
}

/// How many replies a routed message gets. One that is handled gets the acknowledgement and one
/// for each step of the answer; one for an ECU that is off the air gets the acknowledgement alone;
/// any other gets one refusal. None of them closes the socket.
pub proof fn law_replies_are_counted(version: u8, tester: u16, ecu: u16, outcome: RoutingOutcome)
    ensures
        ({
            let reaction = routed_reaction(version, tester, ecu, outcome);
            &&& !reaction.close
            &&& reaction.replies.len() == match outcome {
                RoutingOutcome::Handled(responses) => 1 + all_steps(responses@).len(),
                _ => 1,
            }
        }),
{
    if outcome is Handled {
        lemma_every_step_is_sent(version, ecu, tester, outcome->Handled_0@);
    }
}

/// What the first reply to a routed message says, from the ECU's address to the tester's: routed,
/// where the message reached an ECU, on the air or not; otherwise that no ECU has that address,
/// that it cannot be reached while the vehicle is stopped, or that the message is too large.
pub proof fn law_the_first_reply_says_where_the_message_went(
    version: u8,
    tester: u16,
    ecu: u16,
    outcome: RoutingOutcome,
)
    ensures
        ({
            let first = routed_reaction(version, tester, ecu, outcome).replies[0];
            let routed = outcome is Handled || outcome is Silenced;
            let code: u8 = match outcome {
                RoutingOutcome::Handled(_) => 0x00,
                RoutingOutcome::Silenced { .. } => 0x00,
                RoutingOutcome::NoTarget => 0x03,
                RoutingOutcome::TooLargeForSubnetwork { .. } => 0x04,
                RoutingOutcome::Stopped => 0x06,
            };
            &&& is_message(
                first,
                version,
                if routed {
                    0x8002
                } else {
                    0x8003
                },
                first.skip(8),
            )
            &&& is_between(first.skip(8), ecu, tester, seq![code])
        }),
{
    let code: u8 = match outcome {
        RoutingOutcome::Handled(_) => 0x00,
        RoutingOutcome::Silenced { .. } => 0x00,
        RoutingOutcome::NoTarget => 0x03,
        RoutingOutcome::TooLargeForSubnetwork { .. } => 0x04,
        RoutingOutcome::Stopped => 0x06,
    };
    let payload = ack_bytes(tester, ecu, code);
    law_a_message_says_what_it_carries(version, PayloadType::DiagnosticMessageAck, payload);
    law_a_message_says_what_it_carries(version, PayloadType::DiagnosticMessageNack, payload);
    assert(payload.skip(4) =~= seq![code]);
}

} // verus!
