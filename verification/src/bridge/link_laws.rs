//! Who listens on a link, how fast each is willing to be sent to, and how a request gets in.

use vstd::prelude::*;

use crate::bridge::capacity::milliseconds_per_frame;
use crate::bridge::capacity::paced_for_link;
use crate::bridge::capacity::LinkCapacity;
use crate::bridge::endpoints::endpoints_of;
use crate::bridge::endpoints::LinkedEcu;
use crate::bridge::fed;
use crate::bridge::BridgeView;
use crate::bridge::FeedView;
use crate::can::CanFrame;
use crate::core_domain::timing::EcuTiming;
use crate::isotp::laws::completed_pdus;
use crate::isotp::laws::law_segmented_pdu_is_received;
use crate::isotp::laws::owed_for;
use crate::isotp::laws::payloads;
use crate::isotp::laws::received_all;
use crate::isotp::laws::segmented;
use crate::isotp::params::IsoTpParameters;
use crate::isotp::rx::flow_control;
use crate::isotp::rx::OutcomeView;

verus! {

/// What an ECU is advertised with. One that states a block size or a separation time is advertised
/// with exactly those, and with the link's padding. One that states neither is slowed down only
/// where the link cannot carry the bus: to one millisecond more than a frame takes on the link,
/// rounded up, and never to more than 127.
pub proof fn law_an_ecu_is_advertised_as_it_asks(
    link: IsoTpParameters,
    capacity: Option<LinkCapacity>,
    timing: EcuTiming,
)
    ensures
        ({
            let params = paced_for_link(link, capacity, timing);
            let states = timing.m_u8IsoTpBlockSize != 0 || timing.m_byIsoTpSeparationTimeMin != 0;
            let slow = capacity is Some && 0 < capacity->0.m_uLinkFramesPerSecond
                < capacity->0.m_uBusFramesPerSecond;
            let rate = capacity->0.m_uLinkFramesPerSecond as int;
            let pause = params.m_bySeparationTimeMin as int;
            &&& params.m_u8BlockSize == timing.m_u8IsoTpBlockSize
            &&& params.m_optByPaddingByte == link.m_optByPaddingByte
            &&& states || !slow ==> pause == timing.m_byIsoTpSeparationTimeMin
            &&& !states && slow ==> pause <= 127 && (pause - 2) * rate < 1000
            &&& !states && slow && pause < 127 ==> (pause - 1) * rate >= 1000
        }),
{
    if capacity is Some {
        let rate = capacity->0.m_uLinkFramesPerSecond as int;
        if rate > 0 {
            let q = 1000int / rate;
            let r = 1000int % rate;
            vstd::arithmetic::div_mod::lemma_fundamental_div_mod(1000, rate);
            let exact = milliseconds_per_frame(rate);
            assert(exact * rate >= 1000 && (exact - 1) * rate < 1000 && exact >= 1)
                by (nonlinear_arith)
                requires
                    1000 == rate * q + r,
                    0 <= r < rate,
                    rate >= 1,
                    r == 0 ==> exact == q,
                    r != 0 ==> exact == q + 1,
            ;
            if exact + 1 >= 127 {
                assert(125 * rate <= (exact - 1) * rate) by (nonlinear_arith)
                    requires
                        exact + 1 >= 127,
                        rate >= 1,
                ;
            }
        }
    }
}

/// An ECU is listened for on its own identifier, answers on its own response identifier, and is
/// sent to as it is advertised: unless a later ECU of the list has the same identifier.
pub proof fn law_an_ecu_has_its_own_endpoint(
    ecus: Seq<LinkedEcu>,
    params: IsoTpParameters,
    capacity: Option<LinkCapacity>,
    i: int,
)
    requires
        0 <= i < ecus.len(),
        ecus[i].m_optU32RequestCanId is Some,
        ecus[i].m_optCanAddress is Some,
        forall|j: int|
            i < j < ecus.len() ==> (#[trigger] ecus[j]).m_optU32RequestCanId
                != ecus[i].m_optU32RequestCanId,
    ensures
        ({
            let id = ecus[i].m_optU32RequestCanId->0;
            let table = endpoints_of(ecus, params, capacity);
            &&& table.contains_key(id)
            &&& table[id].request == id
            &&& table[id].response == ecus[i].m_optCanAddress->0.m_u32ResponseCanId
            &&& !table[id].receiver.functional
            &&& table[id].receiver.pending is None
            &&& table[id].receiver.max_pdu == 4095
            &&& table[id].receiver.params == paced_for_link(params, capacity, ecus[i].m_timing)
        }),
    decreases ecus.len(),
{
    if i < ecus.len() - 1 {
        let head = ecus.drop_last();
        assert forall|j: int| i < j < head.len() implies (#[trigger] head[j]).m_optU32RequestCanId
            != head[i].m_optU32RequestCanId by {
            assert(head[j] == ecus[j]);
        }
        law_an_ecu_has_its_own_endpoint(head, params, capacity, i);
        assert(ecus[ecus.len() - 1].m_optU32RequestCanId != ecus[i].m_optU32RequestCanId);
    }
}

/// A broadcast identifier is listened on too, and nothing else is: something listens on an
/// identifier only where it is one ECU's own or the one it shares with others.
pub proof fn law_who_is_listened_for(
    ecus: Seq<LinkedEcu>,
    params: IsoTpParameters,
    capacity: Option<LinkCapacity>,
    id: u32,
)
    ensures
        endpoints_of(ecus, params, capacity).contains_key(id) <==> exists|i: int|
            0 <= i < ecus.len() && (#[trigger] ecus[i]).m_optU32RequestCanId is Some
                && ecus[i].m_optCanAddress is Some && (ecus[i].m_optU32RequestCanId == Some(id)
                || ecus[i].m_optCanAddress->0.m_optU32FunctionalCanId == Some(id)),
    decreases ecus.len(),
{
    if ecus.len() > 0 {
        let head = ecus.drop_last();
        let last = ecus.last();
        law_who_is_listened_for(head, params, capacity, id);
        let wanted = |e: LinkedEcu|
            e.m_optU32RequestCanId is Some && e.m_optCanAddress is Some && (e.m_optU32RequestCanId
                == Some(id) || e.m_optCanAddress->0.m_optU32FunctionalCanId == Some(id));
        if endpoints_of(head, params, capacity).contains_key(id) {
            let i = choose|i: int|
                0 <= i < head.len() && (#[trigger] head[i]).m_optU32RequestCanId is Some
                    && head[i].m_optCanAddress is Some && (head[i].m_optU32RequestCanId == Some(id)
                    || head[i].m_optCanAddress->0.m_optU32FunctionalCanId == Some(id));
            assert(wanted(ecus[i]));
        }
        if wanted(last) {
            assert(wanted(ecus[ecus.len() - 1]));
        }
        if exists|i: int| 0 <= i < ecus.len() && wanted(#[trigger] ecus[i]) {
            let i = choose|i: int| 0 <= i < ecus.len() && wanted(#[trigger] ecus[i]);
            if i < head.len() {
                assert(head[i] == ecus[i]);
            }
        }
    }
}

/// A bridge after a series of frames while the simulation runs, and what each came to.
pub open spec fn fed_all(b: BridgeView, frames: Seq<CanFrame>) -> (BridgeView, Seq<FeedView>)
    decreases frames.len(),
{
    if frames.len() == 0 {
        (b, seq![])
    } else {
        let before = fed_all(b, frames.drop_last());
        let step = fed(before.0, frames.last(), true);
        (step.0, before.1.push(step.1))
    }
}

/// What an outcome at an endpoint comes to on the link.
spec fn on_the_link(outcome: OutcomeView, request: u32, response: u32) -> FeedView {
    match outcome {
        OutcomeView::Nothing => FeedView::Nothing,
        OutcomeView::Completed { pdu } => FeedView::Request { id: request, pdu },
        OutcomeView::SendFlowControl { frame } => FeedView::Send { id: response, data: frame },
        OutcomeView::Refused { frame } => FeedView::Send { id: response, data: frame },
        OutcomeView::Aborted { error } => FeedView::Abandoned { id: request, error },
    }
}

proof fn lemma_fed_as_received(b: BridgeView, id: u32, frames: Seq<CanFrame>)
    requires
        b.endpoints.contains_key(id),
        forall|i: int| 0 <= i < frames.len() ==> (#[trigger] frames[i]).m_u32CanId == id,
    ensures
        ({
            let (after, steps) = fed_all(b, frames);
            let endpoint = b.endpoints[id];
            let (receiver, outcomes) = received_all(endpoint.receiver, payloads(frames));
            &&& after.endpoints.contains_key(id)
            &&& after.endpoints[id].receiver == receiver
            &&& after.endpoints[id].request == endpoint.request
            &&& after.endpoints[id].response == endpoint.response
            &&& steps.len() == frames.len()
            &&& outcomes.len() == frames.len()
            &&& forall|i: int|
                0 <= i < frames.len() ==> (#[trigger] steps[i]) == on_the_link(
                    outcomes[i],
                    endpoint.request,
                    endpoint.response,
                )
        }),
    decreases frames.len(),
{
    if frames.len() > 0 {
        let head = frames.drop_last();
        assert forall|i: int| 0 <= i < head.len() implies (#[trigger] head[i]).m_u32CanId == id by {
            assert(head[i] == frames[i]);
        }
        lemma_fed_as_received(b, id, head);
        assert(payloads(frames).drop_last() =~= payloads(head));
        assert(frames[frames.len() - 1] == frames.last());
        assert(payloads(frames).last() == frames.last().m_vecData@);
    }
}

/// A request sent to an ECU over the link arrives whole: of the frames of a PDU on the ECU's own
/// identifier the last one makes it a request under that identifier, bytes unchanged. Before that,
/// flow control with the ECU's own block size and separation time goes out on its response
/// identifier at the first frame and at each end of a block, and nothing at the others.
pub proof fn law_a_request_arrives_whole(
    b: BridgeView,
    id: u32,
    frames: Seq<CanFrame>,
    pdu: Seq<u8>,
    padding: Option<u8>,
)
    requires
        b.endpoints.contains_key(id),
        !b.endpoints[id].receiver.functional,
        b.endpoints[id].receiver.max_pdu == 4095,
        1 <= pdu.len() <= 4095,
        payloads(frames) == segmented(pdu, padding),
        forall|i: int| 0 <= i < frames.len() ==> (#[trigger] frames[i]).m_u32CanId == id,
    ensures
        ({
            let (after, steps) = fed_all(b, frames);
            let endpoint = b.endpoints[id];
            let params = endpoint.receiver.params;
            let block = params.m_u8BlockSize as int;
            &&& steps.len() == frames.len()
            &&& steps.last() == (FeedView::Request { id: endpoint.request, pdu })
            &&& forall|i: int|
                0 <= i < steps.len() - 1 ==> (#[trigger] steps[i]) == (if i == 0 || (block > 0 && i
                    % block == 0) {
                    FeedView::Send { id: endpoint.response, data: flow_control(params, 0x30) }
                } else {
                    FeedView::Nothing
                })
            &&& after.endpoints[id].receiver.pending is None
        }),
{
    let endpoint = b.endpoints[id];
    lemma_fed_as_received(b, id, frames);
    law_segmented_pdu_is_received(endpoint.receiver, pdu, padding);
    let (after, steps) = fed_all(b, frames);
    let (receiver, outcomes) = received_all(endpoint.receiver, payloads(frames));
    assert(payloads(frames).len() == frames.len());
    assert forall|i: int| 0 <= i < steps.len() - 1 implies (#[trigger] steps[i]) == on_the_link(
        owed_for(endpoint.receiver.params, i),
        endpoint.request,
        endpoint.response,
    ) by {
        assert(outcomes[i] == owed_for(endpoint.receiver.params, i));
    }
    assert(steps[steps.len() - 1] == on_the_link(
        outcomes[steps.len() - 1],
        endpoint.request,
        endpoint.response,
    ));
    assert(completed_pdus(outcomes) == seq![pdu]);
}

/// A frame reaches nobody but the ECU it is for: every other endpoint stays as it is, and so do the
/// queue, the counters and the transfer.
pub proof fn law_a_frame_reaches_nobody_else(b: BridgeView, frame: CanFrame, running: bool, id: u32)
    requires
        id != frame.m_u32CanId,
    ensures
        ({
            let after = fed(b, frame, running).0;
            &&& after.endpoints.contains_key(id) == b.endpoints.contains_key(id)
            &&& after.endpoints[id] == b.endpoints[id]
            &&& after.queue == b.queue
            &&& after.deferred == b.deferred
            &&& after.transfer == b.transfer
        }),
        !b.endpoints.contains_key(frame.m_u32CanId) ==> fed(b, frame, running).1 is Nothing,
{
}

} // verus!
