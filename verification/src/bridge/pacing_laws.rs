//! What a tester that flow-controls an answer gets from the bridge, and when.

use vstd::prelude::*;

use crate::bridge::awaited;
use crate::bridge::is_waiting;
use crate::bridge::next_action;
use crate::bridge::ActionView;
use crate::bridge::AwaitedFrame;
use crate::bridge::BridgeView;
use crate::isotp::laws::frame_count;
use crate::isotp::laws::segmented;
use crate::isotp::tx::TransmitState;

verus! {

/// A bridge after its transfer was asked a number of times in a row what it does next.
pub open spec fn after_actions(b: BridgeView, calls: nat) -> BridgeView
    decreases calls,
{
    if calls == 0 {
        b
    } else {
        next_action(after_actions(b, (calls - 1) as nat)).0
    }
}

/// What the transfer does at one of those calls, the first being number zero.
pub open spec fn nth_action(b: BridgeView, call: nat) -> ActionView {
    next_action(after_actions(b, call)).1
}

/// The bridge is about to take a flow control that clears its transfer to send: it stands at the
/// head of the queue, on an identifier something listens on.
pub open spec fn is_about_to_be_cleared(b: BridgeView) -> bool {
    &&& is_waiting(b)
    &&& b.queue.len() > 0
    &&& b.endpoints.contains_key(b.queue[0].m_u32CanId)
    &&& b.queue[0].m_vecData@.len() >= 3
    &&& b.queue[0].m_vecData@[0] == 0x30
}

proof fn lemma_pacing_stays(b: BridgeView, calls: nat)
    requires
        b.transfer is Some,
    ensures
        after_actions(b, calls).transfer is Some ==> {
            let before = b.transfer->0;
            let after = after_actions(b, calls).transfer->0;
            &&& after.request == before.request
            &&& after.response == before.response
            &&& after.transmitter.separation_us == before.transmitter.separation_us
        },
    decreases calls,
{
    if calls > 0 {
        lemma_pacing_stays(b, (calls - 1) as nat);
    }
}

/// Every consecutive frame of a block waits exactly as long as the tester asked for in the flow
/// control that cleared the block: the separation-time byte counts milliseconds up to 0x7F, steps
/// of 100 microseconds from 0xF1 to 0xF9, and means 127 ms otherwise. Every frame goes out on the
/// identifier the request is answered on.
pub proof fn law_frames_are_paced_as_the_tester_asked(b: BridgeView, call: nat)
    requires
        is_about_to_be_cleared(b),
    ensures
        awaited(b).1 == AwaitedFrame::FlowControl,
        nth_action(awaited(b).0, call) matches ActionView::Send { id, after_us, .. } ==> {
            let asked = b.queue[0].m_vecData@[2] as int;
            &&& id == b.transfer->0.response
            &&& asked <= 0x7F ==> after_us == asked * 1000
            &&& 0xF1 <= asked <= 0xF9 ==> after_us == (asked - 0xF0) * 100
            &&& 0x7F < asked < 0xF1 || 0xF9 < asked ==> after_us == 127_000
        },
{
    lemma_pacing_stays(awaited(b).0, call);
}

/// Where a block stands after some of its frames: the transfer, the frames that have gone out, and
/// how many the block still allows.
spec fn is_in_block(b: BridgeView, start: BridgeView, sent: nat) -> bool {
    let before = start.transfer->0.transmitter;
    let now = b.transfer->0.transmitter;
    &&& b.transfer is Some
    &&& now.pdu == before.pdu
    &&& now.params == before.params
    &&& now.frames == before.frames + sent
    &&& now.state == (if before.frames + sent == frame_count(before.pdu.len()) {
        TransmitState::Complete
    } else {
        TransmitState::SendingBlock
    })
    &&& match before.block_left {
        None => now.block_left is None,
        Some(left) => now.block_left == Some((left - sent) as nat),
    }
}

proof fn lemma_block_goes_out(b: BridgeView, sent: nat)
    requires
        b.transfer is Some,
        b.transfer->0.transmitter.state is SendingBlock,
        7 < b.transfer->0.transmitter.pdu.len() <= 4095,
        1 <= b.transfer->0.transmitter.frames,
        b.transfer->0.transmitter.frames + sent <= frame_count(b.transfer->0.transmitter.pdu.len()),
        b.transfer->0.transmitter.frames < frame_count(b.transfer->0.transmitter.pdu.len()),
        b.transfer->0.transmitter.block_left is Some ==> sent
            <= b.transfer->0.transmitter.block_left->0,
    ensures
        is_in_block(after_actions(b, sent), b, sent),
        forall|n: nat|
            n < sent ==> ((#[trigger] nth_action(b, n)) matches ActionView::Send { data, .. } && data
                == segmented(
                b.transfer->0.transmitter.pdu,
                b.transfer->0.transmitter.params.m_optByPaddingByte,
            )[(b.transfer->0.transmitter.frames + n) as int]),
    decreases sent,
{
    if sent > 0 {
        let fewer = (sent - 1) as nat;
        lemma_block_goes_out(b, fewer);
        let now = after_actions(b, fewer);
        assert(is_in_block(now, b, fewer));
        assert(next_action(now).1 is Send);
        assert(nth_action(b, fewer) == next_action(now).1);
    }
}

/// A cleared block carries exactly the frames that come next: as many as the block size allows, or
/// all that are left where it is zero or allows more. Behind them the transfer is finished when
/// the PDU has gone out whole, and awaits the next flow control otherwise.
pub proof fn law_a_block_carries_the_next_frames(b: BridgeView)
    requires
        is_about_to_be_cleared(b),
        7 < b.transfer->0.transmitter.pdu.len() <= 4095,
        1 <= b.transfer->0.transmitter.frames < frame_count(b.transfer->0.transmitter.pdu.len()),
    ensures
        ({
            let t = b.transfer->0.transmitter;
            let frames = segmented(t.pdu, t.params.m_optByPaddingByte);
            let asked = b.queue[0].m_vecData@[1] as int;
            let owed = frames.len() - t.frames;
            let size = if asked == 0 || asked > owed {
                owed
            } else {
                asked
            };
            let cleared = awaited(b).0;
            &&& forall|n: nat|
                n < size ==> ((#[trigger] nth_action(cleared, n)) matches ActionView::Send {
                    data,
                    ..
                } && data == frames[(t.frames + n) as int])
            &&& size == owed ==> nth_action(cleared, size as nat) is Finished
            &&& size < owed ==> nth_action(cleared, size as nat) is AwaitFlowControl
        }),
{
    let t = b.transfer->0.transmitter;
    let asked = b.queue[0].m_vecData@[1] as int;
    let owed = frame_count(t.pdu.len()) - t.frames;
    let size = if asked == 0 || asked > owed {
        owed
    } else {
        asked
    };
    let cleared = awaited(b).0;
    lemma_block_goes_out(cleared, size as nat);
    assert(is_in_block(after_actions(cleared, size as nat), cleared, size as nat));
}

/// What becomes of a frame that arrives while a transfer waits for flow control. Flow control on an
/// identifier something listens on goes to the transfer; any other frame for the ECU that is
/// answering is dropped, because it can take no second request; everything else is kept, in the
/// order it came.
pub proof fn law_what_arrives_while_waiting(b: BridgeView)
    requires
        is_waiting(b),
        b.queue.len() > 0,
    ensures
        ({
            let frame = b.queue[0];
            let (after, taken) = awaited(b);
            let is_flow_control = frame.m_vecData@.len() > 0 && 0x30 <= frame.m_vecData@[0] <= 0x3F
                && b.endpoints.contains_key(frame.m_u32CanId);
            &&& after.queue == b.queue.skip(1)
            &&& is_flow_control ==> taken is FlowControl && after.deferred == b.deferred
            &&& !is_flow_control && frame.m_u32CanId == b.transfer->0.request ==> taken is Dropped
                && after.deferred == b.deferred && after.transfer == b.transfer
            &&& !is_flow_control && frame.m_u32CanId != b.transfer->0.request ==> taken is Deferred
                && after.deferred == b.deferred.push(frame) && after.transfer == b.transfer
        }),
{
    assert(b.queue.drop_first() =~= b.queue.skip(1));
}

/// How a transfer ends: when its last frame is out it is finished, when it was given up the reason
/// is handed on, and either way the frames kept meanwhile come before those that arrived since.
pub proof fn law_a_transfer_ends(b: BridgeView)
    requires
        b.transfer is Some,
    ensures
        ({
            let (after, action) = next_action(b);
            &&& b.transfer->0.transmitter.state is Complete ==> action is Finished
            &&& b.transfer->0.transmitter.state matches TransmitState::Aborted(error) ==> action
                == (ActionView::Failed { error })
            &&& b.transfer->0.transmitter.state is AwaitingFlowControl ==> action
                is AwaitFlowControl && after == b
            &&& action is Finished || action is Failed ==> after.transfer is None && after.queue
                == b.deferred + b.queue && after.deferred.len() == 0
            &&& action is Send || action is AwaitFlowControl ==> after.transfer is Some
                && after.queue == b.queue && after.deferred == b.deferred
        }),
{
}

} // verus!
