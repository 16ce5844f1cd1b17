//! What frames look like on the wire, and what each end makes of an odd one.

use vstd::prelude::*;

use crate::isotp::laws::frame_count;
use crate::isotp::laws::segmented;
use crate::isotp::params::padded;
use crate::isotp::params::IsoTpParameters;
use crate::isotp::reassembly::observed;
use crate::isotp::reassembly::Assembly;
use crate::isotp::rx::flow_control;
use crate::isotp::rx::received;
use crate::isotp::rx::IsoTpReceiveError;
use crate::isotp::rx::OutcomeView;
use crate::isotp::rx::ReceiverView;
use crate::isotp::tx::flow_controlled;
use crate::isotp::tx::next_consecutive;
use crate::isotp::tx::IsoTpTransportError;
use crate::isotp::tx::TransmitState;
use crate::isotp::tx::TransmitterView;

verus! {

/// A frame that carries some bytes: they come first, and the rest of the eight is padding, where
/// padding is configured.
pub open spec fn carries(frame: Seq<u8>, bytes: Seq<u8>, padding: Option<u8>) -> bool {
    &&& frame.len() >= bytes.len()
    &&& frame.take(bytes.len() as int) == bytes
    &&& padding is None ==> frame.len() == bytes.len()
    &&& padding is Some && bytes.len() <= 8 ==> frame.len() == 8
    &&& padding is Some ==> forall|i: int|
        bytes.len() <= i < frame.len() ==> frame[i] == padding->0
}

/// Padding fills a frame to eight bytes and changes none of its own.
pub proof fn law_padding_fills_a_frame(bytes: Seq<u8>, padding: Option<u8>)
    requires
        bytes.len() <= 8,
    ensures
        carries(padded(bytes, padding), bytes, padding),
{
    assert(padded(bytes, padding).take(bytes.len() as int) =~= bytes);
}

/// A PDU of up to seven bytes goes out in one frame, led by its length. A longer one goes out led
/// by 1 and its length in twelve bits with the first six bytes; then follow seven bytes at a time,
/// led by 2 and a number that counts from one and starts again at zero after fifteen.
pub proof fn law_segments_are_laid_out(pdu: Seq<u8>, padding: Option<u8>, k: int)
    requires
        1 <= pdu.len() <= 4095,
        0 <= k < segmented(pdu, padding).len(),
    ensures
        ({
            let frames = segmented(pdu, padding);
            let from = 6 + 7 * (k - 1);
            let to = if from + 7 < pdu.len() {
                from + 7
            } else {
                pdu.len() as int
            };
            &&& pdu.len() <= 7 ==> frames.len() == 1 && carries(
                frames[0],
                seq![pdu.len() as u8] + pdu,
                padding,
            )
            &&& pdu.len() > 7 && k == 0 ==> frames[0] == seq![
                (0x10 + pdu.len() as int / 256) as u8,
                (pdu.len() as int % 256) as u8,
            ] + pdu.take(6)
            &&& pdu.len() > 7 && k > 0 ==> from < pdu.len() && carries(
                frames[k],
                seq![(0x20 + k % 16) as u8] + pdu.subrange(from, to),
                padding,
            )
            &&& pdu.len() > 7 && k == frames.len() - 1 ==> to == pdu.len()
        }),
{
    let from = 6 + 7 * (k - 1);
    let to = if from + 7 < pdu.len() {
        from + 7
    } else {
        pdu.len() as int
    };
    if pdu.len() <= 7 {
        law_padding_fills_a_frame(seq![pdu.len() as u8] + pdu, padding);
    } else if k == 0 {
        assert(segmented(pdu, padding)[0] =~= seq![
            (0x10 + pdu.len() as int / 256) as u8,
            (pdu.len() as int % 256) as u8,
        ] + pdu.take(6));
    } else {
        law_padding_fills_a_frame(seq![(0x20 + k % 16) as u8] + pdu.subrange(from, to), padding);
    }
}

/// What a flow control does to a transfer that awaits one. Continue clears a block of the stated
/// size and forgets earlier waits. Ten waits in a row are borne and the eleventh ends the transfer,
/// as do an overflow and any status there is not. Where none is awaited, and where it is too short,
/// nothing happens.
pub proof fn law_flow_statuses(t: TransmitterView, frame: Seq<u8>)
    ensures
        ({
            let (result, after) = flow_controlled(t, frame);
            let status = frame[0] as int % 16;
            if t.state !is AwaitingFlowControl || frame.len() < 3 {
                result is Ok && after == t
            } else {
                &&& after.pdu == t.pdu
                &&& after.frames == t.frames
                &&& after.params == t.params
                &&& status == 0 ==> result is Ok && after.state is SendingBlock && after.waits == 0
                    && (if frame[1] == 0 {
                    after.block_left is None
                } else {
                    after.block_left == Some(frame[1] as nat)
                })
                &&& status == 1 && t.waits < 10 ==> result is Ok && after.state
                    is AwaitingFlowControl && after.waits == t.waits + 1
                &&& status == 1 && t.waits == 10 ==> after.state == TransmitState::Aborted(
                    IsoTpTransportError::TooManyWaitFrames { u8WaitCount: 11 },
                ) && result == Err::<(), _>(
                    IsoTpTransportError::TooManyWaitFrames { u8WaitCount: 11 },
                )
                &&& status == 2 ==> after.state == TransmitState::Aborted(
                    IsoTpTransportError::ReceiverOverflow,
                ) && result == Err::<(), _>(IsoTpTransportError::ReceiverOverflow)
                &&& status > 2 ==> after.state == TransmitState::Aborted(
                    IsoTpTransportError::InvalidFlowStatus { byFlowStatus: status as u8 },
                ) && result == Err::<(), _>(
                    IsoTpTransportError::InvalidFlowStatus { byFlowStatus: status as u8 },
                )
            }
        }),
{
}

/// Flow control on the wire: its status, then the block size and separation time of this end.
pub proof fn law_flow_control_is_laid_out(params: IsoTpParameters, status: u8)
    ensures
        carries(
            flow_control(params, status),
            seq![status, params.m_u8BlockSize, params.m_bySeparationTimeMin],
            params.m_optByPaddingByte,
        ),
{
    law_padding_fills_a_frame(
        seq![status, params.m_u8BlockSize, params.m_bySeparationTimeMin],
        params.m_optByPaddingByte,
    );
}

/// A message larger than this end holds is refused with an overflow, and nothing of it is kept; a
/// broadcast takes no long message at all; and a first frame for a message that would have fitted
/// a single one is passed over.
pub proof fn law_what_a_receiver_does_not_take(r: ReceiverView, data: Seq<u8>)
    requires
        data.len() >= 2,
        0x10 <= data[0] <= 0x1F,
    ensures
        ({
            let length = (data[0] - 0x10) * 256 + data[1];
            let (after, outcome) = received(r, data);
            &&& r.functional || length <= 7 ==> outcome is Nothing && after == r
            &&& !r.functional && length > 7 && length > r.max_pdu ==> after.pending is None
                && outcome == (OutcomeView::Refused { frame: flow_control(r.params, 0x32) })
            &&& !r.functional && 7 < length <= r.max_pdu ==> after.pending is Some && outcome == (
            OutcomeView::SendFlowControl { frame: flow_control(r.params, 0x30) })
        }),
{
}

/// A consecutive frame with another number than the next ends the message, names both numbers, and
/// hands nothing on; without a message in progress it is passed over.
pub proof fn law_a_gap_ends_the_message(r: ReceiverView, data: Seq<u8>)
    requires
        data.len() >= 1,
        0x20 <= data[0] <= 0x2F,
        r.pending matches Some(assembly) ==> assembly.next < 16,
    ensures
        ({
            let (after, outcome) = received(r, data);
            match r.pending {
                None => outcome is Nothing && after == r,
                Some(assembly) => data[0] - 0x20 != assembly.next ==> after.pending is None
                    && outcome == (OutcomeView::Aborted {
                    error: IsoTpReceiveError::WrongSequenceNumber {
                        u8Expected: assembly.next as u8,
                        u8Received: (data[0] - 0x20) as u8,
                    },
                }),
            }
        }),
{
}

/// A single frame is a message of its own, live and recorded, whatever was in progress: the bytes
/// its length counts, and no padding. A recording may hold the long form too, whose length stands
/// in the second byte.
pub proof fn law_a_single_frame_is_a_message(
    r: ReceiverView,
    pending: Option<Assembly>,
    bytes: Seq<u8>,
    padding: Seq<u8>,
    at: u64,
)
    requires
        1 <= bytes.len() < 256,
    ensures
        bytes.len() <= 15 ==> ({
            let frame = seq![bytes.len() as u8] + bytes + padding;
            let (after, outcome) = received(r, frame);
            let (left, message) = observed(pending, frame, at);
            &&& outcome == (OutcomeView::Completed { pdu: bytes })
            &&& after.pending is None
            &&& left is None
            &&& message is Some
            &&& message->0.data == bytes
            &&& message->0.started == at
            &&& message->0.completed == at
        }),
        ({
            let frame = seq![0u8, bytes.len() as u8] + bytes + padding;
            let (left, message) = observed(pending, frame, at);
            &&& left is None
            &&& message is Some
            &&& message->0.data == bytes
        }),
{
    let n = bytes.len() as int;
    let frame = seq![bytes.len() as u8] + bytes + padding;
    let long = seq![0u8, bytes.len() as u8] + bytes + padding;
    assert(frame.subrange(1, 1 + n) =~= bytes);
    assert(long.subrange(2, 2 + n) =~= bytes);
}

/// A receiver lets a sender go on for one block at a time: it answers the last frame of each block
/// with a clear to send and counts anew, stays silent on every frame before it, and never asks for
/// a pause where it set no block size.
pub proof fn law_each_block_is_answered_once(r: ReceiverView, data: Seq<u8>)
    requires
        data.len() >= 1,
        0x20 <= data[0] <= 0x2F,
        r.pending is Some,
        r.pending->0.next == data[0] - 0x20,
        r.pending->0.remaining > data.len() - 1,
        r.block_left matches Some(left) ==> left >= 1,
    ensures
        ({
            let (after, outcome) = received(r, data);
            &&& after.pending is Some
            &&& after.pending->0.buffer == r.pending->0.buffer + data.skip(1)
            &&& after.pending->0.remaining == r.pending->0.remaining - (data.len() - 1)
            &&& r.block_left is None ==> outcome is Nothing && after.block_left is None
            &&& r.block_left == Some(1nat) ==> outcome == (OutcomeView::SendFlowControl {
                frame: flow_control(r.params, 0x30),
            })
            &&& r.block_left == Some(1nat) && r.params.m_u8BlockSize > 0 ==> after.block_left
                == Some(r.params.m_u8BlockSize as nat)
            &&& r.block_left matches Some(left) ==> (left > 1 ==> outcome is Nothing
                && after.block_left == Some((left - 1) as nat))
        }),
{
    assert(data.subrange(1, data.len() as int) =~= data.skip(1));
}

/// A first frame opens a message of the length it states with the bytes it carries, and with a
/// whole block to go.
pub proof fn law_a_first_frame_opens_a_message(r: ReceiverView, data: Seq<u8>)
    requires
        data.len() == 8,
        0x10 <= data[0] <= 0x1F,
        !r.functional,
        7 < (data[0] - 0x10) * 256 + data[1] <= r.max_pdu,
    ensures
        ({
            let after = received(r, data).0;
            &&& after.pending is Some
            &&& after.pending->0.buffer == data.skip(2)
            &&& after.pending->0.remaining == (data[0] - 0x10) * 256 + data[1] - 6
            &&& after.pending->0.next == 1
            &&& r.params.m_u8BlockSize > 0 ==> after.block_left == Some(
                r.params.m_u8BlockSize as nat,
            )
            &&& r.params.m_u8BlockSize == 0 ==> after.block_left is None
        }),
{
    assert(data.subrange(2, 8) =~= data.skip(2));
}

/// A sender that may go on hands out the frames of its message in their order, one at a time, and
/// is done with the last; at the end of a block it hands out none and waits to be let on; while it
/// may not go on it hands out none and stays as it is.
pub proof fn law_a_sender_hands_out_its_frames(t: TransmitterView)
    requires
        t.pdu.len() > 7,
        1 <= t.frames < frame_count(t.pdu.len()),
    ensures
        ({
            let frames = segmented(t.pdu, t.params.m_optByPaddingByte);
            let (after, frame) = next_consecutive(t);
            &&& t.state !is SendingBlock ==> frame is None && after == t
            &&& t.state is SendingBlock && t.block_left == Some(0nat) ==> frame is None
                && after.state is AwaitingFlowControl && after.frames == t.frames
            &&& t.state is SendingBlock && t.block_left != Some(0nat) ==> {
                &&& frame == Some(frames[t.frames as int])
                &&& after.frames == t.frames + 1
                &&& after.pdu == t.pdu
                &&& after.separation_us == t.separation_us
                &&& after.state is Complete <==> after.frames == frames.len()
                &&& after.state is Complete || after.state is SendingBlock
                &&& t.block_left matches Some(left) ==> after.block_left == Some((left - 1) as nat)
                &&& t.block_left is None ==> after.block_left is None
            }
        }),
{
}

/// In a recording a first frame opens a message too, of the length it states, and never takes more
/// bytes than that from the frame: what it has and what is still to come add up to the length.
pub proof fn law_a_recorded_first_frame_opens_a_message(
    pending: Option<Assembly>,
    data: Seq<u8>,
    at: u64,
)
    requires
        data.len() >= 2,
        0x10 <= data[0] <= 0x1F,
    ensures
        ({
            let length = (data[0] - 0x10) * 256 + data[1];
            let (after, message) = observed(pending, data, at);
            &&& message is None
            &&& length == 0 ==> after is None
            &&& length > 0 ==> {
                &&& after is Some
                &&& after->0.buffer.is_prefix_of(data.skip(2))
                &&& after->0.buffer.len() == length || after->0.buffer.len() == data.len() - 2
                &&& after->0.buffer.len() + after->0.remaining == length
                &&& after->0.started == at
                &&& after->0.next == 1
            }
        }),
{
}

} // verus!
