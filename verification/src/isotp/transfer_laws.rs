//! What a whole transfer gives out, block by block.

use vstd::prelude::*;

use crate::isotp::laws::frame_count;
use crate::isotp::laws::segmented;
use crate::isotp::params::padded;
use crate::isotp::tx::begun;
use crate::isotp::tx::bytes_in;
use crate::isotp::tx::consecutive_frame;
use crate::isotp::tx::flow_controlled;
use crate::isotp::tx::next_consecutive;
use crate::isotp::tx::TransmitState;
use crate::isotp::tx::TransmitterView;

verus! {

/// A transmitter asked for consecutive frames until it gives none, and the frames it gave.
pub open spec fn drained(t: TransmitterView) -> (TransmitterView, Seq<Seq<u8>>)
    decreases
            if t.state is SendingBlock {
                if t.pdu.len() >= 7 * t.frames {
                    t.pdu.len() - 7 * t.frames + 1
                } else {
                    1
                }
            } else {
                0
            },
{
    let step = next_consecutive(t);
    match step.1 {
        None => (step.0, seq![]),
        Some(frame) => {
            let rest = drained(step.0);
            (rest.0, seq![frame] + rest.1)
        },
    }
}

/// A flow control that clears the sender for a block.
pub open spec fn is_clearance(control: Seq<u8>) -> bool {
    control.len() >= 3 && control[0] as int % 16 == 0
}

/// A transmitter after a series of flow controls, each followed by asking for frames until none
/// comes, and the frames it gave in all.
pub open spec fn transferred(t: TransmitterView, controls: Seq<Seq<u8>>) -> (
    TransmitterView,
    Seq<Seq<u8>>,
)
    decreases controls.len(),
{
    if controls.len() == 0 {
        (t, seq![])
    } else {
        let before = transferred(t, controls.drop_last());
        let block = drained(flow_controlled(before.0, controls.last()).1);
        (block.0, before.1 + block.1)
    }
}

/// How many frames of a long PDU have gone out once a series of flow controls has cleared its
/// blocks: the first frame, and as many more as the block sizes add up to. Block size zero clears
/// all that are left.
pub open spec fn sent_after(len: nat, controls: Seq<Seq<u8>>) -> nat
    decreases controls.len(),
{
    if controls.len() == 0 {
        1
    } else {
        let before = sent_after(len, controls.drop_last());
        let block_size = controls.last()[1] as nat;
        if block_size == 0 || before + block_size > frame_count(len) {
            frame_count(len)
        } else {
            before + block_size
        }
    }
}

/// Where a long transfer stands after some of its frames, with the block used up: it awaits flow
/// control until the last frame has gone out.
spec fn stands_at(t: TransmitterView, pdu: Seq<u8>, padding: Option<u8>, frames: nat) -> bool {
    &&& t.pdu == pdu
    &&& t.params.m_optByPaddingByte == padding
    &&& t.frames == frames
    &&& t.state == if frames == frame_count(pdu.len()) {
        TransmitState::Complete
    } else {
        TransmitState::AwaitingFlowControl
    }
}

proof fn lemma_block_is_drained(t: TransmitterView)
    requires
        7 < t.pdu.len() <= 4095,
        t.state is SendingBlock,
        1 <= t.frames < frame_count(t.pdu.len()),
    ensures
        ({
            let len = t.pdu.len();
            let padding = t.params.m_optByPaddingByte;
            let until = if t.block_left is None || t.frames + t.block_left->0 > frame_count(len) {
                frame_count(len)
            } else {
                t.frames + t.block_left->0
            };
            &&& stands_at(drained(t).0, t.pdu, padding, until)
            &&& drained(t).1 == segmented(t.pdu, padding).subrange(t.frames as int, until as int)
        }),
    decreases frame_count(t.pdu.len()) - t.frames,
{
    let len = t.pdu.len();
    let padding = t.params.m_optByPaddingByte;
    let all = segmented(t.pdu, padding);
    let until = if t.block_left is None || t.frames + t.block_left->0 > frame_count(len) {
        frame_count(len)
    } else {
        t.frames + t.block_left->0
    };
    let step = next_consecutive(t);
    if t.block_left == Some(0nat) {
        assert(all.subrange(t.frames as int, until as int) =~= seq![]);
    } else {
        let next = step.0;
        assert(step.1 == Some(all[t.frames as int]));
        if next.state is SendingBlock {
            assert(next.frames < frame_count(len));
            lemma_block_is_drained(next);
        } else {
            assert(next.frames == frame_count(len));
            assert(drained(next) == (next, Seq::<Seq<u8>>::empty()));
        }
        assert(drained(t).1 =~= all.subrange(t.frames as int, until as int));
    }
}

proof fn lemma_sent_is_within(len: nat, controls: Seq<Seq<u8>>)
    requires
        7 < len,
    ensures
        1 <= sent_after(len, controls) <= frame_count(len),
    decreases controls.len(),
{
    if controls.len() > 0 {
        lemma_sent_is_within(len, controls.drop_last());
    }
}

/// A whole transfer, in whatever blocks the peer asks for: the frame that opens it and those given
/// out after each flow control are the frames of the PDU, in order, as many as the block sizes
/// allow. Numbering runs on across blocks. While frames are owed, the used-up block leaves the
/// transmitter awaiting flow control; after the last frame the transfer is complete.
pub proof fn law_transfer_sends_the_segmented_pdu(
    t: TransmitterView,
    pdu: Seq<u8>,
    controls: Seq<Seq<u8>>,
)
    requires
        7 < pdu.len() <= 4095,
        forall|i: int| 0 <= i < controls.len() ==> is_clearance(#[trigger] controls[i]),
    ensures
        ({
            let opened = begun(t, pdu);
            let after = transferred(opened.0, controls);
            let sent = sent_after(pdu.len(), controls);
            &&& 1 <= sent <= frame_count(pdu.len())
            &&& seq![opened.1] + after.1 == segmented(pdu, t.params.m_optByPaddingByte).take(
                sent as int,
            )
            &&& after.0.frames == sent
            &&& sent == frame_count(pdu.len()) ==> after.0.state is Complete
            &&& sent < frame_count(pdu.len()) ==> after.0.state is AwaitingFlowControl
        }),
{
    lemma_transfer(t, pdu, controls);
}

proof fn lemma_transfer(t: TransmitterView, pdu: Seq<u8>, controls: Seq<Seq<u8>>)
    requires
        7 < pdu.len() <= 4095,
        forall|i: int| 0 <= i < controls.len() ==> is_clearance(#[trigger] controls[i]),
    ensures
        1 <= sent_after(pdu.len(), controls) <= frame_count(pdu.len()),
        seq![begun(t, pdu).1] + transferred(begun(t, pdu).0, controls).1 == segmented(
            pdu,
            t.params.m_optByPaddingByte,
        ).take(sent_after(pdu.len(), controls) as int),
        stands_at(
            transferred(begun(t, pdu).0, controls).0,
            pdu,
            t.params.m_optByPaddingByte,
            sent_after(pdu.len(), controls),
        ),
    decreases controls.len(),
{
    let padding = t.params.m_optByPaddingByte;
    let all = segmented(pdu, padding);
    let opened = begun(t, pdu);
    lemma_sent_is_within(pdu.len(), controls);
    if controls.len() == 0 {
        assert(seq![opened.1] + transferred(opened.0, controls).1 =~= all.take(1));
    } else {
        let head = controls.drop_last();
        assert forall|i: int| 0 <= i < head.len() implies is_clearance(#[trigger] head[i]) by {
            assert(head[i] == controls[i]);
        }
        lemma_transfer(t, pdu, head);
        assert(is_clearance(controls[controls.len() - 1]));
        let before = transferred(opened.0, head);
        let sent_before = sent_after(pdu.len(), head);
        let sent = sent_after(pdu.len(), controls);
        let cleared = flow_controlled(before.0, controls.last()).1;
        if sent_before < frame_count(pdu.len()) {
            lemma_block_is_drained(cleared);
            assert(drained(cleared).1 == all.subrange(sent_before as int, sent as int));
            assert(all.take(sent_before as int) + all.subrange(sent_before as int, sent as int)
                =~= all.take(sent as int));
        } else {
            assert(drained(cleared) == (cleared, Seq::<Seq<u8>>::empty()));
        }
        assert(seq![opened.1] + transferred(opened.0, controls).1 =~= (seq![opened.1] + before.1)
            + drained(cleared).1);
        assert(seq![opened.1] + transferred(opened.0, controls).1 =~= all.take(sent as int));
    }
}

/// Blocks of one size: each flow control lets that many frames out, until none is left. Block size
/// zero lets all of them out at once.
pub proof fn law_blocks_of_one_size_add_up(len: nat, controls: Seq<Seq<u8>>, block_size: u8)
    requires
        7 < len,
        forall|i: int| 0 <= i < controls.len() ==> (#[trigger] controls[i])[1] == block_size,
    ensures
        block_size == 0 ==> sent_after(len, controls) == if controls.len() == 0 {
            1
        } else {
            frame_count(len)
        },
        block_size > 0 ==> sent_after(len, controls) == if 1 + controls.len() * block_size
            > frame_count(len) {
            frame_count(len) as int
        } else {
            1 + controls.len() * block_size
        },
    decreases controls.len(),
{
    if controls.len() > 0 {
        let head = controls.drop_last();
        assert forall|i: int| 0 <= i < head.len() implies (#[trigger] head[i])[1] == block_size by {
            assert(head[i] == controls[i]);
        }
        law_blocks_of_one_size_add_up(len, head, block_size);
        assert(controls[controls.len() - 1][1] == block_size);
        let n = controls.len() as int;
        let b = block_size as int;
        assert(n * b == (n - 1) * b + b) by (nonlinear_arith);
    }
}

/// The bodies of frames behind their first byte, joined.
pub open spec fn joined_bodies(frames: Seq<Seq<u8>>) -> Seq<u8>
    decreases frames.len(),
{
    if frames.len() == 0 {
        seq![]
    } else {
        joined_bodies(frames.drop_last()) + frames.last().skip(1)
    }
}

proof fn lemma_bodies(pdu: Seq<u8>, padding: Option<u8>, k: int)
    requires
        7 < pdu.len() <= 4095,
        1 <= k <= frame_count(pdu.len()),
    ensures
        ({
            let bodies = joined_bodies(segmented(pdu, padding).subrange(1, k));
            let upto = bytes_in(pdu.len() as int, k);
            &&& bodies.len() >= upto - 6
            &&& k < frame_count(pdu.len()) ==> bodies.len() == upto - 6
            &&& bodies.take(upto - 6) == pdu.subrange(6, upto)
        }),
    decreases k,
{
    let all = segmented(pdu, padding);
    let some = all.subrange(1, k);
    let upto = bytes_in(pdu.len() as int, k);
    if k == 1 {
        assert(joined_bodies(some) =~= seq![]);
        assert(joined_bodies(some).take(0) =~= pdu.subrange(6, 6));
    } else {
        lemma_bodies(pdu, padding, k - 1);
        assert(some.drop_last() =~= all.subrange(1, k - 1));
        assert(some.last() == consecutive_frame(pdu, k - 1, padding));
        let from = bytes_in(pdu.len() as int, k - 1);
        let bare = seq![(32 + (k - 1) % 16) as u8] + pdu.subrange(from, upto);
        assert(some.last() == padded(bare, padding));
        let body = some.last().skip(1);
        assert(body.len() >= upto - from);
        assert(body.take(upto - from) =~= pdu.subrange(from, upto));
        assert(k < frame_count(pdu.len()) ==> body.len() == 7);
        let before = joined_bodies(some.drop_last());
        assert(before.len() == from - 6);
        assert(before.take(from - 6) =~= before);
        assert(joined_bodies(some).take(upto - 6) =~= before + body.take(upto - from));
        assert(pdu.subrange(6, from) + pdu.subrange(from, upto) =~= pdu.subrange(6, upto));
    }
}

/// What the frames behind the first one are: as many as seven bytes each need for what the first
/// frame left over, numbered from one modulo sixteen, and together they carry the rest of the PDU.
pub proof fn law_consecutive_frames_carry_the_rest(pdu: Seq<u8>, padding: Option<u8>)
    requires
        7 < pdu.len() <= 4095,
    ensures
        ({
            let frames = segmented(pdu, padding);
            &&& 7 * (frames.len() - 2) < pdu.len() - 6 <= 7 * (frames.len() - 1)
            &&& forall|k: int|
                1 <= k < frames.len() ==> (#[trigger] frames[k]).len() > 0 && frames[k][0] as int
                    == 0x20 + k % 16
            &&& joined_bodies(frames.skip(1)).len() >= pdu.len() - 6
            &&& joined_bodies(frames.skip(1)).take(pdu.len() - 6) == pdu.skip(6)
        }),
{
    let frames = segmented(pdu, padding);
    lemma_bodies(pdu, padding, frame_count(pdu.len()) as int);
    assert(frames.subrange(1, frames.len() as int) =~= frames.skip(1));
    assert(pdu.subrange(6, pdu.len() as int) =~= pdu.skip(6));
    assert forall|k: int| 1 <= k < frames.len() implies (#[trigger] frames[k]).len() > 0
        && frames[k][0] as int == 0x20 + k % 16 by {
        assert(frames[k] == consecutive_frame(pdu, k, padding));
    }
}

} // verus!
