//! What the transport promises as a whole: a segmented PDU comes back unchanged, whether it is
//! read live or from a recording, and the live and the offline reader agree.

use vstd::prelude::*;

use crate::bytes::min_int;
use crate::can::CanFrame;
use crate::isotp::params::padded;
use crate::isotp::params::IsoTpParameters;
use crate::isotp::reassembly::extended;
use crate::isotp::reassembly::first_frame_length;
use crate::isotp::reassembly::observed;
use crate::isotp::reassembly::opened;
use crate::isotp::reassembly::pci_low;
use crate::isotp::reassembly::pci_type;
use crate::isotp::reassembly::reassembled;
use crate::isotp::reassembly::Assembly;
use crate::isotp::reassembly::MessageView;
use crate::isotp::rx::flow_control;
use crate::isotp::rx::idle;
use crate::isotp::rx::received;
use crate::isotp::rx::OutcomeView;
use crate::isotp::rx::ReceiverView;
use crate::isotp::tx::after_consecutive;
use crate::isotp::tx::bytes_in;
use crate::isotp::tx::consecutive_frame;
use crate::isotp::tx::first_frame;
use crate::isotp::tx::single_frame;
use crate::isotp::tx::TransmitterView;

verus! {

/// How many frames a PDU of the given length takes.
pub open spec fn frame_count(len: nat) -> nat {
    if len <= 7 {
        1
    } else {
        1 + len / 7
    }
}

/// The frames that carry a PDU, in order: the one frame of a short PDU, or the first frame and
/// the numbered consecutive frames of a long one.
pub open spec fn segmented(pdu: Seq<u8>, padding: Option<u8>) -> Seq<Seq<u8>> {
    if pdu.len() <= 7 {
        seq![single_frame(pdu, padding)]
    } else {
        Seq::new(
            frame_count(pdu.len()),
            |k: int|
                if k == 0 {
                    first_frame(pdu)
                } else {
                    consecutive_frame(pdu, k, padding)
                },
        )
    }
}

/// A receiver after a whole stream of frames, and the outcome of each.
pub open spec fn received_all(r: ReceiverView, frames: Seq<Seq<u8>>) -> (
    ReceiverView,
    Seq<OutcomeView>,
)
    decreases frames.len(),
{
    if frames.len() == 0 {
        (r, seq![])
    } else {
        let before = received_all(r, frames.drop_last());
        let step = received(before.0, frames.last());
        (step.0, before.1.push(step.1))
    }
}

/// The PDUs that a series of outcomes completed, in order.
pub open spec fn completed_pdus(outcomes: Seq<OutcomeView>) -> Seq<Seq<u8>>
    decreases outcomes.len(),
{
    if outcomes.len() == 0 {
        seq![]
    } else {
        let before = completed_pdus(outcomes.drop_last());
        match outcomes.last() {
            OutcomeView::Completed { pdu } => before.push(pdu),
            _ => before,
        }
    }
}

/// The payloads of a list of frames.
pub open spec fn payloads(frames: Seq<CanFrame>) -> Seq<Seq<u8>> {
    Seq::new(frames.len(), |i: int| frames[i].m_vecData@)
}

/// A PDU part-way through its transfer: the bytes the first `k` frames carry.
spec fn part_way(pdu: Seq<u8>, k: int, started: u64) -> Assembly {
    Assembly {
        buffer: pdu.take(bytes_in(pdu.len() as int, k)),
        remaining: (pdu.len() - bytes_in(pdu.len() as int, k)) as nat,
        started,
        next: (k % 16) as nat,
    }
}

proof fn lemma_first_frame(pdu: Seq<u8>, at: u64)
    requires
        7 < pdu.len() <= 4095,
    ensures
        first_frame(pdu).len() == 8,
        pci_type(first_frame(pdu)) == 1,
        first_frame_length(first_frame(pdu)) == pdu.len(),
        opened(first_frame(pdu), at) == Some(part_way(pdu, 1, at)),
{
    let f = first_frame(pdu);
    assert(f.subrange(2, 8) =~= pdu.take(6));
    assert(opened(f, at)->0.buffer =~= part_way(pdu, 1, at).buffer);
}

proof fn lemma_consecutive_frame(pdu: Seq<u8>, k: int, padding: Option<u8>, started: u64)
    requires
        7 < pdu.len() <= 4095,
        1 <= k,
        bytes_in(pdu.len() as int, k) < pdu.len(),
    ensures
        consecutive_frame(pdu, k, padding).len() >= 1,
        pci_type(consecutive_frame(pdu, k, padding)) == 2,
        pci_low(consecutive_frame(pdu, k, padding)) == k % 16,
        extended(part_way(pdu, k, started), consecutive_frame(pdu, k, padding)) == part_way(
            pdu,
            k + 1,
            started,
        ),
{
    let len = pdu.len() as int;
    let from = bytes_in(len, k);
    let to = bytes_in(len, k + 1);
    let bare = seq![(32 + k % 16) as u8] + pdu.subrange(from, to);
    let f = consecutive_frame(pdu, k, padding);
    assert(f == padded(bare, padding));
    let a = part_way(pdu, k, started);
    let taken = min_int(f.len() - 1, a.remaining as int);
    assert(taken == to - from);
    assert(f.subrange(1, 1 + taken) =~= pdu.subrange(from, to));
    assert(pdu.take(from) + pdu.subrange(from, to) =~= pdu.take(to));
}

proof fn lemma_single_frame(pdu: Seq<u8>, padding: Option<u8>)
    requires
        1 <= pdu.len() <= 7,
    ensures
        single_frame(pdu, padding).len() >= pdu.len() + 1,
        pci_type(single_frame(pdu, padding)) == 0,
        pci_low(single_frame(pdu, padding)) == pdu.len(),
        single_frame(pdu, padding).subrange(1, 1 + pdu.len() as int) == pdu,
{
    assert(single_frame(pdu, padding).subrange(1, 1 + pdu.len() as int) =~= pdu);
}

/// What a receiver with the given parameters owes for frame `k` of a long PDU, the last one aside:
/// flow control for the first frame, and for every consecutive frame that ends a block.
pub open spec fn owed_for(params: IsoTpParameters, k: int) -> OutcomeView {
    if k == 0 || (params.m_u8BlockSize > 0 && k % params.m_u8BlockSize as int == 0) {
        OutcomeView::SendFlowControl { frame: flow_control(params, 0x30) }
    } else {
        OutcomeView::Nothing
    }
}

/// How many consecutive frames are left in the block after the first frame and `k` consecutive
/// ones.
spec fn left_in_block(params: IsoTpParameters, k: int) -> Option<nat> {
    if params.m_u8BlockSize == 0 {
        None
    } else {
        Some((params.m_u8BlockSize - k % params.m_u8BlockSize as int) as nat)
    }
}

proof fn lemma_next_in_block(k: int, block_size: int)
    requires
        block_size > 0,
        k >= 0,
    ensures
        0 <= k % block_size < block_size,
        k % block_size == block_size - 1 ==> (k + 1) % block_size == 0,
        k % block_size < block_size - 1 ==> (k + 1) % block_size == k % block_size + 1,
{
    let q = k / block_size;
    let r = k % block_size;
    vstd::arithmetic::div_mod::lemma_fundamental_div_mod(k, block_size);
    vstd::arithmetic::div_mod::lemma_mod_bound(k, block_size);
    if r == block_size - 1 {
        assert(k + 1 == (q + 1) * block_size + 0) by (nonlinear_arith)
            requires
                k == block_size * q + r,
                r == block_size - 1,
        ;
        vstd::arithmetic::div_mod::lemma_fundamental_div_mod_converse(
            k + 1,
            block_size,
            q + 1,
            0,
        );
    } else {
        assert(k + 1 == q * block_size + (r + 1)) by (nonlinear_arith)
            requires
                k == block_size * q + r,
        ;
        vstd::arithmetic::div_mod::lemma_fundamental_div_mod_converse(k + 1, block_size, q, r + 1);
    }
}

/// After `k` frames of a long PDU the receiver holds exactly the bytes they carry, or has
/// completed the PDU at the last one; nothing else is ever completed, and flow control is owed at
/// the block ends.
proof fn lemma_receive_long(r: ReceiverView, pdu: Seq<u8>, padding: Option<u8>, k: nat)
    requires
        7 < pdu.len() <= 4095,
        !r.functional,
        pdu.len() <= r.max_pdu,
        1 <= k <= frame_count(pdu.len()),
    ensures
        ({
            let after = received_all(r, segmented(pdu, padding).take(k as int));
            &&& after.1.len() == k
            &&& after.0.params == r.params
            &&& after.0.max_pdu == r.max_pdu
            &&& after.0.functional == r.functional
            &&& k < frame_count(pdu.len()) ==> after.0.pending == Some(part_way(pdu, k as int, 0))
                && after.0.block_left == left_in_block(r.params, k - 1) && completed_pdus(after.1)
                == Seq::<Seq<u8>>::empty()
            &&& k == frame_count(pdu.len()) ==> after.0 == idle(r) && completed_pdus(after.1)
                == seq![pdu] && after.1.last() == (OutcomeView::Completed { pdu })
            &&& forall|i: int|
                0 <= i < k && i < frame_count(pdu.len()) - 1 ==> (#[trigger] after.1[i])
                    == owed_for(r.params, i)
        }),
    decreases k,
{
    let frames = segmented(pdu, padding);
    let upto = frames.take(k as int);
    assert(upto.drop_last() =~= frames.take(k - 1));
    assert(upto.last() == frames[k - 1]);
    let before = received_all(r, frames.take(k - 1));
    let after = received_all(r, upto);
    assert(after.1.drop_last() =~= before.1);
    if k == 1 {
        assert(frames.take(0) =~= seq![]);
        lemma_first_frame(pdu, 0);
        assert(completed_pdus(before.1) =~= seq![]);
        if r.params.m_u8BlockSize > 0 {
            lemma_next_in_block(0, r.params.m_u8BlockSize as int);
            assert(0int % (r.params.m_u8BlockSize as int) == 0);
        }
    } else {
        lemma_receive_long(r, pdu, padding, (k - 1) as nat);
        lemma_consecutive_frame(pdu, k - 1, padding, 0);
        if r.params.m_u8BlockSize > 0 {
            lemma_next_in_block(k - 2, r.params.m_u8BlockSize as int);
        }
        if k == frame_count(pdu.len()) {
            assert(part_way(pdu, k as int, 0).buffer =~= pdu);
            assert(completed_pdus(after.1) =~= seq![pdu]);
        }
        assert forall|i: int| 0 <= i < k && i < frame_count(pdu.len()) - 1 implies (
        #[trigger] after.1[i]) == owed_for(r.params, i) by {
            if i < k - 1 {
                assert(after.1[i] == before.1[i]);
            }
        }
    }
}

/// A PDU sent as ISO-TP frames comes back unchanged: a receiver that takes in the frames of any
/// PDU it can hold completes exactly that PDU, at the last frame. Before that it owes flow control
/// exactly at the first frame and, with a block size, at every consecutive frame that ends a
/// block, and nothing at the others. It does not matter what the receiver was in the middle of,
/// and afterwards it is in the middle of nothing.
pub proof fn law_segmented_pdu_is_received(
    r: ReceiverView,
    pdu: Seq<u8>,
    padding: Option<u8>,
)
    requires
        1 <= pdu.len() <= 4095,
        pdu.len() > 7 ==> !r.functional && pdu.len() <= r.max_pdu,
    ensures
        ({
            let after = received_all(r, segmented(pdu, padding));
            &&& after.0 == idle(r)
            &&& completed_pdus(after.1) == seq![pdu]
            &&& after.1.len() == frame_count(pdu.len())
            &&& after.1.last() == (OutcomeView::Completed { pdu })
            &&& forall|i: int|
                0 <= i < after.1.len() - 1 ==> (#[trigger] after.1[i]) == owed_for(r.params, i)
        }),
{
    let frames = segmented(pdu, padding);
    if pdu.len() > 7 {
        lemma_receive_long(r, pdu, padding, frame_count(pdu.len()));
        assert(frames.take(frame_count(pdu.len()) as int) =~= frames);
    } else {
        lemma_single_frame(pdu, padding);
        assert(frames.drop_last() =~= seq![]);
        let after = received_all(r, frames);
        assert(received_all(r, frames.drop_last()) == (r, Seq::<OutcomeView>::empty()));
        assert(after.1.drop_last() =~= seq![]);
        assert(completed_pdus(after.1.drop_last()) =~= seq![]);
        assert(completed_pdus(after.1) =~= seq![pdu]);
    }
}

proof fn lemma_reassemble_long(frames: Seq<CanFrame>, pdu: Seq<u8>, padding: Option<u8>, k: nat)
    requires
        7 < pdu.len() <= 4095,
        1 <= k <= frames.len(),
        k <= frame_count(pdu.len()),
        forall|i: int|
            0 <= i < k ==> (#[trigger] frames[i]).m_vecData@ == segmented(pdu, padding)[i],
    ensures
        ({
            let after = reassembled(frames.take(k as int));
            let at = frames[0].m_u64TimestampUs;
            &&& k < frame_count(pdu.len()) ==> after == (
                Some(part_way(pdu, k as int, at)),
                Seq::<MessageView>::empty(),
            )
            &&& k == frame_count(pdu.len()) ==> after == (
                None::<Assembly>,
                seq![
                    MessageView {
                        started: at,
                        completed: frames[k - 1].m_u64TimestampUs,
                        data: pdu,
                    },
                ],
            )
        }),
    decreases k,
{
    let at = frames[0].m_u64TimestampUs;
    let upto = frames.take(k as int);
    let data = frames[k - 1].m_vecData@;
    assert(upto.drop_last() =~= frames.take(k - 1));
    assert(upto.last() == frames[k - 1]);
    assert(data == segmented(pdu, padding)[k - 1]);
    if k == 1 {
        assert(frames.take(0) =~= seq![]);
        lemma_first_frame(pdu, at);
        assert(data == first_frame(pdu));
        assert(reassembled(frames.take(0)) == (None::<Assembly>, Seq::<MessageView>::empty()));
        assert(reassembled(upto).0 == Some(part_way(pdu, 1, at)));
    } else {
        lemma_reassemble_long(frames, pdu, padding, (k - 1) as nat);
        lemma_consecutive_frame(pdu, k - 1, padding, at);
        let before = reassembled(frames.take(k - 1));
        assert(before == (Some(part_way(pdu, k - 1, at)), Seq::<MessageView>::empty()));
        assert(data == consecutive_frame(pdu, k - 1, padding));
        assert(extended(before.0->0, data) == part_way(pdu, k as int, at));
        if k == frame_count(pdu.len()) {
            let message = MessageView {
                started: at,
                completed: frames[k - 1].m_u64TimestampUs,
                data: pdu,
            };
            assert(part_way(pdu, k as int, at).buffer =~= pdu);
            assert(part_way(pdu, k as int, at).remaining == 0);
            assert(before.1.push(message) =~= seq![message]);
        } else {
            assert(part_way(pdu, k as int, at).remaining > 0);
        }
    }
}

/// A recording of the frames of one PDU reassembles into that one PDU, which starts with the
/// first frame and completes with the last.
pub proof fn law_segmented_pdu_is_reassembled(
    frames: Seq<CanFrame>,
    pdu: Seq<u8>,
    padding: Option<u8>,
)
    requires
        1 <= pdu.len() <= 4095,
        payloads(frames) == segmented(pdu, padding),
    ensures
        reassembled(frames) == (
            None::<Assembly>,
            seq![
                MessageView {
                    started: frames[0].m_u64TimestampUs,
                    completed: frames.last().m_u64TimestampUs,
                    data: pdu,
                },
            ],
        ),
{
    assert(payloads(frames).len() == frames.len());
    if pdu.len() > 7 {
        assert forall|i: int| 0 <= i < frames.len() implies (#[trigger] frames[i]).m_vecData@
            == segmented(pdu, padding)[i] by {
            assert(payloads(frames)[i] == frames[i].m_vecData@);
        }
        lemma_reassemble_long(frames, pdu, padding, frames.len());
        assert(frames.take(frames.len() as int) =~= frames);
    } else {
        lemma_single_frame(pdu, padding);
        assert(payloads(frames)[0] == frames[0].m_vecData@);
        assert(frames.drop_last() =~= seq![]);
        assert(reassembled(frames.drop_last()).1 =~= seq![]);
    }
}

/// A flow-control frame.
pub open spec fn is_flow_control(frame: CanFrame) -> bool {
    frame.m_vecData@.len() > 0 && pci_type(frame.m_vecData@) == 3
}

/// A stream without its flow-control frames.
pub open spec fn without_flow_control(frames: Seq<CanFrame>) -> Seq<CanFrame>
    decreases frames.len(),
{
    if frames.len() == 0 {
        seq![]
    } else {
        let before = without_flow_control(frames.drop_last());
        if is_flow_control(frames.last()) {
            before
        } else {
            before.push(frames.last())
        }
    }
}

/// Flow-control frames in a recording change nothing, wherever they stand and whatever else the
/// recording holds: the stream reassembles as it would without them.
pub proof fn law_flow_control_is_passed_over(frames: Seq<CanFrame>)
    ensures
        reassembled(frames) == reassembled(without_flow_control(frames)),
    decreases frames.len(),
{
    if frames.len() > 0 {
        let head = frames.drop_last();
        law_flow_control_is_passed_over(head);
        if !is_flow_control(frames.last()) {
            let rest = without_flow_control(frames);
            assert(rest.drop_last() =~= without_flow_control(head));
            assert(rest.last() == frames.last());
        }
    }
}

/// The frames of one PDU with flow-control frames among them reassemble into that one PDU, which
/// starts with its first frame and completes with its last.
pub proof fn law_flow_control_does_not_disturb_a_pdu(
    frames: Seq<CanFrame>,
    pdu: Seq<u8>,
    padding: Option<u8>,
)
    requires
        1 <= pdu.len() <= 4095,
        payloads(without_flow_control(frames)) == segmented(pdu, padding),
    ensures
        reassembled(frames) == (
            None::<Assembly>,
            seq![
                MessageView {
                    started: without_flow_control(frames)[0].m_u64TimestampUs,
                    completed: without_flow_control(frames).last().m_u64TimestampUs,
                    data: pdu,
                },
            ],
        ),
{
    law_flow_control_is_passed_over(frames);
    law_segmented_pdu_is_reassembled(without_flow_control(frames), pdu, padding);
}

/// Consecutive frames without a message in progress bring nothing.
proof fn lemma_stray_consecutive_frames(frames: Seq<CanFrame>, m: int)
    requires
        0 <= m <= frames.len(),
        reassembled(frames.take(m)).0 is None,
        forall|i: int|
            m <= i < frames.len() ==> (#[trigger] frames[i]).m_vecData@.len() > 0 && pci_type(
                frames[i].m_vecData@,
            ) == 2,
    ensures
        reassembled(frames) == reassembled(frames.take(m)),
    decreases frames.len(),
{
    if m == frames.len() {
        assert(frames.take(m) =~= frames);
    } else {
        let head = frames.drop_last();
        assert(head.take(m) =~= frames.take(m));
        assert forall|i: int| m <= i < head.len() implies (#[trigger] head[i]).m_vecData@.len() > 0
            && pci_type(head[i].m_vecData@) == 2 by {
            assert(head[i] == frames[i]);
        }
        lemma_stray_consecutive_frames(head, m);
        assert(frames.last() == frames[frames.len() - 1]);
        assert(pci_type(frames.last().m_vecData@) == 2);
    }
}

/// A consecutive frame with the wrong number ends a message for good: what follows of it brings
/// nothing either.
proof fn lemma_wrong_number_ends_the_message(
    frames: Seq<CanFrame>,
    pdu: Seq<u8>,
    padding: Option<u8>,
    k: int,
)
    requires
        7 < pdu.len() <= 4095,
        1 <= k < frame_count(pdu.len()),
        k < frames.len(),
        forall|i: int|
            0 <= i < k ==> (#[trigger] frames[i]).m_vecData@ == segmented(pdu, padding)[i],
        forall|i: int|
            k <= i < frames.len() ==> (#[trigger] frames[i]).m_vecData@.len() > 0 && pci_type(
                frames[i].m_vecData@,
            ) == 2,
        pci_low(frames[k].m_vecData@) != k % 16,
    ensures
        reassembled(frames) == (None::<Assembly>, Seq::<MessageView>::empty()),
{
    lemma_reassemble_long(frames, pdu, padding, k as nat);
    let upto = frames.take(k + 1);
    assert(upto.drop_last() =~= frames.take(k));
    assert(upto.last() == frames[k]);
    assert(frames[k].m_vecData@.len() > 0);
    lemma_stray_consecutive_frames(frames, k + 1);
}

proof fn lemma_is_consecutive(pdu: Seq<u8>, k: int, padding: Option<u8>)
    requires
        7 < pdu.len() <= 4095,
        1 <= k < frame_count(pdu.len()),
    ensures
        segmented(pdu, padding)[k].len() > 0,
        pci_type(segmented(pdu, padding)[k]) == 2,
        pci_low(segmented(pdu, padding)[k]) == k % 16,
{
    lemma_consecutive_frame(pdu, k, padding, 0);
}

/// A long PDU of which any one frame is missing gives no message, and never a wrong one.
pub proof fn law_a_missing_frame_gives_no_message(
    frames: Seq<CanFrame>,
    pdu: Seq<u8>,
    padding: Option<u8>,
    missing: int,
)
    requires
        7 < pdu.len() <= 4095,
        0 <= missing < segmented(pdu, padding).len(),
        payloads(frames) == segmented(pdu, padding).remove(missing),
    ensures
        reassembled(frames).1 == Seq::<MessageView>::empty(),
{
    let all = segmented(pdu, padding);
    assert(payloads(frames).len() == frames.len());
    assert forall|i: int| 0 <= i < frames.len() implies (#[trigger] frames[i]).m_vecData@ == (
    if i < missing {
        all[i]
    } else {
        all[i + 1]
    }) by {
        assert(payloads(frames)[i] == frames[i].m_vecData@);
    }
    assert forall|i: int| missing <= i < frames.len() implies (
    #[trigger] frames[i]).m_vecData@.len() > 0 && pci_type(frames[i].m_vecData@) == 2
        && pci_low(frames[i].m_vecData@) == (i + 1) % 16 by {
        lemma_is_consecutive(pdu, i + 1, padding);
    }
    if missing == 0 {
        assert(frames.take(0) =~= seq![]);
        lemma_stray_consecutive_frames(frames, 0);
    } else if missing == frames.len() {
        lemma_reassemble_long(frames, pdu, padding, frames.len());
        assert(frames.take(frames.len() as int) =~= frames);
    } else {
        lemma_wrong_number_ends_the_message(frames, pdu, padding, missing);
    }
}

/// A long PDU of which a consecutive frame other than the last comes twice in a row gives no
/// message, and never a wrong one.
pub proof fn law_a_repeated_frame_gives_no_message(
    frames: Seq<CanFrame>,
    pdu: Seq<u8>,
    padding: Option<u8>,
    repeated: int,
)
    requires
        7 < pdu.len() <= 4095,
        1 <= repeated < segmented(pdu, padding).len() - 1,
        payloads(frames) == segmented(pdu, padding).insert(
            repeated + 1,
            segmented(pdu, padding)[repeated],
        ),
    ensures
        reassembled(frames).1 == Seq::<MessageView>::empty(),
{
    let all = segmented(pdu, padding);
    assert(payloads(frames).len() == frames.len());
    assert forall|i: int| 0 <= i < frames.len() implies (#[trigger] frames[i]).m_vecData@ == (
    if i <= repeated {
        all[i]
    } else {
        all[i - 1]
    }) by {
        assert(payloads(frames)[i] == frames[i].m_vecData@);
    }
    assert forall|i: int| repeated + 1 <= i < frames.len() implies (
    #[trigger] frames[i]).m_vecData@.len() > 0 && pci_type(frames[i].m_vecData@) == 2
        && pci_low(frames[i].m_vecData@) == (i - 1) % 16 by {
        lemma_is_consecutive(pdu, i - 1, padding);
    }
    lemma_wrong_number_ends_the_message(frames, pdu, padding, repeated + 1);
}

/// A frame of a kind classic ISO-TP defines: empty, a single frame with its length in the
/// nibble, a first frame for a message too long for a single one, a consecutive frame, or flow
/// control.
pub open spec fn is_classic(data: Seq<u8>) -> bool {
    ||| data.len() == 0
    ||| pci_type(data) == 0 && pci_low(data) != 0
    ||| pci_type(data) == 1 && data.len() >= 2 && first_frame_length(data) > 7
    ||| pci_type(data) == 2
    ||| pci_type(data) == 3
}

/// The same message in progress, whenever it started.
pub open spec fn same_assembly(a: Option<Assembly>, b: Option<Assembly>) -> bool {
    match (a, b) {
        (Some(x), Some(y)) => x.buffer == y.buffer && x.remaining == y.remaining && x.next
            == y.next,
        (None, None) => true,
        _ => false,
    }
}

/// A live capture and a later replay of it agree: over any stream of classic frames, a physical
/// receiver with the full buffer completes exactly the PDUs the offline reader reassembles, and
/// both are in the middle of the same message.
pub proof fn law_live_and_offline_agree(frames: Seq<CanFrame>, params: IsoTpParameters)
    requires
        forall|i: int| 0 <= i < frames.len() ==> is_classic(#[trigger] frames[i].m_vecData@),
    ensures
        ({
            let r = ReceiverView {
                params,
                max_pdu: 4095,
                functional: false,
                pending: None,
                block_left: None,
            };
            let live = received_all(r, payloads(frames));
            let offline = reassembled(frames);
            &&& completed_pdus(live.1) == Seq::new(offline.1.len(), |i: int| offline.1[i].data)
            &&& same_assembly(live.0.pending, offline.0)
            &&& !live.0.functional
            &&& live.0.max_pdu == 4095
        }),
    decreases frames.len(),
{
    let r = ReceiverView {
        params,
        max_pdu: 4095,
        functional: false,
        pending: None,
        block_left: None,
    };
    let live = received_all(r, payloads(frames));
    let offline = reassembled(frames);
    if frames.len() == 0 {
        assert(completed_pdus(live.1) =~= Seq::new(offline.1.len(), |i: int| offline.1[i].data));
    } else {
        let head = frames.drop_last();
        assert(payloads(frames).drop_last() =~= payloads(head));
        assert(frames.last() == frames[frames.len() - 1]);
        assert forall|i: int| 0 <= i < head.len() implies is_classic(
            #[trigger] head[i].m_vecData@,
        ) by {
            assert(head[i] == frames[i]);
        }
        law_live_and_offline_agree(head, params);
        let live_before = received_all(r, payloads(head));
        let offline_before = reassembled(head);
        let data = frames.last().m_vecData@;
        assert(is_classic(data));
        assert(live.1.drop_last() =~= live_before.1);
        let step = observed(offline_before.0, data, frames.last().m_u64TimestampUs);
        if data.len() > 0 && pci_type(data) == 2 && offline_before.0 is Some {
            let x = extended(live_before.0.pending->0, data);
            let y = extended(offline_before.0->0, data);
            assert(x.buffer == y.buffer && x.remaining == y.remaining && x.next == y.next);
        }
        assert(completed_pdus(live.1) =~= Seq::new(offline.1.len(), |i: int| offline.1[i].data));
    }
}

/// A transfer ends with its last frame and not before: a transmitter is complete after one more
/// consecutive frame exactly when that frame is the last of the PDU.
pub proof fn law_transfer_completes_with_its_last_frame(t: TransmitterView)
    requires
        t.pdu.len() > 7,
        1 <= t.frames < frame_count(t.pdu.len()),
    ensures
        after_consecutive(t).state is Complete <==> t.frames + 1 == frame_count(t.pdu.len()),
{
}

} // verus!
