//! Offline reassembly of a stream of CAN frames (already filtered to a single CAN identifier)
//! into complete PDUs.
//!
//! The reader is an observer of a recorded exchange, not a bus participant, so flow-control
//! frames are recognised and skipped rather than generated.

use vstd::prelude::*;

use crate::bytes::min_int;
use crate::bytes::AppendBytes;
use crate::bytes::CopyRange;
use crate::can::CanFrame;
use vstd::slice::slice_subrange;

verus! {

/// PCI type nibble of a single frame.
pub const c_byPciSingleFrame: u8 = 0x0;

/// PCI type nibble of a first frame.
pub const c_byPciFirstFrame: u8 = 0x1;

/// PCI type nibble of a consecutive frame.
pub const c_byPciConsecutiveFrame: u8 = 0x2;

/// PCI type nibble of a flow-control frame.
pub const c_byPciFlowControl: u8 = 0x3;

/// A fully reassembled ISO-TP message (one PDU).
///
/// Both ends of the message are recorded because a multi-frame PDU occupies an interval: when it
/// first appeared decides the order things began in, when it finished decides what could be a
/// reply to it.
#[derive(Debug, Clone, PartialEq, Eq)]
pub struct IsoTpMessage {
    /// Timestamp of the frame that started the message (SF or FF), in microseconds.
    pub m_u64StartedAtUs: u64,
    /// Timestamp of the frame that completed it, in microseconds. Equal to the start for a
    /// single-frame message.
    pub m_u64CompletedAtUs: u64,
    /// The complete PDU bytes.
    pub m_vecData: Vec<u8>,
}

/// A reassembled message as a mathematical value.
pub ghost struct MessageView {
    pub started: u64,
    pub completed: u64,
    pub data: Seq<u8>,
}

impl View for IsoTpMessage {
    type V = MessageView;

    open spec fn view(&self) -> MessageView {
        MessageView {
            started: self.m_u64StartedAtUs,
            completed: self.m_u64CompletedAtUs,
            data: self.m_vecData@,
        }
    }
}

/// A multi-frame message part-way through: the bytes so far, how many are missing, when it
/// started, and the sequence number the next consecutive frame must carry.
pub ghost struct Assembly {
    pub buffer: Seq<u8>,
    pub remaining: nat,
    pub started: u64,
    pub next: nat,
}

/// In-progress multi-frame reassembly state.
struct Pending {
    m_vecBuffer: Vec<u8>,
    m_uRemaining: usize,
    m_u64StartedAtUs: u64,
    /// The first frame is implicitly number 0, so the first consecutive frame is 1; it wraps
    /// 15 -> 0.
    m_u8NextSequenceNumber: u8,
}

impl Pending {
    spec fn view(&self) -> Assembly {
        Assembly {
            buffer: self.m_vecBuffer@,
            remaining: self.m_uRemaining as nat,
            started: self.m_u64StartedAtUs,
            next: self.m_u8NextSequenceNumber as nat,
        }
    }
}

/// The PCI type of a non-empty frame: the high nibble of its first byte.
pub open spec fn pci_type(data: Seq<u8>) -> int {
    data[0] as int / 16
}

/// The low nibble of a non-empty frame's first byte.
pub open spec fn pci_low(data: Seq<u8>) -> int {
    data[0] as int % 16
}

/// The PDU a single frame carries, if its length is neither zero nor larger than the frame. A
/// zero low nibble is the CAN-FD escape: the length is in the second byte.
pub open spec fn single_frame_pdu(data: Seq<u8>) -> Option<Seq<u8>> {
    let start = if pci_low(data) == 0 {
        2int
    } else {
        1int
    };
    let length = if pci_low(data) == 0 {
        data[1] as int
    } else {
        pci_low(data)
    };
    if data.len() < start || length == 0 || start + length > data.len() {
        None
    } else {
        Some(data.subrange(start, start + length))
    }
}

/// The 12-bit length a first frame announces.
pub open spec fn first_frame_length(data: Seq<u8>) -> int {
    pci_low(data) * 256 + data[1]
}

/// The bytes of a first frame that belong to the message it announces.
pub open spec fn first_frame_bytes(data: Seq<u8>) -> Seq<u8> {
    data.subrange(2, 2 + min_int(data.len() - 2, first_frame_length(data)))
}

/// The message a first frame opens, unless it is too short or announces nothing.
pub open spec fn opened(data: Seq<u8>, at: u64) -> Option<Assembly> {
    if data.len() < 2 || first_frame_length(data) == 0 {
        None
    } else {
        Some(
            Assembly {
                buffer: first_frame_bytes(data),
                remaining: (first_frame_length(data) - first_frame_bytes(data).len()) as nat,
                started: at,
                next: 1,
            },
        )
    }
}

/// A message after one more consecutive frame in sequence: it takes as many of the frame's
/// payload bytes as are still missing, and the rest is padding.
pub open spec fn extended(assembly: Assembly, data: Seq<u8>) -> Assembly {
    let taken = min_int(data.len() - 1, assembly.remaining as int);
    Assembly {
        buffer: assembly.buffer + data.subrange(1, 1 + taken),
        remaining: (assembly.remaining - taken) as nat,
        started: assembly.started,
        next: (assembly.next + 1) % 16,
    }
}

/// What one frame does to the message in progress, and the message it completes.
///
/// An empty frame changes nothing. While a message is in progress, the next consecutive frame in
/// sequence extends it, one out of sequence abandons it, and a flow-control frame leaves it
/// alone. Everything else abandons whatever was in progress; a single frame completes a message
/// at once and a first frame opens one.
pub open spec fn observed(
    pending: Option<Assembly>,
    data: Seq<u8>,
    at: u64,
) -> (Option<Assembly>, Option<MessageView>) {
    if data.len() == 0 {
        (pending, None)
    } else if pending is Some && pci_type(data) == 2 {
        let after = extended(pending->0, data);
        if pci_low(data) != pending->0.next {
            (None, None)
        } else if after.remaining == 0 {
            (
                None,
                Some(MessageView { started: after.started, completed: at, data: after.buffer }),
            )
        } else {
            (Some(after), None)
        }
    } else if pending is Some && pci_type(data) == 3 {
        (pending, None)
    } else if pci_type(data) == 0 {
        match single_frame_pdu(data) {
            Some(pdu) => (None, Some(MessageView { started: at, completed: at, data: pdu })),
            None => (None, None),
        }
    } else if pci_type(data) == 1 {
        (opened(data, at), None)
    } else {
        (None, None)
    }
}

/// The message in progress and the completed messages after observing a whole stream.
pub open spec fn reassembled(frames: Seq<CanFrame>) -> (Option<Assembly>, Seq<MessageView>)
    decreases frames.len(),
{
    if frames.len() == 0 {
        (None, seq![])
    } else {
        let before = reassembled(frames.drop_last());
        let step = observed(
            before.0,
            frames.last().m_vecData@,
            frames.last().m_u64TimestampUs,
        );
        (
            step.0,
            match step.1 {
                Some(message) => before.1.push(message),
                None => before.1,
            },
        )
    }
}

/// The values of a list of messages.
pub open spec fn message_views(messages: Seq<IsoTpMessage>) -> Seq<MessageView> {
    Seq::new(messages.len(), |i: int| messages[i]@)
}

/// Reassemble one CAN-identifier stream (time-ordered frames) into ISO-TP messages.
///
/// A new single or first frame abandons any in-progress message, and stray consecutive or
/// flow-control frames without context are ignored. A consecutive frame arriving out of sequence
/// abandons the message rather than being appended: handing on a PDU of the wrong content as
/// observed behaviour would be a confident wrong answer.
pub fn ReassembleStream(vecFrames: &[CanFrame]) -> (vecMessages: Vec<IsoTpMessage>)
    ensures
        message_views(vecMessages@) == reassembled(vecFrames@).1,
{
    let mut vecMessages: Vec<IsoTpMessage> = Vec::new();
    let mut optPending: Option<Pending> = None;
    let mut uIndex: usize = 0;
    assert(message_views(vecMessages@) =~= seq![]);
    while uIndex < vecFrames.len()
        invariant
            uIndex <= vecFrames@.len(),
            message_views(vecMessages@) == reassembled(vecFrames@.take(uIndex as int)).1,
            pending_view(optPending) == reassembled(vecFrames@.take(uIndex as int)).0,
        decreases vecFrames@.len() - uIndex,
    {
        let frame = &vecFrames[uIndex];
        let ghost before = vecMessages@;
        let ghost pending_before = pending_view(optPending);
        assert(vecFrames@.take(uIndex + 1).drop_last() =~= vecFrames@.take(uIndex as int));
        let (optNext, optMessage) = ObserveFrame(optPending, frame);
        optPending = optNext;
        if let Some(message) = optMessage {
            vecMessages.push(message);
            assert(message_views(vecMessages@) =~= message_views(before).push(message@));
        }
        uIndex = uIndex + 1;
    }
    assert(vecFrames@.take(uIndex as int) =~= vecFrames@);
    vecMessages
}

spec fn pending_view(pending: Option<Pending>) -> Option<Assembly> {
    match pending {
        Some(p) => Some(p.view()),
        None => None,
    }
}

/// Take one frame into the stream being observed.
fn ObserveFrame(optPending: Option<Pending>, frame: &CanFrame) -> (result: (
    Option<Pending>,
    Option<IsoTpMessage>,
))
    ensures
        observed(pending_view(optPending), frame.m_vecData@, frame.m_u64TimestampUs) == (
            pending_view(result.0),
            match result.1 {
                Some(message) => Some(message@),
                None => None,
            },
        ),
{
    if frame.m_vecData.len() == 0 {
        return (optPending, None);
    }
    let byPciType: u8 = frame.m_vecData[0] / 16;

    // While a multi-frame message is in progress, consecutive frames extend it and flow-control
    // frames are ignored without disturbing it. Anything else abandons it.
    if let Some(mut pending) = optPending {
        if byPciType == c_byPciConsecutiveFrame {
            let u8Received: u8 = frame.m_vecData[0] % 16;
            if u8Received != pending.m_u8NextSequenceNumber {
                return (None, None);
            }
            AppendConsecutive(&mut pending, frame.m_vecData.as_slice());
            if pending.m_uRemaining == 0 {
                return (
                    None,
                    Some(
                        IsoTpMessage {
                            m_u64StartedAtUs: pending.m_u64StartedAtUs,
                            m_u64CompletedAtUs: frame.m_u64TimestampUs,
                            m_vecData: pending.m_vecBuffer,
                        },
                    ),
                );
            }
            return (Some(pending), None);
        }
        if byPciType == c_byPciFlowControl {
            return (Some(pending), None);
        }
    }
    if byPciType == c_byPciSingleFrame {
        match DecodeSingleFrame(frame.m_vecData.as_slice()) {
            Some(vecData) => (
                None,
                Some(
                    IsoTpMessage {
                        m_u64StartedAtUs: frame.m_u64TimestampUs,
                        m_u64CompletedAtUs: frame.m_u64TimestampUs,
                        m_vecData: vecData,
                    },
                ),
            ),
            None => (None, None),
        }
    } else if byPciType == c_byPciFirstFrame {
        (StartFirstFrame(frame), None)
    } else {
        (None, None)
    }
}

/// Decode a single-frame PDU, including the CAN-FD escape form.
fn DecodeSingleFrame(vecData: &[u8]) -> (optPdu: Option<Vec<u8>>)
    requires
        vecData@.len() >= 1,
    ensures
        match optPdu {
            Some(vecPdu) => single_frame_pdu(vecData@) == Some(vecPdu@),
            None => single_frame_pdu(vecData@) is None,
        },
{
    let uLowNibble: usize = (vecData[0] % 16) as usize;
    let mut uLength: usize = uLowNibble;
    let mut uStart: usize = 1;
    if uLowNibble == 0 {
        if vecData.len() < 2 {
            return None;
        }
        uLength = vecData[1] as usize;
        uStart = 2;
    }
    if uLength == 0 || uStart + uLength > vecData.len() {
        return None;
    }
    Some(CopyRange(vecData, uStart, uStart + uLength))
}

/// Begin a multi-frame message from a first frame: a 12-bit length in the low nibble of byte 0
/// and byte 1, then payload.
fn StartFirstFrame(frame: &CanFrame) -> (optPending: Option<Pending>)
    requires
        frame.m_vecData@.len() >= 1,
    ensures
        pending_view(optPending) == opened(frame.m_vecData@, frame.m_u64TimestampUs),
{
    let vecData = frame.m_vecData.as_slice();
    if vecData.len() < 2 {
        return None;
    }
    let uTotalLength: usize = (vecData[0] % 16) as usize * 256 + vecData[1] as usize;
    if uTotalLength == 0 {
        return None;
    }
    let uTaken: usize = if vecData.len() - 2 <= uTotalLength {
        vecData.len() - 2
    } else {
        uTotalLength
    };
    Some(
        Pending {
            m_vecBuffer: CopyRange(vecData, 2, 2 + uTaken),
            m_uRemaining: uTotalLength - uTaken,
            m_u64StartedAtUs: frame.m_u64TimestampUs,
            m_u8NextSequenceNumber: 1,
        },
    )
}

/// Append a consecutive frame's payload to the pending buffer, up to the remaining length.
fn AppendConsecutive(pending: &mut Pending, vecData: &[u8])
    requires
        vecData@.len() >= 1,
    ensures
        final(pending).view() == extended(old(pending).view(), vecData@),
{
    let uTake: usize = if vecData.len() - 1 <= pending.m_uRemaining {
        vecData.len() - 1
    } else {
        pending.m_uRemaining
    };
    AppendBytes(&mut pending.m_vecBuffer, slice_subrange(vecData, 1, 1 + uTake));
    pending.m_uRemaining = pending.m_uRemaining - uTake;
    pending.m_u8NextSequenceNumber = pending.m_u8NextSequenceNumber.wrapping_add(1) % 16;
}

} // verus!
