//! ISO-TP transmit: turning one PDU into the frames that carry it.
//!
//! An explicit state machine driven by events: the peer decides how fast it will accept the
//! data, and the transmitter obeys. Nothing here touches a clock; the caller owns the waiting.

use vstd::prelude::*;

use crate::bytes::min_int;
use crate::bytes::AppendBytes;
use crate::bytes::CopyAll;
use crate::isotp::params::c_u8MaxWaitFrames;
use crate::isotp::params::c_uConsecutiveFramePayload;
use crate::isotp::params::c_uFirstFramePayload;
use crate::isotp::params::c_uMaxClassicPduLength;
use crate::isotp::params::c_uMaxSingleFrameLength;
use crate::isotp::params::padded;
use crate::isotp::params::separation_time_us;
use crate::isotp::params::ApplyPadding;
use crate::isotp::params::DecodeSeparationTime;
use crate::isotp::params::IsoTpParameters;
use vstd::slice::slice_subrange;

verus! {

/// FlowStatus: continue to send.
pub const c_byFlowStatusContinue: u8 = 0x00;

/// FlowStatus: wait.
pub const c_byFlowStatusWait: u8 = 0x01;

/// FlowStatus: the receiver's buffer would overflow.
pub const c_byFlowStatusOverflow: u8 = 0x02;

/// Why a transfer could not be completed.
///
/// These are link failures, not diagnostic ones: a tester that stalls has not made the ECU's
/// response non-conformant.
#[derive(Debug, Clone, Copy, PartialEq, Eq, Structural)]
pub enum IsoTpTransportError {
    /// The PDU is longer than a classic FirstFrame can announce.
    PduTooLong { uLength: usize },
    /// Nothing to send.
    EmptyPdu,
    /// The peer never asked for the rest.
    FlowControlTimeout { uFramesSent: usize },
    /// The peer asked to wait too many times running.
    TooManyWaitFrames { u8WaitCount: u8 },
    /// The peer cannot hold the message.
    ReceiverOverflow,
    /// The peer sent a flow status that means nothing.
    InvalidFlowStatus { byFlowStatus: u8 },
}

/// Where a transfer has got to.
#[derive(Debug, Clone, Copy, PartialEq, Eq, Structural)]
pub enum TransmitState {
    /// Nothing in flight.
    Idle,
    /// A first frame or a block has gone out; the peer owes a flow control.
    AwaitingFlowControl,
    /// Cleared to send; consecutive frames may go out, spaced by the separation time.
    SendingBlock,
    /// Every byte has been handed over.
    Complete,
    /// The link failed.
    Aborted(IsoTpTransportError),
}

/// How many bytes of a long PDU the first `frames` frames carry: six in the first frame, seven
/// in each one after it.
pub open spec fn bytes_in(len: int, frames: int) -> int {
    min_int(len, 6 + 7 * (frames - 1))
}

/// The frame that carries a PDU of at most seven bytes: its length, then the bytes.
pub open spec fn single_frame(pdu: Seq<u8>, padding: Option<u8>) -> Seq<u8> {
    padded(seq![pdu.len() as u8] + pdu, padding)
}

/// The opening frame of a long PDU: the 12-bit total length, then the first six bytes.
pub open spec fn first_frame(pdu: Seq<u8>) -> Seq<u8> {
    seq![(16 + pdu.len() as int / 256) as u8, (pdu.len() as int % 256) as u8] + pdu.subrange(0, 6)
}

/// The k-th consecutive frame of a long PDU: the sequence number modulo sixteen, then the next
/// seven bytes, or as many as are left.
pub open spec fn consecutive_frame(pdu: Seq<u8>, k: int, padding: Option<u8>) -> Seq<u8> {
    padded(
        seq![(32 + k % 16) as u8] + pdu.subrange(
            bytes_in(pdu.len() as int, k),
            bytes_in(pdu.len() as int, k + 1),
        ),
        padding,
    )
}

/// A transmitter's state: parameters, the PDU, how many frames of it have gone out, how many
/// more this block allows (`None` for no limit), the separation time in microseconds, how many
/// waits in a row the peer has asked for, and where the transfer has got to.
pub ghost struct TransmitterView {
    pub params: IsoTpParameters,
    pub pdu: Seq<u8>,
    pub frames: nat,
    pub block_left: Option<nat>,
    pub separation_us: nat,
    pub waits: nat,
    pub state: TransmitState,
}

/// Sends one PDU as ISO-TP frames, obeying whatever the peer asks for.
pub struct IsoTpTransmitter {
    /// What this end pads with. The peer's block size and separation time arrive in its flow
    /// control and are re-read from every one.
    m_params: IsoTpParameters,
    m_vecPdu: Vec<u8>,
    m_uSentBytes: usize,
    m_u8SequenceNumber: u8,
    /// Frames still allowed in this block; `None` when the peer set no limit.
    m_optU8RemainingInBlock: Option<u8>,
    m_u64SeparationTimeUs: u64,
    m_u8WaitCount: u8,
    m_uFramesSent: usize,
    m_state: TransmitState,
}

impl View for IsoTpTransmitter {
    type V = TransmitterView;

    closed spec fn view(&self) -> TransmitterView {
        TransmitterView {
            params: self.m_params,
            pdu: self.m_vecPdu@,
            frames: self.m_uFramesSent as nat,
            block_left: match self.m_optU8RemainingInBlock {
                Some(left) => Some(left as nat),
                None => None,
            },
            separation_us: self.m_u64SeparationTimeUs as nat,
            waits: self.m_u8WaitCount as nat,
            state: self.m_state,
        }
    }
}

impl IsoTpTransmitter {
    /// The representation invariant: mid-transfer, the byte and sequence counters are the ones
    /// the number of frames sent determines, and bytes are still owed.
    pub closed spec fn wf(&self) -> bool {
        &&& self.m_vecPdu@.len() <= 4095
        &&& (self.m_state is AwaitingFlowControl || self.m_state is SendingBlock) ==> {
            &&& self.m_vecPdu@.len() > 7
            &&& 1 <= self.m_uFramesSent
            &&& self.m_uSentBytes == bytes_in(
                self.m_vecPdu@.len() as int,
                self.m_uFramesSent as int,
            )
            &&& self.m_uSentBytes < self.m_vecPdu@.len()
            &&& self.m_u8SequenceNumber == self.m_uFramesSent % 16
        }
        &&& self.m_state is AwaitingFlowControl ==> self.m_u8WaitCount <= 10
        &&& self.m_state is SendingBlock ==> self.m_u8WaitCount == 0
    }

    /// Create a transmitter that pads the way `params` says.
    pub fn New(params: IsoTpParameters) -> (transmitter: Self)
        ensures
            transmitter.wf(),
            transmitter@ == (TransmitterView {
                params,
                pdu: seq![],
                frames: 0,
                block_left: None,
                separation_us: 0,
                waits: 0,
                state: TransmitState::Idle,
            }),
    {
        let transmitter = IsoTpTransmitter {
            m_params: params,
            m_vecPdu: Vec::new(),
            m_uSentBytes: 0,
            m_u8SequenceNumber: 1,
            m_optU8RemainingInBlock: None,
            m_u64SeparationTimeUs: 0,
            m_u8WaitCount: 0,
            m_uFramesSent: 0,
            m_state: TransmitState::Idle,
        };
        assert(transmitter@.pdu =~= seq![]);
        transmitter
    }

    /// Where the transfer has got to.
    pub fn State(&self) -> (state: &TransmitState)
        ensures
            *state == self@.state,
    {
        &self.m_state
    }

    /// How long to wait before the next consecutive frame, in microseconds.
    pub fn SeparationTime(&self) -> (u64Microseconds: u64)
        ensures
            u64Microseconds == self@.separation_us,
    {
        self.m_u64SeparationTimeUs
    }

    /// Start sending a PDU, returning the first frame to put on the wire.
    ///
    /// A short PDU is a single frame and the transfer is done. A longer one is a first frame,
    /// after which the peer owes a flow control before anything else may be sent. A PDU that is
    /// empty or too long is refused and leaves the transmitter as it was.
    pub fn Begin(&mut self, vecPdu: &[u8]) -> (result: Result<Vec<u8>, IsoTpTransportError>)
        requires
            old(self).wf(),
        ensures
            final(self).wf(),
            vecPdu@.len() == 0 ==> result == Err::<Vec<u8>, _>(IsoTpTransportError::EmptyPdu)
                && *final(self) == *old(self),
            vecPdu@.len() > 4095 ==> result == Err::<Vec<u8>, _>(
                IsoTpTransportError::PduTooLong { uLength: vecPdu@.len() as usize },
            ) && *final(self) == *old(self),
            1 <= vecPdu@.len() <= 4095 ==> {
                &&& result is Ok
                &&& begun(old(self)@, vecPdu@) == (final(self)@, result->Ok_0@)
            },
    {
        if vecPdu.len() == 0 {
            return Err(IsoTpTransportError::EmptyPdu);
        }
        if vecPdu.len() > c_uMaxClassicPduLength {
            return Err(IsoTpTransportError::PduTooLong { uLength: vecPdu.len() });
        }
        self.m_vecPdu = CopyAll(vecPdu);
        self.m_uSentBytes = 0;
        self.m_u8SequenceNumber = 1;
        self.m_u8WaitCount = 0;
        self.m_uFramesSent = 1;
        if vecPdu.len() <= c_uMaxSingleFrameLength {
            self.m_state = TransmitState::Complete;
            self.m_uSentBytes = vecPdu.len();
            return Ok(self.BuildSingleFrame());
        }
        self.m_state = TransmitState::AwaitingFlowControl;
        Ok(self.BuildFirstFrame())
    }

    /// Take a flow-control frame from the peer.
    ///
    /// Its block size and separation time apply to the block it authorises only. A flow control
    /// with no transfer awaiting one, or one shorter than three bytes, is ignored.
    pub fn OnFlowControl(&mut self, vecFrame: &[u8]) -> (result: Result<(), IsoTpTransportError>)
        requires
            old(self).wf(),
        ensures
            final(self).wf(),
            (result, final(self)@) == flow_controlled(old(self)@, vecFrame@),
            (old(self)@.state !is AwaitingFlowControl || vecFrame@.len() < 3) ==> *final(self)
                == *old(self),
    {
        if !matches!(self.m_state, TransmitState::AwaitingFlowControl) {
            return Ok(());
        }
        if vecFrame.len() < 3 {
            return Ok(());
        }
        let byFlowStatus: u8 = vecFrame[0] % 16;
        if byFlowStatus == c_byFlowStatusContinue {
            self.OnContinueToSend(vecFrame[1], vecFrame[2])
        } else if byFlowStatus == c_byFlowStatusWait {
            self.OnWait()
        } else if byFlowStatus == c_byFlowStatusOverflow {
            self.Abort(IsoTpTransportError::ReceiverOverflow)
        } else {
            self.Abort(IsoTpTransportError::InvalidFlowStatus { byFlowStatus })
        }
    }

    /// The peer cleared this end to send a block.
    fn OnContinueToSend(&mut self, u8BlockSize: u8, bySeparationTime: u8) -> (result: Result<
        (),
        IsoTpTransportError,
    >)
        requires
            old(self).wf(),
            old(self)@.state is AwaitingFlowControl,
        ensures
            final(self).wf(),
            result == Ok::<(), IsoTpTransportError>(()),
            final(self)@ == cleared(old(self)@, u8BlockSize, bySeparationTime),
    {
        self.m_u8WaitCount = 0;
        self.m_optU8RemainingInBlock = if u8BlockSize == 0 {
            None
        } else {
            Some(u8BlockSize)
        };
        self.m_u64SeparationTimeUs = DecodeSeparationTime(bySeparationTime);
        self.m_state = TransmitState::SendingBlock;
        Ok(())
    }

    /// The peer asked for more time.
    fn OnWait(&mut self) -> (result: Result<(), IsoTpTransportError>)
        requires
            old(self).wf(),
            old(self)@.state is AwaitingFlowControl,
        ensures
            final(self).wf(),
            (result, final(self)@) == waited(old(self)@),
    {
        self.m_u8WaitCount = self.m_u8WaitCount + 1;
        if self.m_u8WaitCount > c_u8MaxWaitFrames {
            let error = IsoTpTransportError::TooManyWaitFrames { u8WaitCount: self.m_u8WaitCount };
            self.m_state = TransmitState::Aborted(error);
            return Err(error);
        }
        Ok(())
    }

    /// The flow control never came.
    pub fn OnFlowControlTimeout(&mut self) -> (result: Result<(), IsoTpTransportError>)
        requires
            old(self).wf(),
        ensures
            final(self).wf(),
            (result, final(self)@) == aborted(
                old(self)@,
                IsoTpTransportError::FlowControlTimeout { uFramesSent: old(self)@.frames as usize },
            ),
    {
        self.Abort(IsoTpTransportError::FlowControlTimeout { uFramesSent: self.m_uFramesSent })
    }

    /// The next consecutive frame, if this end is allowed to send one now.
    ///
    /// `None` means either the transfer is finished or the block is used up and the peer owes
    /// another flow control; [`IsoTpTransmitter::State`] says which.
    pub fn NextConsecutiveFrame(&mut self) -> (optFrame: Option<Vec<u8>>)
        requires
            old(self).wf(),
        ensures
            final(self).wf(),
            next_consecutive(old(self)@) == (
                final(self)@,
                match optFrame {
                    Some(vecFrame) => Some(vecFrame@),
                    None => None,
                },
            ),
            old(self)@.state !is SendingBlock ==> *final(self) == *old(self),
    {
        if !matches!(self.m_state, TransmitState::SendingBlock) {
            return None;
        }
        if let Some(u8Remaining) = self.m_optU8RemainingInBlock {
            if u8Remaining == 0 {
                // The block is used up; the peer owes another flow control before any more.
                self.m_state = TransmitState::AwaitingFlowControl;
                return None;
            }
            self.m_optU8RemainingInBlock = Some(u8Remaining - 1);
        }
        let vecFrame = self.BuildConsecutiveFrame();
        self.m_uFramesSent = self.m_uFramesSent + 1;
        if self.m_uSentBytes >= self.m_vecPdu.len() {
            self.m_state = TransmitState::Complete;
        }
        Some(vecFrame)
    }

    /// Stop the transfer and remember why.
    fn Abort(&mut self, error: IsoTpTransportError) -> (result: Result<(), IsoTpTransportError>)
        requires
            old(self).wf(),
        ensures
            final(self).wf(),
            (result, final(self)@) == aborted(old(self)@, error),
    {
        self.m_state = TransmitState::Aborted(error);
        Err(error)
    }

    /// A whole PDU in one frame: the length in the low nibble, then the bytes.
    fn BuildSingleFrame(&self) -> (vecFrame: Vec<u8>)
        requires
            self@.pdu.len() <= 7,
        ensures
            vecFrame@ == single_frame(self@.pdu, self@.params.m_optByPaddingByte),
    {
        let mut vecFrame: Vec<u8> = Vec::new();
        vecFrame.push(self.m_vecPdu.len() as u8);
        AppendBytes(&mut vecFrame, self.m_vecPdu.as_slice());
        assert(vecFrame@ =~= seq![self@.pdu.len() as u8] + self@.pdu);
        ApplyPadding(&mut vecFrame, self.m_params.m_optByPaddingByte);
        vecFrame
    }

    /// The opening frame of a long PDU: a 12-bit total length, then the first six bytes.
    fn BuildFirstFrame(&mut self) -> (vecFrame: Vec<u8>)
        requires
            7 < old(self).m_vecPdu@.len() <= 4095,
        ensures
            vecFrame@ == first_frame(old(self)@.pdu),
            *final(self) == (IsoTpTransmitter { m_uSentBytes: 6, ..*old(self) }),
    {
        let uTotalLength: usize = self.m_vecPdu.len();
        let mut vecFrame: Vec<u8> = Vec::new();
        vecFrame.push((16 + uTotalLength / 256) as u8);
        vecFrame.push((uTotalLength % 256) as u8);
        AppendBytes(
            &mut vecFrame,
            slice_subrange(self.m_vecPdu.as_slice(), 0, c_uFirstFramePayload),
        );
        assert(vecFrame@ =~= first_frame(self@.pdu));
        self.m_uSentBytes = c_uFirstFramePayload;
        // A first frame is full by construction, so it never needs padding.
        vecFrame
    }

    /// One more slice of the PDU, numbered so the peer can spot a gap.
    fn BuildConsecutiveFrame(&mut self) -> (vecFrame: Vec<u8>)
        requires
            old(self).m_vecPdu@.len() <= 4095,
            1 <= old(self).m_uFramesSent,
            old(self).m_uSentBytes == bytes_in(
                old(self).m_vecPdu@.len() as int,
                old(self).m_uFramesSent as int,
            ),
            old(self).m_uSentBytes < old(self).m_vecPdu@.len(),
            old(self).m_u8SequenceNumber == old(self).m_uFramesSent % 16,
        ensures
            vecFrame@ == consecutive_frame(
                old(self)@.pdu,
                old(self)@.frames as int,
                old(self)@.params.m_optByPaddingByte,
            ),
            *final(self) == (IsoTpTransmitter {
                m_uSentBytes: bytes_in(
                    old(self)@.pdu.len() as int,
                    old(self)@.frames as int + 1,
                ) as usize,
                m_u8SequenceNumber: ((old(self)@.frames + 1) % 16) as u8,
                ..*old(self)
            }),
    {
        let mut vecFrame: Vec<u8> = Vec::new();
        vecFrame.push(32 + self.m_u8SequenceNumber % 16);
        let uRemaining: usize = self.m_vecPdu.len() - self.m_uSentBytes;
        let uTake: usize = if uRemaining < c_uConsecutiveFramePayload {
            uRemaining
        } else {
            c_uConsecutiveFramePayload
        };
        AppendBytes(
            &mut vecFrame,
            slice_subrange(
                self.m_vecPdu.as_slice(),
                self.m_uSentBytes,
                self.m_uSentBytes + uTake,
            ),
        );
        assert(vecFrame@ =~= seq![(32 + self@.frames as int % 16) as u8] + self@.pdu.subrange(
            bytes_in(self@.pdu.len() as int, self@.frames as int),
            bytes_in(self@.pdu.len() as int, self@.frames as int + 1),
        ));
        self.m_uSentBytes = self.m_uSentBytes + uTake;
        // The sequence number wraps at 15 and is not reset at a block boundary.
        self.m_u8SequenceNumber = self.m_u8SequenceNumber.wrapping_add(1) % 16;
        // Only the last consecutive frame can be short.
        ApplyPadding(&mut vecFrame, self.m_params.m_optByPaddingByte);
        vecFrame
    }
}

/// A transmitter that has begun to send a PDU of an acceptable length, and the frame that opens
/// the transfer.
pub open spec fn begun(t: TransmitterView, pdu: Seq<u8>) -> (TransmitterView, Seq<u8>) {
    (
        TransmitterView {
            pdu,
            frames: 1,
            waits: 0,
            state: if pdu.len() <= 7 {
                TransmitState::Complete
            } else {
                TransmitState::AwaitingFlowControl
            },
            ..t
        },
        if pdu.len() <= 7 {
            single_frame(pdu, t.params.m_optByPaddingByte)
        } else {
            first_frame(pdu)
        },
    )
}

/// A transmitter whose transfer was abandoned.
pub open spec fn aborted(t: TransmitterView, error: IsoTpTransportError) -> (
    Result<(), IsoTpTransportError>,
    TransmitterView,
) {
    (Err(error), TransmitterView { state: TransmitState::Aborted(error), ..t })
}

/// A transmitter cleared to send a block of the given size (zero for no limit).
pub open spec fn cleared(t: TransmitterView, block_size: u8, separation: u8) -> TransmitterView {
    TransmitterView {
        waits: 0,
        block_left: if block_size == 0 {
            None
        } else {
            Some(block_size as nat)
        },
        separation_us: separation_time_us(separation) as nat,
        state: TransmitState::SendingBlock,
        ..t
    }
}

/// A transmitter asked to wait once more: the eleventh wait in a row abandons the transfer.
pub open spec fn waited(t: TransmitterView) -> (Result<(), IsoTpTransportError>, TransmitterView) {
    let counted = TransmitterView { waits: t.waits + 1, ..t };
    if t.waits + 1 > 10 {
        aborted(
            counted,
            IsoTpTransportError::TooManyWaitFrames { u8WaitCount: (t.waits + 1) as u8 },
        )
    } else {
        (Ok(()), counted)
    }
}

/// What a flow control does to a transmitter: nothing where none is awaited or the frame is too
/// short.
pub open spec fn flow_controlled(t: TransmitterView, frame: Seq<u8>) -> (
    Result<(), IsoTpTransportError>,
    TransmitterView,
) {
    let status = frame[0] as int % 16;
    if t.state !is AwaitingFlowControl || frame.len() < 3 {
        (Ok(()), t)
    } else if status == 0 {
        (Ok(()), cleared(t, frame[1], frame[2]))
    } else if status == 1 {
        waited(t)
    } else if status == 2 {
        aborted(t, IsoTpTransportError::ReceiverOverflow)
    } else {
        aborted(t, IsoTpTransportError::InvalidFlowStatus { byFlowStatus: status as u8 })
    }
}

/// A transmitter after one more consecutive frame: complete once every byte has gone out.
pub open spec fn after_consecutive(t: TransmitterView) -> TransmitterView {
    TransmitterView {
        frames: t.frames + 1,
        block_left: match t.block_left {
            Some(left) => Some((left - 1) as nat),
            None => None,
        },
        state: if bytes_in(t.pdu.len() as int, t.frames as int + 1) >= t.pdu.len() {
            TransmitState::Complete
        } else {
            TransmitState::SendingBlock
        },
        ..t
    }
}

/// A transmitter asked for the next consecutive frame, and the frame it gives: none when it is not
/// cleared to send, and none when the block is used up, after which it awaits flow control.
pub open spec fn next_consecutive(t: TransmitterView) -> (TransmitterView, Option<Seq<u8>>) {
    if t.state !is SendingBlock {
        (t, None)
    } else if t.block_left == Some(0nat) {
        (TransmitterView { state: TransmitState::AwaitingFlowControl, ..t }, None)
    } else {
        (
            after_consecutive(t),
            Some(consecutive_frame(t.pdu, t.frames as int, t.params.m_optByPaddingByte)),
        )
    }
}

} // verus!
