//! ISO-TP receive as a bus participant.
//!
//! Distinct from [`crate::isotp::reassembly`]: this is half of a live conversation and has to
//! answer, because a multi-frame request goes nowhere until this end sends flow control. There
//! is no clock here; the caller owns the timeouts.

use vstd::prelude::*;

use crate::bytes::AppendBytes;
use crate::bytes::CopyRange;
use crate::isotp::params::c_uConsecutiveFramePayload;
use crate::isotp::params::c_uMaxClassicPduLength;
use crate::isotp::params::padded;
use crate::isotp::params::ApplyPadding;
use crate::isotp::params::IsoTpParameters;
use crate::isotp::reassembly::c_byPciConsecutiveFrame;
use crate::isotp::reassembly::c_byPciFirstFrame;
use crate::isotp::reassembly::c_byPciSingleFrame;
use crate::isotp::reassembly::extended;
use crate::isotp::reassembly::first_frame_length;
use crate::isotp::reassembly::opened;
use crate::isotp::reassembly::pci_low;
use crate::isotp::reassembly::pci_type;
use crate::isotp::reassembly::Assembly;
use vstd::slice::slice_subrange;

verus! {

/// First byte of a flow control that lets the sender continue.
pub const c_byFlowControlContinue: u8 = 0x30;

/// First byte of a flow control that refuses the message.
pub const c_byFlowControlOverflow: u8 = 0x32;

/// Why an inbound message was abandoned.
#[derive(Debug, Clone, Copy, PartialEq, Eq, Structural)]
pub enum IsoTpReceiveError {
    /// A consecutive frame arrived out of order, so bytes are missing.
    WrongSequenceNumber { u8Expected: u8, u8Received: u8 },
    /// A frame arrived that makes no sense where it did.
    UnexpectedConsecutiveFrame,
}

/// What arrived, and what this end owes the sender because of it.
#[derive(Debug, Clone, PartialEq, Eq)]
pub enum ReceiveOutcome {
    /// Nothing to do: a frame that is not part of an inbound message, or one that only added
    /// bytes to a message still in progress.
    Nothing,
    /// A whole PDU arrived.
    Completed { vecPdu: Vec<u8> },
    /// Send this flow-control frame, then expect more.
    SendFlowControl { vecFrame: Vec<u8> },
    /// The message is bigger than this end will hold; send this refusal and expect no more.
    Refused { vecFrame: Vec<u8> },
    /// The message was abandoned.
    Aborted(IsoTpReceiveError),
}

/// An outcome as a mathematical value.
pub ghost enum OutcomeView {
    Nothing,
    Completed { pdu: Seq<u8> },
    SendFlowControl { frame: Seq<u8> },
    Refused { frame: Seq<u8> },
    Aborted { error: IsoTpReceiveError },
}

impl View for ReceiveOutcome {
    type V = OutcomeView;

    open spec fn view(&self) -> OutcomeView {
        match self {
            ReceiveOutcome::Nothing => OutcomeView::Nothing,
            ReceiveOutcome::Completed { vecPdu } => OutcomeView::Completed { pdu: vecPdu@ },
            ReceiveOutcome::SendFlowControl { vecFrame } => OutcomeView::SendFlowControl {
                frame: vecFrame@,
            },
            ReceiveOutcome::Refused { vecFrame } => OutcomeView::Refused { frame: vecFrame@ },
            ReceiveOutcome::Aborted(error) => OutcomeView::Aborted { error: *error },
        }
    }
}

/// A message being assembled.
struct Pending {
    m_vecBuffer: Vec<u8>,
    m_uRemaining: usize,
    m_u8NextSequenceNumber: u8,
    /// Consecutive frames still expected before another flow control is due; `None` when this
    /// end set no block limit.
    m_optU8RemainingInBlock: Option<u8>,
}

/// A receiver's state: its parameters, the longest message it will hold, whether it serves a
/// broadcast identifier, the message in progress, and how many consecutive frames are left in
/// the current block (`None` for no limit).
pub ghost struct ReceiverView {
    pub params: IsoTpParameters,
    pub max_pdu: nat,
    pub functional: bool,
    pub pending: Option<Assembly>,
    pub block_left: Option<nat>,
}

/// Reassembles inbound frames and generates the flow control they require.
pub struct IsoTpReceiver {
    m_params: IsoTpParameters,
    /// The longest message this end will assemble. Defaults to everything a classic first frame
    /// can announce; lowering it simulates an ECU's finite buffer.
    m_uMaxPduLength: usize,
    /// Functional addressing reaches every ECU at once, so there is no single peer to flow
    /// control: such a receiver accepts single frames only.
    m_bIsFunctional: bool,
    m_optPending: Option<Pending>,
}

impl View for IsoTpReceiver {
    type V = ReceiverView;

    closed spec fn view(&self) -> ReceiverView {
        ReceiverView {
            params: self.m_params,
            max_pdu: self.m_uMaxPduLength as nat,
            functional: self.m_bIsFunctional,
            pending: match self.m_optPending {
                Some(p) => Some(
                    Assembly {
                        buffer: p.m_vecBuffer@,
                        remaining: p.m_uRemaining as nat,
                        started: 0,
                        next: p.m_u8NextSequenceNumber as nat,
                    },
                ),
                None => None,
            },
            block_left: match self.m_optPending {
                Some(p) => match p.m_optU8RemainingInBlock {
                    Some(left) => Some(left as nat),
                    None => None,
                },
                None => None,
            },
        }
    }
}

/// A flow-control frame carrying this end's block size and separation time, padded.
pub open spec fn flow_control(params: IsoTpParameters, status: u8) -> Seq<u8> {
    padded(
        seq![status, params.m_u8BlockSize, params.m_bySeparationTimeMin],
        params.m_optByPaddingByte,
    )
}

/// How many consecutive frames a block allows; `None` for no limit.
pub open spec fn block_allowance(params: IsoTpParameters) -> Option<nat> {
    if params.m_u8BlockSize == 0 {
        None
    } else {
        Some(params.m_u8BlockSize as nat)
    }
}

/// A receiver with nothing in progress.
pub open spec fn idle(r: ReceiverView) -> ReceiverView {
    ReceiverView { pending: None, block_left: None, ..r }
}

/// What a single frame brings: the PDU its length nibble announces, if the frame holds that many
/// bytes. Anything in progress is abandoned.
pub open spec fn received_single(r: ReceiverView, data: Seq<u8>) -> (ReceiverView, OutcomeView) {
    if pci_low(data) == 0 || pci_low(data) + 1 > data.len() {
        (idle(r), OutcomeView::Nothing)
    } else {
        (idle(r), OutcomeView::Completed { pdu: data.subrange(1, 1 + pci_low(data)) })
    }
}

/// What a first frame brings. It is dropped on a broadcast identifier, when it is too short, and
/// when the message would have fitted a single frame; refused when the message is larger than
/// this end will hold; otherwise it opens a message and is answered with flow control.
pub open spec fn received_first(r: ReceiverView, data: Seq<u8>) -> (ReceiverView, OutcomeView) {
    if r.functional || data.len() < 2 || first_frame_length(data) <= 7 {
        (r, OutcomeView::Nothing)
    } else if first_frame_length(data) > r.max_pdu {
        (idle(r), OutcomeView::Refused { frame: flow_control(r.params, 0x32) })
    } else {
        (
            ReceiverView {
                pending: opened(data, 0),
                block_left: block_allowance(r.params),
                ..r
            },
            OutcomeView::SendFlowControl { frame: flow_control(r.params, 0x30) },
        )
    }
}

/// What a consecutive frame brings. Without a message in progress it is ignored; out of sequence
/// it aborts the message; otherwise it extends it. A message with bytes still missing asks for
/// the next block exactly when the current one is used up.
pub open spec fn received_consecutive(r: ReceiverView, data: Seq<u8>) -> (
    ReceiverView,
    OutcomeView,
) {
    match r.pending {
        None => (r, OutcomeView::Nothing),
        Some(assembly) => {
            let after = extended(assembly, data);
            if pci_low(data) != assembly.next {
                (
                    idle(r),
                    OutcomeView::Aborted {
                        error: IsoTpReceiveError::WrongSequenceNumber {
                            u8Expected: assembly.next as u8,
                            u8Received: pci_low(data) as u8,
                        },
                    },
                )
            } else if after.remaining == 0 {
                (idle(r), OutcomeView::Completed { pdu: after.buffer })
            } else if r.block_left is Some && r.block_left->0 <= 1 {
                (
                    ReceiverView {
                        pending: Some(after),
                        block_left: block_allowance(r.params),
                        ..r
                    },
                    OutcomeView::SendFlowControl { frame: flow_control(r.params, 0x30) },
                )
            } else {
                (
                    ReceiverView {
                        pending: Some(after),
                        block_left: match r.block_left {
                            Some(left) => Some((left - 1) as nat),
                            None => None,
                        },
                        ..r
                    },
                    OutcomeView::Nothing,
                )
            }
        },
    }
}

/// What one inbound frame does to a receiver and what it owes the sender. Flow control belongs
/// to the transmit side, so it and every unknown frame type change nothing.
pub open spec fn received(r: ReceiverView, data: Seq<u8>) -> (ReceiverView, OutcomeView) {
    if data.len() == 0 {
        (r, OutcomeView::Nothing)
    } else if pci_type(data) == 0 {
        received_single(r, data)
    } else if pci_type(data) == 1 {
        received_first(r, data)
    } else if pci_type(data) == 2 {
        received_consecutive(r, data)
    } else {
        (r, OutcomeView::Nothing)
    }
}

impl IsoTpReceiver {
    /// A receiver for one ECU's physical request identifier.
    pub fn NewPhysical(params: IsoTpParameters) -> (receiver: Self)
        ensures
            receiver@ == (ReceiverView {
                params,
                max_pdu: 4095,
                functional: false,
                pending: None,
                block_left: None,
            }),
    {
        IsoTpReceiver {
            m_params: params,
            m_uMaxPduLength: c_uMaxClassicPduLength,
            m_bIsFunctional: false,
            m_optPending: None,
        }
    }

    /// Limit how large a message this end will assemble, as a real ECU's buffer does.
    pub fn WithMaxPduLength(self, uMaxPduLength: usize) -> (receiver: Self)
        ensures
            receiver@ == (ReceiverView {
                max_pdu: if uMaxPduLength < 4095 {
                    uMaxPduLength as nat
                } else {
                    4095
                },
                ..self@
            }),
    {
        let mut receiver = self;
        receiver.m_uMaxPduLength = if uMaxPduLength < c_uMaxClassicPduLength {
            uMaxPduLength
        } else {
            c_uMaxClassicPduLength
        };
        receiver
    }

    /// A receiver for a broadcast identifier: single frames only, and it never flow-controls.
    pub fn NewFunctional(params: IsoTpParameters) -> (receiver: Self)
        ensures
            receiver@ == (ReceiverView {
                params,
                max_pdu: 4095,
                functional: true,
                pending: None,
                block_left: None,
            }),
    {
        IsoTpReceiver {
            m_params: params,
            m_uMaxPduLength: c_uMaxClassicPduLength,
            m_bIsFunctional: true,
            m_optPending: None,
        }
    }

    /// True while a multi-frame message is part-way through.
    pub fn IsAssembling(&self) -> (bIsAssembling: bool)
        ensures
            bIsAssembling == (self@.pending is Some),
    {
        self.m_optPending.is_some()
    }

    /// Abandon anything in progress, e.g. because the simulation was stopped.
    pub fn Reset(&mut self)
        ensures
            final(self)@ == idle(old(self)@),
    {
        self.m_optPending = None;
    }

    /// Take one inbound frame.
    pub fn OnFrame(&mut self, vecData: &[u8]) -> (outcome: ReceiveOutcome)
        ensures
            received(old(self)@, vecData@) == (final(self)@, outcome@),
    {
        if vecData.len() == 0 {
            return ReceiveOutcome::Nothing;
        }
        let byPciType: u8 = vecData[0] / 16;
        if byPciType == c_byPciSingleFrame {
            self.OnSingleFrame(vecData)
        } else if byPciType == c_byPciFirstFrame {
            self.OnFirstFrame(vecData)
        } else if byPciType == c_byPciConsecutiveFrame {
            self.OnConsecutiveFrame(vecData)
        } else {
            ReceiveOutcome::Nothing
        }
    }

    /// A whole PDU in one frame. No flow control is ever owed for one.
    fn OnSingleFrame(&mut self, vecData: &[u8]) -> (outcome: ReceiveOutcome)
        requires
            vecData@.len() >= 1,
        ensures
            received_single(old(self)@, vecData@) == (final(self)@, outcome@),
    {
        self.m_optPending = None;
        let uLength: usize = (vecData[0] % 16) as usize;
        if uLength == 0 || uLength + 1 > vecData.len() {
            return ReceiveOutcome::Nothing;
        }
        // The length comes from the PCI, never from the frame's size: the rest is padding.
        ReceiveOutcome::Completed { vecPdu: CopyRange(vecData, 1, 1 + uLength) }
    }

    /// The opening frame of a long message.
    fn OnFirstFrame(&mut self, vecData: &[u8]) -> (outcome: ReceiveOutcome)
        requires
            vecData@.len() >= 1,
        ensures
            received_first(old(self)@, vecData@) == (final(self)@, outcome@),
    {
        if self.m_bIsFunctional {
            return ReceiveOutcome::Nothing;
        }
        if vecData.len() < 2 {
            return ReceiveOutcome::Nothing;
        }
        let uTotalLength: usize = (vecData[0] % 16) as usize * 256 + vecData[1] as usize;
        if uTotalLength <= c_uConsecutiveFramePayload {
            return ReceiveOutcome::Nothing;
        }
        if uTotalLength > self.m_uMaxPduLength {
            self.m_optPending = None;
            return ReceiveOutcome::Refused {
                vecFrame: self.BuildFlowControl(c_byFlowControlOverflow),
            };
        }
        let uTaken: usize = if vecData.len() - 2 <= uTotalLength {
            vecData.len() - 2
        } else {
            uTotalLength
        };
        self.m_optPending = Some(
            Pending {
                m_vecBuffer: CopyRange(vecData, 2, 2 + uTaken),
                m_uRemaining: uTotalLength - uTaken,
                m_u8NextSequenceNumber: 1,
                m_optU8RemainingInBlock: self.BlockAllowance(),
            },
        );
        ReceiveOutcome::SendFlowControl { vecFrame: self.BuildFlowControl(c_byFlowControlContinue) }
    }

    /// One more slice of a message in progress.
    fn OnConsecutiveFrame(&mut self, vecData: &[u8]) -> (outcome: ReceiveOutcome)
        requires
            vecData@.len() >= 1,
        ensures
            received_consecutive(old(self)@, vecData@) == (final(self)@, outcome@),
    {
        let mut pending = match self.m_optPending.take() {
            Some(pending) => pending,
            None => {
                return ReceiveOutcome::Nothing;
            },
        };
        let u8Received: u8 = vecData[0] % 16;
        if u8Received != pending.m_u8NextSequenceNumber {
            // Bytes are missing, so whatever is assembled is wrong. Abandon it rather than hand a
            // plausible-looking but incorrect PDU upward.
            return ReceiveOutcome::Aborted(
                IsoTpReceiveError::WrongSequenceNumber {
                    u8Expected: pending.m_u8NextSequenceNumber,
                    u8Received,
                },
            );
        }
        pending.m_u8NextSequenceNumber = pending.m_u8NextSequenceNumber.wrapping_add(1) % 16;
        let uTake: usize = if vecData.len() - 1 <= pending.m_uRemaining {
            vecData.len() - 1
        } else {
            pending.m_uRemaining
        };
        AppendBytes(&mut pending.m_vecBuffer, slice_subrange(vecData, 1, 1 + uTake));
        pending.m_uRemaining = pending.m_uRemaining - uTake;
        if pending.m_uRemaining == 0 {
            return ReceiveOutcome::Completed { vecPdu: pending.m_vecBuffer };
        }
        // A block limit means another flow control is owed once this block is used up.

        if let Some(u8Remaining) = pending.m_optU8RemainingInBlock {
            if u8Remaining <= 1 {
                pending.m_optU8RemainingInBlock = self.BlockAllowance();
                self.m_optPending = Some(pending);
                return ReceiveOutcome::SendFlowControl {
                    vecFrame: self.BuildFlowControl(c_byFlowControlContinue),
                };
            }
            pending.m_optU8RemainingInBlock = Some(u8Remaining - 1);
        }
        self.m_optPending = Some(pending);
        ReceiveOutcome::Nothing
    }

    /// How many consecutive frames this end will accept before asking again.
    fn BlockAllowance(&self) -> (optU8Allowance: Option<u8>)
        ensures
            match optU8Allowance {
                Some(n) => block_allowance(self@.params) == Some(n as nat),
                None => block_allowance(self@.params) is None,
            },
    {
        if self.m_params.m_u8BlockSize == 0 {
            None
        } else {
            Some(self.m_params.m_u8BlockSize)
        }
    }

    /// Build a flow-control frame carrying this end's block size and separation time.
    fn BuildFlowControl(&self, byFlowStatus: u8) -> (vecFrame: Vec<u8>)
        ensures
            vecFrame@ == flow_control(self@.params, byFlowStatus),
    {
        let mut vecFrame: Vec<u8> = Vec::new();
        vecFrame.push(byFlowStatus);
        vecFrame.push(self.m_params.m_u8BlockSize);
        vecFrame.push(self.m_params.m_bySeparationTimeMin);
        assert(vecFrame@ =~= seq![
            byFlowStatus,
            self.m_params.m_u8BlockSize,
            self.m_params.m_bySeparationTimeMin,
        ]);
        ApplyPadding(&mut vecFrame, self.m_params.m_optByPaddingByte);
        vecFrame
    }
}

} // verus!
