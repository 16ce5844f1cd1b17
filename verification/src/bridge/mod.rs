//! The CAN bridge: the simulation, on a wire.
//!
//! A frame arrives, ISO-TP reassembles it into a request, the request is routed to an ECU, and
//! the ECU's answer is segmented back into frames. The bridge here holds everything that decides:
//! who listens on which identifier, which frames wait, and where a transfer has got to. Reading
//! and writing the bus, routing and waiting happen outside it, step by step.
//!
//! Requests are handled one at a time: a CAN bus serialises frames anyway, so two ECUs cannot be
//! in the middle of a transfer at once on one link.

pub mod adapter_laws;
pub mod capacity;
pub mod endpoints;
pub mod link_laws;
pub mod mock;
pub mod observer;
pub mod pacing_laws;
pub mod probe;
pub mod queue;

use std::collections::VecDeque;

use vstd::prelude::*;

use crate::bridge::capacity::LinkCapacity;
use crate::bridge::endpoints::endpoints_of;
use crate::bridge::endpoints::EndpointTable;
use crate::bridge::endpoints::EndpointView;
use crate::bridge::endpoints::LinkedEcu;
use crate::bridge::queue::AppendFrames;
use crate::bridge::queue::PrependFrames;
use crate::can::CanFrame;
use crate::isotp::params::IsoTpParameters;
use crate::isotp::rx::received;
use crate::isotp::rx::IsoTpReceiveError;
use crate::isotp::rx::OutcomeView;
use crate::isotp::rx::ReceiveOutcome;
use crate::isotp::tx::aborted;
use crate::isotp::tx::after_consecutive;
use crate::isotp::tx::consecutive_frame;
use crate::isotp::tx::first_frame;
use crate::isotp::tx::flow_controlled;
use crate::isotp::tx::single_frame;
use crate::isotp::tx::IsoTpTransmitter;
use crate::isotp::tx::IsoTpTransportError;
use crate::isotp::tx::TransmitState;
use crate::isotp::tx::TransmitterView;

verus! {

/// How much has crossed the link, for a status display.
#[derive(Debug, Clone, Copy, PartialEq, Eq, Structural)]
pub struct BridgeStats {
    m_u64FramesReceived: u64,
    m_u64FramesSent: u64,
}

impl BridgeStats {
    /// Frames taken off the bus.
    pub closed spec fn received(&self) -> int {
        self.m_u64FramesReceived as int
    }

    /// Frames put on it.
    pub closed spec fn sent(&self) -> int {
        self.m_u64FramesSent as int
    }

    /// Frames taken off the bus.
    pub fn FramesReceived(&self) -> (u64Frames: u64)
        ensures
            u64Frames == self.received(),
    {
        self.m_u64FramesReceived
    }

    /// Frames put on it.
    pub fn FramesSent(&self) -> (u64Frames: u64)
        ensures
            u64Frames == self.sent(),
    {
        self.m_u64FramesSent
    }
}

/// A response on its way out.
struct Transfer {
    m_u32RequestCanId: u32,
    m_u32ResponseCanId: u32,
    m_transmitter: IsoTpTransmitter,
}

/// A transfer: the identifier its request came in on, the one it is answered on, and the
/// transmitter.
pub ghost struct TransferView {
    pub request: u32,
    pub response: u32,
    pub transmitter: TransmitterView,
}

impl Transfer {
    spec fn view(&self) -> TransferView {
        TransferView {
            request: self.m_u32RequestCanId,
            response: self.m_u32ResponseCanId,
            transmitter: self.m_transmitter@,
        }
    }
}

/// Drives the simulation from a CAN bus.
pub struct CanBridge {
    m_params: IsoTpParameters,
    m_table: EndpointTable,
    /// Frames read from the bus but not yet dealt with. One queue, because a read returns
    /// everything that has arrived, which may hold both a request and the flow control for the
    /// answer to it.
    m_queueInbound: VecDeque<CanFrame>,
    /// Frames taken off the queue while waiting for a flow control that were not it. They are put
    /// back, in order, once the transfer finishes.
    m_vecDeferred: Vec<CanFrame>,
    m_stats: BridgeStats,
    /// What the link between host and adapter can carry, when that is known.
    m_optLinkCapacity: Option<LinkCapacity>,
    /// The configuration generation the endpoints were built from.
    m_u64EndpointGeneration: u64,
    m_optTransfer: Option<Transfer>,
}

/// A bridge as a mathematical value.
pub ghost struct BridgeView {
    pub params: IsoTpParameters,
    pub endpoints: Map<u32, EndpointView>,
    pub queue: Seq<CanFrame>,
    pub deferred: Seq<CanFrame>,
    pub frames_received: int,
    pub frames_sent: int,
    pub capacity: Option<LinkCapacity>,
    pub generation: u64,
    pub transfer: Option<TransferView>,
}

impl View for CanBridge {
    type V = BridgeView;

    closed spec fn view(&self) -> BridgeView {
        BridgeView {
            params: self.m_params,
            endpoints: self.m_table@,
            queue: self.m_queueInbound@,
            deferred: self.m_vecDeferred@,
            frames_received: self.m_stats.received(),
            frames_sent: self.m_stats.sent(),
            capacity: self.m_optLinkCapacity,
            generation: self.m_u64EndpointGeneration,
            transfer: match self.m_optTransfer {
                Some(transfer) => Some(transfer@),
                None => None,
            },
        }
    }
}

/// What a frame handed to the bridge comes to.
#[derive(Debug, Clone, PartialEq, Eq)]
pub enum FeedStep {
    /// Nothing to do: nobody listens there, or a message is still in progress.
    Nothing,
    /// A complete request.
    Request { u32RequestCanId: u32, vecPdu: Vec<u8> },
    /// Put this on the bus, on the identifier the ECU answers on: that is where the tester's
    /// transmitter is listening.
    Send { u32CanId: u32, vecData: Vec<u8> },
    /// The message was abandoned: frames went missing on the way here.
    Abandoned { u32RequestCanId: u32, error: IsoTpReceiveError },
}

/// A step as a mathematical value.
pub ghost enum FeedView {
    Nothing,
    Request { id: u32, pdu: Seq<u8> },
    Send { id: u32, data: Seq<u8> },
    Abandoned { id: u32, error: IsoTpReceiveError },
}

impl View for FeedStep {
    type V = FeedView;

    open spec fn view(&self) -> FeedView {
        match self {
            FeedStep::Nothing => FeedView::Nothing,
            FeedStep::Request { u32RequestCanId, vecPdu } => FeedView::Request {
                id: *u32RequestCanId,
                pdu: vecPdu@,
            },
            FeedStep::Send { u32CanId, vecData } => FeedView::Send {
                id: *u32CanId,
                data: vecData@,
            },
            FeedStep::Abandoned { u32RequestCanId, error } => FeedView::Abandoned {
                id: *u32RequestCanId,
                error: *error,
            },
        }
    }
}

/// What a frame comes to: given to whoever listens on its identifier, while the simulation runs. A
/// stopped simulation is an unpowered ECU: it does not answer, and it does not flow-control
/// either.
pub open spec fn fed(b: BridgeView, frame: CanFrame, running: bool) -> (BridgeView, FeedView) {
    if !running || !b.endpoints.contains_key(frame.m_u32CanId) {
        (b, FeedView::Nothing)
    } else {
        let endpoint = b.endpoints[frame.m_u32CanId];
        let (receiver, outcome) = received(endpoint.receiver, frame.m_vecData@);
        let after = BridgeView {
            endpoints: b.endpoints.insert(
                frame.m_u32CanId,
                EndpointView { receiver, ..endpoint },
            ),
            ..b
        };
        (
            after,
            match outcome {
                OutcomeView::Nothing => FeedView::Nothing,
                OutcomeView::Completed { pdu } => FeedView::Request { id: endpoint.request, pdu },
                OutcomeView::SendFlowControl { frame } => FeedView::Send {
                    id: endpoint.response,
                    data: frame,
                },
                OutcomeView::Refused { frame } => FeedView::Send {
                    id: endpoint.response,
                    data: frame,
                },
                OutcomeView::Aborted { error } => FeedView::Abandoned {
                    id: endpoint.request,
                    error,
                },
            },
        )
    }
}

/// A flow-control frame: the PCI type is 3.
pub open spec fn is_flow_control(frame: CanFrame) -> bool {
    frame.m_vecData@.len() > 0 && frame.m_vecData@[0] as int / 16 == 3
}

/// True for a flow-control frame: the PCI type is 3.
pub fn IsFlowControlFrame(frame: &CanFrame) -> (bIsFlowControl: bool)
    ensures
        bIsFlowControl == is_flow_control(*frame),
{
    frame.m_vecData.len() > 0 && frame.m_vecData[0] / 16 == 3
}

/// What became of a frame that arrived while a transfer waits for flow control.
#[derive(Debug, Clone, Copy, PartialEq, Eq, Structural)]
pub enum AwaitedFrame {
    /// No transfer is waiting.
    NotWaiting,
    /// The queue is empty.
    NoFrame,
    /// A flow control, given to the transfer.
    FlowControl,
    /// A frame for the identifier being answered. It is dropped: this ECU does not take a new
    /// request in the middle of a response.
    Dropped,
    /// A frame of a different conversation, set aside.
    Deferred,
}

/// What a flow control does to a transmitter that waits for one.
pub open spec fn with_flow_control(t: TransmitterView, data: Seq<u8>) -> TransmitterView {
    if data.len() < 3 {
        t
    } else {
        flow_controlled(t, data).1
    }
}

/// A transfer is waiting for flow control.
pub open spec fn is_waiting(b: BridgeView) -> bool {
    b.transfer is Some && b.transfer->0.transmitter.state is AwaitingFlowControl
}

/// What becomes of the next frame while a transfer waits.
pub open spec fn awaited(b: BridgeView) -> (BridgeView, AwaitedFrame) {
    if !is_waiting(b) {
        (b, AwaitedFrame::NotWaiting)
    } else if b.queue.len() == 0 {
        (b, AwaitedFrame::NoFrame)
    } else {
        let transfer = b.transfer->0;
        let frame = b.queue[0];
        let left = BridgeView { queue: b.queue.drop_first(), ..b };
        if is_flow_control(frame) && b.endpoints.contains_key(frame.m_u32CanId) {
            (
                BridgeView {
                    transfer: Some(
                        TransferView {
                            transmitter: with_flow_control(
                                transfer.transmitter,
                                frame.m_vecData@,
                            ),
                            ..transfer
                        },
                    ),
                    ..left
                },
                AwaitedFrame::FlowControl,
            )
        } else if frame.m_u32CanId == transfer.request {
            (left, AwaitedFrame::Dropped)
        } else {
            (
                BridgeView { deferred: b.deferred.push(frame), ..left },
                AwaitedFrame::Deferred,
            )
        }
    }
}

/// What a transfer does next.
#[derive(Debug, Clone, PartialEq, Eq)]
pub enum TransferAction {
    /// Wait this long, then put this frame on the bus.
    Send { u32CanId: u32, vecData: Vec<u8>, u64AfterUs: u64 },
    /// Wait for the tester's flow control.
    AwaitFlowControl,
    /// The transfer is done, or there is none.
    Finished,
    /// The transfer was abandoned.
    Failed(IsoTpTransportError),
}

/// An action as a mathematical value.
pub ghost enum ActionView {
    Send { id: u32, data: Seq<u8>, after_us: int },
    AwaitFlowControl,
    Finished,
    Failed { error: IsoTpTransportError },
}

impl View for TransferAction {
    type V = ActionView;

    open spec fn view(&self) -> ActionView {
        match self {
            TransferAction::Send { u32CanId, vecData, u64AfterUs } => ActionView::Send {
                id: *u32CanId,
                data: vecData@,
                after_us: *u64AfterUs as int,
            },
            TransferAction::AwaitFlowControl => ActionView::AwaitFlowControl,
            TransferAction::Finished => ActionView::Finished,
            TransferAction::Failed(error) => ActionView::Failed { error: *error },
        }
    }
}

/// A bridge whose transfer is over: what was set aside is back at the head of the queue, in the
/// order it arrived, as though the transfer had not happened.
pub open spec fn ended(b: BridgeView) -> BridgeView {
    BridgeView { transfer: None, queue: b.deferred + b.queue, deferred: seq![], ..b }
}

/// What a transfer does next, and the bridge afterwards.
pub open spec fn next_action(b: BridgeView) -> (BridgeView, ActionView) {
    match b.transfer {
        None => (b, ActionView::Finished),
        Some(transfer) => {
            let t = transfer.transmitter;
            match t.state {
                TransmitState::SendingBlock => if t.block_left == Some(0nat) {
                    (
                        BridgeView {
                            transfer: Some(
                                TransferView {
                                    transmitter: TransmitterView {
                                        state: TransmitState::AwaitingFlowControl,
                                        ..t
                                    },
                                    ..transfer
                                },
                            ),
                            ..b
                        },
                        ActionView::AwaitFlowControl,
                    )
                } else {
                    (
                        BridgeView {
                            transfer: Some(
                                TransferView { transmitter: after_consecutive(t), ..transfer },
                            ),
                            ..b
                        },
                        ActionView::Send {
                            id: transfer.response,
                            data: consecutive_frame(
                                t.pdu,
                                t.frames as int,
                                t.params.m_optByPaddingByte,
                            ),
                            after_us: t.separation_us as int,
                        },
                    )
                },
                TransmitState::AwaitingFlowControl => (b, ActionView::AwaitFlowControl),
                TransmitState::Aborted(error) => (ended(b), ActionView::Failed { error }),
                _ => (ended(b), ActionView::Finished),
            }
        },
    }
}

impl CanBridge {
    /// The transfer's own invariant holds.
    pub closed spec fn wf(&self) -> bool {
        match self.m_optTransfer {
            Some(transfer) => transfer.m_transmitter.wf(),
            None => true,
        }
    }

    /// Build a bridge for the ECUs a simulation currently runs.
    pub fn New(params: IsoTpParameters, vecEcus: &[LinkedEcu], u64Generation: u64) -> (bridge: Self)
        ensures
            bridge.wf(),
            bridge@ == (BridgeView {
                params,
                endpoints: endpoints_of(vecEcus@, params, None),
                queue: seq![],
                deferred: seq![],
                frames_received: 0,
                frames_sent: 0,
                capacity: None,
                generation: u64Generation,
                transfer: None,
            }),
    {
        let bridge = CanBridge {
            m_params: params,
            m_table: EndpointTable::Build(vecEcus, params, None),
            m_queueInbound: VecDeque::new(),
            m_vecDeferred: Vec::new(),
            m_stats: BridgeStats { m_u64FramesReceived: 0, m_u64FramesSent: 0 },
            m_optLinkCapacity: None,
            m_u64EndpointGeneration: u64Generation,
            m_optTransfer: None,
        };
        assert(bridge@.queue =~= seq![]);
        assert(bridge@.deferred =~= seq![]);
        bridge
    }

    /// Tell the bridge what the link to the adapter can carry.
    ///
    /// Without this the bridge advertises exactly what each ECU asks for. With it, an ECU asking
    /// for no pacing at all on a link that cannot carry the bus unpaced is given the slowest
    /// pacing the link does support.
    pub fn WithLinkCapacity(
        self,
        u32SerialBaud: u32,
        u32CanBitrateBps: u32,
        vecEcus: &[LinkedEcu],
        u64Generation: u64,
    ) -> (bridge: Self)
        requires
            self.wf(),
        ensures
            bridge.wf(),
            ({
                let capacity = LinkCapacity {
                    m_uLinkFramesPerSecond: (u32SerialBaud as int / 270) as usize,
                    m_uBusFramesPerSecond: (u32CanBitrateBps as int / 135) as usize,
                };
                bridge@ == (BridgeView {
                    capacity: Some(capacity),
                    endpoints: endpoints_of(vecEcus@, self@.params, Some(capacity)),
                    generation: u64Generation,
                    ..self@
                })
            }),
    {
        let mut bridge = self;
        bridge.m_optLinkCapacity = Some(LinkCapacity::New(u32SerialBaud, u32CanBitrateBps));
        bridge.RebuildEndpoints(vecEcus, u64Generation);
        bridge
    }

    /// The counters of this bridge, for a status display.
    pub fn Stats(&self) -> (stats: BridgeStats)
        ensures
            stats.received() == self@.frames_received,
            stats.sent() == self@.frames_sent,
    {
        self.m_stats
    }

    /// How many identifiers something listens on.
    pub fn EndpointCount(&self) -> (uCount: usize)
        ensures
            uCount == self@.endpoints.len(),
    {
        self.m_table.Count()
    }

    /// Rebuild the endpoints from the ECUs that run. Anything in the middle of reassembly is
    /// abandoned: the operator has just changed what this ECU accepts.
    pub fn RebuildEndpoints(&mut self, vecEcus: &[LinkedEcu], u64Generation: u64)
        requires
            old(self).wf(),
        ensures
            final(self).wf(),
            final(self)@ == (BridgeView {
                endpoints: endpoints_of(vecEcus@, old(self)@.params, old(self)@.capacity),
                generation: u64Generation,
                ..old(self)@
            }),
    {
        self.m_table = EndpointTable::Build(vecEcus, self.m_params, self.m_optLinkCapacity);
        self.m_u64EndpointGeneration = u64Generation;
    }

    /// Rebuild the endpoints if the configuration has moved on since they were built, so that an
    /// ECU added, removed or re-timed while the link is up reaches the wire.
    pub fn RebuildEndpointsIfStale(&mut self, vecEcus: &[LinkedEcu], u64Current: u64)
        requires
            old(self).wf(),
        ensures
            final(self).wf(),
            final(self)@ == (if u64Current == old(self)@.generation {
                old(self)@
            } else {
                BridgeView {
                    endpoints: endpoints_of(vecEcus@, old(self)@.params, old(self)@.capacity),
                    generation: u64Current,
                    ..old(self)@
                }
            }),
    {
        if u64Current == self.m_u64EndpointGeneration {
            return;
        }
        self.RebuildEndpoints(vecEcus, u64Current);
    }

    /// Take in what the bus has delivered.
    pub fn OnFramesReceived(&mut self, vecFrames: Vec<CanFrame>)
        requires
            old(self).wf(),
        ensures
            final(self).wf(),
            final(self)@ == (BridgeView {
                queue: old(self)@.queue + vecFrames@,
                frames_received: (old(self)@.frames_received + vecFrames@.len())
                    % 0x1_0000_0000_0000_0000,
                ..old(self)@
            }),
    {
        let u64Count: u64 = vecFrames.len() as u64;
        self.m_stats.m_u64FramesReceived = self.m_stats.m_u64FramesReceived.wrapping_add(u64Count);
        AppendFrames(&mut self.m_queueInbound, vecFrames);
    }

    /// The next frame to deal with.
    pub fn TakeFrame(&mut self) -> (optFrame: Option<CanFrame>)
        requires
            old(self).wf(),
        ensures
            final(self).wf(),
            match optFrame {
                Some(frame) => old(self)@.queue.len() > 0 && frame == old(self)@.queue[0]
                    && final(self)@ == (BridgeView {
                    queue: old(self)@.queue.drop_first(),
                    ..old(self)@
                }),
                None => old(self)@.queue.len() == 0 && final(self)@ == old(self)@,
            },
    {
        let optFrame = self.m_queueInbound.pop_front();
        proof {
            if optFrame is Some {
                assert(self@.queue =~= old(self)@.queue.drop_first());
            }
        }
        optFrame
    }

    /// Deal with one inbound frame, while the simulation runs or does not.
    pub fn HandleFrame(&mut self, frame: &CanFrame, bIsRunning: bool) -> (step: FeedStep)
        requires
            old(self).wf(),
        ensures
            final(self).wf(),
            (final(self)@, step@) == fed(old(self)@, *frame, bIsRunning),
    {
        if !bIsRunning {
            return FeedStep::Nothing;
        }
        let (u32RequestCanId, u32ResponseCanId, outcome) = match self.m_table.Feed(
            frame.m_u32CanId,
            frame.m_vecData.as_slice(),
        ) {
            Some(fed) => fed,
            // A tester scanning for ECUs addresses identifiers nothing owns; that is ordinary
            // traffic.
            None => {
                return FeedStep::Nothing;
            },
        };
        match outcome {
            ReceiveOutcome::Nothing => FeedStep::Nothing,
            ReceiveOutcome::Completed { vecPdu } => FeedStep::Request { u32RequestCanId, vecPdu },
            ReceiveOutcome::SendFlowControl { vecFrame } => FeedStep::Send {
                u32CanId: u32ResponseCanId,
                vecData: vecFrame,
            },
            ReceiveOutcome::Refused { vecFrame } => FeedStep::Send {
                u32CanId: u32ResponseCanId,
                vecData: vecFrame,
            },
            ReceiveOutcome::Aborted(error) => FeedStep::Abandoned { u32RequestCanId, error },
        }
    }

    /// The frame that carries some data out, counted as sent.
    pub fn PrepareFrame(&mut self, u64TimestampUs: u64, u32CanId: u32, vecData: Vec<u8>) -> (frame:
        CanFrame)
        requires
            old(self).wf(),
        ensures
            final(self).wf(),
            frame == (CanFrame {
                m_u64TimestampUs: u64TimestampUs,
                m_u32CanId: u32CanId,
                m_bIsExtended: u32CanId > 0x7FF,
                m_bIsFd: false,
                m_vecData: vecData,
                m_bIsRemote: false,
                m_uRemoteLength: 0,
                m_optBIsRequest: None,
            }),
            final(self)@ == (BridgeView {
                frames_sent: (old(self)@.frames_sent + 1) % 0x1_0000_0000_0000_0000,
                ..old(self)@
            }),
    {
        self.m_stats.m_u64FramesSent = self.m_stats.m_u64FramesSent.wrapping_add(1);
        CanFrame::NewClassic(u64TimestampUs, u32CanId, vecData)
    }

    /// Start answering a request with a PDU: the first frame to put on the bus. A PDU that cannot
    /// be segmented starts nothing.
    pub fn BeginTransfer(
        &mut self,
        u32RequestCanId: u32,
        u32ResponseCanId: u32,
        vecPdu: &[u8],
    ) -> (result: Result<Vec<u8>, IsoTpTransportError>)
        requires
            old(self).wf(),
        ensures
            final(self).wf(),
            vecPdu@.len() == 0 ==> result == Err::<Vec<u8>, _>(IsoTpTransportError::EmptyPdu)
                && final(self)@ == old(self)@,
            vecPdu@.len() > 4095 ==> result == Err::<Vec<u8>, _>(
                IsoTpTransportError::PduTooLong { uLength: vecPdu@.len() as usize },
            ) && final(self)@ == old(self)@,
            1 <= vecPdu@.len() <= 4095 ==> {
                &&& result is Ok
                &&& result->Ok_0@ == (if vecPdu@.len() <= 7 {
                    single_frame(vecPdu@, old(self)@.params.m_optByPaddingByte)
                } else {
                    first_frame(vecPdu@)
                })
                &&& final(self)@ == (BridgeView {
                    transfer: Some(
                        TransferView {
                            request: u32RequestCanId,
                            response: u32ResponseCanId,
                            transmitter: TransmitterView {
                                params: old(self)@.params,
                                pdu: vecPdu@,
                                frames: 1,
                                block_left: None,
                                separation_us: 0,
                                waits: 0,
                                state: if vecPdu@.len() <= 7 {
                                    TransmitState::Complete
                                } else {
                                    TransmitState::AwaitingFlowControl
                                },
                            },
                        },
                    ),
                    ..old(self)@
                })
            },
    {
        let mut transmitter = IsoTpTransmitter::New(self.m_params);
        let vecFirst = match transmitter.Begin(vecPdu) {
            Ok(vecFirst) => vecFirst,
            Err(error) => {
                return Err(error);
            },
        };
        self.m_optTransfer = Some(
            Transfer {
                m_u32RequestCanId: u32RequestCanId,
                m_u32ResponseCanId: u32ResponseCanId,
                m_transmitter: transmitter,
            },
        );
        Ok(vecFirst)
    }

    /// Deal with the next queued frame while a transfer waits for flow control.
    ///
    /// A frame for another identifier belongs to a different conversation. Dropping it would punch
    /// a hole in that ECU's message, which would surface as a sequence error on a bus where every
    /// frame was sent correctly.
    pub fn OnAwaitedFrame(&mut self) -> (seen: AwaitedFrame)
        requires
            old(self).wf(),
        ensures
            final(self).wf(),
            (final(self)@, seen) == awaited(old(self)@),
    {
        let mut transfer = match self.m_optTransfer.take() {
            Some(transfer) => transfer,
            None => {
                return AwaitedFrame::NotWaiting;
            },
        };
        if !matches!(transfer.m_transmitter.State(), TransmitState::AwaitingFlowControl) {
            self.m_optTransfer = Some(transfer);
            return AwaitedFrame::NotWaiting;
        }
        let frame = match self.m_queueInbound.pop_front() {
            Some(frame) => frame,
            None => {
                self.m_optTransfer = Some(transfer);
                return AwaitedFrame::NoFrame;
            },
        };
        assert(self.m_queueInbound@ =~= old(self)@.queue.drop_first());
        if IsFlowControlFrame(&frame) && self.m_table.Listens(frame.m_u32CanId) {
            let _ = transfer.m_transmitter.OnFlowControl(frame.m_vecData.as_slice());
            self.m_optTransfer = Some(transfer);
            return AwaitedFrame::FlowControl;
        }
        let u32RequestCanId: u32 = transfer.m_u32RequestCanId;
        self.m_optTransfer = Some(transfer);
        if frame.m_u32CanId == u32RequestCanId {
            return AwaitedFrame::Dropped;
        }
        self.m_vecDeferred.push(frame);
        AwaitedFrame::Deferred
    }

    /// The flow control a transfer waits for never came.
    pub fn OnFlowControlTimeout(&mut self)
        requires
            old(self).wf(),
        ensures
            final(self).wf(),
            final(self)@ == (if is_waiting(old(self)@) {
                let transfer = old(self)@.transfer->0;
                BridgeView {
                    transfer: Some(
                        TransferView {
                            transmitter: aborted(
                                transfer.transmitter,
                                IsoTpTransportError::FlowControlTimeout {
                                    uFramesSent: transfer.transmitter.frames as usize,
                                },
                            ).1,
                            ..transfer
                        },
                    ),
                    ..old(self)@
                }
            } else {
                old(self)@
            }),
    {
        if let Some(mut transfer) = self.m_optTransfer.take() {
            if matches!(transfer.m_transmitter.State(), TransmitState::AwaitingFlowControl) {
                let _ = transfer.m_transmitter.OnFlowControlTimeout();
            }
            self.m_optTransfer = Some(transfer);
        }
    }

    /// Decide what the transfer does next, spacing the frames of a block the way the tester asked
    /// for. When it is over, the frames set aside are returned to the queue.
    pub fn NextTransferAction(&mut self) -> (action: TransferAction)
        requires
            old(self).wf(),
        ensures
            final(self).wf(),
            (final(self)@, action@) == next_action(old(self)@),
    {
        let mut transfer = match self.m_optTransfer.take() {
            Some(transfer) => transfer,
            None => {
                return TransferAction::Finished;
            },
        };
        match transfer.m_transmitter.State() {
            TransmitState::SendingBlock => {
                let u64AfterUs: u64 = transfer.m_transmitter.SeparationTime();
                let u32CanId: u32 = transfer.m_u32ResponseCanId;
                let optFrame = transfer.m_transmitter.NextConsecutiveFrame();
                self.m_optTransfer = Some(transfer);
                match optFrame {
                    Some(vecData) => TransferAction::Send { u32CanId, vecData, u64AfterUs },
                    None => TransferAction::AwaitFlowControl,
                }
            },
            TransmitState::AwaitingFlowControl => {
                self.m_optTransfer = Some(transfer);
                TransferAction::AwaitFlowControl
            },
            TransmitState::Aborted(error) => {
                let error = *error;
                self.RestoreDeferredFrames();
                TransferAction::Failed(error)
            },
            _ => {
                self.RestoreDeferredFrames();
                TransferAction::Finished
            },
        }
    }

    /// Put everything set aside during a transfer back at the head of the queue, in the order it
    /// arrived.
    fn RestoreDeferredFrames(&mut self)
        requires
            old(self).wf(),
            old(self)@.transfer is None,
        ensures
            final(self).wf(),
            final(self)@ == ended(old(self)@),
    {
        let mut vecDeferred: Vec<CanFrame> = Vec::new();
        vecDeferred.append(&mut self.m_vecDeferred);
        assert(vecDeferred@ =~= old(self)@.deferred);
        PrependFrames(&mut self.m_queueInbound, vecDeferred);
        assert(self@.deferred =~= seq![]);
    }
}

/// A frame that is nothing to do with a transfer on an identifier: neither its flow control nor a
/// frame for that identifier.
pub open spec fn is_other_traffic(b: BridgeView, request: u32) -> spec_fn(CanFrame) -> bool {
    |frame: CanFrame|
        !(is_flow_control(frame) && b.endpoints.contains_key(frame.m_u32CanId))
            && frame.m_u32CanId != request
}

/// Another ECU's frames survive a transfer: while one transfer waits, no frame of another
/// conversation is lost or reordered, and when it ends they are all at the head of the queue in
/// the order they arrived.
pub proof fn law_other_conversations_survive_a_transfer(b: BridgeView)
    requires
        is_waiting(b),
    ensures
        ({
            let other = is_other_traffic(b, b.transfer->0.request);
            let after = awaited(b).0;
            &&& (after.deferred + after.queue).filter(other) == (b.deferred + b.queue).filter(other)
            &&& ended(after).queue == after.deferred + after.queue
            &&& is_waiting(after) ==> after.transfer->0.request == b.transfer->0.request
            &&& after.endpoints == b.endpoints
        }),
{
    let other = is_other_traffic(b, b.transfer->0.request);
    let after = awaited(b).0;
    if b.queue.len() > 0 {
        let frame = b.queue[0];
        let rest = b.queue.drop_first();
        let one = seq![frame];
        assert(b.queue =~= one + rest);
        assert(b.deferred + b.queue =~= b.deferred + one + rest);
        Seq::filter_distributes_over_add(b.deferred + one, rest, other);
        Seq::filter_distributes_over_add(b.deferred, one, other);
        Seq::filter_distributes_over_add(b.deferred, rest, other);
        assert(one.filter(other) == (if other(frame) {
            one
        } else {
            seq![]
        })) by {
            reveal(Seq::filter);
            assert(one.drop_last() =~= seq![]);
            assert(one.drop_last().filter(other) =~= seq![]);
        }
        if other(frame) {
            assert(after.deferred + after.queue =~= b.deferred + one + rest);
        } else {
            assert(b.deferred.filter(other) + seq![] =~= b.deferred.filter(other));
        }
    }
}

/// A stopped simulation puts nothing on the wire, not even flow control, and remembers nothing of
/// what arrived.
pub proof fn law_stopped_simulation_is_silent(b: BridgeView, frame: CanFrame)
    ensures
        fed(b, frame, false) == (b, FeedView::Nothing),
{
}

/// Flow control goes out on the identifier the ECU answers on, and a request is reported under the
/// identifier it is asked on.
pub proof fn law_flow_control_uses_the_response_identifier(b: BridgeView, frame: CanFrame)
    ensures
        fed(b, frame, true).1 matches FeedView::Send { id, .. } ==> b.endpoints.contains_key(
            frame.m_u32CanId,
        ) && id == b.endpoints[frame.m_u32CanId].response,
        fed(b, frame, true).1 matches FeedView::Request { id, .. } ==> b.endpoints.contains_key(
            frame.m_u32CanId,
        ) && id == b.endpoints[frame.m_u32CanId].request,
{
}

} // verus!
