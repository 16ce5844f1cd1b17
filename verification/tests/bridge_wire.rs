//! The bridge at frame level: bytes arrive on a bus, bytes go back out.

#![allow(non_snake_case, non_upper_case_globals)]

use vehicle_sim::application::protocol::EcuSnapshot;
use vehicle_sim::application::protocol::ProtocolHandler;
use vehicle_sim::application::protocol::ProtocolOutcome;
use vehicle_sim::application::protocol::StateChange;
use vehicle_sim::bridge::capacity::LinkCapacity;
use vehicle_sim::bridge::endpoints::LinkedEcu;
use vehicle_sim::bridge::mock::MockBusHandle;
use vehicle_sim::bridge::observer::FrameDirection;
use vehicle_sim::bridge::AwaitedFrame;
use vehicle_sim::bridge::CanBridge;
use vehicle_sim::bridge::FeedStep;
use vehicle_sim::bridge::TransferAction;
use vehicle_sim::can::CanFrame;
use vehicle_sim::core_domain::address::CanAddress;
use vehicle_sim::core_domain::address::CanAddressingMode;
use vehicle_sim::core_domain::ecu::Ecu;
use vehicle_sim::core_domain::session::DataIdentifier;
use vehicle_sim::core_domain::session::SessionType;
use vehicle_sim::core_domain::timing::EcuTiming;
use vehicle_sim::core_domain::Confidence;
use vehicle_sim::ecu::schedule::BuildResponsePlan;
use vehicle_sim::ecu::schedule::ResolveResponsePendingCount;
use vehicle_sim::ecu::VirtualEcu;
use vehicle_sim::isotp::params::c_byDefaultPaddingByte;
use vehicle_sim::isotp::params::IsoTpParameters;
use vehicle_sim::simulation::timeline::DueMessages;
use vehicle_sim::simulation::RoutedResponse;
use vehicle_sim::simulation::RoutingOutcome;

/// Sessions, reading and tester present; everything else is refused.
struct UdsHandler;

impl ProtocolHandler for UdsHandler {
    fn Handle(&self, vecRequest: Vec<u8>, snapshot: EcuSnapshot) -> ProtocolOutcome {
        let bySid = vecRequest[0];
        let mut vecChanges = Vec::new();
        let vecResponse = match bySid {
            _ if !snapshot.m_vecSupportedServices.contains(&bySid) => vec![0x7F, bySid, 0x11],
            0x10 => {
                vecChanges.push(StateChange::SetSession(vecRequest[1]));
                vec![0x50, vecRequest[1], 0x00, 0x32, 0x01, 0xF4]
            }
            0x22 => {
                let u16Id = u16::from_be_bytes([vecRequest[1], vecRequest[2]]);
                match snapshot.m_vecDids.iter().find(|did| did.m_u16Id == u16Id) {
                    Some(did) => {
                        let mut vecResponse = vec![0x62, vecRequest[1], vecRequest[2]];
                        vecResponse.extend_from_slice(&did.m_vecValue);
                        vecResponse
                    }
                    None => vec![0x7F, bySid, 0x31],
                }
            }
            0x3E => vec![0x7E, vecRequest[1]],
            _ => vec![0x7F, bySid, 0x11],
        };
        ProtocolOutcome {
            m_vecResponse: vecResponse,
            m_vecChanges: vecChanges,
        }
    }

    fn Name(&self) -> &str {
        "uds"
    }
}

const c_strVin: &str = "1HGCM82633A004352";

/// The ECUs behind the bridge, and whether they are on the bus.
struct Simulation {
    m_vecEcus: Vec<VirtualEcu>,
    m_vecTimings: Vec<EcuTiming>,
    m_bIsRunning: bool,
    m_u64Generation: u64,
}

fn EcuOn(strName: &str, u32Request: u32, u32Response: u32) -> Ecu {
    let mut config = Ecu::New(strName, 0);
    config.m_optCanAddress = Some(CanAddress::NewSpecified(
        u32Request,
        u32Response,
        CanAddressingMode::Normal11Bit,
    ));
    config.m_vecSupportedServices = vec![0x10, 0x22, 0x2E, 0x3E];
    config.m_vecSupportedSessions = vec![SessionType::Default, SessionType::Extended];
    config
}

/// One ECU on 0x7E0/0x7E8 with a VIN.
fn BuildSimulation() -> Simulation {
    let mut config = EcuOn("Engine", 0x7E0, 0x7E8);
    config.m_mapDids.insert(
        0xF190,
        DataIdentifier {
            m_u16Id: 0xF190,
            m_vecValue: c_strVin.as_bytes().to_vec(),
            m_confidence: Confidence::Confirmed,
        },
    );
    Simulation {
        m_vecEcus: vec![VirtualEcu::New(config)],
        m_vecTimings: vec![EcuTiming::default()],
        m_bIsRunning: true,
        m_u64Generation: 1,
    }
}

/// Two ECUs, so a transfer for one can be interrupted by traffic for the other.
fn BuildTwoEcuSimulation() -> Simulation {
    let mut simulation = BuildSimulation();
    simulation
        .m_vecEcus
        .push(VirtualEcu::New(EcuOn("Transmission", 0x7E1, 0x7E9)));
    simulation.m_vecTimings.push(EcuTiming::default());
    simulation
}

impl Simulation {
    fn Linked(&self) -> Vec<LinkedEcu> {
        self.m_vecEcus
            .iter()
            .zip(&self.m_vecTimings)
            .map(|(ecu, timing)| LinkedEcu {
                m_optU32RequestCanId: ecu
                    .Config()
                    .m_optCanAddress
                    .map(|address| address.m_u32RequestCanId),
                m_optCanAddress: ecu.Config().m_optCanAddress,
                m_timing: *timing,
            })
            .collect()
    }

    fn SetTiming(&mut self, timing: EcuTiming) {
        self.m_vecTimings[0] = timing;
        self.m_u64Generation += 1;
    }

    fn Process(&mut self, u32CanId: u32, vecPdu: &[u8]) -> RoutingOutcome {
        let mut vecRouted = Vec::new();
        for (ecu, timing) in self.m_vecEcus.iter_mut().zip(&self.m_vecTimings) {
            let address = ecu.Config().m_optCanAddress.expect("an address");
            if address.m_u32RequestCanId != u32CanId && !address.ListensFunctionallyOn(u32CanId) {
                continue;
            }
            let vecResponse = ecu.ProcessRequest(&UdsHandler, vecPdu);
            let u8Pending = ResolveResponsePendingCount(timing);
            vecRouted.push(RoutedResponse {
                m_strEcuName: ecu.Config().m_strName.clone(),
                m_u32RequestCanId: address.m_u32RequestCanId,
                m_u32ResponseCanId: address.m_u32ResponseCanId,
                m_plan: BuildResponsePlan(timing, vecPdu[0], &vecResponse, u8Pending),
                m_vecResponse: vecResponse,
                m_bySession: ecu.CurrentSession(),
                m_bIsSecurityUnlocked: ecu.IsSecurityUnlocked(),
            });
        }
        if vecRouted.is_empty() {
            RoutingOutcome::NoTarget
        } else {
            RoutingOutcome::Handled(vecRouted)
        }
    }
}

/// A bridge between a bus and a simulation, both in memory.
struct Bench {
    m_handle: MockBusHandle,
    m_simulation: Simulation,
    m_bridge: CanBridge,
}

fn BuildBench(simulation: Simulation) -> Bench {
    let bridge = CanBridge::New(
        IsoTpParameters::default(),
        &simulation.Linked(),
        simulation.m_u64Generation,
    );
    Bench {
        m_handle: MockBusHandle::default(),
        m_simulation: simulation,
        m_bridge: bridge,
    }
}

fn BuildBenchWithCapacity(simulation: Simulation, u32Baud: u32, u32Bitrate: u32) -> Bench {
    let mut bench = BuildBench(simulation);
    let vecEcus = bench.m_simulation.Linked();
    let u64Generation = bench.m_simulation.m_u64Generation;
    bench.m_bridge = bench
        .m_bridge
        .WithLinkCapacity(u32Baud, u32Bitrate, &vecEcus, u64Generation);
    bench
}

impl Bench {
    fn Inject(&mut self, u32CanId: u32, vecData: Vec<u8>) {
        self.m_handle.InjectFrame(Frame(u32CanId, vecData));
    }

    fn Put(&mut self, u32CanId: u32, vecData: Vec<u8>) {
        let frame = self.m_bridge.PrepareFrame(0, u32CanId, vecData);
        self.m_handle.SendFrame(frame);
    }

    /// Poll the bus once and deal with whatever arrived.
    fn PumpOnce(&mut self) {
        let vecEcus = self.m_simulation.Linked();
        self.m_bridge
            .RebuildEndpointsIfStale(&vecEcus, self.m_simulation.m_u64Generation);
        self.m_bridge
            .OnFramesReceived(self.m_handle.ReceiveFrames());
        while let Some(frame) = self.m_bridge.TakeFrame() {
            match self
                .m_bridge
                .HandleFrame(&frame, self.m_simulation.m_bIsRunning)
            {
                FeedStep::Nothing | FeedStep::Abandoned { .. } => {}
                FeedStep::Send { u32CanId, vecData } => self.Put(u32CanId, vecData),
                FeedStep::Request {
                    u32RequestCanId,
                    vecPdu,
                } => {
                    let outcome = self.m_simulation.Process(u32RequestCanId, &vecPdu);
                    for message in DueMessages(&outcome) {
                        self.Transmit(
                            u32RequestCanId,
                            message.m_u32ResponseCanId,
                            &message.m_vecBytes,
                        );
                    }
                }
            }
        }
    }

    /// Send one PDU; a flow control that is not on the bus counts as timed out.
    fn Transmit(&mut self, u32RequestCanId: u32, u32ResponseCanId: u32, vecPdu: &[u8]) {
        let vecFirst = self
            .m_bridge
            .BeginTransfer(u32RequestCanId, u32ResponseCanId, vecPdu)
            .expect("a sendable PDU");
        self.Put(u32ResponseCanId, vecFirst);
        loop {
            match self.m_bridge.NextTransferAction() {
                TransferAction::Send {
                    u32CanId, vecData, ..
                } => self.Put(u32CanId, vecData),
                TransferAction::AwaitFlowControl => {
                    self.m_bridge
                        .OnFramesReceived(self.m_handle.ReceiveFrames());
                    if self.m_bridge.OnAwaitedFrame() == AwaitedFrame::NoFrame {
                        self.m_bridge.OnFlowControlTimeout();
                    }
                }
                TransferAction::Finished | TransferAction::Failed(_) => return,
            }
        }
    }

    /// The data of every frame the engine put on the bus, paired with its identifier.
    fn Sent(&mut self) -> Vec<(u32, Vec<u8>)> {
        self.m_handle
            .TakeTransmittedFrames()
            .into_iter()
            .map(|frame| (frame.m_u32CanId, frame.m_vecData))
            .collect()
    }
}

fn Frame(u32CanId: u32, vecData: Vec<u8>) -> CanFrame {
    CanFrame::NewClassic(0, u32CanId, vecData)
}

#[test]
fn a_single_frame_request_is_answered_with_a_single_frame() {
    let mut bench = BuildBench(BuildSimulation());

    bench.Inject(0x7E0, vec![0x02, 0x10, 0x03, 0xAA, 0xAA, 0xAA, 0xAA, 0xAA]);
    bench.PumpOnce();

    assert_eq!(
        bench.Sent(),
        vec![(
            0x7E8,
            vec![
                0x06,
                0x50,
                0x03,
                0x00,
                0x32,
                0x01,
                0xF4,
                c_byDefaultPaddingByte
            ]
        )]
    );
}

#[test]
fn a_long_response_waits_for_the_testers_flow_control() {
    let mut bench = BuildBench(BuildSimulation());

    bench.Inject(0x7E0, vec![0x03, 0x22, 0xF1, 0x90, 0xAA, 0xAA, 0xAA, 0xAA]);
    bench.Inject(0x7E0, vec![0x30, 0x00, 0x00, 0xAA, 0xAA, 0xAA, 0xAA, 0xAA]);
    bench.PumpOnce();

    let vecSent = bench.Sent();
    assert_eq!(vecSent.len(), 3);
    assert_eq!(
        vecSent[0],
        (0x7E8, vec![0x10, 0x14, 0x62, 0xF1, 0x90, b'1', b'H', b'G'])
    );
    assert_eq!(
        vecSent[1],
        (0x7E8, vec![0x21, b'C', b'M', b'8', b'2', b'6', b'3', b'3'])
    );
    assert_eq!(
        vecSent[2],
        (0x7E8, vec![0x22, b'A', b'0', b'0', b'4', b'3', b'5', b'2'])
    );
}

#[test]
fn a_multi_frame_request_is_flow_controlled_on_the_response_identifier() {
    let mut bench = BuildBench(BuildSimulation());

    bench.Inject(0x7E0, vec![0x10, 0x0A, 0x2E, 0xF1, 0x90, b'1', b'H', b'G']);
    bench.PumpOnce();

    let vecFlowControl = bench.Sent();
    assert_eq!(vecFlowControl.len(), 1);
    assert_eq!(vecFlowControl[0].0, 0x7E8);
    assert_eq!(&vecFlowControl[0].1[0..3], &[0x30, 0x01, 0x00]);

    bench.Inject(0x7E0, vec![0x21, b'C', b'M', b'8', b'2', 0xAA, 0xAA, 0xAA]);
    bench.PumpOnce();

    let vecAnswer = bench.Sent();
    assert_eq!(vecAnswer.len(), 1);
    assert_eq!(&vecAnswer[0].1[0..4], &[0x03, 0x7F, 0x2E, 0x11]);
}

#[test]
fn a_response_pending_goes_out_before_the_answer() {
    let mut simulation = BuildSimulation();
    simulation.SetTiming(EcuTiming {
        m_u32ResponseDelayMs: 60,
        ..EcuTiming::default()
    });
    let mut bench = BuildBench(simulation);

    bench.Inject(0x7E0, vec![0x02, 0x3E, 0x00, 0xAA, 0xAA, 0xAA, 0xAA, 0xAA]);
    bench.PumpOnce();

    let vecSent = bench.Sent();
    assert_eq!(vecSent.len(), 2);
    assert_eq!(
        vecSent[0].1[0..4],
        [0x03, 0x7F, 0x3E, 0x78],
        "a delay past P2 puts a ResponsePending on the wire first"
    );
    assert_eq!(vecSent[1].1[0..3], [0x02, 0x7E, 0x00]);
}

#[test]
fn an_identifier_no_ecu_owns_draws_nothing() {
    let mut bench = BuildBench(BuildSimulation());

    bench.Inject(0x7E5, vec![0x02, 0x10, 0x03, 0xAA, 0xAA, 0xAA, 0xAA, 0xAA]);
    bench.PumpOnce();

    assert!(
        bench.Sent().is_empty(),
        "a tester scanning for ECUs is ordinary traffic, not something to answer"
    );
}

#[test]
fn a_stopped_simulation_sends_nothing_at_all_not_even_flow_control() {
    let mut bench = BuildBench(BuildSimulation());
    bench.m_simulation.m_bIsRunning = false;

    bench.Inject(0x7E0, vec![0x10, 0x0A, 0x2E, 0xF1, 0x90, b'1', b'H', b'G']);
    bench.PumpOnce();
    assert!(bench.Sent().is_empty());

    bench.m_simulation.m_bIsRunning = true;
    bench.Inject(0x7E0, vec![0x02, 0x3E, 0x00, 0xAA, 0xAA, 0xAA, 0xAA, 0xAA]);
    bench.PumpOnce();

    let vecSent = bench.Sent();
    assert_eq!(vecSent.len(), 1, "only the new request is answered");
    assert_eq!(vecSent[0].1[0..3], [0x02, 0x7E, 0x00]);
}

#[test]
fn a_broadcast_reaches_the_ecu_and_is_answered_on_its_own_identifier() {
    let mut bench = BuildBench(BuildSimulation());

    bench.Inject(0x7DF, vec![0x02, 0x3E, 0x00, 0xAA, 0xAA, 0xAA, 0xAA, 0xAA]);
    bench.PumpOnce();

    let vecSent = bench.Sent();
    assert_eq!(vecSent.len(), 1);
    assert_eq!(vecSent[0].0, 0x7E8, "answered on the ECU's own identifier");
    assert_eq!(vecSent[0].1[0..3], [0x02, 0x7E, 0x00]);
}

#[test]
fn a_multi_frame_request_on_a_broadcast_is_dropped_without_flow_control() {
    let mut bench = BuildBench(BuildSimulation());

    bench.Inject(0x7DF, vec![0x10, 0x0A, 0x2E, 0xF1, 0x90, b'1', b'H', b'G']);
    bench.PumpOnce();

    assert!(bench.Sent().is_empty());
}

/// A 20-byte write, segmented.
fn LongWriteRequestFrames() -> (CanFrame, CanFrame, CanFrame) {
    let first = Frame(0x7E0, vec![0x10, 0x14, 0x2E, 0xF1, 0x90, b'1', b'H', b'G']);
    let second = Frame(0x7E0, vec![0x21, b'C', b'M', b'8', b'2', b'6', b'3', b'3']);
    let third = Frame(0x7E0, vec![0x22, b'A', b'0', b'0', b'4', b'3', b'5', b'2']);
    (first, second, third)
}

#[test]
fn an_ecus_block_size_and_separation_time_reach_the_wire() {
    let mut simulation = BuildSimulation();
    let timing = EcuTiming {
        m_u8IsoTpBlockSize: 1,
        m_byIsoTpSeparationTimeMin: 3,
        ..EcuTiming::default()
    };
    timing
        .Validate()
        .expect("one frame per block, spaced 3 ms, is a legal thing to ask for");
    simulation.SetTiming(timing);

    let mut bench = BuildBench(simulation);
    let (first, second, third) = LongWriteRequestFrames();

    bench.m_handle.InjectFrame(first);
    bench.PumpOnce();
    let vecAfterFirst = bench.Sent();
    assert_eq!(
        vecAfterFirst.len(),
        1,
        "the FirstFrame is owed a flow control"
    );
    assert_eq!(
        &vecAfterFirst[0].1[0..3],
        &[0x30, 0x01, 0x03],
        "the flow control must carry this ECU's BlockSize and STmin, not the link default"
    );

    bench.m_handle.InjectFrame(second);
    bench.PumpOnce();
    let vecAfterSecond = bench.Sent();
    assert_eq!(
        vecAfterSecond.len(),
        1,
        "the block is used up after one frame"
    );
    assert_eq!(&vecAfterSecond[0].1[0..3], &[0x30, 0x01, 0x03]);

    bench.m_handle.InjectFrame(third);
    bench.PumpOnce();
    let vecAnswer = bench.Sent();
    assert_eq!(vecAnswer.len(), 1);
    assert_eq!(
        &vecAnswer[0].1[0..4],
        &[0x03, 0x7F, 0x2E, 0x11],
        "0x2E is unimplemented, so a refusal here proves the 20 bytes reassembled intact"
    );
}

#[test]
fn changing_an_ecus_flow_control_reaches_a_bridge_that_is_already_running() {
    let mut bench = BuildBench(BuildSimulation());
    let (first, _, _) = LongWriteRequestFrames();

    bench.m_handle.InjectFrame(first.clone());
    bench.PumpOnce();
    let vecBefore = bench.Sent();
    assert_eq!(
        &vecBefore[0].1[0..3],
        &[0x30, 0x01, 0x00],
        "the default paces one frame per flow control"
    );

    bench.m_simulation.SetTiming(EcuTiming {
        m_u8IsoTpBlockSize: 4,
        ..EcuTiming::default()
    });

    bench.m_handle.InjectFrame(first);
    bench.PumpOnce();
    let vecAfter = bench.Sent();
    assert_eq!(vecAfter.len(), 1);
    assert_eq!(
        &vecAfter[0].1[0..3],
        &[0x30, 0x04, 0x00],
        "the change must reach the wire without the link being restarted"
    );
}

#[test]
fn a_second_ecus_frames_survive_the_first_ecus_transfer() {
    let mut bench = BuildBench(BuildTwoEcuSimulation());

    bench.Inject(0x7E0, vec![0x03, 0x22, 0xF1, 0x90, 0xAA, 0xAA, 0xAA, 0xAA]);
    bench.Inject(0x7E1, vec![0x10, 0x14, 0x2E, 0xF1, 0x90, b'1', b'H', b'G']);
    bench.Inject(0x7E1, vec![0x21, b'C', b'M', b'8', b'2', b'6', b'3', b'3']);
    bench.Inject(0x7E1, vec![0x22, b'A', b'0', b'0', b'4', b'3', b'5', b'2']);

    bench.PumpOnce();
    bench.PumpOnce();

    let vecSent = bench.Sent();
    let vecFromSecond: Vec<&(u32, Vec<u8>)> =
        vecSent.iter().filter(|(id, _)| *id == 0x7E9).collect();

    assert!(
        !vecFromSecond.is_empty(),
        "the second ECU must still have been reachable; it sent nothing at all"
    );
    assert!(
        vecFromSecond
            .iter()
            .any(|(_, data)| data[0..4] == [0x03, 0x7F, 0x2E, 0x11]),
        "its 20-byte request must reassemble whole and be answered, not lose frames to the \
         first ECU's transfer: {vecFromSecond:02X?}"
    );
}

/// Segment a PDU into the frames a tester would send for it.
fn SegmentRequest(u32CanId: u32, vecPdu: &[u8]) -> Vec<CanFrame> {
    let mut vecFrames = vec![Frame(
        u32CanId,
        [
            &[
                0x10 | ((vecPdu.len() >> 8) as u8),
                (vecPdu.len() & 0xFF) as u8,
            ],
            &vecPdu[..6],
        ]
        .concat(),
    )];

    let mut uSent = 6;
    let mut u8Sequence = 1u8;
    while uSent < vecPdu.len() {
        let uEnd = (uSent + 7).min(vecPdu.len());
        let mut vecData = vec![0x20 | u8Sequence];
        vecData.extend_from_slice(&vecPdu[uSent..uEnd]);
        while vecData.len() < 8 {
            vecData.push(0xAA);
        }
        vecFrames.push(Frame(u32CanId, vecData));
        uSent = uEnd;
        u8Sequence = (u8Sequence + 1) & 0x0F;
    }
    vecFrames
}

#[test]
fn block_size_zero_reassembles_a_long_request_on_a_link_that_keeps_up() {
    let mut simulation = BuildSimulation();
    simulation.SetTiming(EcuTiming {
        m_u8IsoTpBlockSize: 0,
        ..EcuTiming::default()
    });
    let mut bench = BuildBench(simulation);

    let mut vecPdu = vec![0x27, 0x02];
    vecPdu.extend((0..384).map(|uIndex| (uIndex % 251) as u8));
    assert_eq!(vecPdu.len(), 386);

    let vecFrames = SegmentRequest(0x7E0, &vecPdu);
    assert_eq!(
        vecFrames.len(),
        56,
        "one FirstFrame and 55 ConsecutiveFrames"
    );

    bench.m_handle.InjectFrames(vecFrames);
    bench.PumpOnce();

    let vecSent = bench.Sent();
    assert_eq!(
        &vecSent[0].1[0..3],
        &[0x30, 0x00, 0x00],
        "BlockSize 0 must be what goes out"
    );
    assert!(
        vecSent.len() >= 2,
        "the request must be answered, not abandoned: {vecSent:02X?}"
    );
    assert_eq!(
        &vecSent[1].1[0..4],
        &[0x03, 0x7F, 0x27, 0x11],
        "the whole 386-byte request must have reassembled"
    );
}

#[test]
fn a_link_that_cannot_carry_the_bus_is_not_promised_unpaced_delivery() {
    let mut simulation = BuildSimulation();
    simulation.SetTiming(EcuTiming {
        m_u8IsoTpBlockSize: 0,
        m_byIsoTpSeparationTimeMin: 0,
        ..EcuTiming::default()
    });
    let mut bench = BuildBenchWithCapacity(simulation, 115_200, 500_000);

    bench.Inject(0x7E0, vec![0x10, 0x14, 0x2E, 0xF1, 0x90, b'1', b'H', b'G']);
    bench.PumpOnce();

    let vecSent = bench.Sent();
    assert_eq!(vecSent[0].1[0], 0x30, "a flow control is still owed");
    assert_eq!(
        vecSent[0].1[1], 0x00,
        "the BlockSize the operator chose is kept"
    );
    assert!(
        vecSent[0].1[2] >= 3,
        "an STmin the link can honour must be advertised, got {:02X}",
        vecSent[0].1[2]
    );
}

#[test]
fn a_link_with_room_to_spare_is_left_alone() {
    let capacity = LinkCapacity::New(1_000_000, 500_000);
    assert_eq!(
        capacity.SafeSeparationTime(),
        None,
        "1 Mbaud carries {} frames/s against the bus's {}",
        capacity.m_uLinkFramesPerSecond,
        capacity.m_uBusFramesPerSecond
    );

    let mut simulation = BuildSimulation();
    simulation.SetTiming(EcuTiming {
        m_u8IsoTpBlockSize: 4,
        ..EcuTiming::default()
    });
    let mut bench = BuildBenchWithCapacity(simulation, 115_200, 500_000);
    bench.Inject(0x7E0, vec![0x10, 0x14, 0x2E, 0xF1, 0x90, b'1', b'H', b'G']);
    bench.PumpOnce();

    let vecSent = bench.Sent();
    assert_eq!(&vecSent[0].1[0..3], &[0x30, 0x04, 0x00]);
}

#[test]
fn the_separation_time_of_a_slow_link_is_exact() {
    let capacity = LinkCapacity::New(115_200, 500_000);
    assert_eq!(capacity.m_uLinkFramesPerSecond, 426);
    assert_eq!(capacity.m_uBusFramesPerSecond, 3703);
    assert_eq!(capacity.SafeSeparationTime(), Some(4));
}

#[test]
fn frames_are_counted_in_both_directions() {
    let mut bench = BuildBench(BuildSimulation());
    bench.Inject(0x7E0, vec![0x02, 0x3E, 0x00]);
    bench.Inject(0x123, vec![0x01]);
    bench.PumpOnce();
    assert_eq!(bench.m_bridge.Stats().FramesReceived(), 2);
    assert_eq!(bench.m_bridge.Stats().FramesSent(), 1);
    assert_eq!(bench.m_handle.TransmittedCount(), 1);
    assert!(!bench.m_handle.Describe().is_empty());
    assert_eq!(bench.m_bridge.EndpointCount(), 2);
}

#[test]
fn a_request_for_the_ecu_that_is_answering_is_dropped() {
    let mut bench = BuildBench(BuildSimulation());
    bench.Inject(0x7E0, vec![0x03, 0x22, 0xF1, 0x90, 0xAA, 0xAA, 0xAA, 0xAA]);
    bench.Inject(0x7E0, vec![0x02, 0x3E, 0x00, 0xAA, 0xAA, 0xAA, 0xAA, 0xAA]);
    bench.Inject(0x7E0, vec![0x30, 0x00, 0x00]);
    bench.PumpOnce();
    let vecSent = bench.Sent();
    assert_eq!(vecSent.len(), 3, "the VIN in three frames, and nothing else");
    assert!(vecSent.iter().all(|(_, data)| data[0] != 0x02));
}

#[test]
fn directions_have_short_names() {
    assert_eq!(FrameDirection::Received.Name(), "rx");
    assert_eq!(FrameDirection::Sent.Name(), "tx");
}
