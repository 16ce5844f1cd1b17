//! A whole DoIP session, message by message: activate, diagnose, misbehave.

#![allow(non_snake_case, non_upper_case_globals)]

use vehicle_sim::core_domain::identity::VehicleIdentity;
use vehicle_sim::doip::header::HeaderLimits;
use vehicle_sim::doip::header::ReadHeader;
use vehicle_sim::doip::header::WriteMessage;
use vehicle_sim::doip::messages::DiagnosticMessage;
use vehicle_sim::doip::payload::PayloadType;
use vehicle_sim::doip_server::entity::AnswerRouted;
use vehicle_sim::doip_server::entity::DoIpEntity;
use vehicle_sim::doip_server::entity::IsAcceptableTesterAddress;
use vehicle_sim::doip_server::entity::Reaction;
use vehicle_sim::doip_server::entity::TcpStep;
use vehicle_sim::doip_server::framing::IsBroadcastOrMulticast;
use vehicle_sim::doip_server::framing::HostAddress;
use vehicle_sim::doip_server::framing::TakeMessage;
use vehicle_sim::doip_server::settings::DoIpSettings;
use vehicle_sim::ecu::schedule::ResponsePlan;
use vehicle_sim::ecu::schedule::ScheduledResponse;
use vehicle_sim::simulation::RoutedResponse;
use vehicle_sim::simulation::RoutingOutcome;

const c_u16Tester: u16 = 0x0E80;
const c_u16Gateway: u16 = 0x0010;
const c_u16Airbag: u16 = 0x1030;
const c_u64Socket: u64 = 7;

/// One decoded DoIP message read off the connection.
struct Received {
    m_payloadType: PayloadType,
    m_vecPayload: Vec<u8>,
}

/// A tester with a connection to an entity, both in memory.
struct Session {
    m_entity: DoIpEntity,
    m_vecToEntity: Vec<u8>,
    m_vecToTester: Vec<u8>,
    m_bIsClosed: bool,
}

/// What the vehicle makes of a request: the airbag ECU reads its VIN, nothing else is there.
fn Route(request: &DiagnosticMessage) -> RoutingOutcome {
    if request.m_u16TargetAddress != c_u16Airbag {
        return RoutingOutcome::NoTarget;
    }
    let mut vecResponse = vec![0x62, 0xF1, 0x90];
    vecResponse.extend_from_slice(b"SIMDOIPVIN0000001");
    RoutingOutcome::Handled(vec![RoutedResponse {
        m_strEcuName: "Airbag".to_string(),
        m_u32RequestCanId: 0,
        m_u32ResponseCanId: 0,
        m_vecResponse: vecResponse.clone(),
        m_bySession: 0x01,
        m_bIsSecurityUnlocked: false,
        m_plan: ResponsePlan {
            m_vecSteps: vec![ScheduledResponse {
                m_u32AtMs: 0,
                m_vecBytes: vecResponse,
                m_bIsResponsePending: false,
            }],
            m_bIsFinalResponseDropped: false,
            m_bIsIsoConformant: true,
            m_vecConformanceWarnings: Vec::new(),
            m_u8ResponsePendingCount: 0,
            m_bIsOverridden: false,
        },
    }])
}

impl Session {
    fn Take(&mut self, reaction: Reaction) {
        for vecMessage in &reaction.m_vecReplies {
            self.m_vecToTester.extend_from_slice(vecMessage);
        }
        if reaction.m_bCloseSocket {
            self.m_bIsClosed = true;
            self.m_entity.CloseConnection(c_u64Socket);
        }
    }

    /// Put bytes on the connection and let the entity react to every whole message.
    fn Send(&mut self, arrBytes: &[u8]) {
        self.m_vecToEntity.extend_from_slice(arrBytes);
        while !self.m_bIsClosed {
            let limits = self.m_entity.Limits();
            let vecMessage = match TakeMessage(&mut self.m_vecToEntity, limits) {
                Some(vecMessage) => vecMessage,
                None => break,
            };
            match self.m_entity.HandleTcp(c_u64Socket, &vecMessage) {
                TcpStep::React(reaction) => self.Take(reaction),
                TcpStep::Route {
                    byReplyVersion,
                    request,
                } => {
                    let reaction = AnswerRouted(byReplyVersion, &request, &Route(&request));
                    self.Take(reaction);
                }
            }
        }
    }

    /// Read exactly one complete message.
    fn ReadMessage(&mut self) -> Received {
        let header =
            ReadHeader(&self.m_vecToTester, HeaderLimits::default()).expect("a valid header");
        let uEnd = 8 + header.m_u32PayloadLength as usize;
        let vecPayload = self.m_vecToTester[8..uEnd].to_vec();
        self.m_vecToTester.drain(..uEnd);
        Received {
            m_payloadType: header.m_payloadType,
            m_vecPayload: vecPayload,
        }
    }

    /// Send a routing activation request and return its response code.
    fn ActivateRouting(&mut self, u16SourceAddress: u16, byType: u8) -> u8 {
        let mut vecPayload = u16SourceAddress.to_be_bytes().to_vec();
        vecPayload.push(byType);
        vecPayload.extend_from_slice(&0u32.to_be_bytes());
        self.Send(&WriteMessage(
            0x03,
            PayloadType::RoutingActivationRequest,
            &vecPayload,
        ));
        let received = self.ReadMessage();
        assert_eq!(
            received.m_payloadType,
            PayloadType::RoutingActivationResponse
        );
        received.m_vecPayload[4]
    }

    /// Send a diagnostic message.
    fn SendDiagnostic(&mut self, u16Target: u16, vecUserData: &[u8]) {
        self.Send(&Diagnostic(c_u16Tester, u16Target, vecUserData));
    }

    fn Change(&mut self, change: impl FnOnce(&mut DoIpSettings)) {
        let mut settings = self.m_entity.Settings();
        change(&mut settings);
        self.m_entity.SetSettings(settings);
    }
}

fn Diagnostic(u16Source: u16, u16Target: u16, vecUserData: &[u8]) -> Vec<u8> {
    let message = DiagnosticMessage {
        m_u16SourceAddress: u16Source,
        m_u16TargetAddress: u16Target,
        m_vecUserData: vecUserData.to_vec(),
    };
    WriteMessage(0x03, PayloadType::DiagnosticMessage, &message.ToBytes())
}

fn ConnectTester() -> Session {
    let mut entity = DoIpEntity::New(c_u16Gateway, DoIpSettings::default());
    entity.OpenConnection(c_u64Socket);
    Session {
        m_entity: entity,
        m_vecToEntity: Vec::new(),
        m_vecToTester: Vec::new(),
        m_bIsClosed: false,
    }
}

fn Identity() -> VehicleIdentity {
    VehicleIdentity {
        m_arrVin: *b"SIMDOIPVIN0000001",
        m_arrEid: [0x02, 0x00, 0x00, 0x00, 0x00, 0x01],
        m_arrGid: [0x02, 0x00, 0x00, 0x00, 0x00, 0x02],
        m_byFurtherActionRequired: 0x00,
        m_byVinGidSyncStatus: 0x00,
    }
}

#[test]
fn a_tester_activates_routing_and_diagnoses_an_ecu() {
    let mut session = ConnectTester();

    assert_eq!(
        session.ActivateRouting(c_u16Tester, 0x00),
        0x10,
        "routing successfully activated"
    );

    session.SendDiagnostic(c_u16Airbag, &[0x22, 0xF1, 0x90]);

    let ack = session.ReadMessage();
    assert_eq!(ack.m_payloadType, PayloadType::DiagnosticMessageAck);
    assert_eq!(
        &ack.m_vecPayload[0..2],
        &c_u16Airbag.to_be_bytes(),
        "the acknowledgement is FROM the ECU that was addressed"
    );
    assert_eq!(
        &ack.m_vecPayload[2..4],
        &c_u16Tester.to_be_bytes(),
        "and TO the tester"
    );
    assert_eq!(ack.m_vecPayload[4], 0x00);

    let answer = session.ReadMessage();
    assert_eq!(answer.m_payloadType, PayloadType::DiagnosticMessage);
    assert_eq!(&answer.m_vecPayload[0..2], &c_u16Airbag.to_be_bytes());
    assert_eq!(&answer.m_vecPayload[2..4], &c_u16Tester.to_be_bytes());
    assert_eq!(&answer.m_vecPayload[4..7], &[0x62, 0xF1, 0x90]);
    assert_eq!(&answer.m_vecPayload[7..], b"SIMDOIPVIN0000001");
}

#[test]
fn a_diagnostic_message_before_routing_activation_is_ignored_entirely() {
    let mut session = ConnectTester();
    session.SendDiagnostic(c_u16Airbag, &[0x22, 0xF1, 0x90]);
    assert!(
        session.m_vecToTester.is_empty(),
        "the entity should have stayed silent"
    );
    assert!(!session.m_bIsClosed);
}

#[test]
fn an_unknown_target_address_is_negatively_acknowledged() {
    let mut session = ConnectTester();
    session.ActivateRouting(c_u16Tester, 0x00);

    session.SendDiagnostic(0x9999, &[0x22, 0xF1, 0x90]);

    let nack = session.ReadMessage();
    assert_eq!(nack.m_payloadType, PayloadType::DiagnosticMessageNack);
    assert_eq!(nack.m_vecPayload[4], 0x03, "unknown target address");
}

#[test]
fn a_source_address_that_is_not_the_activated_one_closes_the_connection() {
    let mut session = ConnectTester();
    session.ActivateRouting(c_u16Tester, 0x00);

    session.Send(&Diagnostic(0x0E99, c_u16Airbag, &[0x22, 0xF1, 0x90]));

    let nack = session.ReadMessage();
    assert_eq!(nack.m_payloadType, PayloadType::DiagnosticMessageNack);
    assert_eq!(nack.m_vecPayload[4], 0x02, "invalid source address");
    assert!(
        session.m_bIsClosed,
        "the entity should have closed the connection"
    );
}

#[test]
fn an_unsupported_activation_type_is_refused_and_the_socket_closed() {
    let mut session = ConnectTester();
    assert_eq!(
        session.ActivateRouting(c_u16Tester, 0xE0),
        0x06,
        "unsupported routing activation type"
    );
    assert!(session.m_bIsClosed);
}

#[test]
fn a_tester_address_outside_the_reserved_range_is_refused() {
    let mut session = ConnectTester();
    assert_eq!(
        session.ActivateRouting(0x1234, 0x00),
        0x00,
        "unknown source address"
    );
}

#[test]
fn session_re_activating_the_same_socket_with_the_same_address_is_accepted() {
    let mut session = ConnectTester();
    assert_eq!(session.ActivateRouting(c_u16Tester, 0x00), 0x10);
    assert_eq!(
        session.ActivateRouting(c_u16Tester, 0x00),
        0x10,
        "the same tester re-activating its own socket is legal"
    );
}

#[test]
fn two_messages_in_one_segment_are_both_handled() {
    let mut session = ConnectTester();
    session.ActivateRouting(c_u16Tester, 0x00);

    let mut vecBoth = Vec::new();
    for _ in 0..2 {
        vecBoth.extend_from_slice(&Diagnostic(c_u16Tester, c_u16Airbag, &[0x22, 0xF1, 0x90]));
    }
    session.Send(&vecBoth);

    for _ in 0..2 {
        assert_eq!(
            session.ReadMessage().m_payloadType,
            PayloadType::DiagnosticMessageAck
        );
        assert_eq!(
            session.ReadMessage().m_payloadType,
            PayloadType::DiagnosticMessage
        );
    }
}

#[test]
fn an_unknown_payload_type_is_refused_without_closing_the_socket() {
    let mut session = ConnectTester();
    session.Send(&[0x03, 0xFC, 0x12, 0x34, 0x00, 0x00, 0x00, 0x00]);

    let nack = session.ReadMessage();
    assert_eq!(nack.m_payloadType, PayloadType::GenericHeaderNack);
    assert_eq!(nack.m_vecPayload[0], 0x01);

    assert_eq!(session.ActivateRouting(c_u16Tester, 0x00), 0x10);
}

#[test]
fn a_forced_routing_activation_code_is_what_the_tester_gets() {
    let mut session = ConnectTester();
    session.Change(|settings| settings.m_optByForcedRoutingActivationCode = Some(0x06));
    assert_eq!(
        session.ActivateRouting(c_u16Tester, 0x00),
        0x06,
        "a request that would normally succeed is refused"
    );
}

#[test]
fn a_forced_diagnostic_nack_replaces_the_answer() {
    let mut session = ConnectTester();
    session.ActivateRouting(c_u16Tester, 0x00);
    session.Change(|settings| settings.m_optByForcedDiagnosticNack = Some(0x03));

    session.SendDiagnostic(c_u16Airbag, &[0x22, 0xF1, 0x90]);

    let received = session.ReadMessage();
    assert_eq!(received.m_payloadType, PayloadType::DiagnosticMessageNack);
    assert_eq!(received.m_vecPayload[4], 0x03);
    assert!(session.m_vecToTester.is_empty());
}

#[test]
fn a_forced_header_nack_refuses_a_message_before_it_is_dispatched() {
    let mut session = ConnectTester();
    session.Change(|settings| settings.m_optByForcedHeaderNack = Some(0x01));

    session.Send(&WriteMessage(
        0x03,
        PayloadType::AliveCheckResponse,
        &c_u16Tester.to_be_bytes(),
    ));

    let received = session.ReadMessage();
    assert_eq!(received.m_payloadType, PayloadType::GenericHeaderNack);
    assert_eq!(received.m_vecPayload[0], 0x01);
}

#[test]
fn a_settings_change_takes_effect_without_restarting_the_entity() {
    let mut session = ConnectTester();
    assert_eq!(session.ActivateRouting(c_u16Tester, 0x00), 0x10);
    session.Change(|settings| settings.m_optByForcedRoutingActivationCode = Some(0x00));
    assert_eq!(session.ActivateRouting(c_u16Tester, 0x00), 0x00);
}

#[test]
fn default_settings_inject_nothing() {
    let settings = DoIpSettings::default();
    assert!(!settings.IsInjectingFaults());
    assert_eq!(settings.m_byPowerMode, 0x01);
    assert_eq!(settings.m_byNodeType, 0x00);
}

#[test]
fn an_undefined_forced_code_forces_nothing() {
    let mut session = ConnectTester();
    session.Change(|settings| settings.m_optByForcedRoutingActivationCode = Some(0x05));
    assert_eq!(session.ActivateRouting(c_u16Tester, 0x00), 0x10);
}

#[test]
fn a_message_that_arrives_in_pieces_is_waited_for() {
    let mut session = ConnectTester();
    session.ActivateRouting(c_u16Tester, 0x00);
    let vecMessage = Diagnostic(c_u16Tester, c_u16Airbag, &[0x22, 0xF1, 0x90]);
    for byByte in &vecMessage[..vecMessage.len() - 1] {
        session.Send(&[*byByte]);
        assert!(session.m_vecToTester.is_empty());
    }
    session.Send(&vecMessage[vecMessage.len() - 1..]);
    assert_eq!(
        session.ReadMessage().m_payloadType,
        PayloadType::DiagnosticMessageAck
    );
}

#[test]
fn an_address_active_on_one_socket_is_refused_on_another() {
    let mut session = ConnectTester();
    session.ActivateRouting(c_u16Tester, 0x00);
    session.m_entity.OpenConnection(8);
    assert_eq!(session.m_entity.ConnectionCount(), 2);
    let mut vecPayload = c_u16Tester.to_be_bytes().to_vec();
    vecPayload.extend_from_slice(&[0, 0, 0, 0, 0]);
    let vecMessage = WriteMessage(0x03, PayloadType::RoutingActivationRequest, &vecPayload);
    match session.m_entity.HandleTcp(8, &vecMessage) {
        TcpStep::React(reaction) => {
            assert_eq!(reaction.m_vecReplies[0][12], 0x03);
            assert!(reaction.m_bCloseSocket);
        }
        TcpStep::Route { .. } => panic!("a routing activation is never routed"),
    }
}

#[test]
fn an_idle_socket_is_closed_by_the_clock() {
    let mut session = ConnectTester();
    assert!(session.m_entity.Tick(1_900).is_empty());
    assert_eq!(session.m_entity.Tick(200), vec![c_u64Socket]);
    assert_eq!(session.m_entity.ConnectionCount(), 0);
}

#[test]
fn discovery_is_answered_with_an_announcement_unless_it_is_suppressed() {
    let mut session = ConnectTester();
    let vecRequest = WriteMessage(0xFF, PayloadType::VehicleIdentificationRequest, &[]);
    let reaction = session.m_entity.HandleUdp(&vecRequest, &Identity());
    assert_eq!(reaction.m_vecReplies.len(), 1);
    let header =
        ReadHeader(&reaction.m_vecReplies[0], HeaderLimits::default()).expect("a valid header");
    assert_eq!(header.m_payloadType, PayloadType::VehicleAnnouncement);
    assert_eq!(header.m_byProtocolVersion, 0x03);
    assert_eq!(&reaction.m_vecReplies[0][8..25], b"SIMDOIPVIN0000001");
    assert_eq!(&reaction.m_vecReplies[0][25..27], &[0x00, 0x10]);

    session.Change(|settings| settings.m_bSuppressIdentificationResponse = true);
    assert!(session
        .m_entity
        .HandleUdp(&vecRequest, &Identity())
        .m_vecReplies
        .is_empty());
}

#[test]
fn an_announcement_speaks_for_the_entity() {
    let entity = DoIpEntity::New(c_u16Gateway, DoIpSettings::default());
    assert_eq!(entity.EntityAddress(), c_u16Gateway);
    let vecMessage = entity.BuildAnnouncement(0x02, &Identity());
    assert_eq!(&vecMessage[0..4], &[0x02, 0xFD, 0x00, 0x04]);
    assert_eq!(vecMessage.len(), 8 + 33);
}

#[test]
fn a_target_that_cannot_be_reached_is_told_apart_from_an_unknown_one() {
    let request = DiagnosticMessage {
        m_u16SourceAddress: c_u16Tester,
        m_u16TargetAddress: c_u16Airbag,
        m_vecUserData: vec![0x3E, 0x00],
    };
    let reaction = AnswerRouted(
        0x03,
        &request,
        &RoutingOutcome::Silenced {
            strEcuName: "Airbag".to_string(),
            strReason: "switched off".to_string(),
        },
    );
    assert_eq!(&reaction.m_vecReplies[0][2..4], &[0x80, 0x02]);
    assert_eq!(reaction.m_vecReplies.len(), 1);
    let reaction = AnswerRouted(0x03, &request, &RoutingOutcome::Stopped);
    assert_eq!(&reaction.m_vecReplies[0][2..4], &[0x80, 0x03]);
    assert_eq!(reaction.m_vecReplies[0][12], 0x06);
    let reaction = AnswerRouted(
        0x03,
        &request,
        &RoutingOutcome::TooLargeForSubnetwork {
            uRequestBytes: 9,
            uMaxBytes: 7,
            strEcuName: "Airbag".to_string(),
        },
    );
    assert_eq!(reaction.m_vecReplies[0][12], 0x04);
    assert!(!reaction.m_bCloseSocket);
}

#[test]
fn tester_addresses_have_a_range_of_their_own() {
    assert!(IsAcceptableTesterAddress(0x0E80));
    assert!(!IsAcceptableTesterAddress(0x1234));
}

#[test]
fn a_datagram_to_everyone_is_told_apart() {
    assert!(IsBroadcastOrMulticast(&HostAddress::V4([255, 255, 255, 255])));
    assert!(IsBroadcastOrMulticast(&HostAddress::V4([224, 0, 0, 1])));
    assert!(!IsBroadcastOrMulticast(&HostAddress::V4([192, 168, 0, 1])));
}

#[test]
fn a_tick_closes_as_many_sockets_as_it_reports() {
    let mut session = ConnectTester();
    session.ActivateRouting(c_u16Tester, 0x00);
    session.m_entity.OpenConnection(8);
    session.m_entity.OpenConnection(9);
    let uBefore = session.m_entity.ConnectionCount();
    let vecExpired = session.m_entity.Tick(2_100);
    assert_eq!(vecExpired, vec![8, 9]);
    assert_eq!(session.m_entity.ConnectionCount(), uBefore - 2);
}
