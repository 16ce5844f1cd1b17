//! Spreading an answer over time, and the ECU that gives it.

#![allow(non_snake_case, non_upper_case_globals)]

use vehicle_sim::application::protocol::EcuSnapshot;
use vehicle_sim::application::protocol::ProtocolHandler;
use vehicle_sim::application::protocol::ProtocolOutcome;
use vehicle_sim::application::protocol::StateChange;
use vehicle_sim::core_domain::ecu::Ecu;
use vehicle_sim::core_domain::session::DataIdentifier;
use vehicle_sim::core_domain::session::DiagnosticTroubleCode;
use vehicle_sim::core_domain::session::SecurityLevel;
use vehicle_sim::core_domain::session::SessionType;
use vehicle_sim::core_domain::timing::EcuTiming;
use vehicle_sim::core_domain::Confidence;
use vehicle_sim::ecu::schedule::AllowedResponsePendingCount;
use vehicle_sim::ecu::schedule::BuildResponsePlan;
use vehicle_sim::ecu::schedule::ResolveResponsePendingCount;
use vehicle_sim::ecu::schedule::ResponsePlan;
use vehicle_sim::ecu::VirtualEcu;

fn ReadVinResponse() -> Vec<u8> {
    let mut vecResponse = vec![0x62, 0xF1, 0x90];
    vecResponse.extend_from_slice(c_strSampleVin.as_bytes());
    vecResponse
}

const c_strSampleVin: &str = "1HGCM82633A004352";

#[test]
fn the_sample_vin_is_seventeen_characters() {
    assert_eq!(c_strSampleVin.len(), 17);
    assert_eq!(ReadVinResponse().len(), 20);
}

fn PlanFor(timing: &EcuTiming, byRequestSid: u8, vecFinalResponse: &[u8]) -> ResponsePlan {
    let u8PendingCount = ResolveResponsePendingCount(timing);
    BuildResponsePlan(timing, byRequestSid, vecFinalResponse, u8PendingCount)
}

fn OffsetsOf(plan: &ResponsePlan) -> Vec<u32> {
    plan.m_vecSteps.iter().map(|step| step.m_u32AtMs).collect()
}

#[test]
fn an_answer_inside_p2_is_a_single_immediate_step() {
    let timing = EcuTiming::default();
    let plan = PlanFor(&timing, 0x22, &ReadVinResponse());

    assert_eq!(plan.m_vecSteps.len(), 1);
    assert_eq!(plan.m_vecSteps[0].m_u32AtMs, 0);
    assert!(!plan.m_vecSteps[0].m_bIsResponsePending);
    assert_eq!(plan.m_u8ResponsePendingCount, 0);
    assert!(plan.m_bIsIsoConformant);
    assert!(plan.m_vecConformanceWarnings.is_empty());
}

#[test]
fn a_delay_within_p2_still_needs_no_response_pending() {
    for u32DelayMs in [40, 50] {
        let timing = EcuTiming {
            m_u32ResponseDelayMs: u32DelayMs,
            ..EcuTiming::default()
        };
        let plan = PlanFor(&timing, 0x22, &ReadVinResponse());

        assert_eq!(plan.m_u8ResponsePendingCount, 0, "delay {u32DelayMs} ms");
        assert_eq!(OffsetsOf(&plan), vec![u32DelayMs]);
        assert!(plan.m_bIsIsoConformant);
    }

    let timing = EcuTiming {
        m_u32ResponseDelayMs: 51,
        ..EcuTiming::default()
    };
    assert_eq!(
        PlanFor(&timing, 0x22, &ReadVinResponse()).m_u8ResponsePendingCount,
        1
    );
}

#[test]
fn a_delay_beyond_p2_inserts_the_required_response_pending() {
    let timing = EcuTiming {
        m_u32ResponseDelayMs: 200,
        ..EcuTiming::default()
    };
    let plan = PlanFor(&timing, 0x22, &ReadVinResponse());

    assert_eq!(plan.m_u8ResponsePendingCount, 1);
    assert_eq!(OffsetsOf(&plan), vec![50, 200]);
    assert_eq!(plan.m_vecSteps[0].m_vecBytes, vec![0x7F, 0x22, 0x78]);
    assert!(plan.m_vecSteps[0].m_bIsResponsePending);
    assert_eq!(plan.FinalAtMs(), Some(200));
    assert!(
        plan.m_bIsIsoConformant,
        "{:?}",
        plan.m_vecConformanceWarnings
    );
}

#[test]
fn forcing_a_response_pending_with_no_delay_still_produces_an_ordered_schedule() {
    let timing = EcuTiming {
        m_bForceResponsePending: true,
        m_u8ForcedResponsePendingCount: 1,
        ..EcuTiming::default()
    };
    let plan = PlanFor(&timing, 0x22, &ReadVinResponse());

    assert_eq!(OffsetsOf(&plan), vec![10, 20]);
    assert_eq!(plan.m_u8ResponsePendingCount, 1);
    assert!(plan.m_bIsIsoConformant);
}

#[test]
fn a_long_delay_derives_the_number_of_response_pendings_from_p2_star() {
    let timing = EcuTiming {
        m_u32ResponseDelayMs: 12_000,
        ..EcuTiming::default()
    };
    let plan = PlanFor(&timing, 0x22, &ReadVinResponse());

    assert_eq!(plan.m_u8ResponsePendingCount, 3);
    assert_eq!(OffsetsOf(&plan), vec![50, 4033, 8016, 12_000]);
    assert!(
        plan.m_bIsIsoConformant,
        "{:?}",
        plan.m_vecConformanceWarnings
    );
}

#[test]
fn flooding_response_pendings_is_executed_but_reported_as_non_conformant() {
    let timing = EcuTiming {
        m_u32ResponseDelayMs: 200,
        m_bForceResponsePending: true,
        m_u8ForcedResponsePendingCount: 3,
        ..EcuTiming::default()
    };
    let plan = PlanFor(&timing, 0x22, &ReadVinResponse());

    assert_eq!(OffsetsOf(&plan), vec![50, 100, 150, 200]);
    assert_eq!(plan.m_u8ResponsePendingCount, 3);
    assert!(!plan.m_bIsIsoConformant);
    assert!(
        plan.m_vecConformanceWarnings
            .iter()
            .any(|strWarning| strWarning.contains("1500")),
        "the anti-flood floor should be named: {:?}",
        plan.m_vecConformanceWarnings
    );
    assert_eq!(plan.m_vecSteps.len(), 4);
}

#[test]
fn dropping_the_final_response_leaves_only_the_pending_messages() {
    let timing = EcuTiming {
        m_u32ResponseDelayMs: 200,
        m_bForceResponsePending: true,
        m_u8ForcedResponsePendingCount: 1,
        m_bDropFinalResponse: true,
        ..EcuTiming::default()
    };
    let plan = PlanFor(&timing, 0x22, &ReadVinResponse());

    assert_eq!(plan.m_vecSteps.len(), 1);
    assert!(plan.m_vecSteps[0].m_bIsResponsePending);
    assert!(plan.m_bIsFinalResponseDropped);
    assert!(plan.FinalResponse().is_empty());
    assert!(!plan.m_bIsIsoConformant);
}

#[test]
fn a_suppressed_response_schedules_nothing_at_all() {
    let timing = EcuTiming::default();
    let plan = PlanFor(&timing, 0x3E, &[]);

    assert!(plan.m_vecSteps.is_empty());
    assert!(!plan.m_bIsFinalResponseDropped);
    assert!(plan.m_bIsIsoConformant);
}

#[test]
fn a_final_response_beyond_p4_is_reported() {
    let timing = EcuTiming {
        m_u32ResponseDelayMs: 20_000,
        m_u32P4ServerMaxMs: 10_000,
        ..EcuTiming::default()
    };
    let plan = PlanFor(&timing, 0x22, &ReadVinResponse());

    assert!(!plan.m_bIsIsoConformant);
    assert!(
        plan.m_vecConformanceWarnings
            .iter()
            .any(|strWarning| strWarning.contains("P4Server_max")),
        "{:?}",
        plan.m_vecConformanceWarnings
    );
}

/// A protocol that always switches to session 0x03.
struct FakeSessionSwitcher;

impl ProtocolHandler for FakeSessionSwitcher {
    fn Handle(&self, _vecRequest: Vec<u8>, _snapshot: EcuSnapshot) -> ProtocolOutcome {
        ProtocolOutcome {
            m_vecResponse: vec![0x50, 0x03],
            m_vecChanges: vec![StateChange::SetSession(0x03)],
        }
    }

    fn Name(&self) -> &str {
        "fake"
    }
}

#[test]
fn process_request_applies_state_changes() {
    let mut ecu = VirtualEcu::New(Ecu::New("Test_ECU", 0x1001));
    assert_eq!(ecu.CurrentSession(), 0x01);

    let response = ecu.ProcessRequest(&FakeSessionSwitcher, &[0x10, 0x03]);

    assert_eq!(response, vec![0x50, 0x03]);
    assert_eq!(ecu.CurrentSession(), 0x03);
}

/// A small UDS server: sessions, reading, security access, reset and tester present.
struct UdsHandler;

fn Answer(vecResponse: Vec<u8>, vecChanges: Vec<StateChange>) -> ProtocolOutcome {
    ProtocolOutcome {
        m_vecResponse: vecResponse,
        m_vecChanges: vecChanges,
    }
}

fn Refuse(bySid: u8, byNrc: u8) -> ProtocolOutcome {
    Answer(vec![0x7F, bySid, byNrc], Vec::new())
}

impl ProtocolHandler for UdsHandler {
    fn Handle(&self, vecRequest: Vec<u8>, snapshot: EcuSnapshot) -> ProtocolOutcome {
        let bySid = vecRequest[0];
        if !snapshot.m_vecSupportedServices.contains(&bySid) {
            return Refuse(bySid, 0x11);
        }
        match bySid {
            0x10 => {
                if !snapshot.m_vecSupportedSessions.contains(&vecRequest[1]) {
                    return Refuse(bySid, 0x12);
                }
                Answer(
                    vec![0x50, vecRequest[1]],
                    vec![
                        StateChange::SetSession(vecRequest[1]),
                        StateChange::UnlockSecurity(0),
                    ],
                )
            }
            0x11 => Answer(
                vec![0x51, vecRequest[1]],
                vec![
                    StateChange::ResetToDefaultSession,
                    StateChange::UnlockSecurity(0),
                ],
            ),
            0x22 => {
                let u16Id = u16::from_be_bytes([vecRequest[1], vecRequest[2]]);
                match snapshot.m_vecDids.iter().find(|did| did.m_u16Id == u16Id) {
                    None => Refuse(bySid, 0x31),
                    Some(did) => {
                        let mut vecResponse = vec![0x62, vecRequest[1], vecRequest[2]];
                        vecResponse.extend_from_slice(&did.m_vecValue);
                        Answer(vecResponse, Vec::new())
                    }
                }
            }
            0x27 => {
                if snapshot.m_byCurrentSession == 0x01 {
                    return Refuse(bySid, 0x7F);
                }
                let bySub = vecRequest[1];
                if let Some(level) = snapshot
                    .m_vecSecurityLevels
                    .iter()
                    .find(|level| level.m_byRequestSeedSubFunction == bySub)
                {
                    let mut vecResponse = vec![0x67, bySub];
                    vecResponse.extend_from_slice(&level.m_vecSeed);
                    return Answer(vecResponse, vec![StateChange::SetActiveSeedLevel(bySub)]);
                }
                match snapshot
                    .m_vecSecurityLevels
                    .iter()
                    .find(|level| level.m_byRequestSeedSubFunction + 1 == bySub)
                {
                    Some(level)
                        if snapshot.m_byActiveSeedLevel == level.m_byRequestSeedSubFunction
                            && level.m_vecExpectedKey == vecRequest[2..] =>
                    {
                        Answer(
                            vec![0x67, bySub],
                            vec![
                                StateChange::UnlockSecurity(level.m_byRequestSeedSubFunction),
                                StateChange::SetActiveSeedLevel(0),
                            ],
                        )
                    }
                    _ => Refuse(bySid, 0x35),
                }
            }
            0x3E => Answer(vec![0x7E, vecRequest[1]], Vec::new()),
            _ => Refuse(bySid, 0x11),
        }
    }

    fn Name(&self) -> &str {
        "uds"
    }
}

/// An engine ECU with one DID, one DTC, and one security level with a fixed seed and key.
fn MakeEngineEcu() -> Ecu {
    let mut ecu = Ecu::New("Engine_ECU", 0x1001);
    ecu.m_vecSupportedServices = vec![0x10, 0x11, 0x19, 0x22, 0x27, 0x31, 0x3E];
    ecu.m_vecSupportedSessions = vec![
        SessionType::Default,
        SessionType::Programming,
        SessionType::Extended,
    ];
    ecu.m_mapDids.insert(
        0xF190,
        DataIdentifier {
            m_u16Id: 0xF190,
            m_vecValue: b"VIN0123456789XYZ".to_vec(),
            m_confidence: Confidence::Observed,
        },
    );
    ecu.m_vecDtcs.push(DiagnosticTroubleCode {
        m_u32Code: 0x123456,
        m_byStatus: 0x2F,
        m_confidence: Confidence::Observed,
    });
    ecu.m_vecSecurityLevels.push(SecurityLevel {
        m_byRequestSeedSubFunction: 0x01,
        m_vecSeed: vec![0x11, 0x22, 0x33, 0x44],
        m_vecExpectedKey: vec![0xAA, 0xBB, 0xCC, 0xDD],
    });
    ecu
}

#[test]
fn full_diagnostic_session_flow() {
    let handler = UdsHandler;
    let mut ecu = VirtualEcu::New(MakeEngineEcu());

    let response = ecu.ProcessRequest(&handler, &[0x22, 0xF1, 0x90]);
    assert_eq!(&response[0..3], &[0x62, 0xF1, 0x90]);
    assert_eq!(&response[3..], b"VIN0123456789XYZ");

    let response = ecu.ProcessRequest(&handler, &[0x27, 0x01]);
    assert_eq!(response, vec![0x7F, 0x27, 0x7F]);
    assert!(!ecu.IsSecurityUnlocked());

    let response = ecu.ProcessRequest(&handler, &[0x10, 0x03]);
    assert_eq!(response[0], 0x50);
    assert_eq!(response[1], 0x03);
    assert_eq!(ecu.CurrentSession(), 0x03);

    let response = ecu.ProcessRequest(&handler, &[0x27, 0x01]);
    assert_eq!(&response[0..2], &[0x67, 0x01]);
    assert_eq!(&response[2..], &[0x11, 0x22, 0x33, 0x44]);

    let response = ecu.ProcessRequest(&handler, &[0x27, 0x02, 0xAA, 0xBB, 0xCC, 0xDD]);
    assert_eq!(response, vec![0x67, 0x02]);
    assert!(ecu.IsSecurityUnlocked());
    assert_eq!(ecu.SecurityUnlockedLevel(), 0x01);

    let response = ecu.ProcessRequest(&handler, &[0x11, 0x01]);
    assert_eq!(response, vec![0x51, 0x01]);
    assert_eq!(ecu.CurrentSession(), 0x01);
    assert!(!ecu.IsSecurityUnlocked());

    let response = ecu.ProcessRequest(&handler, &[0x3E, 0x00]);
    assert_eq!(response, vec![0x7E, 0x00]);
}

#[test]
fn wrong_key_does_not_unlock() {
    let handler = UdsHandler;
    let mut ecu = VirtualEcu::New(MakeEngineEcu());

    ecu.ProcessRequest(&handler, &[0x10, 0x03]);
    ecu.ProcessRequest(&handler, &[0x27, 0x01]);

    let response = ecu.ProcessRequest(&handler, &[0x27, 0x02, 0x00, 0x00, 0x00, 0x00]);
    assert_eq!(response, vec![0x7F, 0x27, 0x35]);
    assert!(!ecu.IsSecurityUnlocked());
}

#[test]
fn a_protocol_is_told_the_ecu_as_it_is() {
    let ecu = VirtualEcu::New(MakeEngineEcu());
    let snapshot = ecu.BuildSnapshot();
    assert_eq!(snapshot.m_byCurrentSession, 0x01);
    assert_eq!(snapshot.m_vecSupportedSessions, vec![0x01, 0x02, 0x03]);
    assert_eq!(snapshot.m_vecDids.len(), 1);
    assert_eq!(snapshot.m_vecDtcs[0].m_u32Code, 0x123456);
    assert_eq!(snapshot.m_vecSecurityLevels[0].m_vecSeed.len(), 4);
    assert_eq!(ecu.Config().m_strName, "Engine_ECU");
}

#[test]
fn state_changes_are_applied_in_order() {
    let vecFirst = vec![StateChange::SetSession(0x03), StateChange::UnlockSecurity(1)];
    let vecSecond = vec![
        StateChange::Unknown { byKind: 99 },
        StateChange::ResetToDefaultSession,
    ];
    let mut apart = VirtualEcu::New(Ecu::New("A", 0));
    apart.ApplyOutcome(Answer(vec![], vecFirst.clone()));
    assert_eq!(apart.CurrentSession(), 0x03);
    apart.ApplyOutcome(Answer(vec![], vecSecond.clone()));
    let mut together = VirtualEcu::New(Ecu::New("A", 0));
    together.ApplyOutcome(Answer(vec![], [vecFirst, vecSecond].concat()));
    assert_eq!(apart.CurrentSession(), 0x01);
    assert_eq!(together.CurrentSession(), apart.CurrentSession());
    assert_eq!(together.SecurityUnlockedLevel(), 1);
    assert_eq!(apart.SecurityUnlockedLevel(), 1);
}

#[test]
fn response_pending_is_withheld_where_it_is_not_allowed() {
    let timing = EcuTiming {
        m_bForceResponsePending: true,
        m_u8ForcedResponsePendingCount: 2,
        ..EcuTiming::default()
    };
    assert_eq!(AllowedResponsePendingCount(&timing, true), 2);
    assert_eq!(AllowedResponsePendingCount(&timing, false), 0);
    let strict = EcuTiming {
        m_u32P4ServerMaxMs: timing.m_u32P2ServerMaxMs,
        ..timing
    };
    assert_eq!(AllowedResponsePendingCount(&strict, true), 0);
    assert_eq!(ResolveResponsePendingCount(&strict), 2);
}
