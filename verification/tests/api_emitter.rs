//! Plans carried out on one timeline, with what went out when.

#![allow(non_snake_case, non_upper_case_globals)]

use vehicle_sim::api::emitter::PlanEmitter;
use vehicle_sim::api::emitter::SimulationResponseDto;
use vehicle_sim::ecu::schedule::ResponsePlan;
use vehicle_sim::ecu::schedule::ScheduledResponse;
use vehicle_sim::simulation::RoutedResponse;

fn PendingThenAnswer() -> RoutedResponse {
    RoutedResponse {
        m_strEcuName: "Engine_ECU".to_string(),
        m_u32RequestCanId: 0x7E0,
        m_u32ResponseCanId: 0x7E8,
        m_vecResponse: vec![0x62, 0xF1, 0x90],
        m_bySession: 0x01,
        m_bIsSecurityUnlocked: false,
        m_plan: ResponsePlan {
            m_vecSteps: vec![
                ScheduledResponse {
                    m_u32AtMs: 50,
                    m_vecBytes: vec![0x7F, 0x22, 0x78],
                    m_bIsResponsePending: true,
                },
                ScheduledResponse {
                    m_u32AtMs: 200,
                    m_vecBytes: vec![0x62, 0xF1, 0x90],
                    m_bIsResponsePending: false,
                },
            ],
            m_bIsFinalResponseDropped: false,
            m_bIsIsoConformant: true,
            m_vecConformanceWarnings: Vec::new(),
            m_u8ResponsePendingCount: 1,
            m_bIsOverridden: false,
        },
    }
}

/// Carry plans out against a clock that stands still except while waiting; gives the record, and
/// how late it was in the end.
fn EmitPlans(vecResponses: Vec<RoutedResponse>) -> (Vec<SimulationResponseDto>, u64) {
    let mut emitter = PlanEmitter::New(vecResponses);
    let mut u64NowMs: u64 = 0;
    while let Some(u32AtMs) = emitter.NextAtMs() {
        u64NowMs = u64NowMs.max(u64::from(u32AtMs));
        emitter.Emit(u64NowMs);
    }
    (emitter.Finish(), u64NowMs)
}

#[test]
fn the_emitter_waits_for_each_scheduled_offset() {
    let (vecDtos, u64ElapsedMs) = EmitPlans(vec![PendingThenAnswer()]);

    assert_eq!(vecDtos.len(), 1);
    let vecFrames = &vecDtos[0].frames;
    assert_eq!(vecFrames.len(), 2);

    assert_eq!(vecFrames[0].kind, "responsePending");
    assert_eq!(vecFrames[0].hex, "7F 22 78");
    assert_eq!(vecFrames[0].at_ms, 50);
    assert_eq!(vecFrames[0].actual_ms, 50);

    assert_eq!(vecFrames[1].kind, "final");
    assert_eq!(vecFrames[1].at_ms, 200);
    assert_eq!(vecFrames[1].actual_ms, 200);

    assert!(u64ElapsedMs >= 200, "elapsed {u64ElapsedMs} ms");
}

#[test]
fn a_broadcast_merges_every_ecus_schedule_into_one_timeline() {
    let mut fast = PendingThenAnswer();
    fast.m_strEcuName = "Body_ECU".to_string();
    fast.m_u32RequestCanId = 0x745;
    fast.m_u32ResponseCanId = 0x765;
    fast.m_plan = ResponsePlan {
        m_vecSteps: vec![ScheduledResponse {
            m_u32AtMs: 100,
            m_vecBytes: vec![0x7E, 0x00],
            m_bIsResponsePending: false,
        }],
        m_u8ResponsePendingCount: 0,
        m_bIsIsoConformant: true,
        ..ResponsePlan::default()
    };

    let (vecDtos, _) = EmitPlans(vec![PendingThenAnswer(), fast]);

    assert_eq!(vecDtos[0].frames.len(), 2);
    assert_eq!(vecDtos[1].frames.len(), 1);
    assert_eq!(vecDtos[1].frames[0].actual_ms, 100);
    assert_eq!(vecDtos[0].frames[0].actual_ms, 50);
    assert_eq!(vecDtos[0].frames[1].actual_ms, 200);
}

#[test]
fn a_late_clock_is_recorded_as_it_was() {
    let mut emitter = PlanEmitter::New(vec![PendingThenAnswer()]);
    assert_eq!(emitter.NextAtMs(), Some(50));
    emitter.Emit(57);
    assert_eq!(emitter.NextAtMs(), Some(200));
    emitter.Emit(201);
    assert_eq!(emitter.NextAtMs(), None);
    let vecDtos = emitter.Finish();
    assert_eq!(vecDtos[0].frames[0].actual_ms, 57);
    assert_eq!(vecDtos[0].frames[0].at_ms, 50);
    assert_eq!(vecDtos[0].frames[1].actual_ms, 201);
    assert_eq!(vecDtos[0].ecu_name, "Engine_ECU");
    assert_eq!(vecDtos[0].request_can_id_hex, "7E0");
    assert_eq!(vecDtos[0].response_can_id_hex, "7E8");
    assert_eq!(vecDtos[0].response_hex, "62 F1 90");
    assert!(!vecDtos[0].suppressed);
}

#[test]
fn a_withheld_answer_is_shown_as_nothing_on_the_wire() {
    let mut withheld = PendingThenAnswer();
    withheld.m_plan.m_vecSteps.clear();
    withheld.m_plan.m_bIsFinalResponseDropped = true;
    let (vecDtos, _) = EmitPlans(vec![withheld]);
    assert!(vecDtos[0].suppressed);
    assert!(vecDtos[0].final_response_dropped);
    assert_eq!(vecDtos[0].response_hex, "62 F1 90");

    // A ResponsePending that did go out is not silence.
    let mut pending = PendingThenAnswer();
    pending.m_plan.m_vecSteps.pop();
    pending.m_plan.m_bIsFinalResponseDropped = true;
    let (vecDtos, _) = EmitPlans(vec![pending]);
    assert!(!vecDtos[0].suppressed);
}
