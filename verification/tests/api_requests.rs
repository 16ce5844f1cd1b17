//! What callers of the HTTP interface are answered.

#![allow(non_snake_case, non_upper_case_globals)]

use vehicle_sim::api::busy::BusyEcus;
use vehicle_sim::api::diagnostics::BuildStateDto as BuildEcuStateDto;
use vehicle_sim::api::diagnostics::PostEcuRequest;
use vehicle_sim::api::diagnostics::PostEcuReset;
use vehicle_sim::api::diagnostics::SendRequestBody;
use vehicle_sim::api::diagnostics::SessionName;
use vehicle_sim::api::error::ErrorStatus;
use vehicle_sim::api::hardware::BuildLineSpeedChangeDto;
use vehicle_sim::api::hardware::BuildStatusDto;
use vehicle_sim::api::hardware::CheckHardwareStart;
use vehicle_sim::api::hardware::CheckLineSpeedChange;
use vehicle_sim::api::hardware::CommandLineSpeedBody;
use vehicle_sim::api::hardware::GetBusLoad;
use vehicle_sim::api::hardware::HardwareState;
use vehicle_sim::api::hardware::NoteBridging;
use vehicle_sim::api::hardware::NoteOffTheWire;
use vehicle_sim::api::hardware::StartHardwareBody;
use vehicle_sim::api::overrides::BuildOverride;
use vehicle_sim::api::overrides::BuildOverrideDto;
use vehicle_sim::api::overrides::BuildOverrideDtos;
use vehicle_sim::api::overrides::BuildOverrides;
use vehicle_sim::api::overrides::EchoSpanDto;
use vehicle_sim::api::overrides::ResponseOverrideDto;
use vehicle_sim::api::overrides::SetOverridesBody;
use vehicle_sim::api::overrides::TrueByDefault;
use vehicle_sim::api::simulation::BuildEcuFromBody;
use vehicle_sim::api::simulation::BuildRequestResult;
use vehicle_sim::api::simulation::BuildStateDto;
use vehicle_sim::api::simulation::BuildTimingDto;
use vehicle_sim::api::simulation::CheckLogText;
use vehicle_sim::api::simulation::CreateEcuBody;
use vehicle_sim::api::simulation::CreateVehicleBody;
use vehicle_sim::api::simulation::LoadSimulationBody;
use vehicle_sim::api::simulation::ReadRename;
use vehicle_sim::api::simulation::ReadSimulationRequest;
use vehicle_sim::api::simulation::ReadVehicleName;
use vehicle_sim::api::simulation::RenameEcuBody;
use vehicle_sim::api::simulation::SimulationRequestBody;
use vehicle_sim::api::simulation::UpdateTiming;
use vehicle_sim::api::topology::BuildTopologyDto;
use vehicle_sim::application::protocol::EcuSnapshot;
use vehicle_sim::application::protocol::ProtocolHandler;
use vehicle_sim::application::protocol::ProtocolOutcome;
use vehicle_sim::application::protocol::StateChange;
use vehicle_sim::bridge::probe::LineSpeedChange;
use vehicle_sim::bridge::probe::RequestedSerialLinkSpeed;
use vehicle_sim::core_domain::address::CanAddressingMode;
use vehicle_sim::core_domain::timing::EcuTiming;
use vehicle_sim::ecu::sample::BuildEngineEcu;
use vehicle_sim::ecu::schedule::ResponsePlan;
use vehicle_sim::ecu::schedule::ScheduledResponse;
use vehicle_sim::ecu::VirtualEcu;
use vehicle_sim::simulation::RoutedResponse;
use vehicle_sim::simulation::RoutingOutcome;
use vehicle_sim::slcan::SlcanLineSpeed;

/// Answers a session change and nothing else.
struct SessionsOnly;

impl ProtocolHandler for SessionsOnly {
    fn Handle(&self, vecRequest: Vec<u8>, _snapshot: EcuSnapshot) -> ProtocolOutcome {
        if vecRequest[0] == 0x10 {
            ProtocolOutcome {
                m_vecResponse: vec![0x50, vecRequest[1]],
                m_vecChanges: vec![StateChange::SetSession(vecRequest[1])],
            }
        } else {
            ProtocolOutcome {
                m_vecResponse: vec![],
                m_vecChanges: vec![],
            }
        }
    }

    fn Name(&self) -> &str {
        "uds"
    }
}

fn Body(strHex: &str) -> SendRequestBody {
    SendRequestBody {
        request_hex: strHex.to_string(),
    }
}

#[test]
fn a_request_is_answered_and_leaves_its_mark_on_the_ecu() {
    let mut ecu = VirtualEcu::New(BuildEngineEcu());
    let dto = PostEcuRequest(&mut ecu, Some(&SessionsOnly), &Body("10 03"));
    assert_eq!(dto.request_hex, "10 03");
    assert_eq!(dto.response_hex, "50 03");
    assert!(!dto.suppressed);
    assert_eq!(dto.session, 3);
    assert_eq!(dto.session_name, "Extended");
    assert_eq!(dto.error, None);

    let silent = PostEcuRequest(&mut ecu, Some(&SessionsOnly), &Body("3E80"));
    assert!(silent.suppressed);
    assert_eq!(silent.response_hex, "");

    let state = PostEcuReset(&mut ecu, true);
    assert_eq!(state.session, 1);
    assert_eq!(state.session_name, "Default");
    assert_eq!(state.dids, vec![0xF190]);
    assert_eq!(state.dtc_count, 1);
    assert!(state.protocol_loaded);
    assert_eq!(BuildEcuStateDto(&ecu, true), state);
}

#[test]
fn a_request_that_cannot_be_processed_says_why() {
    let mut ecu = VirtualEcu::New(BuildEngineEcu());
    let malformed = PostEcuRequest(&mut ecu, Some(&SessionsOnly), &Body("1"));
    assert!(malformed.error.is_some());
    assert_eq!(malformed.session, 0);
    let optNone: Option<&SessionsOnly> = None;
    let unloaded = PostEcuRequest(&mut ecu, optNone, &Body("10 03"));
    assert_eq!(
        unloaded.error.as_deref(),
        Some("UDS protocol plugin is not loaded (place libuds_plugin.* in plugins.d/)")
    );
    assert_eq!(ecu.CurrentSession(), 1, "nothing reached the ECU");
}

#[test]
fn sessions_have_names() {
    assert_eq!(SessionName(0x01), "Default");
    assert_eq!(SessionName(0x02), "Programming");
    assert_eq!(SessionName(0x03), "Extended");
    assert_eq!(SessionName(0x60), "0x60");
}

fn Stopped() -> HardwareState {
    HardwareState {
        m_bIsRunning: false,
        m_strPortName: String::new(),
        m_u32BitrateBps: 0,
        m_optLinkSpeed: None,
    }
}

fn StartBody(u32Bitrate: u32) -> StartHardwareBody {
    StartHardwareBody {
        port: "COM3".to_string(),
        bitrate_bps: u32Bitrate,
        serial_baud_bps: None,
    }
}

#[test]
fn a_bridge_starts_once_and_says_what_it_runs_on() {
    let mut state = Stopped();
    assert_eq!(CheckHardwareStart(&state, &StartBody(500_000), true), Ok(()));
    let refused = CheckHardwareStart(&state, &StartBody(123), true).expect_err("no such rate");
    assert_eq!(refused.m_status, ErrorStatus::BadRequest);
    assert!(refused.m_strMessage.starts_with("123 bit/s"));
    let unloaded = CheckHardwareStart(&state, &StartBody(500_000), false).expect_err("no plugin");
    assert_eq!(unloaded.m_status.Code(), 409);

    let strWhat = NoteBridging(
        &mut state,
        &StartBody(500_000),
        RequestedSerialLinkSpeed(115_200),
    );
    assert!(strWhat.starts_with("on the wire: COM3 at 500000 bit/s, host link 115200 baud ("));
    let dto = BuildStatusDto(&state, Some((7, 9)));
    assert!(dto.running);
    assert_eq!(dto.port.as_deref(), Some("COM3"));
    assert_eq!(dto.bitrate_bps, Some(500_000));
    assert_eq!(dto.serial_baud_bps, Some(115_200));
    assert_eq!((dto.frames_received, dto.frames_sent), (7, 9));

    let busy = CheckHardwareStart(&state, &StartBody(500_000), true).expect_err("running");
    assert_eq!(busy.m_strMessage, "already bridging on COM3; stop it first");

    NoteOffTheWire(&mut state);
    let stopped = BuildStatusDto(&state, None);
    assert!(!stopped.running);
    assert_eq!(stopped.port, None);
    assert_eq!(stopped.serial_baud_bps, None);
    assert_eq!(stopped.frames_received, 0);
}

#[test]
fn a_line_speed_is_changed_only_off_the_wire_and_only_to_a_speed_with_a_command() {
    let body = CommandLineSpeedBody {
        port: "COM3".to_string(),
        serial_baud_bps: 230_400,
        current_serial_baud_bps: None,
    };
    let mut state = Stopped();
    assert_eq!(
        CheckLineSpeedChange(&state, &body),
        Ok(SlcanLineSpeed::Baud230400)
    );
    let odd = CommandLineSpeedBody {
        serial_baud_bps: 921_600,
        ..body.clone()
    };
    let refused = CheckLineSpeedChange(&state, &odd).expect_err("no such command");
    assert_eq!(refused.m_status, ErrorStatus::BadRequest);
    NoteBridging(
        &mut state,
        &StartBody(500_000),
        RequestedSerialLinkSpeed(115_200),
    );
    let running = CheckLineSpeedChange(&state, &body).expect_err("a bridge runs");
    assert_eq!(running.m_status, ErrorStatus::Conflict);

    let change = LineSpeedChange::NotConfirmed {
        u32BaudRate: 230_400,
        u32RevertedToBaudRate: 115_200,
    };
    let dto = BuildLineSpeedChangeDto(&change, 115_200, 230_400);
    assert_eq!(dto.outcome, "notConfirmed");
    assert_eq!(dto.serial_baud_bps, 115_200);
    assert_eq!(dto.requested_serial_baud_bps, 230_400);
    assert_eq!(dto.adapter_version, None);
    assert_eq!(dto.message, change.Describe());
}

#[test]
fn no_link_has_no_load() {
    let dto = GetBusLoad(None);
    assert_eq!(dto.bitrate_bps, 0);
    assert!(dto.samples.is_empty());
    assert_eq!(dto.current, None);
    assert_eq!(dto.peak, None);
    assert!(dto.is_nominal_a_floor);
}

fn Routed(u32RequestCanId: u32) -> RoutedResponse {
    RoutedResponse {
        m_strEcuName: "Engine".to_string(),
        m_u32RequestCanId: u32RequestCanId,
        m_u32ResponseCanId: u32RequestCanId + 8,
        m_vecResponse: vec![0x50, 0x03],
        m_bySession: 0x03,
        m_bIsSecurityUnlocked: false,
        m_plan: ResponsePlan {
            m_vecSteps: vec![
                Step(50, vec![0x7F, 0x10, 0x78], true),
                Step(90, vec![0x50, 0x03], false),
            ],
            ..ResponsePlan::default()
        },
    }
}

fn Step(u32AtMs: u32, vecBytes: Vec<u8>, bIsResponsePending: bool) -> ScheduledResponse {
    ScheduledResponse {
        m_u32AtMs: u32AtMs,
        m_vecBytes: vecBytes,
        m_bIsResponsePending: bIsResponsePending,
    }
}

#[test]
fn an_immediate_answer_occupies_nothing() {
    let mut quick = Routed(0x7E0);
    quick.m_plan.m_vecSteps.remove(0);
    let mut busy = BusyEcus::New();
    assert!(busy.Claim(&[quick]).is_ok());
    assert!(busy.Claim(&[Routed(0x7E0)]).is_ok());
}

#[test]
fn an_ecu_that_is_still_answering_takes_no_second_request() {
    let mut busy = BusyEcus::New();
    let claim = busy
        .Claim(&[Routed(0x7E0), Routed(0x7E1)])
        .expect("nothing is busy");
    let refused = busy.Claim(&[Routed(0x7E2), Routed(0x7E1)]);
    match refused {
        Err(error) => assert_eq!(error.m_status, ErrorStatus::Conflict),
        Ok(_) => panic!("a busy ECU took a second request"),
    }
    let other = busy.Claim(&[Routed(0x7E2)]);
    assert!(other.is_ok(), "a refused claim holds nothing");
    busy.Release(claim);
    assert!(busy.Claim(&[Routed(0x7E0), Routed(0x7E1)]).is_ok());
}

fn OverrideDto(strRequest: &str, strAction: &str, optResponse: Option<&str>) -> ResponseOverrideDto {
    ResponseOverrideDto {
        request_hex: strRequest.to_string(),
        match_trailing_bytes: false,
        action: strAction.to_string(),
        response_hex: optResponse.map(str::to_string),
        echo_spans: vec![],
        enabled: TrueByDefault(),
        respond_even_if_suppressed: false,
        note: "n".to_string(),
    }
}

#[test]
fn an_override_is_shown_as_it_was_written() {
    let mut dto = OverrideDto("22 ** **", "substitute", Some("62 00 00 01"));
    dto.echo_spans.push(EchoSpanDto {
        request_offset: 1,
        length: 2,
        response_offset: 1,
    });
    let overrideRule = BuildOverride(&dto).expect("a readable override");
    assert_eq!(overrideRule.m_vecRequestPattern, vec![0x22, 0x00, 0x00]);
    assert_eq!(overrideRule.m_vecRequestMask, vec![0xFF, 0x00, 0x00]);
    assert_eq!(BuildOverrideDto(&overrideRule), dto);
    assert_eq!(BuildOverrideDtos(&[overrideRule]), vec![dto]);
}

#[test]
fn an_override_that_cannot_be_read_says_why() {
    assert_eq!(
        BuildOverride(&OverrideDto("22 F1 90", "explode", None)),
        Err("unknown action 'explode'; use substitute or suppress".to_string())
    );
    assert_eq!(
        BuildOverride(&OverrideDto("22 F1 90", "substitute", None)),
        Err("a substituting override needs responseHex".to_string())
    );
    let error = BuildOverrides(&SetOverridesBody {
        overrides: vec![
            OverrideDto("22 F1 90", "suppress", None),
            OverrideDto("22 F1 90", "explode", None),
        ],
    })
    .expect_err("the second is unreadable");
    assert_eq!(error.m_status, ErrorStatus::BadRequest);
    assert_eq!(
        error.m_strMessage,
        "override 1: unknown action 'explode'; use substitute or suppress"
    );
    let vecOverrides = BuildOverrides(&SetOverridesBody {
        overrides: vec![OverrideDto("22 F1 90", "suppress", None)],
    })
    .expect("readable");
    assert_eq!(vecOverrides.len(), 1);
}

fn EcuBody(strRequest: &str, strResponse: &str) -> CreateEcuBody {
    CreateEcuBody {
        name: "  Engine ".to_string(),
        request_can_id_hex: strRequest.to_string(),
        response_can_id_hex: strResponse.to_string(),
        addressing_mode: None,
        supported_services: None,
        logical_address: None,
    }
}

#[test]
fn a_new_ecu_follows_from_its_name_and_identifiers() {
    let ecu = BuildEcuFromBody(&EcuBody("7E0", "7E8")).expect("routable");
    assert_eq!(ecu.m_strName, "Engine");
    let address = ecu.m_optCanAddress.expect("an address");
    assert_eq!(address.m_u32RequestCanId, 0x7E0);
    assert_eq!(address.m_addressingMode, CanAddressingMode::Normal11Bit);
    assert_eq!(
        ecu.m_vecSupportedServices,
        vec![0x10, 0x11, 0x19, 0x22, 0x27, 0x31, 0x3E]
    );

    let wide = BuildEcuFromBody(&EcuBody("18DA10F1", "18DAF110")).expect("routable");
    assert_eq!(
        wide.m_optCanAddress.expect("an address").m_addressingMode,
        CanAddressingMode::NormalFixed29Bit
    );

    let same = BuildEcuFromBody(&EcuBody("7E0", "7E0")).expect_err("one identifier");
    assert_eq!(
        same.m_strMessage,
        "an ECU cannot request and respond on the same CAN id"
    );
    let mut stated = EcuBody("7E0", "7E8");
    stated.addressing_mode = Some("Loud".to_string());
    assert_eq!(
        BuildEcuFromBody(&stated).expect_err("no such mode").m_strMessage,
        "unknown addressing mode 'Loud'; use Normal11Bit or NormalFixed29Bit"
    );
    let mut nameless = EcuBody("7E0", "7E8");
    nameless.name = " \t".to_string();
    assert_eq!(
        BuildEcuFromBody(&nameless).expect_err("no name").m_strMessage,
        "the ECU needs a name"
    );
}

#[test]
fn names_and_logs_of_nothing_are_refused() {
    let body = |name: &str| CreateVehicleBody {
        name: name.to_string(),
    };
    assert_eq!(ReadVehicleName(&body(" Van ")), Ok("Van".to_string()));
    assert_eq!(
        ReadVehicleName(&body("  ")).expect_err("no name").m_strMessage,
        "the vehicle needs a name"
    );
    let log = |text: &str| LoadSimulationBody {
        log_text: text.to_string(),
    };
    assert_eq!(
        CheckLogText(&log(" \n")).expect_err("empty").m_strMessage,
        "the log is empty"
    );
    assert_eq!(CheckLogText(&log("(0.0) can0 7E0#0210")), Ok(()));
    assert_eq!(
        CheckLogText(&log(&"a".repeat(8_388_609)))
            .expect_err("too long")
            .m_strMessage,
        "log is 8388609 characters; the limit is 8388608"
    );
    assert_eq!(
        ReadRename(
            "7E0",
            &RenameEcuBody {
                name: " Body ".to_string()
            }
        ),
        Ok((0x7E0, "Body".to_string()))
    );
}

#[test]
fn a_simulation_request_is_read_before_anything_else_is_looked_at() {
    let body = |id: &str, hex: &str| SimulationRequestBody {
        can_id_hex: id.to_string(),
        request_hex: hex.to_string(),
    };
    assert_eq!(
        ReadSimulationRequest(&body("7E0", "10 03"), true, true),
        Ok((0x7E0, vec![0x10, 0x03]))
    );
    assert_eq!(
        ReadSimulationRequest(&body("zz", "10 03"), false, false)
            .expect_err("no identifier")
            .m_status,
        ErrorStatus::BadRequest
    );
    assert_eq!(
        ReadSimulationRequest(&body("7E0", "10 03"), false, true)
            .expect_err("no plugin")
            .m_status,
        ErrorStatus::Conflict
    );
    assert_eq!(
        ReadSimulationRequest(&body("7E0", "10 03"), true, false)
            .expect_err("no vehicle")
            .m_strMessage,
        "no vehicle is loaded; POST a CAN log to /simulation/load first"
    );
}

#[test]
fn the_outcome_of_a_request_says_how_it_was_addressed() {
    let outcome = RoutingOutcome::Handled(vec![Routed(0x7E0)]);
    let dto = BuildRequestResult(0x7DF, &[0x3E, 0x00], true, &outcome, vec![]);
    assert_eq!(dto.can_id_hex, "7DF");
    assert_eq!(dto.request_hex, "3E 00");
    assert_eq!(dto.addressing, "functional");
    assert!(dto.routed);
    let stopped = BuildRequestResult(0x7E0, &[0x3E], false, &RoutingOutcome::Stopped, vec![]);
    assert_eq!(stopped.addressing, "stopped");
    assert!(!stopped.routed);
}

#[test]
fn a_refused_timing_changes_nothing() {
    let mut timing = EcuTiming::default();
    let mut body = BuildTimingDto(&timing);
    body.response_delay_ms = 75;
    let update = UpdateTiming(&mut timing, &body).expect("a legal delay");
    assert!(update.advertised_at_next_session_control);
    assert_eq!(timing.m_u32ResponseDelayMs, 75);
    assert_eq!(BuildTimingDto(&timing), body);

    body.p2_server_max_ms = u32::MAX;
    let before = timing;
    let error = UpdateTiming(&mut timing, &body).expect_err("not representable");
    assert_eq!(error.m_status, ErrorStatus::BadRequest);
    assert_eq!(timing, before);
}

#[test]
fn the_diagram_draws_one_link_and_says_what_it_cannot_know() {
    let narrow = VirtualEcu::New(BuildEcuFromBody(&EcuBody("7E0", "7E8")).expect("routable"));
    let wide = VirtualEcu::New(BuildEcuFromBody(&EcuBody("18DA10F1", "18DAF110")).expect("routable"));
    let empty = BuildTopologyDto(None, &[]);
    assert!(empty.links.is_empty() && empty.nodes.is_empty() && empty.caveats.is_empty());

    let dto = BuildTopologyDto(Some("Van"), &[wide, narrow]);
    assert_eq!(dto.vehicle_name.as_deref(), Some("Van"));
    assert_eq!(dto.links.len(), 1);
    assert_eq!(dto.links[0].functional_can_ids_hex, vec!["7DF", "18DB33F1"]);
    assert_eq!(dto.links[0].membership_confidence, "Inferred");
    assert_eq!(dto.nodes.len(), 3);
    assert_eq!(dto.nodes[0].kind, "tester");
    assert_eq!(dto.nodes[1].id, "18DA10F1");
    assert_eq!(dto.nodes[2].label, "Engine");
    assert_eq!(dto.caveats.len(), 3, "both identifier widths are mentioned");
}

#[test]
fn the_state_lists_every_running_ecu() {
    let ecu = VirtualEcu::New(BuildEcuFromBody(&EcuBody("7E0", "7E8")).expect("routable"));
    let dto = BuildStateDto(true, false, Some("Van"), &[ecu], true);
    assert!(dto.loaded && !dto.running && dto.protocol_loaded);
    assert_eq!(dto.ecus.len(), 1);
    assert_eq!(dto.ecus[0].request_can_id_hex, "7E0");
    assert_eq!(dto.ecus[0].functional_can_id_hex.as_deref(), Some("7DF"));
    assert_eq!(dto.ecus[0].addressing_mode, "Normal11Bit");
    assert_eq!(dto.ecus[0].address_confidence, "Confirmed");
    assert_eq!(dto.ecus[0].session, 1);
    assert_eq!(dto.ecus[0].timing.p2_server_max_ms, 50);
}

#[test]
fn a_request_to_a_busy_ecu_is_refused_before_it_is_processed() {
    let mut busy = BusyEcus::New();
    assert!(busy.CheckFree(&[0x7E0, 0x7E1]).is_ok());
    let claim = busy.Claim(&[Routed(0x7E1)]).expect("nothing is busy");
    let error = busy
        .CheckFree(&[0x7E0, 0x7E1])
        .expect_err("the second of them is answering");
    assert_eq!(error.m_status, ErrorStatus::Conflict);
    assert_eq!(
        error.m_strMessage,
        "the ECU on CAN id 0x7E1 is completing a ResponsePending sequence and cannot receive another request yet"
    );
    assert!(busy.CheckFree(&[0x7E0]).is_ok());
    assert!(busy.CheckFree(&[]).is_ok());
    busy.Release(claim);
    assert!(busy.CheckFree(&[0x7E0, 0x7E1]).is_ok());
}

#[test]
fn the_size_of_a_log_is_counted_in_characters() {
    let log = |text: String| LoadSimulationBody { log_text: text };
    assert_eq!(CheckLogText(&log("\u{e9}".repeat(8_388_608))), Ok(()));
    assert_eq!(
        CheckLogText(&log("\u{e9}".repeat(8_388_609)))
            .expect_err("one too many")
            .m_strMessage,
        "log is 8388609 characters; the limit is 8388608"
    );
}
