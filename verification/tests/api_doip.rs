//! Listening over Ethernet, and what the entity is made to say.

#![allow(non_snake_case, non_upper_case_globals)]

use vehicle_sim::api::doip::BuildSettingsDto;
use vehicle_sim::api::doip::CheckDoIpStart;
use vehicle_sim::api::doip::DoIpSettingsDto;
use vehicle_sim::api::doip::DoIpState;
use vehicle_sim::api::doip::GetDoIpStatus;
use vehicle_sim::api::doip::NoteListening;
use vehicle_sim::api::doip::NoteStopped;
use vehicle_sim::api::doip::PutDoIpSettings;
use vehicle_sim::api::doip::ResolveEntityAddress;
use vehicle_sim::api::doip::StartDoIpBody;
use vehicle_sim::api::doip::ValidateSettings;
use vehicle_sim::api::error::ErrorStatus;
use vehicle_sim::doip_server::settings::DoIpSettings;

fn Quiet() -> DoIpState {
    DoIpState {
        m_bIsListening: false,
        m_strBoundAddress: String::new(),
        m_u16EntityAddress: 0,
        m_settings: DoIpSettings::default(),
    }
}

fn Body(optAddress: Option<&str>) -> StartDoIpBody {
    StartDoIpBody {
        bind: "0.0.0.0:13400".to_string(),
        entity_address_hex: optAddress.map(str::to_string),
    }
}

#[test]
fn the_entity_is_the_one_asked_for_or_the_lowest() {
    assert_eq!(
        ResolveEntityAddress(&Some(" 0x0E80 ".to_string()), Some(1)),
        Ok(0x0E80)
    );
    assert_eq!(ResolveEntityAddress(&None, Some(0x1001)), Ok(0x1001));
    assert_eq!(
        ResolveEntityAddress(&Some("12345".to_string()), None)
            .expect_err("too wide")
            .m_strMessage,
        "'12345' is not a hex logical address"
    );
    assert_eq!(
        ResolveEntityAddress(&None, None)
            .expect_err("no entity")
            .m_status,
        ErrorStatus::Conflict
    );
}

#[test]
fn listening_starts_once_and_is_shown() {
    let mut state = Quiet();
    assert_eq!(
        CheckDoIpStart(&state, true, &Body(None), true, Some(0x1001)),
        Ok(0x1001)
    );
    assert_eq!(
        CheckDoIpStart(&state, false, &Body(None), true, Some(0x1001))
            .expect_err("no plugin")
            .m_strMessage,
        "no UDS protocol plugin is loaded"
    );
    assert_eq!(
        CheckDoIpStart(&state, true, &Body(None), false, Some(0x1001))
            .expect_err("no address")
            .m_strMessage,
        "'0.0.0.0:13400' is not an address:port"
    );
    NoteListening(&mut state, 0x1001, "0.0.0.0:13400");
    assert_eq!(
        CheckDoIpStart(&state, true, &Body(None), true, Some(0x1001))
            .expect_err("listening")
            .m_strMessage,
        "already listening on 0.0.0.0:13400; stop it first"
    );
    let dto = GetDoIpStatus(&state, &[0x1001, 0x0E80]);
    assert!(dto.running);
    assert_eq!(dto.entity_address_hex.as_deref(), Some("1001"));
    assert_eq!(dto.logical_addresses_hex, vec!["1001", "0E80"]);
    NoteStopped(&mut state);
    let stopped = GetDoIpStatus(&state, &[]);
    assert!(!stopped.running);
    assert_eq!(stopped.bound_address, None);
}

fn Settings() -> DoIpSettingsDto {
    BuildSettingsDto(&DoIpSettings::default())
}

#[test]
fn settings_no_vehicle_would_send_are_refused() {
    assert_eq!(ValidateSettings(&Settings()), Ok(()));
    let refuse = |dto: DoIpSettingsDto| {
        ValidateSettings(&dto)
            .expect_err("undefined")
            .m_strMessage
    };
    let mut dto = Settings();
    dto.power_mode = 3;
    assert!(refuse(dto).starts_with("diagnostic power mode 0x03 is not defined"));
    let mut dto = Settings();
    dto.node_type = 2;
    assert!(refuse(dto).starts_with("node type 0x02 is not defined"));
    let mut dto = Settings();
    dto.max_sockets = 0;
    assert!(refuse(dto).contains("zero sockets"));
    let mut dto = Settings();
    dto.max_data_size = 63;
    assert!(refuse(dto).contains("below 64 bytes"));
    let mut dto = Settings();
    dto.forced_routing_activation_code = Some(0x05);
    assert!(refuse(dto).starts_with("0x05 is not a routing activation response code"));
    let mut dto = Settings();
    dto.forced_diagnostic_nack = Some(0x07);
    assert!(refuse(dto).starts_with("0x07 is not a diagnostic message NACK code"));
    let mut dto = Settings();
    dto.forced_header_nack = Some(0x05);
    assert!(refuse(dto).starts_with("0x05 is not a generic header NACK code"));
}

#[test]
fn accepted_settings_are_what_the_entity_then_says() {
    let mut settings = DoIpSettings::default();
    let mut dto = Settings();
    dto.forced_routing_activation_code = Some(0x06);
    dto.power_mode = 2;
    let shown = PutDoIpSettings(&mut settings, &dto).expect("defined values");
    assert_eq!(shown.forced_routing_activation_code, Some(0x06));
    assert!(shown.is_injecting_faults);
    assert_eq!(settings.m_optByForcedRoutingActivationCode, Some(0x06));

    let before = BuildSettingsDto(&settings);
    dto.max_sockets = 0;
    assert!(PutDoIpSettings(&mut settings, &dto).is_err());
    assert_eq!(BuildSettingsDto(&settings), before, "refused settings change nothing");
}
