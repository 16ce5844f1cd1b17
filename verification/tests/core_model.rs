//! The vehicle model: ECUs, sessions, overrides and timing.

#![allow(non_snake_case, non_upper_case_globals)]

use vehicle_sim::core_domain::address::c_u32Functional11BitCanId;
use vehicle_sim::core_domain::address::CanAddress;
use vehicle_sim::core_domain::address::CanAddressingMode;
use vehicle_sim::core_domain::address::DefaultFunctionalCanId;
use vehicle_sim::core_domain::ecu::Ecu;
use vehicle_sim::core_domain::overrides::EchoSpan;
use vehicle_sim::core_domain::overrides::OverrideAction;
use vehicle_sim::core_domain::overrides::OverrideValidationError;
use vehicle_sim::core_domain::overrides::ResponseOverride;
use vehicle_sim::core_domain::session::DataIdentifier;
use vehicle_sim::core_domain::session::SecurityLevel;
use vehicle_sim::core_domain::session::SessionType;
use vehicle_sim::core_domain::timing::EcuTiming;
use vehicle_sim::core_domain::timing::TimingValidationError;
use vehicle_sim::core_domain::Confidence;
use vehicle_sim::core_domain::DomainError;

#[test]
fn session_type_maps_to_and_from_sub_function() {
    assert_eq!(SessionType::Extended.ToSubFunction(), 0x03);
    assert_eq!(
        SessionType::FromSubFunction(0x02),
        Some(SessionType::Programming)
    );
    assert_eq!(SessionType::FromSubFunction(0xFF), None);
}

#[test]
fn ecu_lookups_work() {
    let mut ecu = Ecu::New("Engine_ECU", 0x1001);
    ecu.m_vecSupportedServices.push(0x22);
    ecu.m_mapDids.insert(
        0xF190,
        DataIdentifier {
            m_u16Id: 0xF190,
            m_vecValue: b"VIN0123456789".to_vec(),
            m_confidence: Confidence::Observed,
        },
    );

    assert!(ecu.IsServiceSupported(0x22));
    assert!(!ecu.IsServiceSupported(0x27));
    assert!(ecu.IsSessionSupported(SessionType::Default));
    assert_eq!(ecu.FindDid(0xF190).unwrap().m_vecValue, b"VIN0123456789");
    assert!(ecu.FindDid(0x1234).is_none());
}

#[test]
fn security_level_pairs_seed_and_key_sub_functions() {
    let level = SecurityLevel {
        m_byRequestSeedSubFunction: 0x01,
        m_vecSeed: vec![0x11, 0x22],
        m_vecExpectedKey: vec![0x33, 0x44],
    };
    assert_eq!(level.SendKeySubFunction(), 0x02);
}

fn ExactOverride(vecRequest: &[u8], vecResponse: &[u8]) -> ResponseOverride {
    ResponseOverride::NewExact(
        vecRequest,
        OverrideAction::Substitute {
            m_vecResponse: vecResponse.to_vec(),
            m_vecEchoSpans: Vec::new(),
        },
    )
}

#[test]
fn a_well_formed_override_validates() {
    assert_eq!(
        ExactOverride(&[0x2E, 0xF1, 0x90, 0x01], &[0x6E, 0xF1, 0x90]).Validate(),
        Ok(())
    );
    assert_eq!(
        ExactOverride(&[0x22, 0xF1, 0x90], &[0x7F, 0x22, 0x33]).Validate(),
        Ok(())
    );
}

#[test]
fn an_override_whose_response_does_not_answer_the_request_is_refused() {
    assert!(matches!(
        ExactOverride(&[0x22, 0xF1, 0x90], &[0x6E, 0xF1, 0x90]).Validate(),
        Err(OverrideValidationError::ResponseSidMismatch { .. })
    ));
}

#[test]
fn a_malformed_negative_response_is_refused() {
    assert!(matches!(
        ExactOverride(&[0x22, 0xF1, 0x90], &[0x7F, 0x22]).Validate(),
        Err(OverrideValidationError::MalformedNegativeResponse { .. })
    ));
    assert!(matches!(
        ExactOverride(&[0x22, 0xF1, 0x90], &[0x7F, 0x2E, 0x33]).Validate(),
        Err(OverrideValidationError::NegativeResponseSidMismatch { .. })
    ));
}

#[test]
fn response_pending_cannot_be_an_override() {
    assert_eq!(
        ExactOverride(&[0x22, 0xF1, 0x90], &[0x7F, 0x22, 0x78]).Validate(),
        Err(OverrideValidationError::ResponsePendingAsOverride)
    );
}

#[test]
fn a_pattern_that_matches_everything_is_refused() {
    let catchAll = ResponseOverride {
        m_vecRequestPattern: vec![0x00, 0x00],
        m_vecRequestMask: vec![0x00, 0x00],
        m_bMatchTrailingBytes: true,
        m_action: OverrideAction::Suppress,
        m_bIsEnabled: true,
        m_bRespondEvenIfSuppressed: false,
        m_strNote: String::new(),
    };
    assert_eq!(
        catchAll.Validate(),
        Err(OverrideValidationError::EverythingWildcarded)
    );
}

#[test]
fn a_response_byte_is_not_a_request() {
    assert!(matches!(
        ExactOverride(&[0x62, 0xF1, 0x90], &[0xA2]).Validate(),
        Err(OverrideValidationError::NotARequestServiceId { .. })
    ));
}

#[test]
fn an_echo_span_past_the_end_of_the_response_is_refused() {
    let overrideRule = ResponseOverride {
        m_vecRequestPattern: vec![0x22, 0x00, 0x00],
        m_vecRequestMask: vec![0xFF, 0x00, 0x00],
        m_bMatchTrailingBytes: false,
        m_action: OverrideAction::Substitute {
            m_vecResponse: vec![0x62, 0x00],
            m_vecEchoSpans: vec![EchoSpan {
                m_uRequestOffset: 1,
                m_uLength: 2,
                m_uResponseOffset: 1,
            }],
        },
        m_bIsEnabled: true,
        m_bRespondEvenIfSuppressed: false,
        m_strNote: String::new(),
    };
    assert!(matches!(
        overrideRule.Validate(),
        Err(OverrideValidationError::EchoSpanOutsideResponse { .. })
    ));
}

#[test]
fn a_more_specific_override_sorts_above_a_wildcard() {
    let wildcard = ResponseOverride {
        m_vecRequestPattern: vec![0x22, 0x00, 0x00],
        m_vecRequestMask: vec![0xFF, 0x00, 0x00],
        ..ExactOverride(&[0x22, 0xF1, 0x90], &[0x62, 0xF1, 0x90])
    };
    let exact = ExactOverride(&[0x22, 0xF1, 0x90], &[0x62, 0xF1, 0x90]);

    assert!(exact.Specificity() > wildcard.Specificity());
    assert!(exact.Matches(&[0x22, 0xF1, 0x90]));
    assert!(wildcard.Matches(&[0x22, 0xF1, 0x90]));
    assert!(!exact.Matches(&[0x22, 0xF1, 0x8C]));
    assert!(wildcard.Matches(&[0x22, 0xF1, 0x8C]));
}

#[test]
fn every_override_refusal_has_an_input_that_draws_it() {
    let rule = || ExactOverride(&[0x22, 0xF1, 0x90], &[0x62, 0xF1, 0x90]);
    let mut emptyPattern = rule();
    emptyPattern.m_vecRequestPattern = Vec::new();
    assert_eq!(
        emptyPattern.Validate(),
        Err(OverrideValidationError::EmptyRequestPattern)
    );
    let mut shortMask = rule();
    shortMask.m_vecRequestMask.pop();
    assert_eq!(
        shortMask.Validate(),
        Err(OverrideValidationError::MaskLengthMismatch {
            uPatternLength: 3,
            uMaskLength: 2
        })
    );
    let mut openService = rule();
    openService.m_vecRequestMask[0] = 0x00;
    assert_eq!(
        openService.Validate(),
        Err(OverrideValidationError::ServiceIdWildcarded)
    );
    assert_eq!(
        ExactOverride(&[0x22, 0xF1, 0x90], &[]).Validate(),
        Err(OverrideValidationError::EmptySubstituteResponse)
    );
    let mut span = rule();
    span.m_action = OverrideAction::Substitute {
        m_vecResponse: vec![0x62, 0x00, 0x00],
        m_vecEchoSpans: vec![EchoSpan {
            m_uRequestOffset: 2,
            m_uLength: 2,
            m_uResponseOffset: 1,
        }],
    };
    assert!(matches!(
        span.Validate(),
        Err(OverrideValidationError::EchoSpanOutsideRequest { .. })
    ));
    assert!(!span.Validate().unwrap_err().Message().is_empty());
}

#[test]
fn an_override_echoes_what_it_was_asked_for() {
    let rule = ResponseOverride {
        m_vecRequestPattern: vec![0x22, 0x00, 0x00],
        m_vecRequestMask: vec![0xFF, 0x00, 0x00],
        m_bMatchTrailingBytes: false,
        m_action: OverrideAction::Substitute {
            m_vecResponse: vec![0x62, 0x00, 0x00, 0x55],
            m_vecEchoSpans: vec![EchoSpan {
                m_uRequestOffset: 1,
                m_uLength: 2,
                m_uResponseOffset: 1,
            }],
        },
        m_bIsEnabled: true,
        m_bRespondEvenIfSuppressed: false,
        m_strNote: String::new(),
    };
    assert_eq!(rule.Validate(), Ok(()));
    assert_eq!(
        rule.BuildResponse(&[0x22, 0xF1, 0x8C]),
        Some(vec![0x62, 0xF1, 0x8C, 0x55])
    );
    assert_eq!(rule.RequestServiceId(), Some(0x22));
}

#[test]
fn the_most_specific_override_answers() {
    let mut ecu = Ecu::New("Engine", 0);
    let mut wildcard = ExactOverride(&[0x22, 0xF1, 0x90], &[0x62, 0x00, 0x00]);
    wildcard.m_vecRequestMask = vec![0xFF, 0x00, 0x00];
    wildcard.m_strNote = "wildcard".to_string();
    let mut exact = ExactOverride(&[0x22, 0xF1, 0x90], &[0x62, 0xF1, 0x90]);
    exact.m_strNote = "exact".to_string();
    ecu.m_vecResponseOverrides = vec![wildcard, exact];
    let found = |arrRequest: &[u8]| {
        ecu.FindMatchingOverride(arrRequest)
            .map(|rule| rule.m_strNote.clone())
    };
    assert_eq!(found(&[0x22, 0xF1, 0x90]), Some("exact".to_string()));
    assert_eq!(found(&[0x22, 0xF1, 0x8C]), Some("wildcard".to_string()));
    assert_eq!(found(&[0x2E, 0xF1, 0x8C]), None);
}

#[test]
fn a_disabled_override_answers_nothing() {
    let mut ecu = Ecu::New("Engine", 0);
    let mut rule = ExactOverride(&[0x3E, 0x00], &[0x7E, 0x00]);
    rule.m_bIsEnabled = false;
    ecu.m_vecResponseOverrides = vec![rule];
    assert!(ecu.FindMatchingOverride(&[0x3E, 0x00]).is_none());
}

#[test]
fn a_service_may_be_limited_to_a_session() {
    let mut ecu = Ecu::New("Engine", 0);
    ecu.m_vecSupportedServices = vec![0x22, 0x27];
    ecu.m_mapSessionServices.insert(0x01, vec![0x22]);
    assert!(ecu.IsServiceAllowedInSession(0x22, 0x01));
    assert!(!ecu.IsServiceAllowedInSession(0x27, 0x01));
    assert!(ecu.IsServiceAllowedInSession(0x27, 0x03));
}

#[test]
fn security_levels_are_found_by_either_half_of_the_pair() {
    let mut ecu = Ecu::New("Engine", 0);
    ecu.m_vecSecurityLevels.push(SecurityLevel {
        m_byRequestSeedSubFunction: 0x05,
        m_vecSeed: vec![1],
        m_vecExpectedKey: vec![2],
    });
    assert!(ecu.FindSecurityLevelByRequestSeed(0x05).is_some());
    assert!(ecu.FindSecurityLevelBySendKey(0x06).is_some());
    assert!(ecu.FindSecurityLevelByRequestSeed(0x06).is_none());
    assert!(ecu.FindSecurityLevelBySendKey(0x05).is_none());
}

#[test]
fn identifiers_are_listed_in_ascending_order() {
    let mut ecu = Ecu::New("Engine", 0);
    for u16Id in [0xF190u16, 0x0100, 0xF18C] {
        ecu.m_mapDids.insert(
            u16Id,
            DataIdentifier {
                m_u16Id: u16Id,
                m_vecValue: Vec::new(),
                m_confidence: Confidence::Inferred,
            },
        );
    }
    assert_eq!(ecu.DidIds(), vec![0x0100, 0xF18C, 0xF190]);
}

#[test]
fn an_address_pair_knows_its_broadcast_identifier() {
    let observed = CanAddress::NewObserved11Bit(0x7E0, 0x7E8);
    assert!(observed.ListensFunctionallyOn(c_u32Functional11BitCanId));
    assert!(!observed.IsExtendedId());
    assert_eq!(observed.m_confidence, Confidence::Observed);
    let specified =
        CanAddress::NewSpecified(0x18DA_10F1, 0x18DA_F110, CanAddressingMode::NormalFixed29Bit);
    assert!(specified.IsExtendedId());
    assert!(specified.ListensFunctionallyOn(0x18DB_33F1));
    assert_eq!(
        DefaultFunctionalCanId(0x700, CanAddressingMode::Normal11Bit),
        None
    );
}

#[test]
fn timing_values_out_of_range_are_refused_with_a_reason() {
    assert_eq!(EcuTiming::default().Validate(), Ok(()));
    let arrBad = [
        EcuTiming {
            m_u32P4ServerMaxMs: 49,
            ..EcuTiming::default()
        },
        EcuTiming {
            m_u32P2ServerMaxMs: 65_536,
            ..EcuTiming::default()
        },
        EcuTiming {
            m_u32P2StarServerMaxMs: 5_005,
            ..EcuTiming::default()
        },
        EcuTiming {
            m_u32ResponseDelayMs: 60_001,
            ..EcuTiming::default()
        },
        EcuTiming {
            m_u32P4ServerMaxMs: 600_001,
            ..EcuTiming::default()
        },
        EcuTiming {
            m_bForceResponsePending: true,
            m_u8ForcedResponsePendingCount: 0,
            ..EcuTiming::default()
        },
    ];
    let mut vecErrors: Vec<TimingValidationError> = Vec::new();
    for timing in arrBad {
        let error = timing.Validate().expect_err("out of range");
        assert!(!error.Message().is_empty());
        vecErrors.push(error);
    }
    assert_eq!(vecErrors.len(), 6);
}

#[test]
fn a_domain_error_says_what_is_invalid() {
    assert_eq!(
        DomainError::Invalid("no ECU".to_string()).Message(),
        "invalid domain state: no ECU"
    );
}

#[test]
fn reordering_equally_specific_overrides_changes_nothing() {
    let mut first = ExactOverride(&[0x22, 0xF1, 0x90], &[0x62, 0xF1, 0x90, 0x01]);
    first.m_strNote = "first".to_string();
    let mut second = ExactOverride(&[0x22, 0xF1, 0x90], &[0x62, 0xF1, 0x90, 0x02]);
    second.m_strNote = "second".to_string();
    let mut third = first.clone();
    third.m_strNote = "third".to_string();
    let rules = [first, second, third];

    for order in [
        [0, 1, 2],
        [0, 2, 1],
        [1, 0, 2],
        [1, 2, 0],
        [2, 0, 1],
        [2, 1, 0],
    ] {
        let mut ecu = Ecu::New("Engine", 0);
        ecu.m_vecResponseOverrides = order.iter().map(|uAt| rules[*uAt].clone()).collect();
        let found = ecu
            .FindMatchingOverride(&[0x22, 0xF1, 0x90])
            .expect("all of them match");
        assert_eq!(found.m_strNote, "second", "in order {order:?}");
    }
}

#[test]
fn what_equally_specific_overrides_say_decides_field_by_field() {
    let winner = |lower: &ResponseOverride, higher: &ResponseOverride| {
        for rules in [
            vec![lower.clone(), higher.clone()],
            vec![higher.clone(), lower.clone()],
        ] {
            let mut ecu = Ecu::New("Engine", 0);
            ecu.m_vecResponseOverrides = rules;
            assert_eq!(
                ecu.FindMatchingOverride(&[0x22, 0xF1, 0x90]),
                Some(higher)
            );
        }
    };
    let base = ExactOverride(&[0x22, 0xF1, 0x90], &[0x62, 0xF1, 0x90]);

    let mut pattern = base.clone();
    pattern.m_vecRequestMask = vec![0xFF, 0xFF, 0xF0];
    pattern.m_vecRequestPattern = vec![0x22, 0xF1, 0x9F];
    winner(&base, &pattern);

    let mut mask = base.clone();
    mask.m_vecRequestMask = vec![0xFF, 0xFF, 0xF0];
    winner(&mask, &base);

    let mut silent = base.clone();
    silent.m_action = OverrideAction::Suppress;
    winner(&silent, &base);

    let mut span = base.clone();
    span.m_action = OverrideAction::Substitute {
        m_vecResponse: vec![0x62, 0xF1, 0x90],
        m_vecEchoSpans: vec![EchoSpan {
            m_uRequestOffset: 1,
            m_uLength: 2,
            m_uResponseOffset: 1,
        }],
    };
    winner(&base, &span);

    let mut flag = base.clone();
    flag.m_bRespondEvenIfSuppressed = true;
    winner(&base, &flag);

    let mut note = base.clone();
    note.m_strNote = "\u{e9}".to_string();
    winner(&base, &note);
}
