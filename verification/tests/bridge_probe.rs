//! Finding and changing the speed of the line to an adapter.

#![allow(non_snake_case, non_upper_case_globals)]

use vehicle_sim::bridge::probe::c_arrCandidateBaudRates;
use vehicle_sim::bridge::probe::c_u32FallbackBaudRate;
use vehicle_sim::bridge::probe::BaudRateSource;
use vehicle_sim::bridge::probe::CommandEvent;
use vehicle_sim::bridge::probe::CommandStep;
use vehicle_sim::bridge::probe::JudgeReceived;
use vehicle_sim::bridge::probe::LineSpeedChange;
use vehicle_sim::bridge::probe::LineSpeedCommander;
use vehicle_sim::bridge::probe::LinkProbe;
use vehicle_sim::bridge::probe::ProbeReply;
use vehicle_sim::bridge::probe::ProbeStep;
use vehicle_sim::bridge::probe::RequestedSerialLinkSpeed;
use vehicle_sim::bridge::probe::SplitLines;
use vehicle_sim::bridge::probe::VersionReading;
use vehicle_sim::slcan::c_byBell;
use vehicle_sim::slcan::IsSelectableBitrate;
use vehicle_sim::slcan::LineSpeedCommand;
use vehicle_sim::slcan::ReadAcknowledgement;
use vehicle_sim::slcan::SlcanLineSpeed;

#[test]
fn an_in_memory_link_reports_that_its_speed_is_not_a_real_number() {
    let source = BaudRateSource::NoRealSerialLine;
    assert_eq!(source.Describe(), "not applicable; this link has no UART");
}

#[test]
fn a_requested_speed_is_recorded_as_the_operators_choice_not_a_measurement() {
    let speed = RequestedSerialLinkSpeed(500_000);
    assert_eq!(speed.m_u32BaudRate, 500_000);
    assert_eq!(speed.m_source, BaudRateSource::Requested);
    assert_eq!(speed.m_optStrAdapterVersion, None);
}

#[test]
fn the_command_digits_are_lawicels_and_map_to_real_speeds() {
    assert_eq!(SlcanLineSpeed::Baud230400.ToCommandDigit(), '0');
    assert_eq!(SlcanLineSpeed::Baud115200.ToCommandDigit(), '1');
    assert_eq!(LineSpeedCommand(SlcanLineSpeed::Baud230400), "U0\r");
}

#[test]
fn a_speed_the_command_cannot_name_is_refused_rather_than_rounded() {
    assert_eq!(SlcanLineSpeed::FromBitsPerSecond(921_600), None);
    assert_eq!(
        SlcanLineSpeed::FromBitsPerSecond(230_400),
        Some(SlcanLineSpeed::Baud230400)
    );
}

#[test]
fn nothing_yet_is_not_a_refusal() {
    assert_eq!(ReadAcknowledgement(b""), None);
    assert_eq!(ReadAcknowledgement(b"\r"), Some(true));
    assert_eq!(ReadAcknowledgement(&[c_byBell]), Some(false));
    assert_eq!(
        ReadAcknowledgement(&[b'z', c_byBell]),
        Some(false),
        "a refusal still counts when it arrives behind leftover noise"
    );
}

#[test]
fn an_acknowledgement_is_read_back_from_the_adapter() {
    assert_eq!(ReadAcknowledgement(b"\r"), Some(true));
}

#[test]
fn a_bell_is_read_as_a_refusal() {
    assert_eq!(
        ReadAcknowledgement(&[c_byBell]),
        Some(false),
        "a firmware that does not offer this speed says so, and must not be read as silence"
    );
}

/// Carry out a line-speed change against an adapter that never says anything.
fn CommandMuteAdapter(u32Current: u32, speed: SlcanLineSpeed) -> LineSpeedChange {
    let (mut commander, mut step) = LineSpeedCommander::New(u32Current, speed);
    for _ in 0..20 {
        step = match step {
            CommandStep::Done(change) => return change,
            _ => commander.OnEvent(CommandEvent::OpenFailed),
        };
    }
    panic!("the change never ended");
}

#[test]
fn a_mute_adapter_leaves_the_link_where_it_was() {
    let change = CommandMuteAdapter(115_200, SlcanLineSpeed::Baud230400);

    match change {
        LineSpeedChange::NotConfirmed {
            u32BaudRate,
            u32RevertedToBaudRate,
        } => {
            assert_eq!(u32BaudRate, 230_400, "what was asked for");
            assert_eq!(u32RevertedToBaudRate, 115_200, "and what is still in use");
        }
        ref other => panic!("expected the link to be left alone, got {other:?}"),
    }
    assert_eq!(
        change.EffectiveBaudRate(115_200),
        115_200,
        "the caller keeps talking at the speed that works"
    );
}

#[test]
fn every_outcome_says_what_happened_in_words() {
    let confirmed = LineSpeedChange::Confirmed {
        u32BaudRate: 230_400,
        strAdapterVersion: "V1013".to_string(),
    };
    assert!(confirmed.Describe().contains("230400"));

    let refused = LineSpeedChange::Refused {
        u32BaudRate: 230_400,
    };
    assert!(refused.Describe().contains("does not offer"));

    let notConfirmed = LineSpeedChange::NotConfirmed {
        u32BaudRate: 230_400,
        u32RevertedToBaudRate: 115_200,
    };
    let strWords = notConfirmed.Describe();
    assert!(strWords.contains("put back"), "got: {strWords}");
    assert!(strWords.contains("115200"), "and names where it ended up");
}

#[test]
fn every_candidate_speed_is_tried_before_the_fallback() {
    let (mut probe, u32First) = LinkProbe::New();
    assert_eq!(u32First, c_arrCandidateBaudRates[0]);
    let mut vecTried = vec![u32First];
    loop {
        match probe.OnReply(ProbeReply::Nothing) {
            ProbeStep::Try { u32BaudRate } => vecTried.push(u32BaudRate),
            ProbeStep::Decided(speed) => {
                assert_eq!(speed.m_u32BaudRate, c_u32FallbackBaudRate);
                assert_eq!(speed.m_source, BaudRateSource::NoAdapterReply);
                break;
            }
        }
    }
    assert_eq!(vecTried, c_arrCandidateBaudRates.to_vec());
}

#[test]
fn an_adapter_that_answers_is_believed_at_the_speed_it_answered_at() {
    let (mut probe, _) = LinkProbe::New();
    let second = probe.OnReply(ProbeReply::CouldNotOpen);
    assert_eq!(
        second,
        ProbeStep::Try {
            u32BaudRate: c_arrCandidateBaudRates[1]
        }
    );
    match probe.OnReply(ProbeReply::Version("V1013".to_string())) {
        ProbeStep::Decided(speed) => {
            assert_eq!(speed.m_u32BaudRate, c_arrCandidateBaudRates[1]);
            assert_eq!(speed.m_source, BaudRateSource::Detected);
            assert_eq!(speed.m_optStrAdapterVersion, Some("V1013".to_string()));
        }
        other => panic!("expected a decision, got {other:?}"),
    }
}

#[test]
fn a_link_without_a_uart_is_not_probed_further() {
    let (mut probe, _) = LinkProbe::New();
    match probe.OnReply(ProbeReply::NoUart) {
        ProbeStep::Decided(speed) => {
            assert_eq!(speed.m_u32BaudRate, 115_200);
            assert_eq!(speed.m_source, BaudRateSource::NoRealSerialLine);
        }
        other => panic!("expected a decision, got {other:?}"),
    }
}

#[test]
fn a_speed_change_is_confirmed_only_by_an_answer_at_the_new_speed() {
    let (mut commander, step) = LineSpeedCommander::New(115_200, SlcanLineSpeed::Baud230400);
    assert_eq!(
        step,
        CommandStep::Open {
            u32BaudRate: 115_200
        }
    );
    assert_eq!(commander.OnEvent(CommandEvent::Opened), CommandStep::Command);
    assert_eq!(
        commander.OnEvent(CommandEvent::Answered(Some(true))),
        CommandStep::Reopen {
            u32BaudRate: 230_400
        }
    );
    assert_eq!(
        commander.OnEvent(CommandEvent::Opened),
        CommandStep::Identify
    );
    assert_eq!(
        commander.OnEvent(CommandEvent::Identified(Some("V1013".to_string()))),
        CommandStep::Done(LineSpeedChange::Confirmed {
            u32BaudRate: 230_400,
            strAdapterVersion: "V1013".to_string(),
        })
    );
}

#[test]
fn an_unconfirmed_change_is_taken_back_where_the_adapter_may_have_gone() {
    let unconfirmed = |u32Current: u32, speed: SlcanLineSpeed| {
        let (mut commander, _) = LineSpeedCommander::New(u32Current, speed);
        commander.OnEvent(CommandEvent::Opened);
        commander.OnEvent(CommandEvent::Answered(None));
        commander.OnEvent(CommandEvent::Opened);
        commander.OnEvent(CommandEvent::Identified(None))
    };
    assert_eq!(
        unconfirmed(57_600, SlcanLineSpeed::Baud230400),
        CommandStep::Revert {
            u32FirstBaudRate: 230_400,
            u32SecondBaudRate: 57_600,
            optSpeed: Some(SlcanLineSpeed::Baud57600),
            change: LineSpeedChange::NotConfirmed {
                u32BaudRate: 230_400,
                u32RevertedToBaudRate: 57_600,
            },
        }
    );
    match unconfirmed(921_600, SlcanLineSpeed::Baud230400) {
        CommandStep::Revert { optSpeed, .. } => {
            assert_eq!(optSpeed, None, "no command names that speed")
        }
        other => panic!("expected the change to be taken back, got {other:?}"),
    }
}

#[test]
fn a_refused_speed_change_changes_nothing() {
    let (mut commander, _) = LineSpeedCommander::New(115_200, SlcanLineSpeed::Baud230400);
    commander.OnEvent(CommandEvent::Opened);
    let step = commander.OnEvent(CommandEvent::Answered(Some(false)));
    let change = LineSpeedChange::Refused {
        u32BaudRate: 230_400,
    };
    assert_eq!(change.EffectiveBaudRate(115_200), 115_200);
    assert_eq!(step, CommandStep::Done(change));
}

#[test]
fn a_link_without_a_uart_has_no_speed_to_command() {
    let (mut commander, _) = LineSpeedCommander::New(115_200, SlcanLineSpeed::Baud230400);
    assert_eq!(
        commander.OnEvent(CommandEvent::OpenedWithoutUart),
        CommandStep::Done(LineSpeedChange::NoRealSerialLine)
    );
    assert_eq!(
        LineSpeedChange::NoRealSerialLine.Describe(),
        "this link has no UART, so there is no line speed to command"
    );
}

#[test]
fn bitrates_an_adapter_can_select() {
    for u32Bitrate in [
        10_000u32, 20_000, 50_000, 100_000, 125_000, 250_000, 500_000, 800_000, 1_000_000,
    ] {
        assert!(IsSelectableBitrate(u32Bitrate));
    }
    assert!(!IsSelectableBitrate(333_000));
}

#[test]
fn a_reply_is_split_at_its_terminators() {
    assert_eq!(
        SplitLines(b"V10\rzz"),
        vec![b"V10".to_vec(), b"zz".to_vec()]
    );
}

/// What to make of the bytes, when a line of `V` and digits is an identity reply.
fn Judge(arrReceived: &[u8]) -> VersionReading {
    let vecIsIdentity: Vec<bool> = SplitLines(arrReceived)
        .iter()
        .map(|line| {
            line.len() == 5 && line[0] == b'V' && line[1..].iter().all(u8::is_ascii_digit)
        })
        .collect();
    JudgeReceived(arrReceived, &vecIsIdentity, 27)
}

#[test]
fn an_adapter_that_identifies_itself_is_recognised() {
    assert_eq!(
        Judge(b"V1013\r"),
        VersionReading::Identified(b"V1013".to_vec())
    );
}

#[test]
fn a_reply_split_across_two_reads_is_still_recognised() {
    let mut vecReceived = b"V10".to_vec();
    assert_eq!(Judge(&vecReceived), VersionReading::KeepReading);
    vecReceived.extend_from_slice(b"13\r");
    assert_eq!(
        Judge(&vecReceived),
        VersionReading::Identified(b"V1013".to_vec()),
        "a reply arriving in two pieces is the normal case on a real UART"
    );
}

#[test]
fn mangled_bytes_from_the_wrong_line_speed_are_not_mistaken_for_a_reply() {
    assert_eq!(
        Judge(&[0xFE, 0xC0, 0x80, 0xFF, b'\r']),
        VersionReading::KeepReading
    );
    assert_eq!(Judge(&[0xFE; 28]), VersionReading::GiveUp);
}
