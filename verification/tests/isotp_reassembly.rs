//! Reading finished ISO-TP exchanges, and the parameters of live ones.

#![allow(non_snake_case, non_upper_case_globals)]

use std::time::Duration;

use vehicle_sim::can::CanFrame;
use vehicle_sim::isotp::params::ApplyPadding;
use vehicle_sim::isotp::params::DecodeSeparationTime;
use vehicle_sim::isotp::params::IsoTpParameters;
use vehicle_sim::isotp::reassembly::ReassembleStream;
use vehicle_sim::isotp::tx::IsoTpTransmitter;

fn frame(id: u32, data: Vec<u8>) -> CanFrame {
    CanFrame::NewClassic(0, id, data)
}

#[test]
fn single_frame_is_decoded() {
    let frames = vec![frame(
        0x7E0,
        vec![0x02, 0x10, 0x03, 0x00, 0x00, 0x00, 0x00, 0x00],
    )];
    let msgs = ReassembleStream(&frames);
    assert_eq!(msgs.len(), 1);
    assert_eq!(msgs[0].m_vecData, vec![0x10, 0x03]);
}

#[test]
fn multi_frame_is_reassembled() {
    let frames = vec![
        frame(0x7E8, vec![0x10, 0x14, 0x62, 0xF1, 0x90, b'V', b'I', b'N']),
        frame(0x7E8, vec![0x21, b'0', b'1', b'2', b'3', b'4', b'5', b'6']),
        frame(0x7E8, vec![0x22, b'7', b'8', b'9', b'A', b'B', b'C', b'D']),
    ];
    let msgs = ReassembleStream(&frames);
    assert_eq!(msgs.len(), 1);
    assert_eq!(msgs[0].m_vecData.len(), 20);
    assert_eq!(&msgs[0].m_vecData[0..3], &[0x62, 0xF1, 0x90]);
    assert_eq!(&msgs[0].m_vecData[3..], b"VIN0123456789ABCD"[..17].as_ref());
}

fn frameAt(id: u32, u64TimestampUs: u64, data: Vec<u8>) -> CanFrame {
    CanFrame::NewClassic(u64TimestampUs, id, data)
}

#[test]
fn a_message_records_when_it_started_and_when_it_finished() {
    let frames = vec![
        frameAt(
            0x7E8,
            1_000_000,
            vec![0x10, 0x14, 0x62, 0xF1, 0x90, b'V', b'I', b'N'],
        ),
        frameAt(
            0x7E8,
            2_000_000,
            vec![0x21, b'0', b'1', b'2', b'3', b'4', b'5', b'6'],
        ),
        frameAt(
            0x7E8,
            3_000_000,
            vec![0x22, b'7', b'8', b'9', b'A', b'B', b'C', b'D'],
        ),
    ];
    let msgs = ReassembleStream(&frames);
    assert_eq!(msgs.len(), 1);
    assert_eq!(msgs[0].m_u64StartedAtUs, 1_000_000);
    assert_eq!(msgs[0].m_u64CompletedAtUs, 3_000_000);
}

#[test]
fn a_single_frame_starts_and_finishes_at_the_same_instant() {
    let frames = vec![frameAt(0x7E0, 5_000_000, vec![0x02, 0x10, 0x03])];
    let msgs = ReassembleStream(&frames);
    assert_eq!(msgs[0].m_u64StartedAtUs, 5_000_000);
    assert_eq!(msgs[0].m_u64CompletedAtUs, 5_000_000);
}

#[test]
fn a_consecutive_frame_out_of_sequence_abandons_the_message() {
    let frames = vec![
        frame(0x7E8, vec![0x10, 0x14, 0x62, 0xF1, 0x90, b'V', b'I', b'N']),
        frame(0x7E8, vec![0x21, b'0', b'1', b'2', b'3', b'4', b'5', b'6']),
        frame(0x7E8, vec![0x23, b'7', b'8', b'9', b'A', b'B', b'C', b'D']),
    ];
    assert!(
        ReassembleStream(&frames).is_empty(),
        "an incomplete message must be abandoned, not handed on as if it were whole"
    );
}

#[test]
fn a_duplicated_consecutive_frame_abandons_the_message() {
    let frames = vec![
        frame(0x7E8, vec![0x10, 0x14, 0x62, 0xF1, 0x90, b'V', b'I', b'N']),
        frame(0x7E8, vec![0x21, b'0', b'1', b'2', b'3', b'4', b'5', b'6']),
        frame(0x7E8, vec![0x21, b'0', b'1', b'2', b'3', b'4', b'5', b'6']),
    ];
    assert!(ReassembleStream(&frames).is_empty());
}

#[test]
fn sequence_numbers_wrap_from_fifteen_back_to_zero() {
    let uTotalLength: usize = 118;
    let mut frames = vec![frame(
        0x7E8,
        vec![0x10, uTotalLength as u8, 1, 2, 3, 4, 5, 6],
    )];

    let mut uSent = 6;
    let mut u8SequenceNumber: u8 = 1;
    while uSent < uTotalLength {
        let uTake = (uTotalLength - uSent).min(7);
        let mut vecData = vec![0x20 | u8SequenceNumber];
        vecData.extend(std::iter::repeat_n(0xAA, uTake));
        frames.push(frame(0x7E8, vecData));

        uSent += uTake;
        u8SequenceNumber = (u8SequenceNumber + 1) & 0x0F;
    }

    let msgs = ReassembleStream(&frames);
    assert_eq!(msgs.len(), 1, "a 118-byte message should reassemble whole");
    assert_eq!(msgs[0].m_vecData.len(), uTotalLength);
}

#[test]
fn flow_control_frames_are_ignored() {
    let frames = vec![
        frame(0x7E8, vec![0x10, 0x0A, 0x62, 0xF1, 0x90, 0x01, 0x02, 0x03]),
        frame(0x7E0, vec![0x30, 0x00, 0x00]),
        frame(0x7E8, vec![0x21, 0x04, 0x05, 0x06, 0x07, 0x00, 0x00, 0x00]),
    ];
    let msgs = ReassembleStream(&frames);
    assert_eq!(msgs.len(), 1);
    assert_eq!(msgs[0].m_vecData.len(), 10);
}

#[test]
fn separation_times_decode_in_both_units() {
    assert_eq!(Duration::from_micros(DecodeSeparationTime(0x00)), Duration::ZERO);
    assert_eq!(Duration::from_micros(DecodeSeparationTime(0x14)), Duration::from_millis(20));
    assert_eq!(Duration::from_micros(DecodeSeparationTime(0x7F)), Duration::from_millis(127));
    assert_eq!(Duration::from_micros(DecodeSeparationTime(0xF1)), Duration::from_micros(100));
    assert_eq!(Duration::from_micros(DecodeSeparationTime(0xF9)), Duration::from_micros(900));
}

#[test]
fn a_reserved_separation_time_becomes_the_slowest_not_the_fastest() {
    for byReserved in [0x80, 0x90, 0xF0, 0xFA, 0xFF] {
        assert_eq!(
            Duration::from_micros(DecodeSeparationTime(byReserved)),
            Duration::from_millis(127),
            "reserved value {byReserved:02X}"
        );
    }
}

#[test]
fn padding_fills_to_eight_bytes_or_is_left_off() {
    let mut vecFrame = vec![0x02, 0x10, 0x03];
    ApplyPadding(&mut vecFrame, Some(0xAA));
    assert_eq!(
        vecFrame,
        vec![0x02, 0x10, 0x03, 0xAA, 0xAA, 0xAA, 0xAA, 0xAA]
    );

    let mut vecShort = vec![0x02, 0x10, 0x03];
    ApplyPadding(&mut vecShort, None);
    assert_eq!(vecShort.len(), 3);
}

/// The frames of a PDU, one a second.
fn Recorded(arrPdu: &[u8]) -> Vec<CanFrame> {
    let mut transmitter = IsoTpTransmitter::New(IsoTpParameters::default());
    let mut vecFrames = vec![transmitter.Begin(arrPdu).expect("a legal length")];
    transmitter
        .OnFlowControl(&[0x30, 0x00, 0x00])
        .expect("clear to send");
    while let Some(vecFrame) = transmitter.NextConsecutiveFrame() {
        vecFrames.push(vecFrame);
    }
    vecFrames
        .into_iter()
        .enumerate()
        .map(|(uAt, vecData)| frameAt(0x7E8, uAt as u64 * 1_000_000, vecData))
        .collect()
}

#[test]
fn flow_control_anywhere_changes_nothing() {
    let vecPdu: Vec<u8> = (0..30u8).collect();
    let vecPlain = Recorded(&vecPdu);
    for uAt in 0..=vecPlain.len() {
        let mut vecFrames = vecPlain.clone();
        vecFrames.insert(uAt, frameAt(0x7E8, 77, vec![0x30, 0x08, 0x14]));
        let vecMessages = ReassembleStream(&vecFrames);
        assert_eq!(vecMessages, ReassembleStream(&vecPlain), "at {uAt}");
        assert_eq!(vecMessages.len(), 1);
        assert_eq!(vecMessages[0].m_vecData, vecPdu);
        assert_eq!(vecMessages[0].m_u64StartedAtUs, 0);
        assert_eq!(vecMessages[0].m_u64CompletedAtUs, 4_000_000);
    }
}

#[test]
fn a_missing_frame_gives_no_message() {
    let vecPlain = Recorded(&(0..200u8).collect::<Vec<u8>>());
    for uMissing in 0..vecPlain.len() {
        let mut vecFrames = vecPlain.clone();
        vecFrames.remove(uMissing);
        assert!(
            ReassembleStream(&vecFrames).is_empty(),
            "without frame {uMissing}"
        );
    }
}

#[test]
fn a_repeated_frame_gives_no_message_unless_it_is_the_last() {
    let vecPlain = Recorded(&(0..200u8).collect::<Vec<u8>>());
    for uRepeated in 1..vecPlain.len() - 1 {
        let mut vecFrames = vecPlain.clone();
        vecFrames.insert(uRepeated, vecPlain[uRepeated].clone());
        assert!(
            ReassembleStream(&vecFrames).is_empty(),
            "with frame {uRepeated} twice"
        );
    }
    let mut vecFrames = vecPlain.clone();
    vecFrames.push(vecPlain[vecPlain.len() - 1].clone());
    assert_eq!(ReassembleStream(&vecFrames).len(), 1);
}
