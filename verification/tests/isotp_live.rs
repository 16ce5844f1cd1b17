//! The two halves of a live ISO-TP conversation.

#![allow(non_snake_case, non_upper_case_globals)]

use vehicle_sim::isotp::params::c_byDefaultPaddingByte;
use vehicle_sim::isotp::params::c_u8MaxWaitFrames;
use vehicle_sim::isotp::params::c_uMaxClassicPduLength;
use vehicle_sim::isotp::params::IsoTpParameters;
use vehicle_sim::isotp::rx::IsoTpReceiveError;
use vehicle_sim::isotp::rx::IsoTpReceiver;
use vehicle_sim::isotp::rx::ReceiveOutcome;
use vehicle_sim::isotp::tx::IsoTpTransmitter;
use vehicle_sim::isotp::tx::IsoTpTransportError;
use vehicle_sim::isotp::tx::TransmitState;

fn Physical() -> IsoTpReceiver {
    IsoTpReceiver::NewPhysical(IsoTpParameters::default())
}

#[test]
fn a_single_frame_completes_without_any_flow_control() {
    let mut receiver = Physical();
    let outcome = receiver.OnFrame(&[0x02, 0x10, 0x03, 0xAA, 0xAA, 0xAA, 0xAA, 0xAA]);

    assert_eq!(
        outcome,
        ReceiveOutcome::Completed {
            vecPdu: vec![0x10, 0x03]
        }
    );
}

#[test]
fn padding_never_becomes_part_of_the_pdu() {
    let mut receiver = Physical();

    let first = receiver.OnFrame(&[0x10, 0x0A, 0x2E, 0xF1, 0x90, b'1', b'H', b'G']);
    assert!(matches!(first, ReceiveOutcome::SendFlowControl { .. }));

    let second = receiver.OnFrame(&[0x21, b'C', b'M', b'8', b'2', 0xAA, 0xAA, 0xAA]);
    assert_eq!(
        second,
        ReceiveOutcome::Completed {
            vecPdu: vec![0x2E, 0xF1, 0x90, b'1', b'H', b'G', b'C', b'M', b'8', b'2']
        }
    );
}

#[test]
fn a_first_frame_is_answered_with_flow_control_carrying_this_ends_limits() {
    let mut receiver = Physical();
    let outcome = receiver.OnFrame(&[0x10, 0x14, 0x62, 0xF1, 0x90, b'1', b'H', b'G']);

    assert_eq!(
        outcome,
        ReceiveOutcome::SendFlowControl {
            vecFrame: vec![
                0x30,
                0x00,
                0x00,
                c_byDefaultPaddingByte,
                c_byDefaultPaddingByte,
                c_byDefaultPaddingByte,
                c_byDefaultPaddingByte,
                c_byDefaultPaddingByte
            ]
        }
    );
    assert!(receiver.IsAssembling());
}

#[test]
fn a_configured_block_size_asks_again_at_the_end_of_each_block() {
    let mut receiver = IsoTpReceiver::NewPhysical(IsoTpParameters {
        m_u8BlockSize: 2,
        m_bySeparationTimeMin: 0x14,
        ..IsoTpParameters::default()
    });

    let first = receiver.OnFrame(&[0x10, 0x18, 0x01, 0x02, 0x03, 0x04, 0x05, 0x06]);
    match first {
        ReceiveOutcome::SendFlowControl { vecFrame } => {
            assert_eq!(&vecFrame[0..3], &[0x30, 0x02, 0x14]);
        }
        other => panic!("expected flow control, got {other:?}"),
    }

    assert_eq!(
        receiver.OnFrame(&[0x21, 7, 8, 9, 10, 11, 12, 13]),
        ReceiveOutcome::Nothing
    );
    assert!(matches!(
        receiver.OnFrame(&[0x22, 14, 15, 16, 17, 18, 19, 20]),
        ReceiveOutcome::SendFlowControl { .. }
    ));
    assert_eq!(
        receiver.OnFrame(&[0x23, 21, 22, 23, 24, 0xAA, 0xAA, 0xAA]),
        ReceiveOutcome::Completed {
            vecPdu: (1..=24u8).collect()
        }
    );
}

#[test]
fn a_gap_in_the_sequence_abandons_the_message_rather_than_guessing() {
    let mut receiver = Physical();
    receiver.OnFrame(&[0x10, 0x14, 0x62, 0xF1, 0x90, b'1', b'H', b'G']);

    let outcome = receiver.OnFrame(&[0x22, b'C', b'M', b'8', b'2', b'6', b'3', b'3']);
    assert_eq!(
        outcome,
        ReceiveOutcome::Aborted(IsoTpReceiveError::WrongSequenceNumber {
            u8Expected: 1,
            u8Received: 2
        })
    );
}

#[test]
fn a_broadcast_never_flow_controls_a_multi_frame_request() {
    let mut receiver = IsoTpReceiver::NewFunctional(IsoTpParameters::default());

    assert_eq!(
        receiver.OnFrame(&[0x10, 0x14, 0x62, 0xF1, 0x90, 0x01, 0x02, 0x03]),
        ReceiveOutcome::Nothing,
        "dropped silently, with nothing on the wire"
    );
    assert!(!receiver.IsAssembling());

    assert_eq!(
        receiver.OnFrame(&[0x02, 0x3E, 0x00, 0xAA, 0xAA, 0xAA, 0xAA, 0xAA]),
        ReceiveOutcome::Completed {
            vecPdu: vec![0x3E, 0x00]
        }
    );
}

#[test]
fn a_message_bigger_than_this_end_will_hold_is_refused_not_attempted() {
    let mut receiver = Physical().WithMaxPduLength(64);
    let outcome = receiver.OnFrame(&[0x10, 0x80, 0x01, 0x02, 0x03, 0x04, 0x05, 0x06]);

    match outcome {
        ReceiveOutcome::Refused { vecFrame } => assert_eq!(vecFrame[0], 0x32),
        other => panic!("expected an overflow refusal, got {other:?}"),
    }
    assert!(
        !receiver.IsAssembling(),
        "nothing is buffered for a refused message"
    );
}

#[test]
fn a_new_message_abandons_an_unfinished_one() {
    let mut receiver = Physical();
    receiver.OnFrame(&[0x10, 0x14, 0x62, 0xF1, 0x90, b'1', b'H', b'G']);

    assert_eq!(
        receiver.OnFrame(&[0x02, 0x3E, 0x00, 0xAA, 0xAA, 0xAA, 0xAA, 0xAA]),
        ReceiveOutcome::Completed {
            vecPdu: vec![0x3E, 0x00]
        }
    );
    assert!(!receiver.IsAssembling());
}

#[test]
fn a_stray_consecutive_frame_is_ignored() {
    let mut receiver = Physical();
    assert_eq!(
        receiver.OnFrame(&[0x21, 0x01, 0x02, 0x03, 0x04, 0x05, 0x06, 0x07]),
        ReceiveOutcome::Nothing
    );
}

fn SendWithOpenFlowControl(vecPdu: &[u8]) -> Vec<Vec<u8>> {
    let mut transmitter = IsoTpTransmitter::New(IsoTpParameters::default());
    let mut vecFrames = vec![transmitter.Begin(vecPdu).expect("a sendable PDU")];

    if *transmitter.State() == TransmitState::Complete {
        return vecFrames;
    }

    transmitter
        .OnFlowControl(&[0x30, 0x00, 0x00])
        .expect("clear to send");
    while let Some(vecFrame) = transmitter.NextConsecutiveFrame() {
        vecFrames.push(vecFrame);
    }
    vecFrames
}

#[test]
fn a_short_pdu_is_one_padded_frame() {
    let vecFrames = SendWithOpenFlowControl(&[0x50, 0x03, 0x00, 0x32, 0x01, 0xF4]);

    assert_eq!(vecFrames.len(), 1);
    assert_eq!(
        vecFrames[0],
        vec![
            0x06,
            0x50,
            0x03,
            0x00,
            0x32,
            0x01,
            0xF4,
            c_byDefaultPaddingByte
        ]
    );
}

#[test]
fn padding_can_be_turned_off() {
    let mut transmitter = IsoTpTransmitter::New(IsoTpParameters {
        m_optByPaddingByte: None,
        ..IsoTpParameters::default()
    });
    let vecFrame = transmitter.Begin(&[0x50, 0x03]).expect("a sendable PDU");
    assert_eq!(vecFrame, vec![0x02, 0x50, 0x03], "sent short, not padded");
}

#[test]
fn a_vin_response_becomes_a_first_frame_and_two_consecutive_frames() {
    let mut vecPdu = vec![0x62, 0xF1, 0x90];
    vecPdu.extend_from_slice(b"1HGCM82633A004352");

    let vecFrames = SendWithOpenFlowControl(&vecPdu);

    assert_eq!(vecFrames.len(), 3);
    assert_eq!(
        vecFrames[0],
        vec![0x10, 0x14, 0x62, 0xF1, 0x90, b'1', b'H', b'G'],
        "first frame announces 0x014 = 20 bytes"
    );
    assert_eq!(
        vecFrames[1],
        vec![0x21, b'C', b'M', b'8', b'2', b'6', b'3', b'3']
    );
    assert_eq!(
        vecFrames[2],
        vec![0x22, b'A', b'0', b'0', b'4', b'3', b'5', b'2']
    );
}

#[test]
fn only_the_last_consecutive_frame_is_padded() {
    let mut vecPdu = vec![0x62, 0xF1, 0x90];
    vecPdu.extend_from_slice(b"1HGCM82633A00435");

    let vecFrames = SendWithOpenFlowControl(&vecPdu);

    assert_eq!(vecFrames.len(), 3);
    assert_eq!(
        vecFrames[1].len(),
        8,
        "a full consecutive frame needs no padding"
    );
    assert_eq!(
        vecFrames[2],
        vec![
            0x22,
            b'A',
            b'0',
            b'0',
            b'4',
            b'3',
            b'5',
            c_byDefaultPaddingByte
        ]
    );
}

#[test]
fn nothing_is_sent_before_the_peer_asks_for_it() {
    let mut vecPdu = vec![0x62, 0xF1, 0x90];
    vecPdu.extend_from_slice(b"1HGCM82633A004352");

    let mut transmitter = IsoTpTransmitter::New(IsoTpParameters::default());
    transmitter.Begin(&vecPdu).expect("a sendable PDU");

    assert_eq!(*transmitter.State(), TransmitState::AwaitingFlowControl);
    assert!(
        transmitter.NextConsecutiveFrame().is_none(),
        "a consecutive frame before the flow control would be a protocol violation"
    );
}

#[test]
fn a_block_size_stops_the_transfer_until_the_next_flow_control() {
    let mut vecPdu = vec![0x62, 0xF1, 0x8C];
    vecPdu.extend((1..=31u8).collect::<Vec<u8>>());
    assert_eq!(vecPdu.len(), 34);

    let mut transmitter = IsoTpTransmitter::New(IsoTpParameters::default());
    transmitter.Begin(&vecPdu).expect("a sendable PDU");

    transmitter.OnFlowControl(&[0x30, 0x02, 0x00]).expect("cts");
    assert_eq!(transmitter.NextConsecutiveFrame().unwrap()[0], 0x21);
    assert_eq!(transmitter.NextConsecutiveFrame().unwrap()[0], 0x22);
    assert!(
        transmitter.NextConsecutiveFrame().is_none(),
        "the block is used up"
    );
    assert_eq!(*transmitter.State(), TransmitState::AwaitingFlowControl);

    transmitter.OnFlowControl(&[0x30, 0x00, 0x14]).expect("cts");
    assert_eq!(transmitter.SeparationTime() / 1000, 20);
    assert_eq!(transmitter.NextConsecutiveFrame().unwrap()[0], 0x23);
    assert_eq!(transmitter.NextConsecutiveFrame().unwrap()[0], 0x24);
    assert!(transmitter.NextConsecutiveFrame().is_none());
    assert_eq!(*transmitter.State(), TransmitState::Complete);
}

#[test]
fn the_sequence_number_wraps_at_fifteen_and_ignores_block_boundaries() {
    let vecPdu: Vec<u8> = (0..130u8).collect();
    let vecFrames = SendWithOpenFlowControl(&vecPdu);

    let vecSequenceNumbers: Vec<u8> = vecFrames[1..]
        .iter()
        .map(|vecFrame| vecFrame[0] & 0x0F)
        .collect();

    assert_eq!(&vecSequenceNumbers[0..3], &[1, 2, 3]);
    assert_eq!(&vecSequenceNumbers[14..17], &[15, 0, 1]);
}

#[test]
fn a_wait_pauses_the_transfer_without_ending_it() {
    let vecPdu: Vec<u8> = (0..20u8).collect();
    let mut transmitter = IsoTpTransmitter::New(IsoTpParameters::default());
    transmitter.Begin(&vecPdu).expect("a sendable PDU");

    transmitter
        .OnFlowControl(&[0x31, 0x00, 0x00])
        .expect("wait");
    assert_eq!(*transmitter.State(), TransmitState::AwaitingFlowControl);
    assert!(transmitter.NextConsecutiveFrame().is_none());

    transmitter.OnFlowControl(&[0x30, 0x00, 0x00]).expect("cts");
    assert!(transmitter.NextConsecutiveFrame().is_some());
}

#[test]
fn too_many_waits_in_a_row_abandon_the_transfer() {
    let vecPdu: Vec<u8> = (0..20u8).collect();
    let mut transmitter = IsoTpTransmitter::New(IsoTpParameters::default());
    transmitter.Begin(&vecPdu).expect("a sendable PDU");

    for _ in 0..c_u8MaxWaitFrames {
        transmitter
            .OnFlowControl(&[0x31, 0x00, 0x00])
            .expect("wait");
    }
    let resError = transmitter.OnFlowControl(&[0x31, 0x00, 0x00]);

    assert!(matches!(
        resError,
        Err(IsoTpTransportError::TooManyWaitFrames { .. })
    ));
    assert!(transmitter.NextConsecutiveFrame().is_none());
}

#[test]
fn an_overflow_report_abandons_the_transfer_without_an_error_on_the_wire() {
    let vecPdu: Vec<u8> = (0..20u8).collect();
    let mut transmitter = IsoTpTransmitter::New(IsoTpParameters::default());
    transmitter.Begin(&vecPdu).expect("a sendable PDU");

    assert_eq!(
        transmitter.OnFlowControl(&[0x32, 0x00, 0x00]),
        Err(IsoTpTransportError::ReceiverOverflow)
    );
    assert!(transmitter.NextConsecutiveFrame().is_none());
}

#[test]
fn a_reserved_flow_status_abandons_the_transfer() {
    let vecPdu: Vec<u8> = (0..20u8).collect();
    let mut transmitter = IsoTpTransmitter::New(IsoTpParameters::default());
    transmitter.Begin(&vecPdu).expect("a sendable PDU");

    assert!(matches!(
        transmitter.OnFlowControl(&[0x35, 0x00, 0x00]),
        Err(IsoTpTransportError::InvalidFlowStatus { byFlowStatus: 5 })
    ));
}

#[test]
fn a_flow_control_that_never_arrives_abandons_the_transfer_and_sends_nothing_more() {
    let vecPdu: Vec<u8> = (0..20u8).collect();
    let mut transmitter = IsoTpTransmitter::New(IsoTpParameters::default());
    transmitter.Begin(&vecPdu).expect("a sendable PDU");

    assert!(matches!(
        transmitter.OnFlowControlTimeout(),
        Err(IsoTpTransportError::FlowControlTimeout { uFramesSent: 1 })
    ));
    assert!(transmitter.NextConsecutiveFrame().is_none());
}

#[test]
fn a_stray_flow_control_is_ignored_rather_than_wrecking_the_transfer() {
    let mut transmitter = IsoTpTransmitter::New(IsoTpParameters::default());
    assert_eq!(transmitter.OnFlowControl(&[0x30, 0x00, 0x00]), Ok(()));
    assert_eq!(*transmitter.State(), TransmitState::Idle);
}

#[test]
fn a_pdu_too_long_for_a_classic_first_frame_is_refused() {
    let vecPdu = vec![0x00; c_uMaxClassicPduLength + 1];
    let mut transmitter = IsoTpTransmitter::New(IsoTpParameters::default());

    assert!(matches!(
        transmitter.Begin(&vecPdu),
        Err(IsoTpTransportError::PduTooLong { .. })
    ));
}

#[test]
fn every_receive_failure_says_what_happened() {
    assert_eq!(
        IsoTpReceiveError::WrongSequenceNumber {
            u8Expected: 1,
            u8Received: 2
        }
        .Message(),
        "consecutive frame sequence number 2 arrived where 1 was expected; the message is incomplete and was abandoned"
    );
    assert_eq!(
        IsoTpReceiveError::UnexpectedConsecutiveFrame.Message(),
        "a consecutive frame arrived with no message in progress"
    );
}

#[test]
fn every_transfer_failure_says_what_happened() {
    let arrCases = [
        (
            IsoTpTransportError::PduTooLong { uLength: 4096 },
            "a 4096-byte PDU exceeds the 4095 bytes a classic ISO-TP first frame can announce",
        ),
        (
            IsoTpTransportError::EmptyPdu,
            "an empty PDU cannot be transmitted",
        ),
        (
            IsoTpTransportError::FlowControlTimeout { uFramesSent: 3 },
            "no flow control arrived within the timeout after 3 frame(s); the transfer was abandoned",
        ),
        (
            IsoTpTransportError::TooManyWaitFrames { u8WaitCount: 11 },
            "the receiver asked to wait 11 times in a row, more than the 10 allowed",
        ),
        (
            IsoTpTransportError::ReceiverOverflow,
            "the receiver reported its buffer would overflow, so the transfer was abandoned",
        ),
        (
            IsoTpTransportError::InvalidFlowStatus { byFlowStatus: 0x0F },
            "the receiver sent flow status 0xF, which is reserved",
        ),
    ];
    for (error, strExpected) in arrCases {
        assert_eq!(error.Message(), strExpected);
    }
}

#[test]
fn an_empty_pdu_is_refused_and_nothing_changes() {
    let mut transmitter = IsoTpTransmitter::New(IsoTpParameters::default());
    assert_eq!(transmitter.Begin(&[]), Err(IsoTpTransportError::EmptyPdu));
    assert_eq!(*transmitter.State(), TransmitState::Idle);
}

#[test]
fn what_one_end_sends_the_other_end_receives() {
    for uLength in [1usize, 7, 8, 13, 20, 130, 4095] {
        let vecPdu: Vec<u8> = (0..uLength).map(|uByte| uByte as u8).collect();
        let mut receiver = Physical();
        let mut optReceived = None;
        for vecFrame in SendWithOpenFlowControl(&vecPdu) {
            match receiver.OnFrame(&vecFrame) {
                ReceiveOutcome::Completed { vecPdu } => optReceived = Some(vecPdu),
                ReceiveOutcome::Nothing | ReceiveOutcome::SendFlowControl { .. } => {}
                other => panic!("unexpected outcome {other:?}"),
            }
        }
        assert_eq!(optReceived, Some(vecPdu), "{uLength} bytes");
    }
}

/// Send a PDU, clearing it in blocks of the given size; gives the frames of each block, with the
/// first frame alone in front.
fn SendInBlocks(vecPdu: &[u8], u8BlockSize: u8) -> Vec<Vec<Vec<u8>>> {
    let mut transmitter = IsoTpTransmitter::New(IsoTpParameters::default());
    let mut vecBlocks = vec![vec![transmitter.Begin(vecPdu).expect("a legal length")]];
    while *transmitter.State() != TransmitState::Complete {
        assert_eq!(*transmitter.State(), TransmitState::AwaitingFlowControl);
        transmitter
            .OnFlowControl(&[0x30, u8BlockSize, 0x00])
            .expect("clear to send");
        let mut vecBlock = Vec::new();
        while let Some(vecFrame) = transmitter.NextConsecutiveFrame() {
            vecBlock.push(vecFrame);
        }
        vecBlocks.push(vecBlock);
    }
    vecBlocks
}

#[test]
fn a_transfer_in_blocks_carries_the_whole_pdu() {
    let vecPdu: Vec<u8> = (0..200u8).collect();
    let vecBlocks = SendInBlocks(&vecPdu, 8);
    // 194 bytes behind the first frame take 28 frames: three blocks of eight and one of four.
    let vecSizes: Vec<usize> = vecBlocks.iter().map(Vec::len).collect();
    assert_eq!(vecSizes, vec![1, 8, 8, 8, 4]);

    let vecFrames: Vec<Vec<u8>> = vecBlocks.into_iter().skip(1).flatten().collect();
    let mut vecBodies = Vec::new();
    for (uIndex, vecFrame) in vecFrames.iter().enumerate() {
        assert_eq!(vecFrame[0] as usize, 0x20 | ((uIndex + 1) % 16));
        vecBodies.extend_from_slice(&vecFrame[1..]);
    }
    assert_eq!(&vecBodies[..194], &vecPdu[6..]);

    assert_eq!(SendInBlocks(&vecPdu, 0).len(), 2, "no limit, one block");
    assert_eq!(
        SendInBlocks(&vecPdu, 28).len(),
        2,
        "a block that ends with the PDU needs no further flow control"
    );
}

#[test]
fn a_receiver_asks_at_the_first_frame_and_at_each_block_end() {
    let vecPdu: Vec<u8> = (0..60u8).collect();
    let vecFrames: Vec<Vec<u8>> = SendInBlocks(&vecPdu, 0).into_iter().flatten().collect();
    assert_eq!(vecFrames.len(), 9);
    let mut receiver = IsoTpReceiver::NewPhysical(IsoTpParameters {
        m_u8BlockSize: 4,
        ..IsoTpParameters::default()
    });
    for (uIndex, vecFrame) in vecFrames.iter().enumerate() {
        match receiver.OnFrame(vecFrame) {
            ReceiveOutcome::SendFlowControl { vecFrame } => {
                assert!(uIndex == 0 || uIndex == 4, "asked at frame {uIndex}");
                assert_eq!(vecFrame[..3], [0x30, 4, 0]);
            }
            ReceiveOutcome::Nothing => assert!(![0, 4, 8].contains(&uIndex)),
            ReceiveOutcome::Completed { vecPdu: vecReceived } => {
                assert_eq!(uIndex, 8, "the last frame ends a block and completes");
                assert_eq!(vecReceived, vecPdu);
            }
            other => panic!("unexpected {other:?}"),
        }
    }
    assert!(!receiver.IsAssembling());
}
