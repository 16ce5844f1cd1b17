//! Both capture formats, and the failures that must be legible.

#![allow(non_snake_case, non_upper_case_globals)]

use vehicle_sim::pcap::classic::IsClassicPcap;
use vehicle_sim::pcap::ethernet::ReadEthernetFrame;
use vehicle_sim::pcap::ethernet::TransportKind;
use vehicle_sim::pcap::pcapng::IsPcapNg;
use vehicle_sim::pcap::CaptureTime;
use vehicle_sim::pcap::LinkTypeName;
use vehicle_sim::pcap::PcapError;
use vehicle_sim::pcap::ReadCapture;

/// An Ethernet + IPv4 + UDP frame carrying a payload.
fn UdpFrame(arrPayload: &[u8]) -> Vec<u8> {
    let mut vecFrame = Vec::new();
    vecFrame.extend_from_slice(&[0x02; 6]);
    vecFrame.extend_from_slice(&[0x03; 6]);
    vecFrame.extend_from_slice(&0x0800u16.to_be_bytes());

    let uUdpLength = 8 + arrPayload.len();
    let uTotalLength = 20 + uUdpLength;

    vecFrame.push(0x45);
    vecFrame.push(0x00);
    vecFrame.extend_from_slice(&(uTotalLength as u16).to_be_bytes());
    vecFrame.extend_from_slice(&[0x00, 0x00]);
    vecFrame.extend_from_slice(&[0x00, 0x00]);
    vecFrame.push(64);
    vecFrame.push(17);
    vecFrame.extend_from_slice(&[0x00, 0x00]);
    vecFrame.extend_from_slice(&[192, 168, 0, 10]);
    vecFrame.extend_from_slice(&[192, 168, 0, 2]);

    vecFrame.extend_from_slice(&49152u16.to_be_bytes());
    vecFrame.extend_from_slice(&13400u16.to_be_bytes());
    vecFrame.extend_from_slice(&(uUdpLength as u16).to_be_bytes());
    vecFrame.extend_from_slice(&[0x00, 0x00]);
    vecFrame.extend_from_slice(arrPayload);
    vecFrame
}

fn TcpFrame(arrPayload: &[u8], u32SequenceNumber: u32) -> Vec<u8> {
    let mut vecFrame = Vec::new();
    vecFrame.extend_from_slice(&[0x02; 6]);
    vecFrame.extend_from_slice(&[0x03; 6]);
    vecFrame.extend_from_slice(&0x0800u16.to_be_bytes());

    let uTotalLength = 20 + 20 + arrPayload.len();
    vecFrame.push(0x45);
    vecFrame.push(0x00);
    vecFrame.extend_from_slice(&(uTotalLength as u16).to_be_bytes());
    vecFrame.extend_from_slice(&[0x00, 0x00]);
    vecFrame.extend_from_slice(&[0x00, 0x00]);
    vecFrame.push(64);
    vecFrame.push(6);
    vecFrame.extend_from_slice(&[0x00, 0x00]);
    vecFrame.extend_from_slice(&[192, 168, 0, 10]);
    vecFrame.extend_from_slice(&[192, 168, 0, 2]);

    vecFrame.extend_from_slice(&51000u16.to_be_bytes());
    vecFrame.extend_from_slice(&13400u16.to_be_bytes());
    vecFrame.extend_from_slice(&u32SequenceNumber.to_be_bytes());
    vecFrame.extend_from_slice(&0u32.to_be_bytes());
    vecFrame.push(0x50);
    vecFrame.push(0x18);
    vecFrame.extend_from_slice(&[0xFF, 0xFF]);
    vecFrame.extend_from_slice(&[0x00, 0x00]);
    vecFrame.extend_from_slice(&[0x00, 0x00]);
    vecFrame.extend_from_slice(arrPayload);
    vecFrame
}

fn ClassicPcap(vecFrames: &[Vec<u8>], bIsLittleEndian: bool, u16LinkType: u16) -> Vec<u8> {
    let mut vecFile = Vec::new();
    let Pack32 = |u32Value: u32| -> [u8; 4] {
        if bIsLittleEndian {
            u32Value.to_le_bytes()
        } else {
            u32Value.to_be_bytes()
        }
    };

    vecFile.extend_from_slice(&Pack32(0xA1B2_C3D4));
    vecFile.extend_from_slice(&if bIsLittleEndian {
        [2u8, 0, 4, 0]
    } else {
        [0u8, 2, 0, 4]
    });
    vecFile.extend_from_slice(&Pack32(0));
    vecFile.extend_from_slice(&Pack32(0));
    vecFile.extend_from_slice(&Pack32(65535));
    vecFile.extend_from_slice(&Pack32(u16LinkType as u32));

    for (uIndex, vecFrame) in vecFrames.iter().enumerate() {
        vecFile.extend_from_slice(&Pack32(100 + uIndex as u32));
        vecFile.extend_from_slice(&Pack32(500_000));
        vecFile.extend_from_slice(&Pack32(vecFrame.len() as u32));
        vecFile.extend_from_slice(&Pack32(vecFrame.len() as u32));
        vecFile.extend_from_slice(vecFrame);
    }
    vecFile
}

fn PcapNg(vecFrames: &[Vec<u8>]) -> Vec<u8> {
    let mut vecFile = Vec::new();

    vecFile.extend_from_slice(&0x0A0D_0D0Au32.to_le_bytes());
    vecFile.extend_from_slice(&28u32.to_le_bytes());
    vecFile.extend_from_slice(&0x1A2B_3C4Du32.to_le_bytes());
    vecFile.extend_from_slice(&[1, 0, 0, 0]);
    vecFile.extend_from_slice(&(-1i64).to_le_bytes());
    vecFile.extend_from_slice(&28u32.to_le_bytes());

    vecFile.extend_from_slice(&1u32.to_le_bytes());
    vecFile.extend_from_slice(&20u32.to_le_bytes());
    vecFile.extend_from_slice(&1u16.to_le_bytes());
    vecFile.extend_from_slice(&0u16.to_le_bytes());
    vecFile.extend_from_slice(&65535u32.to_le_bytes());
    vecFile.extend_from_slice(&20u32.to_le_bytes());

    for vecFrame in vecFrames {
        let uPadded = vecFrame.len().div_ceil(4) * 4;
        let uBlockLength = 32 + uPadded;

        vecFile.extend_from_slice(&6u32.to_le_bytes());
        vecFile.extend_from_slice(&(uBlockLength as u32).to_le_bytes());
        vecFile.extend_from_slice(&0u32.to_le_bytes());
        vecFile.extend_from_slice(&0u32.to_le_bytes());
        vecFile.extend_from_slice(&1_000_000u32.to_le_bytes());
        vecFile.extend_from_slice(&(vecFrame.len() as u32).to_le_bytes());
        vecFile.extend_from_slice(&(vecFrame.len() as u32).to_le_bytes());
        vecFile.extend_from_slice(vecFrame);
        vecFile.extend(std::iter::repeat_n(0u8, uPadded - vecFrame.len()));
        vecFile.extend_from_slice(&(uBlockLength as u32).to_le_bytes());
    }
    vecFile
}

#[test]
fn a_classic_pcap_yields_its_udp_payloads() {
    let vecFile = ClassicPcap(&[UdpFrame(b"hello"), UdpFrame(b"again")], true, 1);
    let vecPackets = ReadCapture(&vecFile).expect("a valid capture");

    assert_eq!(vecPackets.len(), 2);
    assert_eq!(vecPackets[0].m_vecPayload, b"hello");
    assert_eq!(vecPackets[0].m_transport, TransportKind::Udp);
    assert_eq!(vecPackets[0].m_strSourceIp, "192.168.0.10");
    assert_eq!(vecPackets[0].m_strDestinationIp, "192.168.0.2");
    assert_eq!(vecPackets[0].m_u16DestinationPort, 13400);
    assert!(vecPackets[0].TouchesPort(13400));
}

#[test]
fn both_byte_orders_read_identically() {
    let vecLittle = ReadCapture(&ClassicPcap(&[UdpFrame(b"payload")], true, 1)).expect("little");
    let vecBig = ReadCapture(&ClassicPcap(&[UdpFrame(b"payload")], false, 1)).expect("big");

    assert_eq!(vecLittle.len(), 1);
    assert_eq!(vecLittle[0].m_vecPayload, vecBig[0].m_vecPayload);
    assert_eq!(vecLittle[0].m_time, vecBig[0].m_time);
}

#[test]
fn a_pcapng_yields_the_same_payloads_as_a_pcap() {
    let vecFromNg = ReadCapture(&PcapNg(&[UdpFrame(b"hello")])).expect("a valid pcapng");
    let vecFromClassic = ReadCapture(&ClassicPcap(&[UdpFrame(b"hello")], true, 1)).expect("pcap");

    assert_eq!(vecFromNg.len(), 1);
    assert_eq!(vecFromNg[0].m_vecPayload, vecFromClassic[0].m_vecPayload);
    assert_eq!(vecFromNg[0].m_u16DestinationPort, 13400);
}

#[test]
fn a_tcp_segment_carries_its_sequence_number() {
    let vecFile = ClassicPcap(
        &[TcpFrame(b"first", 1000), TcpFrame(b"second", 1005)],
        true,
        1,
    );
    let vecPackets = ReadCapture(&vecFile).expect("a valid capture");

    assert_eq!(vecPackets.len(), 2);
    assert_eq!(vecPackets[0].m_transport, TransportKind::Tcp);
    assert_eq!(vecPackets[0].m_u32SequenceNumber, 1000);
    assert_eq!(vecPackets[1].m_u32SequenceNumber, 1005);
    assert_eq!(vecPackets[0].FlowKey(), vecPackets[1].FlowKey());
}

#[test]
fn ethernet_padding_is_not_mistaken_for_payload() {
    let mut vecFrame = UdpFrame(b"ab");
    vecFrame.extend(std::iter::repeat_n(0u8, 20));

    let vecPackets = ReadCapture(&ClassicPcap(&[vecFrame], true, 1)).expect("a valid capture");
    assert_eq!(
        vecPackets[0].m_vecPayload, b"ab",
        "the padding must not become payload"
    );
}

#[test]
fn a_vlan_tagged_frame_is_still_read() {
    let mut vecTagged = UdpFrame(b"tagged");
    let mut vecWithTag = vecTagged[..12].to_vec();
    vecWithTag.extend_from_slice(&0x8100u16.to_be_bytes());
    vecWithTag.extend_from_slice(&0x0064u16.to_be_bytes());
    vecWithTag.extend_from_slice(&vecTagged.split_off(12));

    let vecPackets = ReadCapture(&ClassicPcap(&[vecWithTag], true, 1)).expect("a valid capture");
    assert_eq!(vecPackets.len(), 1);
    assert_eq!(vecPackets[0].m_vecPayload, b"tagged");
}

#[test]
fn non_ip_traffic_is_skipped_rather_than_refused() {
    let mut vecArp = vec![0x02u8; 6];
    vecArp.extend_from_slice(&[0x03; 6]);
    vecArp.extend_from_slice(&0x0806u16.to_be_bytes());
    vecArp.extend_from_slice(&[0x00; 28]);

    let vecFile = ClassicPcap(&[vecArp, UdpFrame(b"real")], true, 1);
    let vecPackets = ReadCapture(&vecFile).expect("the ARP frame must not break the file");

    assert_eq!(vecPackets.len(), 1);
    assert_eq!(vecPackets[0].m_vecPayload, b"real");
}

#[test]
fn an_unsupported_link_type_is_named_rather_than_silently_empty() {
    let vecFile = ClassicPcap(&[UdpFrame(b"x")], true, 227);

    match ReadCapture(&vecFile) {
        Err(PcapError::UnsupportedLinkType {
            u16LinkType,
            strName,
        }) => {
            assert_eq!(u16LinkType, 227);
            assert_eq!(strName, "SocketCAN");
        }
        other => panic!("expected a named link-type error, got {other:?}"),
    }
}

#[test]
fn something_that_is_not_a_capture_says_so_with_its_leading_bytes() {
    match ReadCapture(b"this is a text file, not a capture") {
        Err(PcapError::NotACapture { strLeadingBytes }) => {
            assert!(!strLeadingBytes.is_empty(), "the bytes help identify it");
        }
        other => panic!("expected NotACapture, got {other:?}"),
    }
}

#[test]
fn a_file_truncated_mid_packet_keeps_what_was_read() {
    let mut vecFile = ClassicPcap(&[UdpFrame(b"complete"), UdpFrame(b"cut short")], true, 1);
    vecFile.truncate(vecFile.len() - 12);

    let vecPackets = ReadCapture(&vecFile).expect("the readable part should survive");
    assert_eq!(vecPackets.len(), 1);
    assert_eq!(vecPackets[0].m_vecPayload, b"complete");
}

#[test]
fn a_header_shorter_than_the_file_header_is_refused() {
    match ReadCapture(&[0xD4, 0xC3, 0xB2, 0xA1, 0x02, 0x00]) {
        Err(PcapError::Truncated { .. }) => {}
        other => panic!("expected Truncated, got {other:?}"),
    }
}

#[test]
fn a_capture_with_no_packets_is_empty_rather_than_an_error() {
    let vecPackets = ReadCapture(&ClassicPcap(&[], true, 1)).expect("a valid, empty capture");
    assert!(vecPackets.is_empty());
}

#[test]
fn packets_are_numbered_and_stamped_in_file_order() {
    let vecFile = ClassicPcap(&[UdpFrame(b"a"), UdpFrame(b"b")], true, 1);
    let vecPackets = ReadCapture(&vecFile).expect("a valid capture");
    for (uIndex, packet) in vecPackets.iter().enumerate() {
        assert_eq!(packet.m_uCaptureIndex, uIndex);
        assert_eq!(
            packet.m_time,
            CaptureTime::Split {
                u32Seconds: 100 + uIndex as u32,
                u32SubSeconds: 500_000,
                u32PerSecond: 1_000_000
            }
        );
    }
}

#[test]
fn a_pcapng_time_counts_ticks() {
    let vecPackets = ReadCapture(&PcapNg(&[UdpFrame(b"hello")])).expect("a valid pcapng");
    match vecPackets[0].m_time {
        CaptureTime::Ticks { u64Ticks, .. } => assert_eq!(u64Ticks, 1_000_000),
        other => panic!("expected ticks, got {other:?}"),
    }
}

#[test]
fn the_formats_are_told_apart_by_their_first_bytes() {
    assert!(IsPcapNg(&PcapNg(&[])));
    assert!(!IsPcapNg(&ClassicPcap(&[], true, 1)));
    assert!(IsClassicPcap(&ClassicPcap(&[], false, 1)));
    assert!(!IsClassicPcap(b"text"));
}

#[test]
fn a_frame_that_is_not_ip_is_nothing() {
    let time = CaptureTime::Split {
        u32Seconds: 0,
        u32SubSeconds: 0,
        u32PerSecond: 1_000_000,
    };
    assert_eq!(ReadEthernetFrame(&[0u8; 20], time), Ok(None));
    let packet = ReadEthernetFrame(&UdpFrame(b"x"), time)
        .expect("readable")
        .expect("an UDP packet");
    assert_eq!(packet.m_u16SourcePort, 49152);
    assert_eq!(
        packet.FlowKey(),
        "Udp 192.168.0.10:49152 -> 192.168.0.2:13400"
    );
}

#[test]
fn link_types_have_names() {
    assert_eq!(LinkTypeName(227), "SocketCAN");
}

/// A pcapng section with one interface of the given link type and no packets.
fn EmptySection(u16LinkType: u16) -> Vec<u8> {
    let mut vecSection = PcapNg(&[]);
    vecSection[36..38].copy_from_slice(&u16LinkType.to_le_bytes());
    vecSection
}

#[test]
fn an_ethernet_section_is_read_whatever_section_follows_it() {
    let mut vecFile = PcapNg(&[UdpFrame(b"hello")]);
    vecFile.extend(EmptySection(227));
    let vecPackets = ReadCapture(&vecFile).expect("there is an Ethernet interface");
    assert_eq!(vecPackets.len(), 1);
    assert_eq!(vecPackets[0].m_vecPayload, b"hello");

    let mut vecMixed = EmptySection(227);
    vecMixed.extend(PcapNg(&[UdpFrame(b"again")]));
    assert_eq!(ReadCapture(&vecMixed).expect("mixed").len(), 1);
}

#[test]
fn sections_without_any_ethernet_interface_are_refused() {
    let mut vecFile = EmptySection(227);
    vecFile.extend(EmptySection(105));
    assert!(matches!(
        ReadCapture(&vecFile),
        Err(PcapError::UnsupportedLinkType {
            u16LinkType: 105,
            ..
        })
    ));
}

/// A pcapng section that declares no interface.
fn UndeclaredSection(vecFrames: &[Vec<u8>]) -> Vec<u8> {
    let mut vecSection = PcapNg(vecFrames);
    vecSection.drain(28..48);
    vecSection
}

#[test]
fn packets_of_a_section_without_interfaces_are_kept() {
    let mut vecFile = EmptySection(227);
    vecFile.extend(UndeclaredSection(&[UdpFrame(b"hello")]));
    let vecPackets = ReadCapture(&vecFile).expect("a packet was read");
    assert_eq!(vecPackets.len(), 1);
    assert_eq!(vecPackets[0].m_vecPayload, b"hello");

    // Nothing was read, and there is no Ethernet interface anywhere.
    let mut vecNothing = EmptySection(227);
    vecNothing.extend(UndeclaredSection(&[]));
    assert!(matches!(
        ReadCapture(&vecNothing),
        Err(PcapError::UnsupportedLinkType {
            u16LinkType: 227,
            ..
        })
    ));
    assert_eq!(ReadCapture(&UndeclaredSection(&[])), Ok(Vec::new()));
}

#[test]
fn an_interface_that_is_not_ethernet_is_named_whatever_else_was_read() {
    // The packet names an interface that the section does not declare.
    let mut vecFile = PcapNg(&[UdpFrame(b"hello")]);
    vecFile[36..38].copy_from_slice(&227u16.to_le_bytes());
    vecFile[56..60].copy_from_slice(&7u32.to_le_bytes());
    assert!(matches!(
        ReadCapture(&vecFile),
        Err(PcapError::UnsupportedLinkType {
            u16LinkType: 227,
            ..
        })
    ));
}
