//! Ethernet, IPv4/IPv6, TCP and UDP: enough header parsing to reach a payload.

use vstd::prelude::*;
use vstd::slice::slice_subrange;
use vstd::string::StringExecFns;

use crate::bytes::be16_at;
use crate::bytes::be32_at;
use crate::bytes::max_int;
use crate::bytes::min_int;
use crate::bytes::CopyRange;
use crate::bytes::ReadBe16;
use crate::bytes::ReadBe32;
use crate::pcap::CaptureTime;
use crate::pcap::CapturedPacket;
use crate::pcap::PacketView;
use crate::pcap::PcapError;
use crate::text::decimal;
use crate::text::lower_hexadecimal;
use crate::text::AppendDecimal;
use crate::text::AppendLowerHex;

verus! {

/// Which transport carried a payload.
#[derive(Debug, Clone, Copy, PartialEq, Eq, Structural)]
pub enum TransportKind {
    Tcp,
    Udp,
}

impl TransportKind {
    /// What a transport is called.
    pub open spec fn name(self) -> Seq<char> {
        match self {
            TransportKind::Tcp => "Tcp"@,
            TransportKind::Udp => "Udp"@,
        }
    }

    /// What this transport is called.
    pub fn Name(self) -> (strName: &'static str)
        ensures
            strName@ == self.name(),
    {
        match self {
            TransportKind::Tcp => "Tcp",
            TransportKind::Udp => "Udp",
        }
    }
}

const c_uEthernetHeaderLength: usize = 14;

const c_u16EtherTypeIpv4: u16 = 0x0800;

const c_u16EtherTypeIpv6: u16 = 0x86DD;

const c_u16EtherTypeVlan: u16 = 0x8100;

const c_u16EtherTypeVlanStacked: u16 = 0x88A8;

const c_uVlanTagLength: usize = 4;

const c_byIpProtocolTcp: u8 = 6;

const c_byIpProtocolUdp: u8 = 17;

const c_uIpv6HeaderLength: usize = 40;

/// The ether type found at an offset, past any VLAN tags, and where the network header starts.
/// `None` when the frame ends inside a tag.
pub open spec fn network_header(frame: Seq<u8>, at: int) -> Option<(int, int)>
    decreases frame.len() - at,
{
    let kind = be16_at(frame, at);
    if kind == 0x8100 || kind == 0x88A8 {
        if frame.len() < at + 6 {
            None
        } else {
            network_header(frame, at + 4)
        }
    } else {
        Some((kind, at + 2))
    }
}

/// An IPv4 address as text.
pub open spec fn ipv4_text(address: Seq<u8>) -> Seq<char> {
    decimal(address[0] as nat) + "."@ + decimal(address[1] as nat) + "."@ + decimal(
        address[2] as nat,
    ) + "."@ + decimal(address[3] as nat)
}

/// The first groups of an IPv6 address, in lower-case hexadecimal between colons.
pub open spec fn ipv6_groups(address: Seq<u8>, groups: nat) -> Seq<char>
    decreases groups,
{
    if groups == 0 {
        seq![]
    } else if groups == 1 {
        lower_hexadecimal(be16_at(address, 0) as nat)
    } else {
        ipv6_groups(address, (groups - 1) as nat) + ":"@ + lower_hexadecimal(
            be16_at(address, 2 * (groups - 1)) as nat,
        )
    }
}

/// An IPv6 address as text, without the compression of zero runs.
pub open spec fn ipv6_text(address: Seq<u8>) -> Seq<char> {
    ipv6_groups(address, 8)
}

/// What a TCP or UDP segment carries, between two addresses. `None` for another protocol, or a
/// segment too short for its own header.
pub open spec fn transport_packet(
    segment: Seq<u8>,
    protocol: u8,
    source: Seq<char>,
    destination: Seq<char>,
    time: CaptureTime,
) -> Option<PacketView> {
    if protocol == 6 {
        let data_offset = segment[12] as int / 16 * 4;
        if segment.len() < 20 || data_offset < 20 || segment.len() < data_offset {
            None
        } else {
            Some(
                PacketView {
                    index: 0,
                    time,
                    transport: TransportKind::Tcp,
                    source_ip: source,
                    destination_ip: destination,
                    source_port: be16_at(segment, 0) as u16,
                    destination_port: be16_at(segment, 2) as u16,
                    sequence: be32_at(segment, 4) as u32,
                    payload: segment.skip(data_offset),
                },
            )
        }
    } else if protocol == 17 {
        if segment.len() < 8 {
            None
        } else {
            Some(
                PacketView {
                    index: 0,
                    time,
                    transport: TransportKind::Udp,
                    source_ip: source,
                    destination_ip: destination,
                    source_port: be16_at(segment, 0) as u16,
                    destination_port: be16_at(segment, 2) as u16,
                    sequence: 0,
                    payload: segment.subrange(
                        8,
                        max_int(8, min_int(be16_at(segment, 4), segment.len() as int)),
                    ),
                },
            )
        }
    } else {
        None
    }
}

/// How many bytes the header of an IPv4 datagram takes.
pub open spec fn ipv4_header_length(datagram: Seq<u8>) -> int {
    datagram[0] as int % 16 * 4
}

/// What an IPv4 datagram carries. The total length field bounds it: what follows is padding. A
/// fragment is skipped, since it carries only part of a payload.
pub open spec fn ipv4_packet(datagram: Seq<u8>, time: CaptureTime) -> Option<PacketView> {
    let header_length = ipv4_header_length(datagram);
    if datagram.len() < 20 || header_length < 20 || datagram.len() < header_length {
        None
    } else if be16_at(datagram, 6) % 0x4000 != 0 {
        None
    } else {
        let length = max_int(header_length, min_int(be16_at(datagram, 2), datagram.len() as int));
        transport_packet(
            datagram.subrange(header_length, length),
            datagram[9],
            ipv4_text(datagram.subrange(12, 16)),
            ipv4_text(datagram.subrange(16, 20)),
            time,
        )
    }
}

/// What an IPv6 datagram without extension headers carries.
pub open spec fn ipv6_packet(datagram: Seq<u8>, time: CaptureTime) -> Option<PacketView> {
    if datagram.len() < 40 || (datagram[6] != 6 && datagram[6] != 17) {
        None
    } else {
        transport_packet(
            datagram.subrange(40, 40 + min_int(be16_at(datagram, 4), datagram.len() - 40)),
            datagram[6],
            ipv6_text(datagram.subrange(8, 24)),
            ipv6_text(datagram.subrange(24, 40)),
            time,
        )
    }
}

/// What an Ethernet frame carries. `None` for a frame this reader has no interest in.
pub open spec fn ethernet_packet(frame: Seq<u8>, time: CaptureTime) -> Option<PacketView> {
    if frame.len() < 14 {
        None
    } else {
        match network_header(frame, 12) {
            None => None,
            Some((kind, at)) => if kind == 0x0800 {
                ipv4_packet(frame.skip(at), time)
            } else if kind == 0x86DD {
                ipv6_packet(frame.skip(at), time)
            } else {
                None
            },
        }
    }
}

/// The value of an optional packet.
pub open spec fn option_view(packet: Option<CapturedPacket>) -> Option<PacketView> {
    match packet {
        Some(packet) => Some(packet@),
        None => None,
    }
}

/// Pull the transport payload out of one Ethernet frame.
///
/// `Ok(None)` for a frame this reader has no interest in: ARP, ICMP, a protocol above IP that is
/// neither TCP nor UDP. A real capture is full of other traffic, and refusing the file because of
/// it would make captures taken on a live network unusable.
pub fn ReadEthernetFrame(arrFrame: &[u8], time: CaptureTime) -> (result: Result<
    Option<CapturedPacket>,
    PcapError,
>)
    ensures
        result matches Ok(optPacket) && option_view(optPacket) == ethernet_packet(
            arrFrame@,
            time,
        ),
{
    if arrFrame.len() < c_uEthernetHeaderLength {
        return Ok(None);
    }
    // Walk past any VLAN tags: a tagged frame is an ordinary frame.
    let mut uOffset: usize = 12;
    let mut u16EtherType: u16 = ReadBe16(arrFrame, uOffset);
    uOffset += 2;
    while u16EtherType == c_u16EtherTypeVlan || u16EtherType == c_u16EtherTypeVlanStacked
        invariant
            14 <= uOffset <= arrFrame@.len(),
            u16EtherType == be16_at(arrFrame@, uOffset - 2),
            network_header(arrFrame@, uOffset - 2) == network_header(arrFrame@, 12),
        decreases arrFrame@.len() - uOffset,
    {
        if arrFrame.len() - uOffset < c_uVlanTagLength {
            return Ok(None);
        }
        uOffset += 2;
        u16EtherType = ReadBe16(arrFrame, uOffset);
        uOffset += 2;
    }
    let arrDatagram = slice_subrange(arrFrame, uOffset, arrFrame.len());
    assert(arrDatagram@ =~= arrFrame@.skip(uOffset as int));
    if u16EtherType == c_u16EtherTypeIpv4 {
        Ok(ReadIpv4(arrDatagram, time))
    } else if u16EtherType == c_u16EtherTypeIpv6 {
        Ok(ReadIpv6(arrDatagram, time))
    } else {
        Ok(None)
    }
}

/// IPv4: variable header length, and fragments this reader will not guess at.
fn ReadIpv4(arrDatagram: &[u8], time: CaptureTime) -> (optPacket: Option<CapturedPacket>)
    ensures
        option_view(optPacket) == ipv4_packet(arrDatagram@, time),
{
    if arrDatagram.len() < 20 {
        return None;
    }
    let uHeaderLength: usize = (arrDatagram[0] % 16) as usize * 4;
    if uHeaderLength < 20 || arrDatagram.len() < uHeaderLength {
        return None;
    }
    // A fragmented datagram carries only part of its transport payload. Parsing the first
    // fragment as though it were whole would produce a plausible, truncated message.
    let u16FragmentField: u16 = ReadBe16(arrDatagram, 6);
    if u16FragmentField % 0x4000 != 0 {
        return None;
    }
    // The total length field bounds the payload: an Ethernet frame may be padded to its minimum
    // length, and that padding is not data.
    let uTotalLength: usize = ReadBe16(arrDatagram, 2) as usize;
    let uDatagramLength: usize = if uTotalLength < uHeaderLength {
        uHeaderLength
    } else if uTotalLength > arrDatagram.len() {
        arrDatagram.len()
    } else {
        uTotalLength
    };
    let strSource = FormatIpv4(slice_subrange(arrDatagram, 12, 16));
    let strDestination = FormatIpv4(slice_subrange(arrDatagram, 16, 20));
    ReadTransport(
        slice_subrange(arrDatagram, uHeaderLength, uDatagramLength),
        arrDatagram[9],
        strSource,
        strDestination,
        time,
    )
}

/// IPv6: a fixed header, and extension headers this reader does not walk.
fn ReadIpv6(arrDatagram: &[u8], time: CaptureTime) -> (optPacket: Option<CapturedPacket>)
    ensures
        option_view(optPacket) == ipv6_packet(arrDatagram@, time),
{
    if arrDatagram.len() < c_uIpv6HeaderLength {
        return None;
    }
    let byNextHeader: u8 = arrDatagram[6];
    if byNextHeader != c_byIpProtocolTcp && byNextHeader != c_byIpProtocolUdp {
        return None;
    }
    let uPayloadLength: usize = ReadBe16(arrDatagram, 4) as usize;
    let uAvailable: usize = arrDatagram.len() - c_uIpv6HeaderLength;
    let uLength: usize = if uPayloadLength < uAvailable {
        uPayloadLength
    } else {
        uAvailable
    };
    let strSource = FormatIpv6(slice_subrange(arrDatagram, 8, 24));
    let strDestination = FormatIpv6(slice_subrange(arrDatagram, 24, 40));
    ReadTransport(
        slice_subrange(arrDatagram, c_uIpv6HeaderLength, c_uIpv6HeaderLength + uLength),
        byNextHeader,
        strSource,
        strDestination,
        time,
    )
}

/// TCP or UDP, down to the payload.
fn ReadTransport(
    arrSegment: &[u8],
    byProtocol: u8,
    strSourceIp: String,
    strDestinationIp: String,
    time: CaptureTime,
) -> (optPacket: Option<CapturedPacket>)
    ensures
        option_view(optPacket) == transport_packet(
            arrSegment@,
            byProtocol,
            strSourceIp@,
            strDestinationIp@,
            time,
        ),
{
    if byProtocol == c_byIpProtocolTcp {
        if arrSegment.len() < 20 {
            return None;
        }
        let uDataOffset: usize = (arrSegment[12] / 16) as usize * 4;
        if uDataOffset < 20 || arrSegment.len() < uDataOffset {
            return None;
        }
        let packet = CapturedPacket {
            m_uCaptureIndex: 0,
            m_time: time,
            m_transport: TransportKind::Tcp,
            m_strSourceIp: strSourceIp,
            m_strDestinationIp: strDestinationIp,
            m_u16SourcePort: ReadBe16(arrSegment, 0),
            m_u16DestinationPort: ReadBe16(arrSegment, 2),
            m_u32SequenceNumber: ReadBe32(arrSegment, 4),
            m_vecPayload: CopyRange(arrSegment, uDataOffset, arrSegment.len()),
        };
        assert(packet@.payload =~= arrSegment@.skip(uDataOffset as int));
        Some(packet)
    } else if byProtocol == c_byIpProtocolUdp {
        if arrSegment.len() < 8 {
            return None;
        }
        // The UDP length field covers the header too, and bounds the payload against any trailing
        // padding the frame carried.
        let uLength: usize = ReadBe16(arrSegment, 4) as usize;
        let uEnd: usize = if uLength < 8 {
            8
        } else if uLength > arrSegment.len() {
            arrSegment.len()
        } else {
            uLength
        };
        Some(
            CapturedPacket {
                m_uCaptureIndex: 0,
                m_time: time,
                m_transport: TransportKind::Udp,
                m_strSourceIp: strSourceIp,
                m_strDestinationIp: strDestinationIp,
                m_u16SourcePort: ReadBe16(arrSegment, 0),
                m_u16DestinationPort: ReadBe16(arrSegment, 2),
                m_u32SequenceNumber: 0,
                m_vecPayload: CopyRange(arrSegment, 8, uEnd),
            },
        )
    } else {
        None
    }
}

fn FormatIpv4(arrAddress: &[u8]) -> (strText: String)
    requires
        arrAddress@.len() == 4,
    ensures
        strText@ == ipv4_text(arrAddress@),
{
    let mut strText = String::new();
    AppendDecimal(&mut strText, arrAddress[0] as u64);
    assert(strText@ =~= decimal(arrAddress@[0] as nat));
    strText.append(".");
    AppendDecimal(&mut strText, arrAddress[1] as u64);
    strText.append(".");
    AppendDecimal(&mut strText, arrAddress[2] as u64);
    strText.append(".");
    AppendDecimal(&mut strText, arrAddress[3] as u64);
    strText
}

fn FormatIpv6(arrAddress: &[u8]) -> (strText: String)
    requires
        arrAddress@.len() == 16,
    ensures
        strText@ == ipv6_text(arrAddress@),
{
    let mut strText = String::new();
    AppendLowerHex(&mut strText, ReadBe16(arrAddress, 0) as u64);
    assert(strText@ =~= ipv6_groups(arrAddress@, 1));
    let mut uGroup: usize = 1;
    while uGroup < 8
        invariant
            1 <= uGroup <= 8,
            arrAddress@.len() == 16,
            strText@ == ipv6_groups(arrAddress@, uGroup as nat),
        decreases 8 - uGroup,
    {
        strText.append(":");
        AppendLowerHex(&mut strText, ReadBe16(arrAddress, uGroup * 2) as u64);
        uGroup += 1;
    }
    strText
}

} // verus!
