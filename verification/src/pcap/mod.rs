//! Reading capture files: pcap and pcapng, down to TCP and UDP payloads.
//!
//! Pure parsing with no idea what the payloads mean. A capture is bytes; turning those into
//! diagnostic exchanges is somebody else's job.

pub mod classic;
pub mod ethernet;
pub mod laws;
pub mod packet_laws;
pub mod pcapng;

use vstd::prelude::*;
use vstd::string::StringExecFns;

use crate::bytes::be16_at;
use crate::bytes::be32_at;
use crate::bytes::le16_at;
use crate::bytes::le32_at;
use crate::bytes::min_int;
use crate::bytes::CopyRange;
use crate::bytes::ReadBe16;
use crate::bytes::ReadBe32;
use crate::bytes::ReadLe16;
use crate::bytes::ReadLe32;
use crate::pcap::classic::classic_capture;
use crate::pcap::classic::is_classic;
use crate::pcap::classic::IsClassicPcap;
use crate::pcap::classic::ReadClassicPcap;
use crate::pcap::ethernet::TransportKind;
use crate::pcap::pcapng::is_pcapng;
use crate::pcap::pcapng::pcapng_capture;
use crate::pcap::pcapng::IsPcapNg;
use crate::pcap::pcapng::ReadPcapNg;
use crate::text::decimal;
use crate::text::hex_bytes;
use crate::text::AppendDecimal;
use crate::text::FormatHexBytes;
use crate::text::TextWithNumber;

verus! {

/// When a packet was captured, at whatever resolution the file declared.
#[derive(Debug, Clone, Copy, PartialEq, Eq, Structural)]
pub enum CaptureTime {
    /// Whole seconds, and a fraction of which the given number make a second.
    Split { u32Seconds: u32, u32SubSeconds: u32, u32PerSecond: u32 },
    /// A number of ticks. How many make a second is ten to the power of the resolution, or two to
    /// the power of its low seven bits when the high bit is set.
    Ticks { u64Ticks: u64, byResolution: u8 },
}

/// One packet's transport payload, with enough context to group it into a conversation.
#[derive(Debug, Clone, PartialEq, Eq)]
pub struct CapturedPacket {
    /// The position of this packet among the packets of its capture, in file order.
    pub m_uCaptureIndex: usize,
    /// Capture time.
    pub m_time: CaptureTime,
    /// Which transport carried it.
    pub m_transport: TransportKind,
    /// Source address, rendered for display and for grouping.
    pub m_strSourceIp: String,
    /// Destination address, rendered for display and for grouping.
    pub m_strDestinationIp: String,
    pub m_u16SourcePort: u16,
    pub m_u16DestinationPort: u16,
    /// The TCP sequence number of the first payload byte. Zero for UDP, which has none.
    pub m_u32SequenceNumber: u32,
    /// The bytes above the transport header.
    pub m_vecPayload: Vec<u8>,
}

/// A captured packet as a mathematical value.
pub ghost struct PacketView {
    pub index: int,
    pub time: CaptureTime,
    pub transport: TransportKind,
    pub source_ip: Seq<char>,
    pub destination_ip: Seq<char>,
    pub source_port: u16,
    pub destination_port: u16,
    pub sequence: u32,
    pub payload: Seq<u8>,
}

impl View for CapturedPacket {
    type V = PacketView;

    open spec fn view(&self) -> PacketView {
        PacketView {
            index: self.m_uCaptureIndex as int,
            time: self.m_time,
            transport: self.m_transport,
            source_ip: self.m_strSourceIp@,
            destination_ip: self.m_strDestinationIp@,
            source_port: self.m_u16SourcePort,
            destination_port: self.m_u16DestinationPort,
            sequence: self.m_u32SequenceNumber,
            payload: self.m_vecPayload@,
        }
    }
}

/// The values of a list of packets.
pub open spec fn packet_views(packets: Seq<CapturedPacket>) -> Seq<PacketView> {
    Seq::new(packets.len(), |i: int| packets[i]@)
}

impl PacketView {
    /// The conversation a packet belongs to.
    pub open spec fn flow_key(self) -> Seq<char> {
        self.transport.name() + " "@ + self.source_ip + ":"@ + decimal(self.source_port as nat)
            + " -> "@ + self.destination_ip + ":"@ + decimal(self.destination_port as nat)
    }
}

impl CapturedPacket {
    /// The conversation this packet belongs to: both endpoints and the transport.
    ///
    /// Directional on purpose: a TCP stream is reassembled per direction, since each carries its
    /// own independent sequence numbering.
    pub fn FlowKey(&self) -> (strKey: String)
        ensures
            strKey@ == self@.flow_key(),
    {
        let mut strKey = self.m_transport.Name().to_string();
        strKey.append(" ");
        strKey.append(self.m_strSourceIp.as_str());
        strKey.append(":");
        AppendDecimal(&mut strKey, self.m_u16SourcePort as u64);
        strKey.append(" -> ");
        strKey.append(self.m_strDestinationIp.as_str());
        strKey.append(":");
        AppendDecimal(&mut strKey, self.m_u16DestinationPort as u64);
        strKey
    }

    /// True when either end of this packet used the given port.
    pub fn TouchesPort(&self, u16Port: u16) -> (bTouches: bool)
        ensures
            bTouches == (self.m_u16SourcePort == u16Port || self.m_u16DestinationPort == u16Port),
    {
        self.m_u16SourcePort == u16Port || self.m_u16DestinationPort == u16Port
    }
}

/// Why a capture could not be read.
#[derive(Debug, Clone, PartialEq, Eq)]
pub enum PcapError {
    /// The first bytes are neither a pcap magic nor a pcapng section header.
    NotACapture { strLeadingBytes: String },
    /// The file ends in the middle of a structure.
    Truncated { strWhere: String },
    /// The link layer is not one this reader understands. Named rather than skipped: a CAN
    /// capture is a perfectly good file that simply is not Ethernet.
    UnsupportedLinkType { u16LinkType: u16, strName: &'static str },
    /// A structure declares a length that cannot be right.
    Malformed { strReason: String },
}

/// An error as a mathematical value.
pub ghost enum PcapErrorView {
    NotACapture { leading: Seq<char> },
    Truncated { place: Seq<char> },
    UnsupportedLinkType { link_type: u16, name: Seq<char> },
    Malformed { reason: Seq<char> },
}

impl View for PcapError {
    type V = PcapErrorView;

    open spec fn view(&self) -> PcapErrorView {
        match self {
            PcapError::NotACapture { strLeadingBytes } => PcapErrorView::NotACapture {
                leading: strLeadingBytes@,
            },
            PcapError::Truncated { strWhere } => PcapErrorView::Truncated { place: strWhere@ },
            PcapError::UnsupportedLinkType { u16LinkType, strName } =>
                PcapErrorView::UnsupportedLinkType { link_type: *u16LinkType, name: strName@ },
            PcapError::Malformed { strReason } => PcapErrorView::Malformed { reason: strReason@ },
        }
    }
}

impl PcapErrorView {
    /// What an error says.
    pub open spec fn message(self) -> Seq<char> {
        match self {
            PcapErrorView::NotACapture { leading } =>
                "this is not a pcap or pcapng capture (leading bytes "@ + leading + ")"@,
            PcapErrorView::Truncated { place } => "the capture is truncated: "@ + place,
            PcapErrorView::UnsupportedLinkType { link_type, name } => "link type "@ + decimal(
                link_type as nat,
            ) + " ("@ + name + ") is not supported; this reader handles Ethernet"@,
            PcapErrorView::Malformed { reason } => "the capture is malformed: "@ + reason,
        }
    }
}

impl PcapError {
    /// What the error says.
    pub fn Message(&self) -> (strMessage: String)
        ensures
            strMessage@ == self@.message(),
    {
        match self {
            PcapError::NotACapture { strLeadingBytes } => {
                let mut strMessage =
                    "this is not a pcap or pcapng capture (leading bytes ".to_string();
                strMessage.append(strLeadingBytes.as_str());
                strMessage.append(")");
                strMessage
            },
            PcapError::Truncated { strWhere } => {
                let mut strMessage = "the capture is truncated: ".to_string();
                strMessage.append(strWhere.as_str());
                strMessage
            },
            PcapError::UnsupportedLinkType { u16LinkType, strName } => {
                let mut strMessage = TextWithNumber("link type ", *u16LinkType as u64, " (");
                strMessage.append(strName);
                strMessage.append(") is not supported; this reader handles Ethernet");
                strMessage
            },
            PcapError::Malformed { strReason } => {
                let mut strMessage = "the capture is malformed: ".to_string();
                strMessage.append(strReason.as_str());
                strMessage
            },
        }
    }
}

/// What a link type is called.
pub open spec fn link_type_name(link_type: u16) -> Seq<char> {
    if link_type == 0 {
        "BSD loopback"@
    } else if link_type == 1 {
        "Ethernet"@
    } else if link_type == 101 {
        "raw IP"@
    } else if link_type == 113 {
        "Linux cooked capture"@
    } else if link_type == 227 {
        "SocketCAN"@
    } else {
        "unknown"@
    }
}

/// Name a link type, so an unsupported one is reported as something a person recognises.
pub fn LinkTypeName(u16LinkType: u16) -> (strName: &'static str)
    ensures
        strName@ == link_type_name(u16LinkType),
{
    match u16LinkType {
        0 => "BSD loopback",
        1 => "Ethernet",
        101 => "raw IP",
        113 => "Linux cooked capture",
        227 => "SocketCAN",
        _ => "unknown",
    }
}

/// A 32-bit field in a file's byte order.
pub open spec fn u32_at(data: Seq<u8>, at: int, little: bool) -> int {
    if little {
        le32_at(data, at)
    } else {
        be32_at(data, at)
    }
}

/// A 16-bit field in a file's byte order.
pub open spec fn u16_at(data: Seq<u8>, at: int, little: bool) -> int {
    if little {
        le16_at(data, at)
    } else {
        be16_at(data, at)
    }
}

/// Read a 32-bit field in the file's byte order.
pub(crate) fn ReadU32(arrBytes: &[u8], uOffset: usize, bIsLittleEndian: bool) -> (u32Value: u32)
    requires
        uOffset + 4 <= arrBytes@.len(),
    ensures
        u32Value == u32_at(arrBytes@, uOffset as int, bIsLittleEndian),
{
    if bIsLittleEndian {
        ReadLe32(arrBytes, uOffset)
    } else {
        ReadBe32(arrBytes, uOffset)
    }
}

/// Read a 16-bit field in the file's byte order.
pub(crate) fn ReadU16(arrBytes: &[u8], uOffset: usize, bIsLittleEndian: bool) -> (u16Value: u16)
    requires
        uOffset + 2 <= arrBytes@.len(),
    ensures
        u16Value == u16_at(arrBytes@, uOffset as int, bIsLittleEndian),
{
    if bIsLittleEndian {
        ReadLe16(arrBytes, uOffset)
    } else {
        ReadBe16(arrBytes, uOffset)
    }
}

/// The packets of a list with their positions filled in.
pub open spec fn indexed(packets: Seq<PacketView>) -> Seq<PacketView> {
    Seq::new(packets.len(), |i: int| PacketView { index: i, ..packets[i] })
}

/// What reading a capture comes to: its packets in file order, each with its position.
pub open spec fn capture(data: Seq<u8>) -> Result<Seq<PacketView>, PcapErrorView> {
    if data.len() >= 4 && is_pcapng(data) {
        match pcapng_capture(data) {
            Ok(packets) => Ok(indexed(packets)),
            Err(error) => Err(error),
        }
    } else if is_classic(data) {
        match classic_capture(data) {
            Ok(packets) => Ok(indexed(packets)),
            Err(error) => Err(error),
        }
    } else {
        Err(
            PcapErrorView::NotACapture {
                leading: hex_bytes(data.take(min_int(4, data.len() as int))),
            },
        )
    }
}

/// A reading's result as a mathematical value.
pub open spec fn result_view(result: Result<Vec<CapturedPacket>, PcapError>) -> Result<
    Seq<PacketView>,
    PcapErrorView,
> {
    match result {
        Ok(packets) => Ok(packet_views(packets@)),
        Err(error) => Err(error@),
    }
}

/// Read every TCP and UDP payload out of a capture, in file order.
///
/// Packets that are not Ethernet/IP/TCP-or-UDP are skipped rather than refused. What is refused
/// is a file whose link layer means none of it could ever be understood.
pub fn ReadCapture(arrBytes: &[u8]) -> (result: Result<Vec<CapturedPacket>, PcapError>)
    ensures
        result_view(result) == capture(arrBytes@),
{
    if arrBytes.len() < 4 {
        return Err(PcapError::NotACapture { strLeadingBytes: DescribeLeadingBytes(arrBytes) });
    }
    let vecPackets = if IsPcapNg(arrBytes) {
        match ReadPcapNg(arrBytes) {
            Ok(vecPackets) => vecPackets,
            Err(error) => {
                return Err(error);
            },
        }
    } else if IsClassicPcap(arrBytes) {
        match ReadClassicPcap(arrBytes) {
            Ok(vecPackets) => vecPackets,
            Err(error) => {
                return Err(error);
            },
        }
    } else {
        return Err(PcapError::NotACapture { strLeadingBytes: DescribeLeadingBytes(arrBytes) });
    };
    Ok(Number(vecPackets))
}

/// Fill in the positions of a list of packets.
fn Number(vecPackets: Vec<CapturedPacket>) -> (vecNumbered: Vec<CapturedPacket>)
    ensures
        packet_views(vecNumbered@) == indexed(packet_views(vecPackets@)),
{
    let mut vecNumbered = vecPackets;
    let ghost before = packet_views(vecPackets@);
    let mut uAt: usize = 0;
    while uAt < vecNumbered.len()
        invariant
            uAt <= vecNumbered@.len(),
            vecNumbered@.len() == before.len(),
            forall|i: int|
                0 <= i < uAt ==> (#[trigger] vecNumbered@[i])@ == (PacketView {
                    index: i,
                    ..before[i]
                }),
            forall|i: int| uAt <= i < before.len() ==> (#[trigger] vecNumbered@[i])@ == before[i],
        decreases vecNumbered@.len() - uAt,
    {
        vecNumbered[uAt].m_uCaptureIndex = uAt;
        uAt += 1;
    }
    assert(packet_views(vecNumbered@) =~= indexed(before));
    vecNumbered
}

/// The first few bytes in hexadecimal, so an unrecognised file can be identified from the
/// message.
fn DescribeLeadingBytes(arrBytes: &[u8]) -> (strText: String)
    ensures
        strText@ == hex_bytes(arrBytes@.take(min_int(4, arrBytes@.len() as int))),
{
    let uCount: usize = if arrBytes.len() < 4 {
        arrBytes.len()
    } else {
        4
    };
    let vecLeading = CopyRange(arrBytes, 0, uCount);
    assert(vecLeading@ =~= arrBytes@.take(min_int(4, arrBytes@.len() as int)));
    FormatHexBytes(vecLeading.as_slice())
}

} // verus!
