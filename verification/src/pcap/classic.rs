//! Classic pcap: a 24-byte file header, then a 16-byte record header before each packet.

use vstd::prelude::*;
use vstd::slice::slice_subrange;

use crate::bytes::be32_at;
use crate::bytes::ReadBe32;
use crate::pcap::ethernet::ethernet_packet;
use crate::pcap::ethernet::ReadEthernetFrame;
use crate::pcap::link_type_name;
use crate::pcap::packet_views;
use crate::pcap::result_view;
use crate::pcap::u32_at;
use crate::pcap::CaptureTime;
use crate::pcap::CapturedPacket;
use crate::pcap::LinkTypeName;
use crate::pcap::PacketView;
use crate::pcap::PcapError;
use crate::pcap::PcapErrorView;
use crate::pcap::ReadU32;

verus! {

const c_uFileHeaderLength: usize = 24;

const c_uRecordHeaderLength: usize = 16;

const c_u16LinkTypeEthernet: u16 = 1;

/// How the rest of a file must be read, by its magic.
#[derive(Debug, Clone, Copy, PartialEq, Eq, Structural)]
pub struct FileFormat {
    pub m_bIsLittleEndian: bool,
    /// How many of the sub-second field make a second: a million, or a billion.
    pub m_u32PerSecond: u32,
}

/// The format the first four bytes stand for: the four magics encode both byte order and
/// timestamp resolution.
pub open spec fn file_format(data: Seq<u8>) -> Option<FileFormat> {
    let magic = be32_at(data, 0);
    if data.len() < 4 {
        None
    } else if magic == 0xA1B2_C3D4 {
        Some(FileFormat { m_bIsLittleEndian: false, m_u32PerSecond: 1_000_000 })
    } else if magic == 0xD4C3_B2A1 {
        Some(FileFormat { m_bIsLittleEndian: true, m_u32PerSecond: 1_000_000 })
    } else if magic == 0xA1B2_3C4D {
        Some(FileFormat { m_bIsLittleEndian: false, m_u32PerSecond: 1_000_000_000 })
    } else if magic == 0x4D3C_B2A1 {
        Some(FileFormat { m_bIsLittleEndian: true, m_u32PerSecond: 1_000_000_000 })
    } else {
        None
    }
}

/// The bytes start with a classic pcap magic.
pub open spec fn is_classic(data: Seq<u8>) -> bool {
    file_format(data) is Some
}

/// When the record at an offset was captured.
pub open spec fn record_time(data: Seq<u8>, format: FileFormat, at: int) -> CaptureTime {
    CaptureTime::Split {
        u32Seconds: u32_at(data, at, format.m_bIsLittleEndian) as u32,
        u32SubSeconds: u32_at(data, at + 4, format.m_bIsLittleEndian) as u32,
        u32PerSecond: format.m_u32PerSecond,
    }
}

/// A packet in front of others, when there is one.
pub open spec fn with_packet(packet: Option<PacketView>, rest: Seq<PacketView>) -> Seq<PacketView> {
    match packet {
        Some(packet) => seq![packet] + rest,
        None => rest,
    }
}

/// The packets of the records from an offset on. A record that the file cuts short ends them.
pub open spec fn classic_packets(data: Seq<u8>, format: FileFormat, at: int) -> Seq<PacketView>
    decreases data.len() - at,
{
    let length = u32_at(data, at + 8, format.m_bIsLittleEndian);
    let start = at + 16;
    if start > data.len() || length < 0 || start + length > data.len() {
        seq![]
    } else {
        with_packet(
            ethernet_packet(data.subrange(start, start + length), record_time(data, format, at)),
            classic_packets(data, format, start + length),
        )
    }
}

/// What reading a classic pcap file comes to.
pub open spec fn classic_capture(data: Seq<u8>) -> Result<Seq<PacketView>, PcapErrorView> {
    if data.len() < 24 {
        Err(PcapErrorView::Truncated { place: "the 24-byte pcap file header"@ })
    } else {
        match file_format(data) {
            None => Err(PcapErrorView::NotACapture { leading: "not a pcap magic"@ }),
            Some(format) => {
                let link_type = (u32_at(data, 20, format.m_bIsLittleEndian) % 65536) as u16;
                if link_type != 1 {
                    Err(
                        PcapErrorView::UnsupportedLinkType {
                            link_type,
                            name: link_type_name(link_type),
                        },
                    )
                } else {
                    Ok(classic_packets(data, format, 24))
                }
            },
        }
    }
}

/// True when these bytes start with a classic pcap magic.
pub fn IsClassicPcap(arrBytes: &[u8]) -> (bIsClassic: bool)
    ensures
        bIsClassic == is_classic(arrBytes@),
{
    ReadFormat(arrBytes).is_some()
}

/// Read every packet from a classic pcap file.
///
/// A capture cut short in the middle of a packet is common, a tool killed while writing.
/// Everything read so far is still good, so it is returned.
pub fn ReadClassicPcap(arrBytes: &[u8]) -> (result: Result<Vec<CapturedPacket>, PcapError>)
    ensures
        result_view(result) == classic_capture(arrBytes@),
{
    if arrBytes.len() < c_uFileHeaderLength {
        return Err(
            PcapError::Truncated { strWhere: "the 24-byte pcap file header".to_string() },
        );
    }
    let format = match ReadFormat(arrBytes) {
        Some(format) => format,
        None => {
            return Err(PcapError::NotACapture { strLeadingBytes: "not a pcap magic".to_string() });
        },
    };
    // The link type is a whole-file property, so an unsupported one is decided once here rather
    // than silently producing nothing after reading every record.
    let u32LinkType: u32 = ReadU32(arrBytes, 20, format.m_bIsLittleEndian);
    let u16LinkType: u16 = (u32LinkType % 65536) as u16;
    if u16LinkType != c_u16LinkTypeEthernet {
        return Err(
            PcapError::UnsupportedLinkType { u16LinkType, strName: LinkTypeName(u16LinkType) },
        );
    }
    let mut vecPackets: Vec<CapturedPacket> = Vec::new();
    let mut uOffset: usize = c_uFileHeaderLength;
    let ghost all = classic_packets(arrBytes@, format, 24);
    assert(packet_views(vecPackets@) =~= seq![]);
    assert(seq![] + all =~= all);
    while arrBytes.len() - uOffset >= c_uRecordHeaderLength
        invariant_except_break
            packet_views(vecPackets@) + classic_packets(arrBytes@, format, uOffset as int) == all,
        invariant
            24 <= uOffset <= arrBytes@.len(),
        ensures
            packet_views(vecPackets@) == all,
        decreases arrBytes@.len() - uOffset,
    {
        let u32Seconds: u32 = ReadU32(arrBytes, uOffset, format.m_bIsLittleEndian);
        let u32SubSeconds: u32 = ReadU32(arrBytes, uOffset + 4, format.m_bIsLittleEndian);
        let u32CapturedLength: u32 = ReadU32(arrBytes, uOffset + 8, format.m_bIsLittleEndian);
        let uStart: usize = uOffset + c_uRecordHeaderLength;
        if u32CapturedLength as usize > arrBytes.len() - uStart {
            assert(packet_views(vecPackets@) =~= all);
            break;
        }
        let uEnd: usize = uStart + u32CapturedLength as usize;
        let time = CaptureTime::Split {
            u32Seconds,
            u32SubSeconds,
            u32PerSecond: format.m_u32PerSecond,
        };
        let ghost before = packet_views(vecPackets@);
        let ghost rest = classic_packets(arrBytes@, format, uEnd as int);
        match ReadEthernetFrame(slice_subrange(arrBytes, uStart, uEnd), time) {
            Ok(Some(packet)) => {
                let ghost shown = packet@;
                vecPackets.push(packet);
                assert(packet_views(vecPackets@) =~= before.push(shown));
                assert(before + (seq![shown] + rest) =~= before.push(shown) + rest);
            },
            Ok(None) => {},
            Err(error) => {
                return Err(error);
            },
        }
        uOffset = uEnd;
        proof {
            if arrBytes@.len() - uOffset < 16 {
                assert(packet_views(vecPackets@) =~= all);
            }
        }
    }
    Ok(vecPackets)
}

/// Decide byte order and timestamp resolution from the magic.
fn ReadFormat(arrBytes: &[u8]) -> (optFormat: Option<FileFormat>)
    ensures
        optFormat == file_format(arrBytes@),
{
    if arrBytes.len() < 4 {
        return None;
    }
    let u32Magic: u32 = ReadBe32(arrBytes, 0);
    if u32Magic == 0xA1B2_C3D4 {
        Some(FileFormat { m_bIsLittleEndian: false, m_u32PerSecond: 1_000_000 })
    } else if u32Magic == 0xD4C3_B2A1 {
        Some(FileFormat { m_bIsLittleEndian: true, m_u32PerSecond: 1_000_000 })
    } else if u32Magic == 0xA1B2_3C4D {
        Some(FileFormat { m_bIsLittleEndian: false, m_u32PerSecond: 1_000_000_000 })
    } else if u32Magic == 0x4D3C_B2A1 {
        Some(FileFormat { m_bIsLittleEndian: true, m_u32PerSecond: 1_000_000_000 })
    } else {
        None
    }
}

} // verus!
