//! pcapng: a stream of length-prefixed blocks, of which three matter here.
//!
//! Every block carries its own total length, so a block type this reader does not know is skipped
//! by that length rather than being a parse failure.

use vstd::prelude::*;
use vstd::slice::slice_subrange;

use crate::bytes::be32_at;
use crate::bytes::ReadBe32;
use crate::pcap::ethernet::ethernet_packet;
use crate::pcap::ethernet::option_view;
use crate::pcap::ethernet::ReadEthernetFrame;
use crate::pcap::link_type_name;
use crate::pcap::packet_views;
use crate::pcap::result_view;
use crate::pcap::u16_at;
use crate::pcap::u32_at;
use crate::pcap::CaptureTime;
use crate::pcap::CapturedPacket;
use crate::pcap::LinkTypeName;
use crate::pcap::PacketView;
use crate::pcap::PcapError;
use crate::pcap::PcapErrorView;
use crate::pcap::ReadU16;
use crate::pcap::ReadU32;
use crate::text::decimal;
use crate::text::TextWithNumbers;

verus! {

/// Section Header Block: starts a file, and declares the byte order for what follows.
const c_u32BlockSectionHeader: u32 = 0x0A0D_0D0A;

/// Interface Description Block: one per capture interface, carrying the link type.
const c_u32BlockInterfaceDescription: u32 = 0x0000_0001;

/// Enhanced Packet Block: a captured packet.
const c_u32BlockEnhancedPacket: u32 = 0x0000_0006;

/// The byte-order magic inside a section header, read big-endian.
const c_u32ByteOrderMagicBigEndian: u32 = 0x1A2B_3C4D;

const c_u16LinkTypeEthernet: u16 = 1;

/// The option code carrying an interface's timestamp resolution.
const c_u16OptionTimestampResolution: u16 = 9;

/// The resolution assumed when an interface does not say: microseconds.
const c_byDefaultTimestampResolution: u8 = 6;

/// One interface, as far as reading packets needs to know.
#[derive(Debug, Clone, Copy, PartialEq, Eq, Structural)]
pub struct Interface {
    pub m_u16LinkType: u16,
    /// The timestamp resolution its packets are stamped with.
    pub m_byResolution: u8,
}

/// The bytes start with a pcapng section header block.
pub open spec fn is_pcapng(data: Seq<u8>) -> bool {
    data.len() >= 4 && be32_at(data, 0) == 0x0A0D_0D0A
}

/// The timestamp resolution among the options from an offset on; microseconds when none says.
pub open spec fn resolution_from(body: Seq<u8>, little: bool, at: int) -> u8
    decreases body.len() - at,
{
    let code = u16_at(body, at, little);
    let length = u16_at(body, at + 2, little);
    if at + 4 > body.len() || code == 0 || length < 0 {
        6
    } else if code == 9 && length >= 1 && at + 4 < body.len() {
        body[at + 4]
    } else if at + 4 + (length + 3) / 4 * 4 > body.len() {
        6
    } else {
        resolution_from(body, little, at + 4 + (length + 3) / 4 * 4)
    }
}

/// The interface a description block's body stands for.
pub open spec fn interface_of(body: Seq<u8>, little: bool) -> Interface {
    Interface {
        m_u16LinkType: if body.len() >= 2 {
            u16_at(body, 0, little) as u16
        } else {
            1
        },
        m_byResolution: resolution_from(body, little, 8),
    }
}

/// The packet an enhanced packet block's body holds. A packet of a declared interface that is not
/// Ethernet is skipped; one of an undeclared interface is stamped in microseconds.
pub open spec fn enhanced_packet(
    body: Seq<u8>,
    little: bool,
    interfaces: Seq<Interface>,
) -> Option<PacketView> {
    let id = u32_at(body, 0, little);
    let ticks = u32_at(body, 4, little) * 0x1_0000_0000 + u32_at(body, 8, little);
    let length = u32_at(body, 12, little);
    if body.len() < 20 || body.len() < 20 + length {
        None
    } else if id < interfaces.len() && interfaces[id].m_u16LinkType != 1 {
        None
    } else {
        ethernet_packet(
            body.subrange(20, 20 + length),
            CaptureTime::Ticks {
                u64Ticks: ticks as u64,
                byResolution: if id < interfaces.len() {
                    interfaces[id].m_byResolution
                } else {
                    6
                },
            },
        )
    }
}

/// Packets with one more behind them, when there is one.
pub open spec fn and_packet(packets: Seq<PacketView>, packet: Option<PacketView>) -> Seq<PacketView> {
    match packet {
        Some(packet) => packets.push(packet),
        None => packets,
    }
}

/// Where a walk through a file stands: the byte order and interfaces of the section it is in, the
/// link type of every interface of the file so far, and the packets found so far.
#[verifier::ext_equal]
pub ghost struct WalkState {
    pub little: bool,
    pub interfaces: Seq<Interface>,
    pub link_types: Seq<u16>,
    pub packets: Seq<PacketView>,
}

/// Where a walk begins.
pub open spec fn walk_start() -> WalkState {
    WalkState { little: true, interfaces: seq![], link_types: seq![], packets: seq![] }
}

/// The state with which the block at an offset is read: a section header starts a section, with
/// its own byte order and no interfaces.
pub open spec fn entered(data: Seq<u8>, at: int, state: WalkState) -> WalkState {
    if be32_at(data, at) == 0x0A0D_0D0A {
        WalkState {
            little: be32_at(data, at + 8) != 0x1A2B_3C4D,
            interfaces: seq![],
            ..state
        }
    } else {
        state
    }
}

/// The state after a block of a type with a body.
pub open spec fn after_block(state: WalkState, kind: int, body: Seq<u8>) -> WalkState {
    if kind == 1 {
        WalkState {
            interfaces: state.interfaces.push(interface_of(body, state.little)),
            link_types: state.link_types.push(interface_of(body, state.little).m_u16LinkType),
            ..state
        }
    } else if kind == 6 {
        WalkState {
            packets: and_packet(
                state.packets,
                enhanced_packet(body, state.little, state.interfaces),
            ),
            ..state
        }
    } else {
        state
    }
}

/// What the blocks from an offset on come to. A block that the file cuts short ends the walk; one
/// that declares less than its own frame is refused.
pub open spec fn walked(data: Seq<u8>, at: int, state: WalkState) -> Result<
    WalkState,
    PcapErrorView,
>
    decreases data.len() - at,
{
    if at + 12 > data.len() {
        Ok(state)
    } else {
        let here = entered(data, at, state);
        let kind = u32_at(data, at, here.little);
        let length = u32_at(data, at + 4, here.little);
        if length < 12 {
            Err(
                PcapErrorView::Malformed {
                    reason: "a pcapng block at offset "@ + decimal(at as nat) + " declares "@
                        + decimal(length as nat) + " bytes"@,
                },
            )
        } else if at + length > data.len() {
            Ok(here)
        } else {
            walked(
                data,
                at + length,
                after_block(here, kind, data.subrange(at + 8, at + length - 4)),
            )
        }
    }
}

/// The link type for which a file is refused: it declares interfaces, and none of them is an
/// Ethernet one in any section. The first interface of the last section is named. Where that
/// section declares none, a file of which packets were read is not refused, and one of which
/// nothing was read is refused for its first interface.
pub open spec fn refused_link_type(state: WalkState) -> Option<u16> {
    if state.link_types.contains(1) {
        None
    } else if state.interfaces.len() > 0 {
        Some(state.interfaces[0].m_u16LinkType)
    } else if state.link_types.len() > 0 && state.packets.len() == 0 {
        Some(state.link_types[0])
    } else {
        None
    }
}

/// What reading a pcapng file comes to.
pub open spec fn pcapng_capture(data: Seq<u8>) -> Result<Seq<PacketView>, PcapErrorView> {
    match walked(data, 0, walk_start()) {
        Err(error) => Err(error),
        Ok(state) => match refused_link_type(state) {
            Some(link_type) => Err(
                PcapErrorView::UnsupportedLinkType { link_type, name: link_type_name(link_type) },
            ),
            None => Ok(state.packets),
        },
    }
}

/// True when these bytes start with a pcapng section header block.
pub fn IsPcapNg(arrBytes: &[u8]) -> (bIsPcapNg: bool)
    ensures
        bIsPcapNg == is_pcapng(arrBytes@),
{
    arrBytes.len() >= 4 && ReadBe32(arrBytes, 0) == c_u32BlockSectionHeader
}

/// Read every packet from a pcapng file.
pub fn ReadPcapNg(arrBytes: &[u8]) -> (result: Result<Vec<CapturedPacket>, PcapError>)
    ensures
        result_view(result) == pcapng_capture(arrBytes@),
{
    let mut vecPackets: Vec<CapturedPacket> = Vec::new();
    let mut vecInterfaces: Vec<Interface> = Vec::new();
    let mut vecLinkTypes: Vec<u16> = Vec::new();
    let mut bIsLittleEndian: bool = true;
    let mut uOffset: usize = 0;
    let ghost end = walked(arrBytes@, 0, walk_start());
    assert(packet_views(vecPackets@) =~= seq![]);
    assert(vecInterfaces@ =~= seq![]);
    assert(vecLinkTypes@ =~= seq![]);
    while arrBytes.len() - uOffset >= 12
        invariant_except_break
            walked(
                arrBytes@,
                uOffset as int,
                WalkState {
                    little: bIsLittleEndian,
                    interfaces: vecInterfaces@,
                    link_types: vecLinkTypes@,
                    packets: packet_views(vecPackets@),
                },
            ) == end,
        invariant
            uOffset <= arrBytes@.len(),
            end == walked(arrBytes@, 0, walk_start()),
        ensures
            end == Ok::<WalkState, PcapErrorView>(
                WalkState {
                    little: bIsLittleEndian,
                    interfaces: vecInterfaces@,
                    link_types: vecLinkTypes@,
                    packets: packet_views(vecPackets@),
                },
            ),
        decreases arrBytes@.len() - uOffset,
    {
        let ghost state = WalkState {
            little: bIsLittleEndian,
            interfaces: vecInterfaces@,
            link_types: vecLinkTypes@,
            packets: packet_views(vecPackets@),
        };
        // A block's type is written in the section's byte order, but the section header's own
        // type reads the same in both, so it can always be spotted first. A new section starts a
        // new interface table.
        if ReadBe32(arrBytes, uOffset) == c_u32BlockSectionHeader {
            bIsLittleEndian = ReadBe32(arrBytes, uOffset + 8) != c_u32ByteOrderMagicBigEndian;
            vecInterfaces = Vec::new();
            assert(vecInterfaces@ =~= seq![]);
        }
        let ghost here = entered(arrBytes@, uOffset as int, state);
        assert(here =~= WalkState {
            little: bIsLittleEndian,
            interfaces: vecInterfaces@,
            link_types: vecLinkTypes@,
            packets: packet_views(vecPackets@),
        });
        let u32BlockType: u32 = ReadU32(arrBytes, uOffset, bIsLittleEndian);
        let u32BlockLength: u32 = ReadU32(arrBytes, uOffset + 4, bIsLittleEndian);
        // A block is at least a type, a length and a trailing length.
        if u32BlockLength < 12 {
            return Err(
                PcapError::Malformed {
                    strReason: TextWithNumbers(
                        "a pcapng block at offset ",
                        uOffset as u64,
                        " declares ",
                        u32BlockLength as u64,
                        " bytes",
                    ),
                },
            );
        }
        if u32BlockLength as usize > arrBytes.len() - uOffset {
            break;
        }
        let uBlockEnd: usize = uOffset + u32BlockLength as usize;
        let arrBody = slice_subrange(arrBytes, uOffset + 8, uBlockEnd - 4);
        if u32BlockType == c_u32BlockInterfaceDescription {
            let interface = ReadInterface(arrBody, bIsLittleEndian);
            vecInterfaces.push(interface);
            vecLinkTypes.push(interface.m_u16LinkType);
        } else if u32BlockType == c_u32BlockEnhancedPacket {
            let ghost before = vecPackets@;
            match ReadEnhancedPacket(arrBody, bIsLittleEndian, &vecInterfaces) {
                Ok(Some(packet)) => {
                    vecPackets.push(packet);
                    assert(packet_views(vecPackets@) =~= packet_views(before).push(packet@));
                },
                Ok(None) => {},
                Err(error) => {
                    return Err(error);
                },
            }
        }
        assert(after_block(here, u32BlockType as int, arrBody@) =~= WalkState {
            little: bIsLittleEndian,
            interfaces: vecInterfaces@,
            link_types: vecLinkTypes@,
            packets: packet_views(vecPackets@),
        });
        uOffset = uBlockEnd;
    }
    // An Ethernet interface is required somewhere, or nothing in the file could ever be read.
    // Deciding it after the walk, over every section, keeps a mixed-interface capture usable.
    let optU16LinkType: Option<u16> = if HasEthernet(&vecLinkTypes) {
        None
    } else if vecInterfaces.len() > 0 {
        Some(vecInterfaces[0].m_u16LinkType)
    } else if vecLinkTypes.len() > 0 && vecPackets.len() == 0 {
        Some(vecLinkTypes[0])
    } else {
        None
    };
    match optU16LinkType {
        Some(u16LinkType) => Err(
            PcapError::UnsupportedLinkType { u16LinkType, strName: LinkTypeName(u16LinkType) },
        ),
        None => Ok(vecPackets),
    }
}

/// Whether some link type is Ethernet.
fn HasEthernet(vecLinkTypes: &Vec<u16>) -> (bHasEthernet: bool)
    ensures
        bHasEthernet == vecLinkTypes@.contains(1),
{
    let mut uAt: usize = 0;
    while uAt < vecLinkTypes.len()
        invariant
            uAt <= vecLinkTypes@.len(),
            forall|i: int| 0 <= i < uAt ==> vecLinkTypes@[i] != 1,
        decreases vecLinkTypes@.len() - uAt,
    {
        if vecLinkTypes[uAt] == c_u16LinkTypeEthernet {
            return true;
        }
        uAt += 1;
    }
    false
}

/// Read an interface description: its link type and timestamp resolution.
fn ReadInterface(arrBody: &[u8], bIsLittleEndian: bool) -> (interface: Interface)
    ensures
        interface == interface_of(arrBody@, bIsLittleEndian),
{
    let u16LinkType: u16 = if arrBody.len() >= 2 {
        ReadU16(arrBody, 0, bIsLittleEndian)
    } else {
        c_u16LinkTypeEthernet
    };
    Interface {
        m_u16LinkType: u16LinkType,
        m_byResolution: ReadTimestampResolution(arrBody, bIsLittleEndian),
    }
}

/// Find the timestamp resolution option, or the default the format specifies.
fn ReadTimestampResolution(arrBody: &[u8], bIsLittleEndian: bool) -> (byResolution: u8)
    ensures
        byResolution == resolution_from(arrBody@, bIsLittleEndian, 8),
{
    if arrBody.len() < 8 {
        return c_byDefaultTimestampResolution;
    }
    // Options follow the fixed 8-byte interface body: link type, reserved, snap length.
    let mut uOffset: usize = 8;
    while arrBody.len() - uOffset >= 4
        invariant
            8 <= uOffset <= arrBody@.len(),
            resolution_from(arrBody@, bIsLittleEndian, uOffset as int) == resolution_from(
                arrBody@,
                bIsLittleEndian,
                8,
            ),
        decreases arrBody@.len() - uOffset,
    {
        let u16Code: u16 = ReadU16(arrBody, uOffset, bIsLittleEndian);
        let uLength: usize = ReadU16(arrBody, uOffset + 2, bIsLittleEndian) as usize;
        if u16Code == 0 {
            return c_byDefaultTimestampResolution;
        }
        if u16Code == c_u16OptionTimestampResolution && uLength >= 1 && arrBody.len() - uOffset
            > 4 {
            return arrBody[uOffset + 4];
        }
        // Option values are padded to a multiple of four.
        let uStep: usize = 4 + (uLength + 3) / 4 * 4;
        if uStep > arrBody.len() - uOffset {
            return c_byDefaultTimestampResolution;
        }
        uOffset += uStep;
    }
    c_byDefaultTimestampResolution
}

/// Read one enhanced packet block's body.
fn ReadEnhancedPacket(
    arrBody: &[u8],
    bIsLittleEndian: bool,
    vecInterfaces: &Vec<Interface>,
) -> (result: Result<Option<CapturedPacket>, PcapError>)
    ensures
        result matches Ok(optPacket) && option_view(optPacket) == enhanced_packet(
            arrBody@,
            bIsLittleEndian,
            vecInterfaces@,
        ),
{
    if arrBody.len() < 20 {
        return Ok(None);
    }
    let u32InterfaceId: u32 = ReadU32(arrBody, 0, bIsLittleEndian);
    let u32TimestampHigh: u32 = ReadU32(arrBody, 4, bIsLittleEndian);
    let u32TimestampLow: u32 = ReadU32(arrBody, 8, bIsLittleEndian);
    let uCapturedLength: usize = ReadU32(arrBody, 12, bIsLittleEndian) as usize;
    if arrBody.len() - 20 < uCapturedLength {
        return Ok(None);
    }
    let uInterface: usize = u32InterfaceId as usize;
    let byResolution: u8 = if uInterface < vecInterfaces.len() {
        if vecInterfaces[uInterface].m_u16LinkType != c_u16LinkTypeEthernet {
            return Ok(None);
        }
        vecInterfaces[uInterface].m_byResolution
    } else {
        c_byDefaultTimestampResolution
    };
    let u64Ticks: u64 = u32TimestampHigh as u64 * 0x1_0000_0000 + u32TimestampLow as u64;
    ReadEthernetFrame(
        slice_subrange(arrBody, 20, 20 + uCapturedLength),
        CaptureTime::Ticks { u64Ticks, byResolution },
    )
}

} // verus!
