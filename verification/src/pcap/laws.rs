//! What holds of capture reading as a whole.

use vstd::prelude::*;

use crate::bytes::be16_at;
use crate::bytes::be32;
use crate::bytes::be32_at;
use crate::bytes::le32_at;
use crate::pcap::capture;
use crate::pcap::classic::classic_capture;
use crate::pcap::classic::classic_packets;
use crate::pcap::classic::file_format;
use crate::pcap::classic::record_time;
use crate::pcap::classic::with_packet;
use crate::pcap::classic::FileFormat;
use crate::pcap::ethernet::ethernet_packet;
use crate::pcap::ethernet::ipv4_header_length;
use crate::pcap::ethernet::network_header;
use crate::pcap::pcapng::after_block;
use crate::pcap::pcapng::and_packet;
use crate::pcap::pcapng::enhanced_packet;
use crate::pcap::pcapng::entered;
use crate::pcap::pcapng::interface_of;
use crate::pcap::pcapng::pcapng_capture;
use crate::pcap::pcapng::resolution_from;
use crate::pcap::pcapng::walk_start;
use crate::pcap::pcapng::walked;
use crate::pcap::pcapng::WalkState;
use crate::pcap::u16_at;
use crate::pcap::u32_at;
use crate::pcap::CaptureTime;
use crate::pcap::PacketView;
use crate::pcap::PcapErrorView;

verus! {

/// The four bytes of a number below 2^32 in a byte order.
#[verifier::opaque]
pub open spec fn pack32(n: int, little: bool) -> Seq<u8> {
    if little {
        seq![
            (n % 256) as u8,
            (n / 256 % 256) as u8,
            (n / 65536 % 256) as u8,
            (n / 16777216) as u8,
        ]
    } else {
        be32(n)
    }
}

broadcast proof fn lemma_pack32_length(n: int, little: bool)
    ensures
        (#[trigger] pack32(n, little)).len() == 4,
{
    reveal(pack32);
}

proof fn lemma_pack32_reads_back(data: Seq<u8>, at: int, n: int, little: bool)
    requires
        0 <= n < 0x1_0000_0000,
        0 <= at,
        at + 4 <= data.len(),
        data.subrange(at, at + 4) == pack32(n, little),
    ensures
        u32_at(data, at, little) == n,
{
    reveal(pack32);
    let s = data.subrange(at, at + 4);
    assert(s[0] == data[at] && s[1] == data[at + 1] && s[2] == data[at + 2] && s[3] == data[at + 3]);
    let a = n / 16777216;
    let b = n / 65536 % 256;
    let c = n / 256 % 256;
    let d = n % 256;
    assert(a * 16777216 + b * 65536 + c * 256 + d == n);
}

/// One record of a classic pcap file: when it was captured, how long the packet was on the wire,
/// and the bytes that were captured.
pub ghost struct Record {
    pub seconds: u32,
    pub sub_seconds: u32,
    pub wire_length: u32,
    pub frame: Seq<u8>,
}

/// A record as it stands in a file.
pub open spec fn record_bytes(record: Record, little: bool) -> Seq<u8> {
    pack32(record.seconds as int, little) + pack32(record.sub_seconds as int, little) + pack32(
        record.frame.len() as int,
        little,
    ) + pack32(record.wire_length as int, little) + record.frame
}

/// Records one after the other.
pub open spec fn records_bytes(records: Seq<Record>, little: bool) -> Seq<u8>
    decreases records.len(),
{
    if records.len() == 0 {
        seq![]
    } else {
        record_bytes(records[0], little) + records_bytes(records.drop_first(), little)
    }
}

/// A classic pcap file of Ethernet records. Between the magic and the link type stand sixteen
/// bytes that reading does not look at.
pub open spec fn classic_file(
    records: Seq<Record>,
    format: FileFormat,
    unread: Seq<u8>,
) -> Seq<u8> {
    pack32(
        if format.m_u32PerSecond == 1_000_000 {
            0xA1B2_C3D4
        } else {
            0xA1B2_3C4D
        },
        format.m_bIsLittleEndian,
    ) + unread + pack32(1, format.m_bIsLittleEndian) + records_bytes(
        records,
        format.m_bIsLittleEndian,
    )
}

/// The packets of records, which do not depend on the byte order they are written in.
pub open spec fn record_packets(records: Seq<Record>, per_second: u32) -> Seq<PacketView>
    decreases records.len(),
{
    if records.len() == 0 {
        seq![]
    } else {
        with_packet(
            ethernet_packet(
                records[0].frame,
                CaptureTime::Split {
                    u32Seconds: records[0].seconds,
                    u32SubSeconds: records[0].sub_seconds,
                    u32PerSecond: per_second,
                },
            ),
            record_packets(records.drop_first(), per_second),
        )
    }
}

#[verifier::spinoff_prover]
#[verifier::rlimit(40)]
proof fn lemma_records_read_back(prefix: Seq<u8>, records: Seq<Record>, format: FileFormat)
    requires
        forall|i: int|
            0 <= i < records.len() ==> (#[trigger] records[i]).frame.len() < 0x1_0000_0000,
    ensures
        classic_packets(
            prefix + records_bytes(records, format.m_bIsLittleEndian),
            format,
            prefix.len() as int,
        ) == record_packets(records, format.m_u32PerSecond),
    decreases records.len(),
{
    broadcast use lemma_pack32_length;

    let little = format.m_bIsLittleEndian;
    let data = prefix + records_bytes(records, little);
    let at = prefix.len() as int;
    if records.len() > 0 {
        let first = records[0];
        let rest = records.drop_first();
        let head = record_bytes(first, little);
        assert(data =~= (prefix + head) + records_bytes(rest, little));
        assert forall|i: int| 0 <= i < rest.len() implies (#[trigger] rest[i]).frame.len()
            < 0x1_0000_0000 by {
            assert(rest[i] == records[i + 1]);
        }
        lemma_records_read_back(prefix + head, rest, format);
        assert(data.subrange(at, at + 4) =~= pack32(first.seconds as int, little));
        assert(data.subrange(at + 4, at + 8) =~= pack32(first.sub_seconds as int, little));
        assert(data.subrange(at + 8, at + 12) =~= pack32(first.frame.len() as int, little));
        lemma_pack32_reads_back(data, at, first.seconds as int, little);
        lemma_pack32_reads_back(data, at + 4, first.sub_seconds as int, little);
        lemma_pack32_reads_back(data, at + 8, first.frame.len() as int, little);
        assert(data.subrange(at + 16, at + 16 + first.frame.len()) =~= first.frame);
    }
}

/// A classic capture reads back what was written into it, in either byte order and at either
/// timestamp resolution: a file written on a big-endian machine reads the same as one written on
/// a little-endian one.
#[verifier::spinoff_prover]
#[verifier::rlimit(40)]
pub proof fn law_classic_file_reads_back(
    records: Seq<Record>,
    format: FileFormat,
    unread: Seq<u8>,
)
    requires
        unread.len() == 16,
        format.m_u32PerSecond == 1_000_000 || format.m_u32PerSecond == 1_000_000_000,
        forall|i: int|
            0 <= i < records.len() ==> (#[trigger] records[i]).frame.len() < 0x1_0000_0000,
    ensures
        file_format(classic_file(records, format, unread)) == Some(format),
        classic_capture(classic_file(records, format, unread)) == Ok::<
            Seq<PacketView>,
            PcapErrorView,
        >(record_packets(records, format.m_u32PerSecond)),
{
    broadcast use lemma_pack32_length;

    let little = format.m_bIsLittleEndian;
    let magic: int = if format.m_u32PerSecond == 1_000_000 {
        0xA1B2_C3D4
    } else {
        0xA1B2_3C4D
    };
    let header = pack32(magic, little) + unread + pack32(1, little);
    let data = classic_file(records, format, unread);
    assert(data =~= header + records_bytes(records, little));
    let m = pack32(magic, little);
    assert(data[0] == m[0] && data[1] == m[1] && data[2] == m[2] && data[3] == m[3]);
    assert(file_format(data) == Some(format)) by {
        reveal(pack32);
    }
    assert(data.subrange(20, 24) =~= pack32(1, little));
    lemma_pack32_reads_back(data, 20, 1, little);
    lemma_records_read_back(header, records, format);
}

/// A capture that was cut short keeps everything before the cut: what its readable part gives is
/// a beginning of what the whole file gives.
pub proof fn law_truncated_capture_keeps_what_was_read(
    data: Seq<u8>,
    format: FileFormat,
    at: int,
    kept: int,
)
    requires
        0 <= at,
        0 <= kept <= data.len(),
    ensures
        classic_packets(data.take(kept), format, at).is_prefix_of(
            classic_packets(data, format, at),
        ),
    decreases data.len() - at,
{
    let cut = data.take(kept);
    let whole = classic_packets(data, format, at);
    let length = u32_at(cut, at + 8, format.m_bIsLittleEndian);
    let start = at + 16;
    if start > cut.len() || length < 0 || start + length > cut.len() {
        assert(classic_packets(cut, format, at).is_prefix_of(whole));
    } else {
        assert(cut[at + 8] == data[at + 8] && cut[at + 9] == data[at + 9] && cut[at + 10]
            == data[at + 10] && cut[at + 11] == data[at + 11]);
        assert(length == u32_at(data, at + 8, format.m_bIsLittleEndian));
        assert(cut.subrange(start, start + length) =~= data.subrange(start, start + length));
        law_truncated_capture_keeps_what_was_read(data, format, start + length, kept);
        let rest_cut = classic_packets(cut, format, start + length);
        let rest = classic_packets(data, format, start + length);
        let packet = ethernet_packet(
            data.subrange(start, start + length),
            record_time(data, format, at),
        );
        assert(record_time(cut, format, at)
            == record_time(data, format, at)) by {
            assert(cut[at] == data[at] && cut[at + 1] == data[at + 1] && cut[at + 2] == data[at + 2]
                && cut[at + 3] == data[at + 3]);
            assert(cut[at + 4] == data[at + 4] && cut[at + 5] == data[at + 5] && cut[at + 6]
                == data[at + 6] && cut[at + 7] == data[at + 7]);
        }
        assert(rest_cut =~= rest.subrange(0, rest_cut.len() as int));
        let a = with_packet(packet, rest_cut);
        let b = with_packet(packet, rest);
        assert(a =~= b.subrange(0, a.len() as int));
    }
}

/// Where the network header of a frame starts does not depend on what follows the frame's own
/// bytes.
proof fn lemma_network_header_ignores_padding(frame: Seq<u8>, padding: Seq<u8>, at: int)
    requires
        0 <= at,
        at + 2 <= frame.len(),
        network_header(frame, at) is Some,
    ensures
        network_header(frame + padding, at) == network_header(frame, at),
        (network_header(frame, at)->0).1 <= frame.len(),
        (network_header(frame, at)->0).1 >= at + 2,
    decreases frame.len() - at,
{
    let padded = frame + padding;
    assert(padded[at] == frame[at] && padded[at + 1] == frame[at + 1]);
    let kind = be16_at(frame, at);
    if kind == 0x8100 || kind == 0x88A8 {
        lemma_network_header_ignores_padding(frame, padding, at + 4);
    }
}

/// Ethernet padding is not mistaken for payload: bytes behind an IPv4 datagram that its total
/// length field does not cover change nothing.
pub proof fn law_padding_is_not_payload(
    frame: Seq<u8>,
    padding: Seq<u8>,
    at: int,
    time: CaptureTime,
)
    requires
        frame.len() >= 14,
        network_header(frame, 12) == Some((0x0800int, at)),
        frame.len() >= at + 20,
        20 <= ipv4_header_length(frame.skip(at)) <= be16_at(frame.skip(at), 2),
        be16_at(frame.skip(at), 2) <= frame.len() - at,
    ensures
        ethernet_packet(frame + padding, time) == ethernet_packet(frame, time),
{
    let padded = frame + padding;
    lemma_network_header_ignores_padding(frame, padding, 12);
    let whole = padded.skip(at);
    let datagram = frame.skip(at);
    assert forall|i: int| 0 <= i < datagram.len() implies whole[i] == datagram[i] by {}
    let header = ipv4_header_length(datagram);
    let total = be16_at(datagram, 2);
    assert(whole.subrange(header, total) =~= datagram.subrange(header, total));
    assert(whole.subrange(12, 16) =~= datagram.subrange(12, 16));
    assert(whole.subrange(16, 20) =~= datagram.subrange(16, 20));
}

/// Moving the part of a frame from an offset on moves its network header along.
proof fn lemma_network_header_moves(a: Seq<u8>, b: Seq<u8>, at: int, by: int)
    requires
        0 <= at,
        0 <= by,
        at + 2 <= a.len(),
        b.len() == a.len() + by,
        forall|i: int| at <= i < a.len() ==> a[i] == #[trigger] b[i + by],
    ensures
        network_header(b, at + by) == (match network_header(a, at) {
            Some((kind, start)) => Some((kind, start + by)),
            None => None,
        }),
        network_header(a, at) matches Some((_, start)) ==> at + 2 <= start <= a.len(),
    decreases a.len() - at,
{
    assert(a[at] == b[at + by] && a[at + 1] == b[at + 1 + by]);
    let kind = be16_at(a, at);
    assert(kind == be16_at(b, at + by));
    if (kind == 0x8100 || kind == 0x88A8) && a.len() >= at + 6 {
        lemma_network_header_moves(a, b, at + 4, by);
        assert(at + 4 + by == at + by + 4);
    }
}

/// A VLAN tag is looked under: a frame with a tag spliced in behind its addresses reads as the
/// frame without it.
pub proof fn law_vlan_tag_is_transparent(
    frame: Seq<u8>,
    tag: Seq<u8>,
    time: CaptureTime,
)
    requires
        frame.len() >= 14,
        tag.len() == 4,
        be16_at(tag, 0) == 0x8100 || be16_at(tag, 0) == 0x88A8,
    ensures
        ethernet_packet(frame.take(12) + tag + frame.skip(12), time) == ethernet_packet(
            frame,
            time,
        ),
{
    let tagged = frame.take(12) + tag + frame.skip(12);
    assert(tagged[12] == tag[0] && tagged[13] == tag[1]);
    assert forall|i: int| 12 <= i < frame.len() implies frame[i] == #[trigger] tagged[i + 4] by {}
    lemma_network_header_moves(frame, tagged, 12, 4);
    assert(network_header(tagged, 12) == network_header(tagged, 16));
    if let Some((kind, at)) = network_header(frame, 12) {
        assert(tagged.skip(at + 4) =~= frame.skip(at)) by {
            assert forall|i: int| 0 <= i < frame.len() - at implies tagged.skip(at + 4)[i]
                == frame.skip(at)[i] by {
                assert(frame[at + i] == tagged[at + i + 4]);
            }
        }
    }
}

/// Packets come out numbered by their place in the file.
pub proof fn law_packets_are_numbered_in_file_order(data: Seq<u8>, i: int)
    ensures
        capture(data) matches Ok(packets) ==> (0 <= i < packets.len() ==> packets[i].index == i),
{
}

/// One block of a pcapng file.
pub ghost struct Block {
    pub kind: int,
    pub body: Seq<u8>,
}

/// A block as it stands in a file: type, total length, body, total length again.
pub open spec fn block_bytes(block: Block, little: bool) -> Seq<u8> {
    pack32(block.kind, little) + pack32(block.body.len() as int + 12, little) + block.body + pack32(
        block.body.len() as int + 12,
        little,
    )
}

/// Blocks one after the other.
pub open spec fn blocks_bytes(blocks: Seq<Block>, little: bool) -> Seq<u8>
    decreases blocks.len(),
{
    if blocks.len() == 0 {
        seq![]
    } else {
        block_bytes(blocks[0], little) + blocks_bytes(blocks.drop_first(), little)
    }
}

/// The state after a sequence of blocks.
pub open spec fn after_blocks(state: WalkState, blocks: Seq<Block>) -> WalkState
    decreases blocks.len(),
{
    if blocks.len() == 0 {
        state
    } else {
        after_blocks(after_block(state, blocks[0].kind, blocks[0].body), blocks.drop_first())
    }
}

/// A block that belongs inside a section and whose length fits its length field.
pub open spec fn is_inner_block(block: Block) -> bool {
    &&& 0 <= block.kind < 0x1_0000_0000
    &&& block.kind != 0x0A0D_0D0A
    &&& block.body.len() + 12 < 0x1_0000_0000
}

/// Only the section header's type reads as the section header's in either byte order.
proof fn lemma_section_type_is_symmetric(data: Seq<u8>, at: int, little: bool)
    requires
        0 <= at,
        at + 4 <= data.len(),
    ensures
        be32_at(data, at) == 0x0A0D_0D0A <==> u32_at(data, at, little) == 0x0A0D_0D0A,
{
    let a = data[at] as int;
    let b = data[at + 1] as int;
    let c = data[at + 2] as int;
    let d = data[at + 3] as int;
    if le32_at(data, at) == 0x0A0D_0D0A {
        assert(d == 0x0A && c == 0x0D && b == 0x0D && a == 0x0A);
    }
    if be32_at(data, at) == 0x0A0D_0D0A {
        assert(a == 0x0A && b == 0x0D && c == 0x0D && d == 0x0A);
    }
}

/// Every block is read by its own length, in the byte order of its section, whatever its type:
/// the blocks of a section are taken one after the other up to the end of the file.
#[verifier::spinoff_prover]
#[verifier::rlimit(40)]
pub proof fn law_blocks_are_walked_in_order(
    prefix: Seq<u8>,
    blocks: Seq<Block>,
    state: WalkState,
)
    requires
        forall|i: int| 0 <= i < blocks.len() ==> is_inner_block(#[trigger] blocks[i]),
    ensures
        walked(prefix + blocks_bytes(blocks, state.little), prefix.len() as int, state) == Ok::<
            WalkState,
            PcapErrorView,
        >(after_blocks(state, blocks)),
        after_blocks(state, blocks).little == state.little,
    decreases blocks.len(),
{
    broadcast use lemma_pack32_length;

    let little = state.little;
    let data = prefix + blocks_bytes(blocks, little);
    let at = prefix.len() as int;
    if blocks.len() > 0 {
        let first = blocks[0];
        let rest = blocks.drop_first();
        let head = block_bytes(first, little);
        let length = first.body.len() as int + 12;
        let next = after_block(state, first.kind, first.body);
        assert(is_inner_block(first));
        assert(data =~= (prefix + head) + blocks_bytes(rest, little));
        assert forall|i: int| 0 <= i < rest.len() implies is_inner_block(#[trigger] rest[i]) by {
            assert(rest[i] == blocks[i + 1]);
        }
        assert(data.subrange(at, at + 4) =~= pack32(first.kind, little));
        assert(data.subrange(at + 4, at + 8) =~= pack32(length, little));
        lemma_pack32_reads_back(data, at, first.kind, little);
        lemma_pack32_reads_back(data, at + 4, length, little);
        lemma_section_type_is_symmetric(data, at, little);
        assert(data.subrange(at + 8, at + length - 4) =~= first.body);
        law_blocks_are_walked_in_order(prefix + head, rest, next);
        assert((prefix + head).len() == at + length);
    }
}

/// A pcapng file of one section: its header, whose body starts with the byte order magic, and
/// then its blocks.
pub open spec fn pcapng_file(blocks: Seq<Block>, little: bool, unread: Seq<u8>) -> Seq<u8> {
    block_bytes(
        Block { kind: 0x0A0D_0D0A, body: pack32(0x1A2B_3C4D, little) + unread },
        little,
    ) + blocks_bytes(blocks, little)
}

/// The body of a description of an Ethernet interface without options.
pub open spec fn ethernet_interface(little: bool) -> Block {
    Block {
        kind: 1,
        body: (if little {
            seq![1u8, 0u8]
        } else {
            seq![0u8, 1u8]
        }) + seq![0u8, 0u8, 0u8, 0u8, 0u8, 0u8],
    }
}

/// A packet of the first interface: when it was captured, in ticks, how long it was on the wire,
/// the bytes that were captured, and the padding behind them.
pub ghost struct NgPacket {
    pub ticks: u64,
    pub wire_length: u32,
    pub frame: Seq<u8>,
    pub padding: Seq<u8>,
}

/// A packet's block.
pub open spec fn packet_block(packet: NgPacket, little: bool) -> Block {
    Block {
        kind: 6,
        body: pack32(0, little) + pack32(packet.ticks as int / 0x1_0000_0000, little) + pack32(
            packet.ticks as int % 0x1_0000_0000,
            little,
        ) + pack32(packet.frame.len() as int, little) + pack32(packet.wire_length as int, little)
            + packet.frame + packet.padding,
    }
}

/// The blocks of packets.
pub open spec fn packet_blocks(packets: Seq<NgPacket>, little: bool) -> Seq<Block> {
    Seq::new(packets.len(), |i: int| packet_block(packets[i], little))
}

/// The packets, which do not depend on the byte order they are written in.
pub open spec fn ng_packets(found: Seq<PacketView>, packets: Seq<NgPacket>) -> Seq<PacketView>
    decreases packets.len(),
{
    if packets.len() == 0 {
        found
    } else {
        ng_packets(
            and_packet(
                found,
                ethernet_packet(
                    packets[0].frame,
                    CaptureTime::Ticks { u64Ticks: packets[0].ticks, byResolution: 6 },
                ),
            ),
            packets.drop_first(),
        )
    }
}

/// The packet's block fits its length field.
pub open spec fn fits_block(packet: NgPacket) -> bool {
    packet.frame.len() + packet.padding.len() + 32 < 0x1_0000_0000
}

#[verifier::spinoff_prover]
#[verifier::rlimit(40)]
proof fn lemma_packet_block(packet: NgPacket, state: WalkState)
    requires
        fits_block(packet),
        state.interfaces.len() == 1,
        state.interfaces[0].m_u16LinkType == 1,
        state.interfaces[0].m_byResolution == 6,
    ensures
        enhanced_packet(packet_block(packet, state.little).body, state.little, state.interfaces)
            == ethernet_packet(
            packet.frame,
            CaptureTime::Ticks { u64Ticks: packet.ticks, byResolution: 6 },
        ),
        is_inner_block(packet_block(packet, state.little)),
{
    broadcast use lemma_pack32_length;

    let little = state.little;
    let body = packet_block(packet, little).body;
    let high = packet.ticks as int / 0x1_0000_0000;
    let low = packet.ticks as int % 0x1_0000_0000;
    assert(body.subrange(0, 4) =~= pack32(0, little));
    assert(body.subrange(4, 8) =~= pack32(high, little));
    assert(body.subrange(8, 12) =~= pack32(low, little));
    assert(body.subrange(12, 16) =~= pack32(packet.frame.len() as int, little));
    lemma_pack32_reads_back(body, 0, 0, little);
    lemma_pack32_reads_back(body, 4, high, little);
    lemma_pack32_reads_back(body, 8, low, little);
    lemma_pack32_reads_back(body, 12, packet.frame.len() as int, little);
    assert(body.subrange(20, 20 + packet.frame.len() as int) =~= packet.frame);
}

proof fn lemma_packet_blocks(packets: Seq<NgPacket>, state: WalkState)
    requires
        forall|i: int| 0 <= i < packets.len() ==> fits_block(#[trigger] packets[i]),
        state.interfaces.len() == 1,
        state.interfaces[0].m_u16LinkType == 1,
        state.interfaces[0].m_byResolution == 6,
    ensures
        after_blocks(state, packet_blocks(packets, state.little)) == (WalkState {
            packets: ng_packets(state.packets, packets),
            ..state
        }),
        forall|i: int|
            0 <= i < packets.len() ==> is_inner_block(
                #[trigger] packet_blocks(packets, state.little)[i],
            ),
    decreases packets.len(),
{
    let little = state.little;
    let blocks = packet_blocks(packets, little);
    if packets.len() > 0 {
        let rest = packets.drop_first();
        assert(fits_block(packets[0]));
        lemma_packet_block(packets[0], state);
        let next = after_block(state, 6, blocks[0].body);
        assert(blocks.drop_first() =~= packet_blocks(rest, little));
        assert forall|i: int| 0 <= i < rest.len() implies fits_block(#[trigger] rest[i]) by {
            assert(rest[i] == packets[i + 1]);
        }
        lemma_packet_blocks(rest, next);
        assert forall|i: int| 0 <= i < packets.len() implies is_inner_block(
            #[trigger] blocks[i],
        ) by {
            if i > 0 {
                assert(blocks[i] == packet_blocks(rest, little)[i - 1]);
            }
        }
    }
}

/// The section header puts a walk into its section.
proof fn lemma_section_is_entered(blocks: Seq<Block>, little: bool, unread: Seq<u8>)
    requires
        unread.len() + 16 < 0x1_0000_0000,
    ensures
        walked(
            pcapng_file(blocks, little, unread),
            0,
            walk_start(),
        ) == walked(
            pcapng_file(blocks, little, unread),
            unread.len() as int + 16,
            WalkState { little, ..walk_start() },
        ),
{
    broadcast use lemma_pack32_length;

    let body = pack32(0x1A2B_3C4D, little) + unread;
    let data = pcapng_file(blocks, little, unread);
    let length = unread.len() as int + 16;
    let start = walk_start();
    let inside = WalkState { little, ..walk_start() };
    assert(data.len() >= length);
    assert(data.subrange(0, 4) =~= pack32(0x0A0D_0D0A, little));
    assert(data.subrange(4, 8) =~= pack32(length, little));
    assert(data.subrange(8, 12) =~= pack32(0x1A2B_3C4D, little));
    lemma_pack32_reads_back(data, 0, 0x0A0D_0D0A, little);
    lemma_pack32_reads_back(data, 4, length, little);
    lemma_section_type_is_symmetric(data, 0, little);
    lemma_byte_order_magic(data, 8, little);
    assert(entered(data, 0, start) == inside);
    assert(after_block(inside, 0x0A0D_0D0A, data.subrange(8, length - 4)) == inside);
}

/// The byte order magic reads big-endian as itself only when it was written so.
proof fn lemma_byte_order_magic(data: Seq<u8>, at: int, little: bool)
    requires
        0 <= at,
        at + 4 <= data.len(),
        data.subrange(at, at + 4) == pack32(0x1A2B_3C4D, little),
    ensures
        (be32_at(data, at) != 0x1A2B_3C4D) == little,
{
    reveal(pack32);
    let s = data.subrange(at, at + 4);
    assert(s[0] == data[at] && s[1] == data[at + 1] && s[2] == data[at + 2] && s[3] == data[at + 3]);
}

/// What the description of an Ethernet interface without options is read as.
proof fn lemma_ethernet_interface(little: bool)
    ensures
        interface_of(ethernet_interface(little).body, little).m_u16LinkType == 1,
        interface_of(ethernet_interface(little).body, little).m_byResolution == 6,
        is_inner_block(ethernet_interface(little)),
{
    let body = ethernet_interface(little).body;
    assert(body.len() == 8);
    assert(u16_at(body, 0, little) == 1);
    assert(resolution_from(body, little, 8) == 6);
}

/// A pcapng file of an Ethernet interface reads back what was written into it, in either byte
/// order. Frame by frame that is what the same frames give in a classic file, stamped in ticks.
pub proof fn law_pcapng_file_reads_back(packets: Seq<NgPacket>, little: bool, unread: Seq<u8>)
    requires
        unread.len() + 16 < 0x1_0000_0000,
        forall|i: int| 0 <= i < packets.len() ==> fits_block(#[trigger] packets[i]),
    ensures
        pcapng_capture(
            pcapng_file(
                seq![ethernet_interface(little)] + packet_blocks(packets, little),
                little,
                unread,
            ),
        ) == Ok::<Seq<PacketView>, PcapErrorView>(ng_packets(seq![], packets)),
{
    broadcast use lemma_pack32_length;

    let section = Block { kind: 0x0A0D_0D0A, body: pack32(0x1A2B_3C4D, little) + unread };
    let head = block_bytes(section, little);
    let blocks = seq![ethernet_interface(little)] + packet_blocks(packets, little);
    let inside = WalkState { little, ..walk_start() };
    let described = after_block(inside, 1, ethernet_interface(little).body);
    lemma_section_is_entered(blocks, little, unread);
    lemma_ethernet_interface(little);
    lemma_packet_blocks(packets, described);
    assert forall|i: int| 0 <= i < blocks.len() implies is_inner_block(#[trigger] blocks[i]) by {
        if i > 0 {
            assert(blocks[i] == packet_blocks(packets, little)[i - 1]);
        }
    }
    law_blocks_are_walked_in_order(head, blocks, inside);
    assert(head.len() == unread.len() + 16);
    assert(blocks.drop_first() =~= packet_blocks(packets, little));
    let end = after_blocks(inside, blocks);
    assert(end == after_blocks(described, packet_blocks(packets, little)));
    assert(end.link_types[0] == 1);
}

/// One list begins with another one.
pub open spec fn begins_with<A>(longer: Seq<A>, shorter: Seq<A>) -> bool {
    shorter.len() <= longer.len() && longer.take(shorter.len() as int) == shorter
}

/// Reading on never takes back what was read, not even in a new section: the packets found and
/// the link types met so far stay. One Ethernet interface anywhere in the file is enough for it
/// to be read.
pub proof fn law_later_sections_take_nothing_back(data: Seq<u8>, at: int, state: WalkState)
    requires
        0 <= at,
        walked(data, at, state) is Ok,
    ensures
        begins_with(walked(data, at, state)->Ok_0.packets, state.packets),
        begins_with(walked(data, at, state)->Ok_0.link_types, state.link_types),
        state.link_types.contains(1) ==> walked(data, at, state)->Ok_0.link_types.contains(1),
    decreases data.len() - at,
{
    assert(state.packets.take(state.packets.len() as int) =~= state.packets);
    assert(state.link_types.take(state.link_types.len() as int) =~= state.link_types);
    if at + 12 <= data.len() {
        let here = entered(data, at, state);
        let kind = u32_at(data, at, here.little);
        let length = u32_at(data, at + 4, here.little);
        if at + length <= data.len() {
            let next = after_block(here, kind, data.subrange(at + 8, at + length - 4));
            law_later_sections_take_nothing_back(data, at + length, next);
            let end = walked(data, at, state)->Ok_0;
            assert(next.packets.take(state.packets.len() as int) =~= state.packets);
            assert(next.link_types.take(state.link_types.len() as int) =~= state.link_types);
            assert(end.packets.take(state.packets.len() as int) =~= end.packets.take(
                next.packets.len() as int,
            ).take(state.packets.len() as int));
            assert(end.link_types.take(state.link_types.len() as int) =~= end.link_types.take(
                next.link_types.len() as int,
            ).take(state.link_types.len() as int));
        }
        let end = walked(data, at, state)->Ok_0;
        if state.link_types.contains(1) {
            let i = choose|i: int| 0 <= i < state.link_types.len() && state.link_types[i] == 1;
            assert(end.link_types.take(state.link_types.len() as int)[i] == 1);
            assert(end.link_types[i] == 1);
        }
    }
}

} // verus!
