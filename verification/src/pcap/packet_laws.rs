//! What a packet on the wire is read as, header by header.

use vstd::prelude::*;

use crate::bytes::be16_at;
use crate::pcap::classic::classic_capture;
use crate::pcap::ethernet::ethernet_packet;
use crate::pcap::ethernet::ipv4_packet;
use crate::pcap::ethernet::ipv4_text;
use crate::pcap::ethernet::ipv6_groups;
use crate::pcap::ethernet::ipv6_packet;
use crate::pcap::ethernet::ipv6_text;
use crate::pcap::ethernet::network_header;
use crate::pcap::ethernet::transport_packet;
use crate::pcap::ethernet::TransportKind;
use crate::pcap::laws::pack32;
use crate::pcap::pcapng::enhanced_packet;
use crate::pcap::pcapng::interface_of;
use crate::pcap::pcapng::refused_link_type;
use crate::pcap::pcapng::resolution_from;
use crate::pcap::pcapng::Interface;
use crate::pcap::pcapng::WalkState;
use crate::pcap::u32_at;
use crate::pcap::CaptureTime;
use crate::pcap::PacketView;
use crate::pcap::PcapErrorView;
use crate::text::decimal;
use crate::text::lower_hexadecimal;

verus! {

/// TCP options are not payload: whatever stands between the fixed header and the data offset, a
/// segment carries exactly what follows it, between the ports and with the sequence number its
/// header states.
pub proof fn law_tcp_options_are_not_payload(
    header: Seq<u8>,
    options: Seq<u8>,
    payload: Seq<u8>,
    source: Seq<char>,
    destination: Seq<char>,
    time: CaptureTime,
)
    requires
        header.len() == 20,
        options.len() <= 40,
        options.len() % 4 == 0,
        header[12] as int / 16 == 5 + options.len() as int / 4,
    ensures
        transport_packet(header + options + payload, 6, source, destination, time) == Some(
            PacketView {
                index: 0,
                time,
                transport: TransportKind::Tcp,
                source_ip: source,
                destination_ip: destination,
                source_port: (header[0] * 256 + header[1]) as u16,
                destination_port: (header[2] * 256 + header[3]) as u16,
                sequence: (header[4] * 16777216 + header[5] * 65536 + header[6] * 256
                    + header[7]) as u32,
                payload,
            },
        ),
{
    let segment = header + options + payload;
    assert(forall|i: int| 0 <= i < 20 ==> segment[i] == header[i]);
    assert(segment.skip(20 + options.len() as int) =~= payload);
}

/// A UDP datagram carries exactly the bytes its length field covers behind its header; what
/// follows them is padding.
pub proof fn law_udp_length_bounds_the_payload(
    header: Seq<u8>,
    payload: Seq<u8>,
    padding: Seq<u8>,
    source: Seq<char>,
    destination: Seq<char>,
    time: CaptureTime,
)
    requires
        header.len() == 8,
        header[4] * 256 + header[5] == 8 + payload.len(),
    ensures
        transport_packet(header + payload + padding, 17, source, destination, time) == Some(
            PacketView {
                index: 0,
                time,
                transport: TransportKind::Udp,
                source_ip: source,
                destination_ip: destination,
                source_port: (header[0] * 256 + header[1]) as u16,
                destination_port: (header[2] * 256 + header[3]) as u16,
                sequence: 0,
                payload,
            },
        ),
{
    let segment = header + payload + padding;
    assert(forall|i: int| 0 <= i < 8 ==> segment[i] == header[i]);
    assert(segment.subrange(8, 8 + payload.len() as int) =~= payload);
}

/// Nothing but TCP and UDP is read, nor a segment that its own header does not fit into.
pub proof fn law_other_transports_are_skipped(
    segment: Seq<u8>,
    protocol: u8,
    source: Seq<char>,
    destination: Seq<char>,
    time: CaptureTime,
)
    requires
        protocol == 6 ==> segment.len() < 20 || segment.len() < segment[12] as int / 16 * 4
            || segment[12] as int / 16 < 5,
        protocol == 17 ==> segment.len() < 8,
    ensures
        transport_packet(segment, protocol, source, destination, time) is None,
{
}

/// An IPv4 datagram hands on exactly its segment: neither the options of its header nor the
/// padding behind its total length, and the addresses are those of its header, in dotted decimal.
pub proof fn law_ipv4_hands_on_its_segment(
    header: Seq<u8>,
    options: Seq<u8>,
    segment: Seq<u8>,
    padding: Seq<u8>,
    time: CaptureTime,
)
    requires
        header.len() == 20,
        options.len() <= 40,
        options.len() % 4 == 0,
        header[0] as int % 16 == 5 + options.len() as int / 4,
        header[2] * 256 + header[3] == 20 + options.len() + segment.len(),
        header[6] as int % 64 == 0,
        header[7] == 0,
    ensures
        ipv4_packet(header + options + segment + padding, time) == transport_packet(
            segment,
            header[9],
            decimal(header[12] as nat) + "."@ + decimal(header[13] as nat) + "."@ + decimal(
                header[14] as nat,
            ) + "."@ + decimal(header[15] as nat),
            decimal(header[16] as nat) + "."@ + decimal(header[17] as nat) + "."@ + decimal(
                header[18] as nat,
            ) + "."@ + decimal(header[19] as nat),
            time,
        ),
{
    let datagram = header + options + segment + padding;
    let from = 20 + options.len() as int;
    assert(forall|i: int| 0 <= i < 20 ==> datagram[i] == header[i]);
    assert((header[6] * 256 + header[7]) % 0x4000 == 0);
    assert(datagram.subrange(from, from + segment.len()) =~= segment);
    assert(datagram.subrange(12, 16) =~= header.subrange(12, 16));
    assert(datagram.subrange(16, 20) =~= header.subrange(16, 20));
}

/// A fragment is skipped: one that more fragments follow, and one that is not the first.
pub proof fn law_fragments_are_skipped(datagram: Seq<u8>, time: CaptureTime)
    requires
        datagram.len() >= 20,
        datagram[6] as int % 64 != 0 || datagram[7] != 0,
    ensures
        ipv4_packet(datagram, time) is None,
{
    let a = datagram[6] as int;
    let b = datagram[7] as int;
    assert(a == 64 * (a / 64) + a % 64);
    assert((a * 256 + b) % 0x4000 == a % 64 * 256 + b) by (nonlinear_arith)
        requires
            a == 64 * (a / 64) + a % 64,
            0 <= a % 64 < 64,
            0 <= b < 256,
    ;
}

/// An IPv6 datagram of TCP or UDP hands on exactly the bytes its payload length covers, and the
/// addresses of its header.
pub proof fn law_ipv6_hands_on_its_segment(
    header: Seq<u8>,
    segment: Seq<u8>,
    padding: Seq<u8>,
    time: CaptureTime,
)
    requires
        header.len() == 40,
        header[4] * 256 + header[5] == segment.len(),
        header[6] == 6 || header[6] == 17,
    ensures
        ipv6_packet(header + segment + padding, time) == transport_packet(
            segment,
            header[6],
            ipv6_text(header.subrange(8, 24)),
            ipv6_text(header.subrange(24, 40)),
            time,
        ),
{
    let datagram = header + segment + padding;
    assert(forall|i: int| 0 <= i < 40 ==> datagram[i] == header[i]);
    assert(datagram.subrange(40, 40 + segment.len() as int) =~= segment);
    assert(datagram.subrange(8, 24) =~= header.subrange(8, 24));
    assert(datagram.subrange(24, 40) =~= header.subrange(24, 40));
}

/// An Ethernet frame hands on everything behind its type: an IPv4 or an IPv6 datagram is read, and
/// anything else is skipped.
pub proof fn law_ethernet_hands_on_its_datagram(
    addresses: Seq<u8>,
    kind: int,
    datagram: Seq<u8>,
    time: CaptureTime,
)
    requires
        addresses.len() == 12,
        0 <= kind < 65536,
        kind != 0x8100,
        kind != 0x88A8,
    ensures
        ({
            let frame = addresses + seq![(kind / 256) as u8, (kind % 256) as u8] + datagram;
            &&& kind == 0x0800 ==> ethernet_packet(frame, time) == ipv4_packet(datagram, time)
            &&& kind == 0x86DD ==> ethernet_packet(frame, time) == ipv6_packet(datagram, time)
            &&& kind != 0x0800 && kind != 0x86DD ==> ethernet_packet(frame, time) is None
        }),
{
    let frame = addresses + seq![(kind / 256) as u8, (kind % 256) as u8] + datagram;
    assert(frame[12] == (kind / 256) as u8 && frame[13] == (kind % 256) as u8);
    assert(be16_at(frame, 12) == kind);
    assert(network_header(frame, 12) == Some((kind, 14int)));
    assert(frame.skip(14) =~= datagram);
}

/// A whole TCP segment over IPv4 and Ethernet, as a host sends it: the packet read carries exactly
/// the payload, whatever options its two headers have and however the frame is padded.
pub proof fn law_tcp_payload_is_read_from_a_frame(
    addresses: Seq<u8>,
    ip: Seq<u8>,
    ip_options: Seq<u8>,
    tcp: Seq<u8>,
    tcp_options: Seq<u8>,
    payload: Seq<u8>,
    padding: Seq<u8>,
    time: CaptureTime,
)
    requires
        addresses.len() == 12,
        ip.len() == 20,
        ip_options.len() <= 40,
        ip_options.len() % 4 == 0,
        ip[0] as int % 16 == 5 + ip_options.len() as int / 4,
        ip[2] * 256 + ip[3] == 40 + ip_options.len() + tcp_options.len() + payload.len(),
        ip[6] as int % 64 == 0,
        ip[7] == 0,
        ip[9] == 6,
        tcp.len() == 20,
        tcp_options.len() <= 40,
        tcp_options.len() % 4 == 0,
        tcp[12] as int / 16 == 5 + tcp_options.len() as int / 4,
    ensures
        ({
            let frame = addresses + seq![0x08u8, 0x00u8] + (ip + ip_options + (tcp + tcp_options
                + payload) + padding);
            let read = ethernet_packet(frame, time);
            &&& read is Some
            &&& read->0.transport is Tcp
            &&& read->0.payload == payload
            &&& read->0.source_port == tcp[0] * 256 + tcp[1]
            &&& read->0.destination_port == tcp[2] * 256 + tcp[3]
            &&& read->0.time == time
        }),
{
    let segment = tcp + tcp_options + payload;
    law_ethernet_hands_on_its_datagram(
        addresses,
        0x0800,
        ip + ip_options + segment + padding,
        time,
    );
    law_ipv4_hands_on_its_segment(ip, ip_options, segment, padding, time);
    law_tcp_options_are_not_payload(
        tcp,
        tcp_options,
        payload,
        ipv4_text(ip.subrange(12, 16)),
        ipv4_text(ip.subrange(16, 20)),
        time,
    );
}

/// A classic file of another link layer is refused by its name, however many records it holds.
pub proof fn law_another_link_layer_is_refused(magic: Seq<u8>, unread: Seq<u8>, rest: Seq<u8>, link: int)
    requires
        magic == seq![0xA1u8, 0xB2u8, 0xC3u8, 0xD4u8],
        unread.len() == 16,
        1 < link < 65536,
    ensures
        classic_capture(
            magic + unread + seq![0u8, 0u8, (link / 256) as u8, (link % 256) as u8] + rest,
        ) matches Err(PcapErrorView::UnsupportedLinkType { link_type, .. }) && link_type == link,
{
    let data = magic + unread + seq![0u8, 0u8, (link / 256) as u8, (link % 256) as u8] + rest;
    assert(data[0] == 0xA1 && data[1] == 0xB2 && data[2] == 0xC3 && data[3] == 0xD4);
    assert(data[20] == 0 && data[21] == 0 && data[22] == (link / 256) as u8 && data[23] == (link
        % 256) as u8);
    assert(u32_at(data, 20, false) == link);
}

/// A sixteen-bit number in a byte order.
pub open spec fn pack16(n: int, little: bool) -> Seq<u8> {
    if little {
        seq![(n % 256) as u8, (n / 256) as u8]
    } else {
        seq![(n / 256) as u8, (n % 256) as u8]
    }
}

/// The timestamp resolution an interface states is found behind any option that comes before it;
/// an interface that states none is stamped in microseconds. Its link type is what its first two
/// bytes say.
#[verifier::spinoff_prover]
#[verifier::rlimit(40)]
pub proof fn law_an_interface_is_read_as_described(
    link: int,
    fixed: Seq<u8>,
    code: int,
    value: Seq<u8>,
    resolution: u8,
    tail: Seq<u8>,
    little: bool,
)
    requires
        0 <= link < 65536,
        fixed.len() == 6,
        0 < code < 65536,
        code != 9,
        value.len() < 65536,
        value.len() % 4 == 0,
    ensures
        ({
            let start = pack16(link, little) + fixed;
            let other = pack16(code, little) + pack16(value.len() as int, little) + value;
            let stated = pack16(9, little) + pack16(1, little) + seq![resolution];
            &&& interface_of(start, little) == (Interface {
                m_u16LinkType: link as u16,
                m_byResolution: 6,
            })
            &&& interface_of(start + stated + tail, little) == (Interface {
                m_u16LinkType: link as u16,
                m_byResolution: resolution,
            })
            &&& interface_of(start + other + stated + tail, little) == (Interface {
                m_u16LinkType: link as u16,
                m_byResolution: resolution,
            })
        }),
{
    let start = pack16(link, little) + fixed;
    let other = pack16(code, little) + pack16(value.len() as int, little) + value;
    let stated = pack16(9, little) + pack16(1, little) + seq![resolution];
    let one = start + stated + tail;
    let two = start + other + stated + tail;
    let n = value.len() as int;
    assert(start.len() == 8);
    assert(start[0] == pack16(link, little)[0] && start[1] == pack16(link, little)[1]);
    assert(one[0] == start[0] && one[1] == start[1] && two[0] == start[0] && two[1] == start[1]);
    assert(resolution_from(start, little, 8) == 6);
    assert(one[8] == stated[0] && one[9] == stated[1] && one[10] == stated[2] && one[11]
        == stated[3] && one[12] == resolution);
    assert(resolution_from(one, little, 8) == resolution);
    assert(two[8] == other[0] && two[9] == other[1] && two[10] == other[2] && two[11] == other[3]);
    let at = 12 + n;
    assert(two[at] == stated[0] && two[at + 1] == stated[1] && two[at + 2] == stated[2] && two[at
        + 3] == stated[3] && two[at + 4] == resolution);
    assert(resolution_from(two, little, at) == resolution);
    assert((n + 3) / 4 * 4 == n);
    assert(resolution_from(two, little, 8) == resolution_from(two, little, at));
}

/// A packet is stamped at the resolution of the interface it names, in microseconds where that
/// interface was not declared; one of an interface that is not an Ethernet one is skipped. Its
/// padding is not part of it.
#[verifier::spinoff_prover]
#[verifier::rlimit(40)]
pub proof fn law_a_packet_belongs_to_its_interface(
    id: u32,
    ticks: u64,
    wire_length: u32,
    frame: Seq<u8>,
    padding: Seq<u8>,
    interfaces: Seq<Interface>,
    little: bool,
)
    requires
        frame.len() < 0x1_0000_0000,
    ensures
        ({
            let body = pack32(id as int, little) + pack32(ticks as int / 0x1_0000_0000, little)
                + pack32(ticks as int % 0x1_0000_0000, little) + pack32(frame.len() as int, little)
                + pack32(wire_length as int, little) + frame + padding;
            let read = enhanced_packet(body, little, interfaces);
            &&& id >= interfaces.len() ==> read == ethernet_packet(
                frame,
                CaptureTime::Ticks { u64Ticks: ticks, byResolution: 6 },
            )
            &&& id < interfaces.len() && interfaces[id as int].m_u16LinkType == 1 ==> read
                == ethernet_packet(
                frame,
                CaptureTime::Ticks {
                    u64Ticks: ticks,
                    byResolution: interfaces[id as int].m_byResolution,
                },
            )
            &&& id < interfaces.len() && interfaces[id as int].m_u16LinkType != 1 ==> read is None
        }),
{
    let a = pack32(id as int, little);
    let b = pack32(ticks as int / 0x1_0000_0000, little);
    let c = pack32(ticks as int % 0x1_0000_0000, little);
    let d = pack32(frame.len() as int, little);
    let e = pack32(wire_length as int, little);
    let body = a + b + c + d + e + frame + padding;
    assert(a.len() == 4 && b.len() == 4 && c.len() == 4 && d.len() == 4 && e.len() == 4) by {
        reveal(pack32);
    }
    assert(body.subrange(0, 4) =~= a);
    lemma_field(body, 0, id as int, little);
    assert(body.subrange(4, 8) =~= b);
    assert(body.subrange(8, 12) =~= c);
    assert(body.subrange(12, 16) =~= d);
    lemma_field(body, 4, ticks as int / 0x1_0000_0000, little);
    lemma_field(body, 8, ticks as int % 0x1_0000_0000, little);
    lemma_field(body, 12, frame.len() as int, little);
    assert(body.subrange(20, 20 + frame.len() as int) =~= frame);
}

proof fn lemma_field(body: Seq<u8>, at: int, n: int, little: bool)
    requires
        0 <= n < 0x1_0000_0000,
        0 <= at,
        at + 4 <= body.len(),
        body.subrange(at, at + 4) =~= pack32(n, little),
    ensures
        u32_at(body, at, little) == n,
{
    reveal(pack32);
    let s = body.subrange(at, at + 4);
    assert(s[0] == body[at] && s[1] == body[at + 1] && s[2] == body[at + 2] && s[3] == body[at + 3]);
    let a = n / 16777216;
    let b = n / 65536 % 256;
    let c = n / 256 % 256;
    let d = n % 256;
    assert(a * 16777216 + b * 65536 + c * 256 + d == n);
}

/// A capture is read where one of its interfaces is an Ethernet one, in whichever section it was
/// declared. Otherwise it is refused for the first interface of the section it ended in, or, where
/// that section has none and no packet was read, for the first of all.
pub proof fn law_a_capture_needs_an_ethernet_interface(state: WalkState, i: int)
    ensures
        0 <= i < state.link_types.len() && state.link_types[i] == 1 ==> refused_link_type(state)
            is None,
        (forall|k: int| 0 <= k < state.link_types.len() ==> (#[trigger] state.link_types[k]) != 1)
            ==> {
            &&& state.interfaces.len() > 0 ==> refused_link_type(state) == Some(
                state.interfaces[0].m_u16LinkType,
            )
            &&& state.interfaces.len() == 0 && state.link_types.len() > 0 && state.packets.len()
                == 0 ==> refused_link_type(state) == Some(state.link_types[0])
            &&& state.interfaces.len() == 0 && state.packets.len() > 0 ==> refused_link_type(state)
                is None
        },
        state.link_types.len() == 0 && state.interfaces.len() == 0 ==> refused_link_type(state)
            is None,
{
    if 0 <= i < state.link_types.len() && state.link_types[i] == 1 {
        assert(state.link_types.contains(1));
    }
    if state.link_types.contains(1) {
        let k = choose|k: int| 0 <= k < state.link_types.len() && state.link_types[k] == 1;
        assert(state.link_types[k] == 1);
    }
}

/// An address is written out in the order of its bytes: of four as decimal numbers with dots, of
/// sixteen as eight hexadecimal ones with colons, two bytes each and nothing left out.
pub proof fn law_addresses_are_written_out(four: Seq<u8>, sixteen: Seq<u8>)
    requires
        four.len() == 4,
        sixteen.len() == 16,
    ensures
        ipv4_text(four) == decimal(four[0] as nat) + "."@ + decimal(four[1] as nat) + "."@
            + decimal(four[2] as nat) + "."@ + decimal(four[3] as nat),
        ipv6_text(sixteen) == lower_hexadecimal((sixteen[0] * 256 + sixteen[1]) as nat) + ":"@
            + lower_hexadecimal((sixteen[2] * 256 + sixteen[3]) as nat) + ":"@ + lower_hexadecimal(
            (sixteen[4] * 256 + sixteen[5]) as nat,
        ) + ":"@ + lower_hexadecimal((sixteen[6] * 256 + sixteen[7]) as nat) + ":"@
            + lower_hexadecimal((sixteen[8] * 256 + sixteen[9]) as nat) + ":"@ + lower_hexadecimal(
            (sixteen[10] * 256 + sixteen[11]) as nat,
        ) + ":"@ + lower_hexadecimal((sixteen[12] * 256 + sixteen[13]) as nat) + ":"@
            + lower_hexadecimal((sixteen[14] * 256 + sixteen[15]) as nat),
{
    reveal_with_fuel(ipv6_groups, 9);
}

/// A conversation is told by its transport and both ends, the sender first.
pub proof fn law_a_conversation_has_a_direction(packet: PacketView)
    ensures
        packet.transport is Tcp ==> packet.flow_key() == "Tcp"@ + " "@ + packet.source_ip + ":"@
            + decimal(packet.source_port as nat) + " -> "@ + packet.destination_ip + ":"@ + decimal(
            packet.destination_port as nat,
        ),
        packet.transport is Udp ==> packet.flow_key() == "Udp"@ + " "@ + packet.source_ip + ":"@
            + decimal(packet.source_port as nat) + " -> "@ + packet.destination_ip + ":"@ + decimal(
            packet.destination_port as nat,
        ),
{
}

} // verus!
