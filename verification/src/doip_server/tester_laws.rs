//! What a tester that discovers the vehicle, connects and activates routing can rely on.

use vstd::prelude::*;

use crate::bytes::be16;
use crate::bytes::be16_at;
use crate::bytes::be32;
use crate::bytes::be32_at;
use crate::core_domain::identity::VehicleIdentity;
use crate::doip::connection::fresh_connection;
use crate::doip::connection::ticked;
use crate::doip::connection::ConnectionState;
use crate::doip::connection::ConnectionView;
use crate::doip::header::header_error;
use crate::doip::header::law_message_reads_back;
use crate::doip::header::message_bytes;
use crate::doip::header::reply_version;
use crate::doip::header::GenericHeader;
use crate::doip::header::HeaderLimits;
use crate::doip::messages::diagnostic_bytes;
use crate::doip::messages::law_diagnostic_message_reads_back;
use crate::doip::messages::law_routing_request_layout;
use crate::doip::messages::RoutingActivationRequest;
use crate::doip::payload::is_unknown_code;
use crate::doip::payload::law_codes_are_distinct;
use crate::doip::payload::PayloadType;
use crate::doip_server::answer_laws::is_between;
use crate::doip_server::answer_laws::is_message;
use crate::doip_server::answer_laws::law_a_message_says_what_it_carries;
use crate::doip_server::entity::activation_outcome;
use crate::doip_server::entity::activation_request;
use crate::doip_server::entity::noted;
use crate::doip_server::entity::tcp_connections;
use crate::doip_server::entity::tcp_step;
use crate::doip_server::entity::udp_reaction;
use crate::doip_server::entity::EntityView;
use crate::doip_server::entity::ReactionView;
use crate::doip_server::entity::TcpStepView;

verus! {

/// The answer is one reply of a kind and with a payload, and says whether the socket is closed.
pub open spec fn answers(
    reaction: ReactionView,
    version: u8,
    kind: int,
    payload: Seq<u8>,
    close: bool,
) -> bool {
    &&& reaction.replies.len() == 1
    &&& is_message(reaction.replies[0], version, kind, payload)
    &&& reaction.close == close
}

/// The version a peer is answered in: its own, where it is one of the three there are, and the
/// newest otherwise.
pub proof fn law_a_peer_is_answered_in_its_own_version(version: u8)
    ensures
        version == 1 || version == 2 || version == 3 ==> reply_version(version) == version,
        version == 0 || version > 3 ==> reply_version(version) == 3,
{
}

/// The payload types there are, by number: nine of discovery and connection, four of status and
/// power mode, three of diagnosis. Every other number is unknown.
pub proof fn law_known_payload_types(code: u16)
    ensures
        is_unknown_code(code) <==> !(code <= 0x0008 || 0x4001 <= code <= 0x4004 || 0x8001 <= code
            <= 0x8003),
{
    assert(PayloadType::GenericHeaderNack.code() == 0x0000);
    assert(PayloadType::VehicleIdentificationRequest.code() == 0x0001);
    assert(PayloadType::VehicleIdentificationRequestByEid.code() == 0x0002);
    assert(PayloadType::VehicleIdentificationRequestByVin.code() == 0x0003);
    assert(PayloadType::VehicleAnnouncement.code() == 0x0004);
    assert(PayloadType::RoutingActivationRequest.code() == 0x0005);
    assert(PayloadType::RoutingActivationResponse.code() == 0x0006);
    assert(PayloadType::AliveCheckRequest.code() == 0x0007);
    assert(PayloadType::AliveCheckResponse.code() == 0x0008);
    assert(PayloadType::EntityStatusRequest.code() == 0x4001);
    assert(PayloadType::EntityStatusResponse.code() == 0x4002);
    assert(PayloadType::PowerModeRequest.code() == 0x4003);
    assert(PayloadType::PowerModeResponse.code() == 0x4004);
    assert(PayloadType::DiagnosticMessage.code() == 0x8001);
    assert(PayloadType::DiagnosticMessageAck.code() == 0x8002);
    assert(PayloadType::DiagnosticMessageNack.code() == 0x8003);
}

/// A payload length that the type with a number can have.
pub open spec fn is_possible_length(code: int, length: int) -> bool {
    ||| length == 0 && (code == 0x0001 || code == 0x0007 || code == 0x4001 || code == 0x4003)
    ||| length == 1 && (code == 0x0000 || code == 0x4004)
    ||| length == 2 && code == 0x0008
    ||| length == 6 && code == 0x0002
    ||| length == 17 && code == 0x0003
    ||| (length == 32 || length == 33) && code == 0x0004
    ||| (length == 7 || length == 11) && code == 0x0005
    ||| (length == 9 || length == 13) && code == 0x0006
    ||| (length == 3 || length == 7) && code == 0x4002
    ||| length >= 5 && 0x8001 <= code <= 0x8003
}

/// The generic header decides, in this order: a version and complement that do not match, or a
/// message too short to have them, is refused with code 0; an unknown type with code 1; a payload
/// longer than the entity takes with code 2; longer than the memory it has with code 3; a length
/// the type cannot have with code 4. Anything else is accepted.
pub proof fn law_the_header_is_judged_in_order(data: Seq<u8>, limits: HeaderLimits)
    ensures
        ({
            let error = header_error(data, limits);
            let code = data[2] * 256 + data[3];
            let length = data[4] * 16777216 + data[5] * 65536 + data[6] * 256 + data[7];
            let unknown = !(code <= 0x0008 || 0x4001 <= code <= 0x4004 || 0x8001 <= code <= 0x8003);
            if data.len() < 8 || data[0] + data[1] != 255 {
                error is Some && error->0.code() == 0 && error->0.closes()
            } else if unknown {
                error is Some && error->0.code() == 1 && !error->0.closes()
            } else if length > limits.m_u32MaxDataSize {
                error is Some && error->0.code() == 2 && !error->0.closes()
            } else if length > limits.m_u32AvailableMemory {
                error is Some && error->0.code() == 3 && !error->0.closes()
            } else if !is_possible_length(code, length) {
                error is Some && error->0.code() == 4 && error->0.closes()
            } else {
                error is None
            }
        }),
{
    if data.len() >= 8 {
        let code = be16_at(data, 2) as u16;
        law_known_payload_types(code);
        let length = be32_at(data, 4);
        if !is_unknown_code(code) {
            let t = choose|t: PayloadType| (#[trigger] t.code()) == code;
            assert forall|u: PayloadType| (#[trigger] u.code()) == code implies u == t by {
                law_codes_are_distinct(u, t);
            }
            assert(t.accepts(length) == is_possible_length(code as int, length));
        }
    }
}

proof fn lemma_is_accepted(e: EntityView, version: u8, kind: PayloadType, payload: Seq<u8>)
    requires
        e.settings.forced_header_code() is None,
        kind.accepts(payload.len() as int),
        payload.len() <= e.settings.m_u32MaxDataSize,
    ensures
        ({
            let message = message_bytes(version, kind, payload);
            &&& header_error(message, e.settings.limits()) is None
            &&& message[0] == version
            &&& be16_at(message, 2) == kind.code()
            &&& message.skip(8) == payload
        }),
{
    law_message_reads_back(
        version,
        kind,
        payload,
        e.settings.limits(),
        GenericHeader { m_byProtocolVersion: 0, m_payloadType: kind, m_u32PayloadLength: 0 },
    );
    law_a_message_says_what_it_carries(version, kind, payload);
}

/// What the vehicle says of itself: its VIN, the entity's address, the entity and group
/// identification, and the two status bytes.
pub open spec fn identity_bytes(address: u16, identity: VehicleIdentity) -> Seq<u8> {
    identity.m_arrVin@ + seq![(address / 256) as u8, (address % 256) as u8] + identity.m_arrEid@
        + identity.m_arrGid@ + seq![
        identity.m_byFurtherActionRequired,
        identity.m_byVinGidSyncStatus,
    ]
}

/// A vehicle that is asked for answers with its identity: to a request that names nobody, to one
/// that names its own entity identification, and to one that names its own VIN. To one that names
/// another it says nothing, and to none while that is suppressed.
pub proof fn law_a_vehicle_answers_for_itself(
    e: EntityView,
    version: u8,
    identity: VehicleIdentity,
    eid: Seq<u8>,
    vin: Seq<u8>,
)
    requires
        e.settings.forced_header_code() is None,
        e.settings.m_u32MaxDataSize >= 17,
        eid.len() == 6,
        vin.len() == 17,
    ensures
        ({
            let said = identity_bytes(e.address, identity);
            let quiet = e.settings.m_bSuppressIdentificationResponse;
            let anybody = udp_reaction(
                e,
                message_bytes(version, PayloadType::VehicleIdentificationRequest, seq![]),
                identity,
            );
            let by_eid = udp_reaction(
                e,
                message_bytes(version, PayloadType::VehicleIdentificationRequestByEid, eid),
                identity,
            );
            let by_vin = udp_reaction(
                e,
                message_bytes(version, PayloadType::VehicleIdentificationRequestByVin, vin),
                identity,
            );
            let own = reply_version(version);
            &&& if quiet {
                anybody.replies.len() == 0 && !anybody.close
            } else {
                answers(anybody, own, 0x0004, said, false)
            }
            &&& if quiet || eid != identity.m_arrEid@ {
                by_eid.replies.len() == 0 && !by_eid.close
            } else {
                answers(by_eid, own, 0x0004, said, false)
            }
            &&& if quiet || vin != identity.m_arrVin@ {
                by_vin.replies.len() == 0 && !by_vin.close
            } else {
                answers(by_vin, own, 0x0004, said, false)
            }
        }),
{
    lemma_is_accepted(e, version, PayloadType::VehicleIdentificationRequest, seq![]);
    lemma_is_accepted(e, version, PayloadType::VehicleIdentificationRequestByEid, eid);
    lemma_is_accepted(e, version, PayloadType::VehicleIdentificationRequestByVin, vin);
    let said = identity_bytes(e.address, identity);
    let announcement = crate::doip::messages::VehicleAnnouncement {
        m_arrVin: identity.m_arrVin,
        m_u16LogicalAddress: e.address,
        m_arrEid: identity.m_arrEid,
        m_arrGid: identity.m_arrGid,
        m_byFurtherActionRequired: identity.m_byFurtherActionRequired,
        m_optBySyncStatus: Some(identity.m_byVinGidSyncStatus),
    };
    assert(announcement.bytes() =~= said);
    law_a_message_says_what_it_carries(
        reply_version(version),
        PayloadType::VehicleAnnouncement,
        said,
    );
}

/// An entity that is asked reports its power mode, and its status: the kind of node, how many
/// sockets it serves, how many are open, and the longest payload it takes.
pub proof fn law_an_entity_reports_its_status(e: EntityView, version: u8, identity: VehicleIdentity)
    requires
        e.settings.forced_header_code() is None,
        e.connections.len() < 256,
    ensures
        answers(
            udp_reaction(
                e,
                message_bytes(version, PayloadType::PowerModeRequest, seq![]),
                identity,
            ),
            reply_version(version),
            0x4004,
            seq![e.settings.m_byPowerMode],
            false,
        ),
        answers(
            udp_reaction(
                e,
                message_bytes(version, PayloadType::EntityStatusRequest, seq![]),
                identity,
            ),
            reply_version(version),
            0x4002,
            seq![
                e.settings.m_byNodeType,
                e.settings.m_byMaxSockets,
                e.connections.len() as u8,
            ] + be32(e.settings.m_u32MaxDataSize as int),
            false,
        ),
{
    lemma_is_accepted(e, version, PayloadType::PowerModeRequest, seq![]);
    lemma_is_accepted(e, version, PayloadType::EntityStatusRequest, seq![]);
    let mode = seq![e.settings.m_byPowerMode];
    let status = seq![
        e.settings.m_byNodeType,
        e.settings.m_byMaxSockets,
        e.connections.len() as u8,
    ] + be32(e.settings.m_u32MaxDataSize as int);
    law_a_message_says_what_it_carries(
        reply_version(version),
        PayloadType::PowerModeResponse,
        mode,
    );
    assert(crate::doip_server::entity::status(e).bytes() =~= status);
    law_a_message_says_what_it_carries(
        reply_version(version),
        PayloadType::EntityStatusResponse,
        status,
    );
}

/// What is refused for its header is refused the same way on both sockets: with the code of the
/// fault, in the newest version, and changing no connection.
pub proof fn law_a_refused_header_is_answered(
    e: EntityView,
    socket: u64,
    message: Seq<u8>,
    identity: VehicleIdentity,
)
    requires
        e.settings.forced_header_code() is None,
        header_error(message, e.settings.limits()) is Some,
    ensures
        ({
            let nack = header_error(message, e.settings.limits())->0;
            &&& tcp_step(e, socket, message) matches TcpStepView::React(reaction) && answers(
                reaction,
                3,
                0x0000,
                seq![nack.code()],
                nack.code() == 0 || nack.code() == 4,
            )
            &&& answers(
                udp_reaction(e, message, identity),
                3,
                0x0000,
                seq![nack.code()],
                nack.code() == 0 || nack.code() == 4,
            )
            &&& tcp_connections(e, socket, message) == e.connections
        }),
{
    let nack = header_error(message, e.settings.limits())->0;
    law_a_message_says_what_it_carries(3, PayloadType::GenericHeaderNack, seq![nack.code()]);
}

/// What a routing activation request on an open socket is answered with, and what becomes of the
/// socket. In this order: an activation type other than 0 and 1 is refused with code 6; an address
/// outside 0x0E00 to 0x0FFF with code 0; the address the socket already has is accepted, and
/// another one refused with code 2; an address active on another socket is refused with code 3;
/// with more sockets open than the entity serves it is code 1; otherwise it is accepted, with code
/// 0x10. Accepted, the socket carries diagnosis for that address; refused, it is closed.
pub proof fn law_routing_activation(
    e: EntityView,
    socket: u64,
    version: u8,
    request: RoutingActivationRequest,
)
    requires
        e.settings.forced_header_code() is None,
        e.settings.forced_outcome() is None,
        e.settings.m_u32MaxDataSize >= 11,
        e.connections.contains_key(socket),
    ensures
        ({
            let message = message_bytes(
                version,
                PayloadType::RoutingActivationRequest,
                request.bytes(),
            );
            let own = e.connections[socket].address;
            let tester = request.m_u16SourceAddress;
            let elsewhere = exists|s: u64|
                s != socket && e.connections.contains_key(s) && (
                #[trigger] e.connections[s]).address == Some(tester);
            let code: u8 = if request.m_byActivationType > 1 {
                0x06
            } else if tester < 0x0E00 || tester > 0x0FFF {
                0x00
            } else if own == Some(tester) {
                0x10
            } else if own is Some {
                0x02
            } else if elsewhere {
                0x03
            } else if e.connections.len() > e.settings.m_byMaxSockets {
                0x01
            } else {
                0x10
            };
            let after = tcp_connections(e, socket, message)[socket];
            &&& tcp_step(e, socket, message) matches TcpStepView::React(reaction) && answers(
                reaction,
                reply_version(version),
                0x0006,
                be16(tester as int) + be16(e.address as int) + seq![code, 0u8, 0u8, 0u8, 0u8],
                code != 0x10,
            )
            &&& tcp_connections(e, socket, message).contains_key(socket)
            &&& code == 0x10 ==> after.state == ConnectionState::RoutingActive && after.address
                == Some(tester) && after.idle == 0
            &&& code != 0x10 ==> after.state == ConnectionState::Finalize && after.address == own
            &&& forall|s: u64|
                s != socket ==> (#[trigger] tcp_connections(e, socket, message).contains_key(s)
                    == e.connections.contains_key(s)) && tcp_connections(e, socket, message)[s]
                    == e.connections[s]
        }),
{
    let payload = request.bytes();
    let message = message_bytes(version, PayloadType::RoutingActivationRequest, payload);
    law_routing_request_layout(request);
    lemma_is_accepted(e, version, PayloadType::RoutingActivationRequest, payload);
    let connections = noted(e.connections, socket);
    assert(activation_request(payload) == request);
    assert(connections.dom() =~= e.connections.dom());
    assert(connections.len() == e.connections.len());
    let tester = request.m_u16SourceAddress;
    assert(crate::doip_server::entity::active_elsewhere(connections, socket, tester)
        == exists|s: u64|
        s != socket && e.connections.contains_key(s) && (#[trigger] e.connections[s]).address
            == Some(tester)) by {
        if crate::doip_server::entity::active_elsewhere(connections, socket, tester) {
            let s = choose|s: u64|
                s != socket && connections.contains_key(s) && (#[trigger] connections[s]).address
                    == Some(tester);
            assert(e.connections[s].address == Some(tester));
        }
        if exists|s: u64|
            s != socket && e.connections.contains_key(s) && (#[trigger] e.connections[s]).address
                == Some(tester) {
            let s = choose|s: u64|
                s != socket && e.connections.contains_key(s) && (
                #[trigger] e.connections[s]).address == Some(tester);
            assert(connections[s].address == Some(tester));
        }
    }
    let outcome = activation_outcome(e.settings, connections, socket, request);
    let response = be16(tester as int) + be16(e.address as int) + seq![
        outcome.code(),
        0u8,
        0u8,
        0u8,
        0u8,
    ];
    assert(crate::doip::messages::routing_response_bytes(tester, e.address, outcome.code())
        =~= response);
    law_a_message_says_what_it_carries(
        reply_version(version),
        PayloadType::RoutingActivationResponse,
        response,
    );
}

/// Once routing is active, a diagnostic message from the activated address is routed as it came:
/// between its two addresses, with its bytes unchanged, to be answered in the tester's own version.
/// One from any other address is refused with code 2, which closes the socket. Before routing is
/// active it gets nothing.
pub proof fn law_diagnosis_needs_the_activated_address(
    e: EntityView,
    socket: u64,
    version: u8,
    source: u16,
    target: u16,
    data: Seq<u8>,
)
    requires
        e.settings.forced_header_code() is None,
        e.settings.forced_nack() is None,
        data.len() > 0,
        data.len() + 4 <= e.settings.m_u32MaxDataSize,
    ensures
        ({
            let message = message_bytes(
                version,
                PayloadType::DiagnosticMessage,
                diagnostic_bytes(source, target, data),
            );
            let step = tcp_step(e, socket, message);
            let active = e.connections.contains_key(socket) && e.connections[socket].state
                == ConnectionState::RoutingActive && e.connections[socket].address is Some;
            let registered = e.connections[socket].address->0;
            &&& active && source == registered ==> step == (TcpStepView::Route {
                version: reply_version(version),
                source,
                target,
                data,
            })
            &&& active && source != registered ==> (step matches TcpStepView::React(reaction)
                && reaction.replies.len() == 1 && reaction.close && is_message(
                reaction.replies[0],
                reply_version(version),
                0x8003,
                reaction.replies[0].skip(8),
            ) && is_between(reaction.replies[0].skip(8), target, source, seq![0x02u8]))
            &&& !active ==> (step matches TcpStepView::React(reaction) && reaction.replies.len() == 0
                && !reaction.close)
        }),
{
    let payload = diagnostic_bytes(source, target, data);
    law_diagnostic_message_reads_back(source, target, data);
    lemma_is_accepted(e, version, PayloadType::DiagnosticMessage, payload);
    let refusal = crate::doip::messages::ack_bytes(source, target, 0x02);
    law_a_message_says_what_it_carries(
        reply_version(version),
        PayloadType::DiagnosticMessageNack,
        refusal,
    );
    assert(refusal.skip(4) =~= seq![0x02u8]);
}

/// Activating and then diagnosing works: where a request is answered with code 0x10, the next
/// diagnostic message from that address is routed.
pub proof fn law_an_activated_tester_is_routed(
    e: EntityView,
    socket: u64,
    version: u8,
    request: RoutingActivationRequest,
    target: u16,
    data: Seq<u8>,
)
    requires
        e.settings.forced_header_code() is None,
        e.settings.forced_outcome() is None,
        e.settings.forced_nack() is None,
        e.settings.m_u32MaxDataSize >= 11,
        e.connections.contains_key(socket),
        e.connections[socket].address is None,
        request.m_byActivationType <= 1,
        0x0E00 <= request.m_u16SourceAddress <= 0x0FFF,
        e.connections.len() <= e.settings.m_byMaxSockets,
        forall|s: u64|
            e.connections.contains_key(s) ==> (#[trigger] e.connections[s]).address != Some(
                request.m_u16SourceAddress,
            ),
        data.len() > 0,
        data.len() + 4 <= e.settings.m_u32MaxDataSize,
    ensures
        ({
            let first = message_bytes(
                version,
                PayloadType::RoutingActivationRequest,
                request.bytes(),
            );
            let after = EntityView { connections: tcp_connections(e, socket, first), ..e };
            let second = message_bytes(
                version,
                PayloadType::DiagnosticMessage,
                diagnostic_bytes(request.m_u16SourceAddress, target, data),
            );
            tcp_step(after, socket, second) == (TcpStepView::Route {
                version: reply_version(version),
                source: request.m_u16SourceAddress,
                target,
                data,
            })
        }),
{
    let first = message_bytes(version, PayloadType::RoutingActivationRequest, request.bytes());
    let after = EntityView { connections: tcp_connections(e, socket, first), ..e };
    law_routing_activation(e, socket, version, request);
    law_diagnosis_needs_the_activated_address(
        after,
        socket,
        version,
        request.m_u16SourceAddress,
        target,
        data,
    );
}

/// An alive check is answered with the address registered on the socket, and with nothing before
/// one is; either way the socket counts as active again. An answer to one gets no reply.
pub proof fn law_alive_checks(e: EntityView, socket: u64, version: u8, from: Seq<u8>)
    requires
        e.settings.forced_header_code() is None,
        e.settings.m_u32MaxDataSize >= 2,
        e.connections.contains_key(socket),
        from.len() == 2,
    ensures
        ({
            let asked = message_bytes(version, PayloadType::AliveCheckRequest, seq![]);
            let told = message_bytes(version, PayloadType::AliveCheckResponse, from);
            let own = e.connections[socket].address;
            &&& own is Some ==> (tcp_step(e, socket, asked) matches TcpStepView::React(reaction)
                && answers(
                reaction,
                reply_version(version),
                0x0008,
                be16(own->0 as int),
                false,
            ))
            &&& own is None ==> (tcp_step(e, socket, asked) matches TcpStepView::React(reaction)
                && reaction.replies.len() == 0 && !reaction.close)
            &&& (tcp_step(e, socket, told) matches TcpStepView::React(reaction)
                && reaction.replies.len() == 0 && !reaction.close)
            &&& tcp_connections(e, socket, told).contains_key(socket)
            &&& tcp_connections(e, socket, told)[socket] == (ConnectionView {
                idle: 0,
                ..e.connections[socket]
            })
            &&& tcp_connections(e, socket, asked)[socket] == (ConnectionView {
                idle: 0,
                ..e.connections[socket]
            })
        }),
{
    lemma_is_accepted(e, version, PayloadType::AliveCheckRequest, seq![]);
    lemma_is_accepted(e, version, PayloadType::AliveCheckResponse, from);
    let own = e.connections[socket].address;
    if own is Some {
        law_a_message_says_what_it_carries(
            reply_version(version),
            PayloadType::AliveCheckResponse,
            be16(own->0 as int),
        );
    }
}

/// A socket that never activates is closed after two seconds of silence and not before; one that
/// has activated, or waits for authentication, after five minutes and not before. Waiting in two
/// steps is waiting once.
pub proof fn law_silence_closes_a_socket(c: ConnectionView, a: int, b: int)
    requires
        c.state != ConnectionState::Finalize,
        0 <= c.idle,
        0 <= a,
        0 <= b,
        c.idle + a + b <= u64::MAX,
    ensures
        ({
            let limit: int = if c.state == ConnectionState::Initialized {
                2_000
            } else {
                300_000
            };
            &&& ticked(c, a).state == ConnectionState::Finalize <==> c.idle + a >= limit
            &&& ticked(c, a).address == c.address
            &&& c.idle + a < limit ==> ticked(c, a) == (ConnectionView { idle: c.idle + a, ..c })
            &&& c.idle + a < limit ==> ticked(ticked(c, a), b) == ticked(c, a + b)
        }),
        fresh_connection().state == ConnectionState::Initialized,
        fresh_connection().address is None,
        fresh_connection().idle == 0,
{
}

/// A forced header code refuses every message on both sockets, whatever it is, and touches no
/// connection.
pub proof fn law_a_forced_header_code_refuses_everything(
    e: EntityView,
    socket: u64,
    message: Seq<u8>,
    identity: VehicleIdentity,
    code: u8,
)
    requires
        e.settings.m_optByForcedHeaderNack == Some(code),
        code <= 4,
        message.len() > 0,
    ensures
        tcp_step(e, socket, message) matches TcpStepView::React(reaction) && answers(
            reaction,
            reply_version(message[0]),
            0x0000,
            seq![code],
            code == 0 || code == 4,
        ),
        answers(
            udp_reaction(e, message, identity),
            reply_version(message[0]),
            0x0000,
            seq![code],
            code == 0 || code == 4,
        ),
        tcp_connections(e, socket, message) == e.connections,
{
    law_a_message_says_what_it_carries(
        reply_version(message[0]),
        PayloadType::GenericHeaderNack,
        seq![code],
    );
}

/// A forced diagnostic code refuses every diagnostic message that would have been routed.
pub proof fn law_a_forced_diagnostic_code_refuses_diagnosis(
    e: EntityView,
    socket: u64,
    version: u8,
    source: u16,
    target: u16,
    data: Seq<u8>,
    code: u8,
)
    requires
        e.settings.forced_header_code() is None,
        e.settings.m_optByForcedDiagnosticNack == Some(code),
        2 <= code <= 6,
        data.len() > 0,
        data.len() + 4 <= e.settings.m_u32MaxDataSize,
        e.connections.contains_key(socket),
        e.connections[socket].state == ConnectionState::RoutingActive,
        e.connections[socket].address is Some,
    ensures
        ({
            let message = message_bytes(
                version,
                PayloadType::DiagnosticMessage,
                diagnostic_bytes(source, target, data),
            );
            tcp_step(e, socket, message) matches TcpStepView::React(reaction)
                && reaction.replies.len() == 1 && is_between(
                reaction.replies[0].skip(8),
                target,
                source,
                seq![code],
            ) && reaction.close == (code == 2)
        }),
{
    law_diagnostic_message_reads_back(source, target, data);
    lemma_is_accepted(
        e,
        version,
        PayloadType::DiagnosticMessage,
        diagnostic_bytes(source, target, data),
    );
    let refusal = crate::doip::messages::ack_bytes(source, target, code);
    law_a_message_says_what_it_carries(
        reply_version(version),
        PayloadType::DiagnosticMessageNack,
        refusal,
    );
    assert(refusal.skip(4) =~= seq![code]);
}

/// A forced activation code answers every activation, whoever asks; only 0x10 and 4 leave the
/// socket open.
pub proof fn law_a_forced_activation_code_answers_every_activation(
    e: EntityView,
    socket: u64,
    version: u8,
    request: RoutingActivationRequest,
    code: u8,
)
    requires
        e.settings.forced_header_code() is None,
        e.settings.m_optByForcedRoutingActivationCode == Some(code),
        code <= 4 || code == 6 || code == 0x10,
        e.settings.m_u32MaxDataSize >= 11,
        e.connections.contains_key(socket),
    ensures
        ({
            let message = message_bytes(
                version,
                PayloadType::RoutingActivationRequest,
                request.bytes(),
            );
            tcp_step(e, socket, message) matches TcpStepView::React(reaction) && answers(
                reaction,
                reply_version(version),
                0x0006,
                be16(request.m_u16SourceAddress as int) + be16(e.address as int) + seq![
                    code,
                    0u8,
                    0u8,
                    0u8,
                    0u8,
                ],
                code != 0x10 && code != 4,
            )
        }),
{
    law_routing_request_layout(request);
    lemma_is_accepted(e, version, PayloadType::RoutingActivationRequest, request.bytes());
    let source = request.m_u16SourceAddress;
    let response = be16(source as int) + be16(e.address as int) + seq![code, 0u8, 0u8, 0u8, 0u8];
    assert(crate::doip::messages::routing_response_bytes(source, e.address, code) =~= response);
    law_a_message_says_what_it_carries(
        reply_version(version),
        PayloadType::RoutingActivationResponse,
        response,
    );
    assert(activation_request(request.bytes()) == request);
}

} // verus!
