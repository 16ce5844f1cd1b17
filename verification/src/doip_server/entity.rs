//! What this vehicle tells a DoIP tester about itself, and how it answers one message.
//!
//! The decision half of the server: given a message it produces the bytes to send back and
//! whether to close the socket. It holds the connection table but no sockets. Routing a
//! diagnostic message into the simulated vehicle happens between two steps: `HandleTcp` says
//! whether a message is to be routed, and `AnswerRouted` packages what came back.

use vstd::prelude::*;

use crate::bytes::be16;
use crate::bytes::be16_at;
use crate::bytes::be32_at;
use crate::bytes::CopyAll;
use crate::bytes::CopyRange;
use crate::bytes::SameBytes;
use crate::core_domain::identity::VehicleIdentity;
use crate::doip::connection::fresh_connection;
use crate::doip::connection::routed;
use crate::doip::connection::routing_decision;
use crate::doip::connection::ticked;
use crate::doip::connection::Connection;
use crate::doip::connection::ConnectionState;
use crate::doip::connection::ConnectionView;
use crate::doip::header::byte_or_zero;
use crate::doip::header::c_uHeaderLength;
use crate::doip::header::header_error;
use crate::doip::header::message_bytes;
use crate::doip::header::reply_version;
use crate::doip::header::HeaderLimits;
use crate::doip::header::HeaderNack;
use crate::doip::header::ReadHeader;
use crate::doip::header::ReplyVersionFor;
use crate::doip::header::WriteMessage;
use crate::doip::messages::ack_bytes;
use crate::doip::messages::c_byAckRoutingConfirmation;
use crate::doip::messages::diagnostic_bytes;
use crate::doip::messages::law_routing_request_layout;
use crate::doip::messages::routing_response_bytes;
use crate::doip::messages::BuildAliveCheckResponse;
use crate::doip::messages::BuildDiagnosticAck;
use crate::doip::messages::BuildRoutingActivationResponse;
use crate::doip::messages::DiagnosticMessage;
use crate::doip::messages::DiagnosticNack;
use crate::doip::messages::EntityStatus;
use crate::doip::messages::RoutingActivationOutcome;
use crate::doip::messages::RoutingActivationRequest;
use crate::doip::messages::VehicleAnnouncement;
use crate::doip::payload::PayloadType;
use crate::doip::BuildHeaderNack;
use crate::doip_server::settings::default_settings;
use crate::doip_server::settings::DoIpSettings;
use crate::doip_server::table::lists_sockets;
use crate::doip_server::table::ConnectionTable;
use crate::ecu::schedule::ScheduledResponse;
use crate::simulation::RoutedResponse;
use crate::simulation::RoutingOutcome;
use vstd::array::array_as_slice;

verus! {

/// How many concurrent TCP data sockets an entity serves unless it is configured otherwise. One
/// more is always kept free for socket handling; the reserve is not counted here.
pub const c_uMaxConnections: usize = 4;

/// What the caller must do with one incoming message.
#[derive(Debug, Clone, PartialEq, Eq)]
pub struct Reaction {
    /// Messages to send back, in order. Empty means answer nothing at all.
    pub m_vecReplies: Vec<Vec<u8>>,
    /// Whether to close the socket once they are sent.
    pub m_bCloseSocket: bool,
}

/// A reaction as a mathematical value.
pub ghost struct ReactionView {
    pub replies: Seq<Seq<u8>>,
    pub close: bool,
}

impl View for Reaction {
    type V = ReactionView;

    open spec fn view(&self) -> ReactionView {
        ReactionView {
            replies: Seq::new(self.m_vecReplies@.len(), |i: int| self.m_vecReplies@[i]@),
            close: self.m_bCloseSocket,
        }
    }
}

/// Saying nothing and staying connected.
pub open spec fn silence() -> ReactionView {
    ReactionView { replies: seq![], close: false }
}

/// One reply, after which the socket is closed or not.
pub open spec fn one_reply(message: Seq<u8>, close: bool) -> ReactionView {
    ReactionView { replies: seq![message], close }
}

impl Reaction {
    /// Say nothing and stay connected.
    pub fn Silence() -> (reaction: Self)
        ensures
            reaction@ == silence(),
    {
        let reaction = Reaction { m_vecReplies: Vec::new(), m_bCloseSocket: false };
        assert(reaction@.replies =~= silence().replies);
        reaction
    }

    /// One reply, staying connected.
    pub fn Reply(vecMessage: Vec<u8>) -> (reaction: Self)
        ensures
            reaction@ == one_reply(vecMessage@, false),
    {
        Reaction::OneReply(vecMessage, false)
    }

    /// One reply, then close.
    pub fn ReplyAndClose(vecMessage: Vec<u8>) -> (reaction: Self)
        ensures
            reaction@ == one_reply(vecMessage@, true),
    {
        Reaction::OneReply(vecMessage, true)
    }

    fn OneReply(vecMessage: Vec<u8>, bCloseSocket: bool) -> (reaction: Self)
        ensures
            reaction@ == one_reply(vecMessage@, bCloseSocket),
    {
        let ghost message = vecMessage@;
        let mut vecReplies: Vec<Vec<u8>> = Vec::new();
        vecReplies.push(vecMessage);
        let reaction = Reaction { m_vecReplies: vecReplies, m_bCloseSocket: bCloseSocket };
        assert(reaction@.replies =~= seq![message]);
        reaction
    }
}

/// The DoIP entity: this vehicle, as a tester sees it.
pub struct DoIpEntity {
    /// The logical address this entity answers vehicle identification on, and reports as its own.
    m_u16EntityAddress: u16,
    m_settings: DoIpSettings,
    m_table: ConnectionTable,
}

/// An entity's own address, its settings and its connections by socket.
pub ghost struct EntityView {
    pub address: u16,
    pub settings: DoIpSettings,
    pub connections: Map<u64, ConnectionView>,
}

impl View for DoIpEntity {
    type V = EntityView;

    closed spec fn view(&self) -> EntityView {
        EntityView {
            address: self.m_u16EntityAddress,
            settings: self.m_settings,
            connections: self.m_table@,
        }
    }
}

/// What happens next with a message from a TCP data socket.
#[derive(Debug, Clone, PartialEq, Eq)]
pub enum TcpStep {
    /// Answer with this; nothing is routed.
    React(Reaction),
    /// Route this message into the vehicle and answer with what comes back.
    Route { byReplyVersion: u8, request: DiagnosticMessage },
}

/// A step as a mathematical value.
pub ghost enum TcpStepView {
    React(ReactionView),
    Route { version: u8, source: u16, target: u16, data: Seq<u8> },
}

impl View for TcpStep {
    type V = TcpStepView;

    open spec fn view(&self) -> TcpStepView {
        match self {
            TcpStep::React(reaction) => TcpStepView::React(reaction@),
            TcpStep::Route { byReplyVersion, request } => TcpStepView::Route {
                version: *byReplyVersion,
                source: request.m_u16SourceAddress,
                target: request.m_u16TargetAddress,
                data: request.m_vecUserData@,
            },
        }
    }
}

/// Refusing a message for its generic header. Codes `0x00` and `0x04` close the socket.
pub open spec fn header_refusal(version: u8, code: u8) -> ReactionView {
    one_reply(
        message_bytes(reply_version(version), PayloadType::GenericHeaderNack, seq![code]),
        code == 0x00 || code == 0x04,
    )
}

/// The vehicle announcement, which is also the identification response.
pub open spec fn announcement_message(
    version: u8,
    address: u16,
    identity: VehicleIdentity,
) -> Seq<u8> {
    message_bytes(
        version,
        PayloadType::VehicleAnnouncement,
        (VehicleAnnouncement {
            m_arrVin: identity.m_arrVin,
            m_u16LogicalAddress: address,
            m_arrEid: identity.m_arrEid,
            m_arrGid: identity.m_arrGid,
            m_byFurtherActionRequired: identity.m_byFurtherActionRequired,
            m_optBySyncStatus: Some(identity.m_byVinGidSyncStatus),
        }).bytes(),
    )
}

/// Answering a vehicle identification request that asks for a vehicle that is or is not this one.
pub open spec fn identification(
    e: EntityView,
    version: u8,
    identity: VehicleIdentity,
    is_meant: bool,
) -> ReactionView {
    if is_meant && !e.settings.m_bSuppressIdentificationResponse {
        one_reply(announcement_message(version, e.address, identity), false)
    } else {
        silence()
    }
}

/// The answer to a datagram on the discovery port: a forced refusal, a refused header, or what
/// the five discovery messages get. Anything else belongs on the TCP data socket and is refused.
pub open spec fn udp_reaction(
    e: EntityView,
    datagram: Seq<u8>,
    identity: VehicleIdentity,
) -> ReactionView {
    if let Some(code) = e.settings.forced_header_code() {
        header_refusal(byte_or_zero(datagram, 0), code)
    } else if let Some(nack) = header_error(datagram, e.settings.limits()) {
        header_refusal(0x03, nack.code())
    } else {
        let version = reply_version(datagram[0]);
        let code = be16_at(datagram, 2);
        let payload = datagram.skip(8);
        if code == 0x0001 {
            identification(e, version, identity, true)
        } else if code == 0x0002 {
            identification(e, version, identity, payload == identity.m_arrEid@)
        } else if code == 0x0003 {
            identification(e, version, identity, payload == identity.m_arrVin@)
        } else if code == 0x4003 {
            one_reply(
                message_bytes(
                    version,
                    PayloadType::PowerModeResponse,
                    seq![e.settings.m_byPowerMode],
                ),
                false,
            )
        } else if code == 0x4001 {
            one_reply(
                message_bytes(version, PayloadType::EntityStatusResponse, status(e).bytes()),
                false,
            )
        } else {
            header_refusal(version, 0x01)
        }
    }
}

/// What the entity reports of itself.
pub open spec fn status(e: EntityView) -> EntityStatus {
    EntityStatus {
        m_byNodeType: e.settings.m_byNodeType,
        m_byMaxSockets: e.settings.m_byMaxSockets,
        m_byOpenSockets: (e.connections.len() as int % 256) as u8,
        m_optU32MaxDataSize: Some(e.settings.m_u32MaxDataSize),
    }
}

/// The connections after something was received on a socket.
pub open spec fn noted(connections: Map<u64, ConnectionView>, socket: u64) -> Map<
    u64,
    ConnectionView,
> {
    if connections.contains_key(socket) {
        connections.insert(socket, ConnectionView { idle: 0, ..connections[socket] })
    } else {
        connections
    }
}

/// Another socket has this tester address registered.
pub open spec fn active_elsewhere(
    connections: Map<u64, ConnectionView>,
    socket: u64,
    address: u16,
) -> bool {
    exists|s: u64|
        s != socket && connections.contains_key(s) && (#[trigger] connections[s]).address == Some(
            address,
        )
}

/// The routing activation request a payload of seven or eleven bytes carries.
pub open spec fn activation_request(payload: Seq<u8>) -> RoutingActivationRequest {
    RoutingActivationRequest {
        m_u16SourceAddress: be16_at(payload, 0) as u16,
        m_byActivationType: payload[2],
        m_u32ReservedIso: be32_at(payload, 3) as u32,
        m_optU32ReservedOem: if payload.len() == 11 {
            Some(be32_at(payload, 7) as u32)
        } else {
            None
        },
    }
}

/// What is decided about a routing activation request on a known socket.
pub open spec fn activation_outcome(
    settings: DoIpSettings,
    connections: Map<u64, ConnectionView>,
    socket: u64,
    request: RoutingActivationRequest,
) -> RoutingActivationOutcome {
    match settings.forced_outcome() {
        Some(outcome) => outcome,
        None => routing_decision(
            connections[socket].address,
            request,
            0x0E00 <= request.m_u16SourceAddress <= 0x0FFF,
            active_elsewhere(connections, socket, request.m_u16SourceAddress),
            connections.len() <= settings.m_byMaxSockets,
        ),
    }
}

/// The tester address that may send diagnostic messages on a socket: the registered one, once
/// routing is active.
pub open spec fn active_tester(connections: Map<u64, ConnectionView>, socket: u64) -> Option<u16> {
    if connections.contains_key(socket) && connections[socket].state
        == ConnectionState::RoutingActive {
        connections[socket].address
    } else {
        None
    }
}

/// Negatively acknowledging a diagnostic message. Only `0x02` closes the socket.
pub open spec fn diagnostic_refusal(
    version: u8,
    source: u16,
    target: u16,
    nack: DiagnosticNack,
) -> ReactionView {
    one_reply(
        message_bytes(
            version,
            PayloadType::DiagnosticMessageNack,
            ack_bytes(source, target, nack.code()),
        ),
        nack is InvalidSourceAddress,
    )
}

/// What is done with a diagnostic message payload: nothing before routing is active, a refusal
/// when one is forced or when the source address is not the activated one, and routing otherwise.
pub open spec fn diagnostic_step(
    settings: DoIpSettings,
    connections: Map<u64, ConnectionView>,
    socket: u64,
    version: u8,
    payload: Seq<u8>,
) -> TcpStepView {
    let source = be16_at(payload, 0) as u16;
    let target = be16_at(payload, 2) as u16;
    if payload.len() < 5 {
        TcpStepView::React(silence())
    } else if let Some(registered) = active_tester(connections, socket) {
        if let Some(nack) = settings.forced_nack() {
            TcpStepView::React(diagnostic_refusal(version, source, target, nack))
        } else if source != registered {
            TcpStepView::React(
                diagnostic_refusal(version, source, target, DiagnosticNack::InvalidSourceAddress),
            )
        } else {
            TcpStepView::Route { version, source, target, data: payload.skip(4) }
        }
    } else {
        TcpStepView::React(silence())
    }
}

/// What is done with a message from a TCP data socket.
pub open spec fn tcp_step(e: EntityView, socket: u64, message: Seq<u8>) -> TcpStepView {
    if let Some(code) = e.settings.forced_header_code() {
        TcpStepView::React(header_refusal(byte_or_zero(message, 0), code))
    } else if let Some(nack) = header_error(message, e.settings.limits()) {
        TcpStepView::React(header_refusal(0x03, nack.code()))
    } else {
        let connections = noted(e.connections, socket);
        let version = reply_version(message[0]);
        let code = be16_at(message, 2);
        let payload = message.skip(8);
        if code == 0x0005 {
            if payload.len() != 7 && payload.len() != 11 {
                TcpStepView::React(header_refusal(version, 0x04))
            } else if !connections.contains_key(socket) {
                TcpStepView::React(silence())
            } else {
                let request = activation_request(payload);
                let outcome = activation_outcome(e.settings, connections, socket, request);
                TcpStepView::React(
                    one_reply(
                        message_bytes(
                            version,
                            PayloadType::RoutingActivationResponse,
                            routing_response_bytes(
                                request.m_u16SourceAddress,
                                e.address,
                                outcome.code(),
                            ),
                        ),
                        outcome.closes(),
                    ),
                )
            }
        } else if code == 0x8001 {
            diagnostic_step(e.settings, connections, socket, version, payload)
        } else if code == 0x0008 {
            TcpStepView::React(silence())
        } else if code == 0x0007 {
            if connections.contains_key(socket) && connections[socket].address is Some {
                TcpStepView::React(
                    one_reply(
                        message_bytes(
                            version,
                            PayloadType::AliveCheckResponse,
                            be16(connections[socket].address->0 as int),
                        ),
                        false,
                    ),
                )
            } else {
                TcpStepView::React(silence())
            }
        } else {
            TcpStepView::React(header_refusal(version, 0x01))
        }
    }
}

/// The connections after a message from a TCP data socket: a message whose header is accepted
/// counts as activity, and a routing activation request changes its connection.
pub open spec fn tcp_connections(e: EntityView, socket: u64, message: Seq<u8>) -> Map<
    u64,
    ConnectionView,
> {
    if e.settings.forced_header_code() is Some || header_error(message, e.settings.limits()) is Some {
        e.connections
    } else {
        let connections = noted(e.connections, socket);
        let payload = message.skip(8);
        if be16_at(message, 2) == 0x0005 && (payload.len() == 7 || payload.len() == 11)
            && connections.contains_key(socket) {
            let request = activation_request(payload);
            connections.insert(
                socket,
                routed(
                    connections[socket],
                    request.m_u16SourceAddress,
                    activation_outcome(e.settings, connections, socket, request),
                ),
            )
        } else {
            connections
        }
    }
}

/// The connections that are left after time has passed.
pub open spec fn ticked_connections(
    connections: Map<u64, ConnectionView>,
    elapsed: int,
) -> Map<u64, ConnectionView> {
    Map::new(
        |s: u64|
            connections.contains_key(s) && ticked(connections[s], elapsed).state
                != ConnectionState::Finalize,
        |s: u64| ticked(connections[s], elapsed),
    )
}

/// A list holds exactly the sockets that time out when time passes, in ascending order.
pub open spec fn lists_expired(
    expired: Seq<u64>,
    connections: Map<u64, ConnectionView>,
    elapsed: int,
) -> bool {
    &&& forall|i: int, j: int| 0 <= i < j < expired.len() ==> expired[i] < expired[j]
    &&& forall|s: u64|
        #[trigger] expired.contains(s) <==> connections.contains_key(s) && ticked(
            connections[s],
            elapsed,
        ).state == ConnectionState::Finalize
}

/// The given sockets have been advanced, and the others have not.
spec fn ticked_so_far(
    before: Map<u64, ConnectionView>,
    elapsed: int,
    done: Seq<u64>,
    now: Map<u64, ConnectionView>,
) -> bool {
    forall|s: u64|
        #![trigger now.contains_key(s)]
        #![trigger now[s]]
        if done.contains(s) {
            let after = ticked(before[s], elapsed);
            &&& now.contains_key(s) == (after.state != ConnectionState::Finalize)
            &&& now.contains_key(s) ==> now[s] == after
        } else {
            &&& now.contains_key(s) == before.contains_key(s)
            &&& now.contains_key(s) ==> now[s] == before[s]
        }
}

/// A list holds exactly those of the given sockets that have timed out, in ascending order.
spec fn expired_so_far(
    before: Map<u64, ConnectionView>,
    elapsed: int,
    done: Seq<u64>,
    expired: Seq<u64>,
) -> bool {
    &&& forall|i: int, j: int| 0 <= i < j < expired.len() ==> expired[i] < expired[j]
    &&& forall|s: u64|
        #[trigger] expired.contains(s) <==> done.contains(s) && ticked(before[s], elapsed).state
            == ConnectionState::Finalize
}

/// Advancing one more socket.
proof fn lemma_tick_one(
    before: Map<u64, ConnectionView>,
    elapsed: int,
    done: Seq<u64>,
    socket: u64,
    table: Map<u64, ConnectionView>,
    expired: Seq<u64>,
)
    requires
        ticked_so_far(before, elapsed, done, table),
        expired_so_far(before, elapsed, done, expired),
        forall|i: int| 0 <= i < done.len() ==> done[i] < socket,
    ensures
        ({
            let after = ticked(before[socket], elapsed);
            if after.state == ConnectionState::Finalize {
                &&& ticked_so_far(before, elapsed, done.push(socket), table.remove(socket))
                &&& expired_so_far(before, elapsed, done.push(socket), expired.push(socket))
            } else {
                &&& ticked_so_far(before, elapsed, done.push(socket), table.insert(socket, after))
                &&& expired_so_far(before, elapsed, done.push(socket), expired)
            }
        }),
{
    let after = ticked(before[socket], elapsed);
    let more = done.push(socket);
    assert forall|s: u64| #[trigger] more.contains(s) == (done.contains(s) || s == socket) by {
        if done.contains(s) {
            assert(more[done.index_of(s)] == s);
        }
        if s == socket {
            assert(more[done.len() as int] == s);
        }
    }
    if after.state == ConnectionState::Finalize {
        let now = table.remove(socket);
        assert forall|s: u64|
            #![trigger now.contains_key(s)]
            #![trigger now[s]]
            s != socket implies now.contains_key(s) == table.contains_key(s) && (
        now.contains_key(s) ==> now[s] == table[s]) by {}
        assert(ticked_so_far(before, elapsed, more, now));
        let list = expired.push(socket);
        assert forall|s: u64| #[trigger] list.contains(s) == (expired.contains(s) || s == socket) by {
            if expired.contains(s) {
                assert(list[expired.index_of(s)] == s);
            }
            if s == socket {
                assert(list[expired.len() as int] == s);
            }
        }
        assert forall|i: int| 0 <= i < expired.len() implies expired[i] < socket by {
            assert(expired.contains(expired[i]));
            assert(done.contains(expired[i]));
        }
    } else {
        let now = table.insert(socket, after);
        assert(ticked_so_far(before, elapsed, more, now));
    }
}

impl DoIpEntity {
    /// Build an entity that reports the given address as its own.
    pub fn New(u16EntityAddress: u16, settings: DoIpSettings) -> (entity: Self)
        ensures
            entity@ == (EntityView {
                address: u16EntityAddress,
                settings,
                connections: Map::empty(),
            }),
    {
        DoIpEntity {
            m_u16EntityAddress: u16EntityAddress,
            m_settings: settings,
            m_table: ConnectionTable::New(),
        }
    }

    /// The logical address this entity reports as its own.
    pub fn EntityAddress(&self) -> (u16Address: u16)
        ensures
            u16Address == self@.address,
    {
        self.m_u16EntityAddress
    }

    /// The settings in force.
    pub fn Settings(&self) -> (settings: DoIpSettings)
        ensures
            settings == self@.settings,
    {
        self.m_settings
    }

    /// Put other settings in force, for every message from now on.
    pub fn SetSettings(&mut self, settings: DoIpSettings)
        ensures
            final(self)@ == (EntityView { settings, ..old(self)@ }),
    {
        self.m_settings = settings;
    }

    /// The limits incoming messages are held to.
    pub fn Limits(&self) -> (limits: HeaderLimits)
        ensures
            limits == self@.settings.limits(),
    {
        self.m_settings.Limits()
    }

    /// How many connections are open.
    pub fn ConnectionCount(&self) -> (uCount: usize)
        ensures
            uCount == self@.connections.len(),
            self@.connections.dom().finite(),
    {
        self.m_table.Count()
    }

    /// Register a newly established socket.
    pub fn OpenConnection(&mut self, u64Socket: u64)
        ensures
            final(self)@ == (EntityView {
                connections: old(self)@.connections.insert(u64Socket, fresh_connection()),
                ..old(self)@
            }),
    {
        self.m_table.Put(u64Socket, Connection::New());
    }

    /// Forget a socket that has closed.
    pub fn CloseConnection(&mut self, u64Socket: u64)
        ensures
            final(self)@ == (EntityView {
                connections: old(self)@.connections.remove(u64Socket),
                ..old(self)@
            }),
    {
        self.m_table.Remove(u64Socket);
    }

    /// Advance every connection's clock, returning the sockets that have now timed out.
    pub fn Tick(&mut self, u64ElapsedMs: u64) -> (vecExpired: Vec<u64>)
        ensures
            lists_expired(vecExpired@, old(self)@.connections, u64ElapsedMs as int),
            final(self)@ == (EntityView {
                connections: ticked_connections(old(self)@.connections, u64ElapsedMs as int),
                ..old(self)@
            }),
    {
        let ghost before = self.m_table@;
        let ghost elapsed = u64ElapsedMs as int;
        let vecSockets = self.m_table.Sockets();
        let mut vecExpired: Vec<u64> = Vec::new();
        let mut uAt: usize = 0;
        while uAt < vecSockets.len()
            invariant
                uAt <= vecSockets@.len(),
                elapsed == u64ElapsedMs as int,
                before == old(self)@.connections,
                lists_sockets(vecSockets@, before),
                self@ == (EntityView { connections: self.m_table@, ..old(self)@ }),
                ticked_so_far(before, elapsed, vecSockets@.take(uAt as int), self.m_table@),
                expired_so_far(before, elapsed, vecSockets@.take(uAt as int), vecExpired@),
            decreases vecSockets@.len() - uAt,
        {
            let u64Socket: u64 = vecSockets[uAt];
            let ghost table = self.m_table@;
            let ghost expired = vecExpired@;
            proof {
                let done = vecSockets@.take(uAt as int);
                assert(vecSockets@.take(uAt + 1) =~= done.push(u64Socket));
                assert(vecSockets@.contains(u64Socket));
                assert(before.contains_key(u64Socket));
                assert(!done.contains(u64Socket));
                assert(table.contains_key(u64Socket));
            }
            if let Some(mut connection) = self.m_table.Get(u64Socket) {
                if connection.Tick(u64ElapsedMs) {
                    vecExpired.push(u64Socket);
                    self.m_table.Remove(u64Socket);
                } else {
                    self.m_table.Put(u64Socket, connection);
                }
            }
            proof {
                lemma_tick_one(
                    before,
                    elapsed,
                    vecSockets@.take(uAt as int),
                    u64Socket,
                    table,
                    expired,
                );
            }
            uAt += 1;
        }
        proof {
            assert(vecSockets@.take(uAt as int) =~= vecSockets@);
            assert forall|s: u64| vecSockets@.contains(s) == before.contains_key(s) by {}
            assert(self.m_table@ =~= ticked_connections(before, elapsed));
        }
        vecExpired
    }
}

/// A generic header negative acknowledgement that carries the given code, closing the socket if
/// that code requires it.
fn RefuseHeader(byVersion: u8, byCode: u8) -> (reaction: Reaction)
    ensures
        reaction@ == header_refusal(byVersion, byCode),
{
    let mut vecPayload: Vec<u8> = Vec::new();
    vecPayload.push(byCode);
    assert(vecPayload@ =~= seq![byCode]);
    let vecMessage = WriteMessage(
        ReplyVersionFor(byVersion),
        PayloadType::GenericHeaderNack,
        vecPayload.as_slice(),
    );
    if byCode == 0x00 || byCode == 0x04 {
        Reaction::ReplyAndClose(vecMessage)
    } else {
        Reaction::Reply(vecMessage)
    }
}

/// A generic header negative acknowledgement, closing the socket if that code requires it.
fn NackReaction(byReplyVersion: u8, nack: HeaderNack) -> (reaction: Reaction)
    ensures
        reaction@ == header_refusal(byReplyVersion, nack.code()),
{
    let vecMessage = BuildHeaderNack(byReplyVersion, nack);
    if nack.ClosesSocket() {
        Reaction::ReplyAndClose(vecMessage)
    } else {
        Reaction::Reply(vecMessage)
    }
}

/// The positive acknowledgement for a routed message.
pub open spec fn ack_message(version: u8, source: u16, target: u16) -> Seq<u8> {
    message_bytes(
        version,
        PayloadType::DiagnosticMessageAck,
        ack_bytes(source, target, 0x00),
    )
}

/// The positive acknowledgement for a routed message.
fn BuildAck(byReplyVersion: u8, request: &DiagnosticMessage) -> (vecMessage: Vec<u8>)
    ensures
        vecMessage@ == ack_message(
            byReplyVersion,
            request.m_u16SourceAddress,
            request.m_u16TargetAddress,
        ),
{
    let vecPayload = BuildDiagnosticAck(request, c_byAckRoutingConfirmation);
    WriteMessage(byReplyVersion, PayloadType::DiagnosticMessageAck, vecPayload.as_slice())
}

/// A diagnostic negative acknowledgement, closing the socket if that code requires it.
fn DiagnosticNackReaction(
    byReplyVersion: u8,
    request: &DiagnosticMessage,
    nack: DiagnosticNack,
) -> (reaction: Reaction)
    ensures
        reaction@ == diagnostic_refusal(
            byReplyVersion,
            request.m_u16SourceAddress,
            request.m_u16TargetAddress,
            nack,
        ),
{
    let vecPayload = BuildDiagnosticAck(request, nack.Code());
    let vecMessage = WriteMessage(
        byReplyVersion,
        PayloadType::DiagnosticMessageNack,
        vecPayload.as_slice(),
    );
    if nack.ClosesSocket() {
        Reaction::ReplyAndClose(vecMessage)
    } else {
        Reaction::Reply(vecMessage)
    }
}

/// The messages of one response plan: each step is a diagnostic message of its own.
pub open spec fn step_messages(
    version: u8,
    ecu: u16,
    tester: u16,
    steps: Seq<ScheduledResponse>,
) -> Seq<Seq<u8>> {
    Seq::new(
        steps.len(),
        |i: int|
            message_bytes(
                version,
                PayloadType::DiagnosticMessage,
                diagnostic_bytes(ecu, tester, steps[i].m_vecBytes@),
            ),
    )
}

/// The messages of every response that is not suppressed, in order.
pub open spec fn response_messages(
    version: u8,
    ecu: u16,
    tester: u16,
    responses: Seq<RoutedResponse>,
) -> Seq<Seq<u8>>
    decreases responses.len(),
{
    if responses.len() == 0 {
        seq![]
    } else {
        response_messages(version, ecu, tester, responses.drop_last()) + (
        if responses.last().is_suppressed() {
            seq![]
        } else {
            step_messages(version, ecu, tester, responses.last().m_plan.m_vecSteps@)
        })
    }
}

/// The answer to a routed message. An ECU that is off the air is acknowledged and then silent: the
/// request was routed to it.
pub open spec fn routed_reaction(
    version: u8,
    source: u16,
    target: u16,
    outcome: RoutingOutcome,
) -> ReactionView {
    match outcome {
        RoutingOutcome::NoTarget => diagnostic_refusal(
            version,
            source,
            target,
            DiagnosticNack::UnknownTargetAddress,
        ),
        RoutingOutcome::Stopped => diagnostic_refusal(
            version,
            source,
            target,
            DiagnosticNack::TargetUnreachable,
        ),
        RoutingOutcome::TooLargeForSubnetwork { .. } => diagnostic_refusal(
            version,
            source,
            target,
            DiagnosticNack::MessageTooLarge,
        ),
        RoutingOutcome::Silenced { .. } => one_reply(ack_message(version, source, target), false),
        RoutingOutcome::Handled(responses) => ReactionView {
            replies: seq![ack_message(version, source, target)] + response_messages(
                version,
                target,
                source,
                responses@,
            ),
            close: false,
        },
    }
}

/// The byte strings of a list.
spec fn contents(list: Seq<Vec<u8>>) -> Seq<Seq<u8>> {
    Seq::new(list.len(), |i: int| list[i]@)
}

/// Append the messages of one response plan.
fn AppendSteps(
    vecReplies: &mut Vec<Vec<u8>>,
    byReplyVersion: u8,
    request: &DiagnosticMessage,
    vecSteps: &Vec<ScheduledResponse>,
)
    ensures
        contents(final(vecReplies)@) == contents(old(vecReplies)@) + step_messages(
            byReplyVersion,
            request.m_u16TargetAddress,
            request.m_u16SourceAddress,
            vecSteps@,
        ),
{
    let ghost all = step_messages(
        byReplyVersion,
        request.m_u16TargetAddress,
        request.m_u16SourceAddress,
        vecSteps@,
    );
    let ghost before = contents(vecReplies@);
    let mut uAt: usize = 0;
    assert(contents(vecReplies@) =~= before + all.take(0));
    while uAt < vecSteps.len()
        invariant
            uAt <= vecSteps@.len(),
            all == step_messages(
                byReplyVersion,
                request.m_u16TargetAddress,
                request.m_u16SourceAddress,
                vecSteps@,
            ),
            contents(vecReplies@) == before + all.take(uAt as int),
        decreases vecSteps@.len() - uAt,
    {
        let answer = DiagnosticMessage {
            m_u16SourceAddress: request.m_u16TargetAddress,
            m_u16TargetAddress: request.m_u16SourceAddress,
            m_vecUserData: CopyAll(vecSteps[uAt].m_vecBytes.as_slice()),
        };
        let vecPayload = answer.ToBytes();
        let ghost replies = vecReplies@;
        let vecMessage = WriteMessage(
            byReplyVersion,
            PayloadType::DiagnosticMessage,
            vecPayload.as_slice(),
        );
        assert(vecMessage@ == all[uAt as int]);
        vecReplies.push(vecMessage);
        assert(contents(vecReplies@) =~= contents(replies).push(all[uAt as int]));
        assert(all.take(uAt + 1) =~= all.take(uAt as int).push(all[uAt as int]));
        assert(contents(vecReplies@) =~= before + all.take(uAt + 1));
        uAt += 1;
    }
    assert(all.take(uAt as int) =~= all);
}

/// Package what became of a routed diagnostic message.
///
/// The positive acknowledgement goes out before the ECU's answer: it means "routed", not
/// "accepted". Every step of a response plan is its own diagnostic message, each ResponsePending
/// too; concatenated they would be something a tester cannot parse as UDS.
pub fn AnswerRouted(
    byReplyVersion: u8,
    request: &DiagnosticMessage,
    outcome: &RoutingOutcome,
) -> (reaction: Reaction)
    ensures
        reaction@ == routed_reaction(
            byReplyVersion,
            request.m_u16SourceAddress,
            request.m_u16TargetAddress,
            *outcome,
        ),
{
    match outcome {
        RoutingOutcome::NoTarget => DiagnosticNackReaction(
            byReplyVersion,
            request,
            DiagnosticNack::UnknownTargetAddress,
        ),
        RoutingOutcome::Stopped => DiagnosticNackReaction(
            byReplyVersion,
            request,
            DiagnosticNack::TargetUnreachable,
        ),
        RoutingOutcome::TooLargeForSubnetwork { .. } => DiagnosticNackReaction(
            byReplyVersion,
            request,
            DiagnosticNack::MessageTooLarge,
        ),
        RoutingOutcome::Silenced { .. } => Reaction::Reply(BuildAck(byReplyVersion, request)),
        RoutingOutcome::Handled(vecResponses) => {
            let ghost ack = ack_message(
                byReplyVersion,
                request.m_u16SourceAddress,
                request.m_u16TargetAddress,
            );
            let mut vecReplies: Vec<Vec<u8>> = Vec::new();
            vecReplies.push(BuildAck(byReplyVersion, request));
            assert(contents(vecReplies@) =~= seq![ack] + response_messages(
                byReplyVersion,
                request.m_u16TargetAddress,
                request.m_u16SourceAddress,
                vecResponses@.take(0),
            ));
            let mut uAt: usize = 0;
            while uAt < vecResponses.len()
                invariant
                    uAt <= vecResponses@.len(),
                    contents(vecReplies@) == seq![ack] + response_messages(
                        byReplyVersion,
                        request.m_u16TargetAddress,
                        request.m_u16SourceAddress,
                        vecResponses@.take(uAt as int),
                    ),
                decreases vecResponses@.len() - uAt,
            {
                let response = &vecResponses[uAt];
                let ghost before = contents(vecReplies@);
                if !response.IsSuppressed() {
                    AppendSteps(
                        &mut vecReplies,
                        byReplyVersion,
                        request,
                        &response.m_plan.m_vecSteps,
                    );
                }
                proof {
                    let more = vecResponses@.take(uAt + 1);
                    assert(more.drop_last() =~= vecResponses@.take(uAt as int));
                    assert(contents(vecReplies@) =~= seq![ack] + response_messages(
                        byReplyVersion,
                        request.m_u16TargetAddress,
                        request.m_u16SourceAddress,
                        more,
                    ));
                }
                uAt += 1;
            }
            assert(vecResponses@.take(uAt as int) =~= vecResponses@);
            let reaction = Reaction { m_vecReplies: vecReplies, m_bCloseSocket: false };
            assert(reaction@.replies =~= contents(vecReplies@));
            reaction
        },
    }
}

/// Whether this entity will talk to a tester at that address: the block reserved for external
/// test equipment, so an ECU address used by mistake as a tester address is caught.
pub fn IsAcceptableTesterAddress(u16SourceAddress: u16) -> (bIsAcceptable: bool)
    ensures
        bIsAcceptable == (0x0E00 <= u16SourceAddress <= 0x0FFF),
{
    0x0E00 <= u16SourceAddress && u16SourceAddress <= 0x0FFF
}

impl DoIpEntity {
    /// The vehicle announcement, which is also the identification response.
    pub fn BuildAnnouncement(&self, byReplyVersion: u8, identity: &VehicleIdentity) -> (vecMessage:
        Vec<u8>)
        ensures
            vecMessage@ == announcement_message(byReplyVersion, self@.address, *identity),
    {
        let announcement = VehicleAnnouncement {
            m_arrVin: identity.VinBytes(),
            m_u16LogicalAddress: self.m_u16EntityAddress,
            m_arrEid: identity.EidBytes(),
            m_arrGid: identity.GidBytes(),
            m_byFurtherActionRequired: identity.m_byFurtherActionRequired,
            m_optBySyncStatus: Some(identity.m_byVinGidSyncStatus),
        };
        let vecPayload = announcement.ToBytes();
        WriteMessage(byReplyVersion, PayloadType::VehicleAnnouncement, vecPayload.as_slice())
    }

    /// Answer a vehicle identification request. A non-match is answered with silence: the tester
    /// is asking "is this you?" of every vehicle in range, and only the right one speaks.
    fn Identify(&self, byReplyVersion: u8, identity: &VehicleIdentity, bIsMeant: bool) -> (reaction:
        Reaction)
        ensures
            reaction@ == identification(self@, byReplyVersion, *identity, bIsMeant),
    {
        if bIsMeant && !self.m_settings.m_bSuppressIdentificationResponse {
            Reaction::Reply(self.BuildAnnouncement(byReplyVersion, identity))
        } else {
            Reaction::Silence()
        }
    }

    /// Answer one message that arrived on the UDP discovery port.
    pub fn HandleUdp(&self, arrDatagram: &[u8], identity: &VehicleIdentity) -> (reaction: Reaction)
        ensures
            reaction@ == udp_reaction(self@, arrDatagram@, *identity),
    {
        if let Some(byCode) = self.m_settings.ForcedHeaderCode() {
            let byVersion: u8 = if arrDatagram.len() > 0 {
                arrDatagram[0]
            } else {
                0
            };
            return RefuseHeader(byVersion, byCode);
        }
        let header = match ReadHeader(arrDatagram, self.Limits()) {
            Ok(header) => header,
            Err(nack) => {
                return NackReaction(0x03, nack);
            },
        };
        let vecPayload = CopyRange(arrDatagram, c_uHeaderLength, arrDatagram.len());
        assert(vecPayload@ =~= arrDatagram@.skip(8));
        let byReplyVersion: u8 = ReplyVersionFor(header.m_byProtocolVersion);
        match header.m_payloadType {
            PayloadType::VehicleIdentificationRequest => self.Identify(
                byReplyVersion,
                identity,
                true,
            ),
            PayloadType::VehicleIdentificationRequestByEid => {
                let arrEid = identity.EidBytes();
                let bIsMeant = SameBytes(vecPayload.as_slice(), array_as_slice(&arrEid));
                self.Identify(byReplyVersion, identity, bIsMeant)
            },
            PayloadType::VehicleIdentificationRequestByVin => {
                let arrVin = identity.VinBytes();
                let bIsMeant = SameBytes(vecPayload.as_slice(), array_as_slice(&arrVin));
                self.Identify(byReplyVersion, identity, bIsMeant)
            },
            PayloadType::PowerModeRequest => {
                let mut vecMode: Vec<u8> = Vec::new();
                vecMode.push(self.m_settings.m_byPowerMode);
                assert(vecMode@ =~= seq![self.m_settings.m_byPowerMode]);
                Reaction::Reply(
                    WriteMessage(byReplyVersion, PayloadType::PowerModeResponse, vecMode.as_slice()),
                )
            },
            PayloadType::EntityStatusRequest => {
                let entityStatus = EntityStatus {
                    m_byNodeType: self.m_settings.m_byNodeType,
                    m_byMaxSockets: self.m_settings.m_byMaxSockets,
                    m_byOpenSockets: (self.m_table.Count() % 256) as u8,
                    m_optU32MaxDataSize: Some(self.m_settings.m_u32MaxDataSize),
                };
                let vecStatus = entityStatus.ToBytes();
                Reaction::Reply(
                    WriteMessage(
                        byReplyVersion,
                        PayloadType::EntityStatusResponse,
                        vecStatus.as_slice(),
                    ),
                )
            },
            _ => NackReaction(
                byReplyVersion,
                HeaderNack::UnknownPayloadType { u16PayloadType: header.m_payloadType.Code() },
            ),
        }
    }

    /// Whether a socket other than the given one has a tester address registered.
    fn IsActiveElsewhere(&self, u64Socket: u64, u16Address: u16) -> (bIsActive: bool)
        ensures
            bIsActive == active_elsewhere(self@.connections, u64Socket, u16Address),
    {
        let vecSockets = self.m_table.Sockets();
        let mut uAt: usize = 0;
        while uAt < vecSockets.len()
            invariant
                uAt <= vecSockets@.len(),
                lists_sockets(vecSockets@, self@.connections),
                self@.connections == self.m_table@,
                forall|i: int|
                    0 <= i < uAt ==> (#[trigger] vecSockets@[i]) == u64Socket
                        || self@.connections[vecSockets@[i]].address != Some(u16Address),
            decreases vecSockets@.len() - uAt,
        {
            let u64Other: u64 = vecSockets[uAt];
            assert(vecSockets@.contains(u64Other));
            if u64Other != u64Socket {
                if let Some(connection) = self.m_table.Get(u64Other) {
                    if let Some(u16Registered) = connection.SourceAddress() {
                        if u16Registered == u16Address {
                            assert(self@.connections[u64Other].address == Some(u16Address));
                            return true;
                        }
                    }
                }
            }
            uAt += 1;
        }
        assert forall|s: u64|
            s != u64Socket && self@.connections.contains_key(s) implies (
        #[trigger] self@.connections[s]).address != Some(u16Address) by {
            assert(vecSockets@.contains(s));
            let i = choose|i: int| 0 <= i < vecSockets@.len() && vecSockets@[i] == s;
            assert(vecSockets@[i] == s);
        }
        false
    }

    /// Decide and apply a routing activation request.
    fn HandleRoutingActivation(
        &mut self,
        u64Socket: u64,
        vecPayload: &[u8],
        byReplyVersion: u8,
    ) -> (reaction: Reaction)
        ensures
            ({
                let e = old(self)@;
                let request = activation_request(vecPayload@);
                if vecPayload@.len() != 7 && vecPayload@.len() != 11 {
                    &&& reaction@ == header_refusal(byReplyVersion, 0x04)
                    &&& final(self)@ == e
                } else if !e.connections.contains_key(u64Socket) {
                    &&& reaction@ == silence()
                    &&& final(self)@ == e
                } else {
                    let outcome = activation_outcome(
                        e.settings,
                        e.connections,
                        u64Socket,
                        request,
                    );
                    &&& reaction@ == one_reply(
                        message_bytes(
                            byReplyVersion,
                            PayloadType::RoutingActivationResponse,
                            routing_response_bytes(
                                request.m_u16SourceAddress,
                                e.address,
                                outcome.code(),
                            ),
                        ),
                        outcome.closes(),
                    )
                    &&& final(self)@ == (EntityView {
                        connections: e.connections.insert(
                            u64Socket,
                            routed(e.connections[u64Socket], request.m_u16SourceAddress, outcome),
                        ),
                        ..e
                    })
                }
            }),
    {
        let request = match RoutingActivationRequest::FromBytes(vecPayload) {
            Some(request) => request,
            None => {
                return NackReaction(
                    byReplyVersion,
                    HeaderNack::InvalidPayloadLength {
                        u16PayloadType: PayloadType::RoutingActivationRequest.Code(),
                        u32Length: (vecPayload.len() as u64 % 0x1_0000_0000) as u32,
                    },
                );
            },
        };
        proof {
            law_routing_request_layout(request);
            assert(request == activation_request(vecPayload@));
        }
        let bIsActiveElsewhere = self.IsActiveElsewhere(u64Socket, request.m_u16SourceAddress);
        let bHasFreeSocket = self.m_table.Count() <= self.m_settings.m_byMaxSockets as usize;
        let mut connection = match self.m_table.Get(u64Socket) {
            Some(connection) => connection,
            None => {
                return Reaction::Silence();
            },
        };
        let outcome = match self.m_settings.ForcedOutcome() {
            Some(outcome) => outcome,
            None => connection.DecideRoutingActivation(
                &request,
                IsAcceptableTesterAddress(request.m_u16SourceAddress),
                bIsActiveElsewhere,
                bHasFreeSocket,
            ),
        };
        connection.ApplyRoutingActivation(&request, outcome);
        self.m_table.Put(u64Socket, connection);
        let vecResponse = BuildRoutingActivationResponse(
            request.m_u16SourceAddress,
            self.m_u16EntityAddress,
            outcome,
        );
        let vecMessage = WriteMessage(
            byReplyVersion,
            PayloadType::RoutingActivationResponse,
            vecResponse.as_slice(),
        );
        if outcome.ClosesSocket() {
            Reaction::ReplyAndClose(vecMessage)
        } else {
            Reaction::Reply(vecMessage)
        }
    }

    /// Decide what is done with a diagnostic message. Nothing is answered or routed before
    /// routing is active, and it is not negatively acknowledged either.
    fn HandleDiagnosticMessage(
        &self,
        u64Socket: u64,
        vecPayload: &[u8],
        byReplyVersion: u8,
    ) -> (step: TcpStep)
        ensures
            step@ == diagnostic_step(
                self@.settings,
                self@.connections,
                u64Socket,
                byReplyVersion,
                vecPayload@,
            ),
    {
        let request = match DiagnosticMessage::FromBytes(vecPayload) {
            Some(request) => request,
            None => {
                return TcpStep::React(Reaction::Silence());
            },
        };
        let optU16Registered = match self.m_table.Get(u64Socket) {
            Some(connection) => if connection.IsRoutingActive() {
                connection.SourceAddress()
            } else {
                None
            },
            None => None,
        };
        let u16Registered: u16 = match optU16Registered {
            Some(u16Registered) => u16Registered,
            None => {
                return TcpStep::React(Reaction::Silence());
            },
        };
        if let Some(nack) = self.m_settings.ForcedNack() {
            return TcpStep::React(DiagnosticNackReaction(byReplyVersion, &request, nack));
        }
        // The source address must be the one activated on this socket. This is the one
        // diagnostic rejection that resets the connection.
        if request.m_u16SourceAddress != u16Registered {
            return TcpStep::React(
                DiagnosticNackReaction(
                    byReplyVersion,
                    &request,
                    DiagnosticNack::InvalidSourceAddress,
                ),
            );
        }
        TcpStep::Route { byReplyVersion, request }
    }

    /// Decide what is done with one message that arrived on a TCP data socket.
    pub fn HandleTcp(&mut self, u64Socket: u64, arrMessage: &[u8]) -> (step: TcpStep)
        ensures
            step@ == tcp_step(old(self)@, u64Socket, arrMessage@),
            final(self)@ == (EntityView {
                connections: tcp_connections(old(self)@, u64Socket, arrMessage@),
                ..old(self)@
            }),
    {
        if let Some(byCode) = self.m_settings.ForcedHeaderCode() {
            let byVersion: u8 = if arrMessage.len() > 0 {
                arrMessage[0]
            } else {
                0
            };
            return TcpStep::React(RefuseHeader(byVersion, byCode));
        }
        let header = match ReadHeader(arrMessage, self.Limits()) {
            Ok(header) => header,
            Err(nack) => {
                return TcpStep::React(NackReaction(0x03, nack));
            },
        };
        if let Some(mut connection) = self.m_table.Get(u64Socket) {
            connection.NoteActivity();
            self.m_table.Put(u64Socket, connection);
        }
        assert(self@.connections == noted(old(self)@.connections, u64Socket));
        let vecPayload = CopyRange(arrMessage, c_uHeaderLength, arrMessage.len());
        assert(vecPayload@ =~= arrMessage@.skip(8));
        let byReplyVersion: u8 = ReplyVersionFor(header.m_byProtocolVersion);
        match header.m_payloadType {
            PayloadType::RoutingActivationRequest => {
                let reaction = self.HandleRoutingActivation(
                    u64Socket,
                    vecPayload.as_slice(),
                    byReplyVersion,
                );
                TcpStep::React(reaction)
            },
            PayloadType::DiagnosticMessage => self.HandleDiagnosticMessage(
                u64Socket,
                vecPayload.as_slice(),
                byReplyVersion,
            ),
            // A tester may send this unsolicited purely to reset the inactivity timer, which has
            // been done already.
            PayloadType::AliveCheckResponse => TcpStep::React(Reaction::Silence()),
            PayloadType::AliveCheckRequest => {
                let optU16SourceAddress = match self.m_table.Get(u64Socket) {
                    Some(connection) => connection.SourceAddress(),
                    None => None,
                };
                match optU16SourceAddress {
                    Some(u16SourceAddress) => {
                        let vecAlive = BuildAliveCheckResponse(u16SourceAddress);
                        TcpStep::React(
                            Reaction::Reply(
                                WriteMessage(
                                    byReplyVersion,
                                    PayloadType::AliveCheckResponse,
                                    vecAlive.as_slice(),
                                ),
                            ),
                        )
                    },
                    // Nothing is registered here yet, so there is no address to answer with.
                    None => TcpStep::React(Reaction::Silence()),
                }
            },
            _ => TcpStep::React(
                NackReaction(
                    byReplyVersion,
                    HeaderNack::UnknownPayloadType { u16PayloadType: header.m_payloadType.Code() },
                ),
            ),
        }
    }
}

/// Nothing is routed before routing is active: a message that is routed came in on a socket with
/// routing active, from the tester address registered on that socket.
pub proof fn law_only_an_activated_tester_is_routed(e: EntityView, socket: u64, message: Seq<u8>)
    ensures
        tcp_step(e, socket, message) matches TcpStepView::Route { source, .. } ==> {
            &&& e.connections.contains_key(socket)
            &&& e.connections[socket].state == ConnectionState::RoutingActive
            &&& e.connections[socket].address == Some(source)
        },
{
}

/// A diagnostic message that arrives before routing is active is answered with nothing at all, and
/// the socket is not closed for it.
pub proof fn law_diagnostics_before_activation_get_silence(
    e: EntityView,
    socket: u64,
    message: Seq<u8>,
)
    requires
        e.settings.forced_header_code() is None,
        header_error(message, e.settings.limits()) is None,
        be16_at(message, 2) == 0x8001,
        active_tester(e.connections, socket) is None,
    ensures
        tcp_step(e, socket, message) == TcpStepView::React(silence()),
{
}

/// The passage of time closes exactly the sockets it reports: as many connections are left as there
/// were, less those.
pub proof fn law_a_tick_closes_what_it_reports(
    connections: Map<u64, ConnectionView>,
    elapsed: int,
    expired: Seq<u64>,
)
    requires
        connections.dom().finite(),
        lists_expired(expired, connections, elapsed),
    ensures
        ticked_connections(connections, elapsed).dom().finite(),
        ticked_connections(connections, elapsed).len() + expired.len() == connections.len(),
{
    let gone = expired.to_set();
    let left = ticked_connections(connections, elapsed).dom();
    assert(expired.no_duplicates());
    expired.unique_seq_to_set();
    assert forall|s: u64| gone.contains(s) <==> #[trigger] expired.contains(s) by {}
    assert(left =~= connections.dom().difference(gone));
    vstd::set_lib::lemma_set_disjoint_lens(left, gone);
    assert(left + gone =~= connections.dom());
}

/// No tester address is registered on two sockets.
pub open spec fn one_socket_per_address(connections: Map<u64, ConnectionView>) -> bool {
    forall|s: u64, t: u64|
        s != t && connections.contains_key(s) && connections.contains_key(t) && (
        #[trigger] connections[s]).address is Some ==> connections[s].address != (
        #[trigger] connections[t]).address
}

/// As long as no routing activation code is forced, a tester address is never registered on two
/// sockets: neither a message, nor opening or closing a socket, nor time passing makes it so.
pub proof fn law_an_address_has_one_socket(
    e: EntityView,
    socket: u64,
    message: Seq<u8>,
    elapsed: int,
)
    requires
        one_socket_per_address(e.connections),
        e.settings.forced_outcome() is None,
    ensures
        one_socket_per_address(tcp_connections(e, socket, message)),
        one_socket_per_address(e.connections.insert(socket, fresh_connection())),
        one_socket_per_address(e.connections.remove(socket)),
        one_socket_per_address(ticked_connections(e.connections, elapsed)),
{
    let connections = noted(e.connections, socket);
    assert(one_socket_per_address(connections));
    let after = tcp_connections(e, socket, message);
    assert forall|s: u64, t: u64|
        s != t && after.contains_key(s) && after.contains_key(t) && (
        #[trigger] after[s]).address is Some implies after[s].address != (
    #[trigger] after[t]).address by {
        assert(connections[s].address == connections[s].address);
        assert(connections[t].address == connections[t].address);
    }
    let left = ticked_connections(e.connections, elapsed);
    assert forall|s: u64, t: u64|
        s != t && left.contains_key(s) && left.contains_key(t) && (
        #[trigger] left[s]).address is Some implies left[s].address != (
    #[trigger] left[t]).address by {
        assert(e.connections[s].address == left[s].address);
        assert(e.connections[t].address == left[t].address);
    }
}

/// A message of an unknown type is refused without closing the socket, and changes no connection.
pub proof fn law_unknown_payload_type_keeps_the_connection(
    e: EntityView,
    socket: u64,
    message: Seq<u8>,
)
    requires
        e.settings.forced_header_code() is None,
        header_error(message, e.settings.limits()) matches Some(
            HeaderNack::UnknownPayloadType { .. },
        ),
    ensures
        tcp_step(e, socket, message) == TcpStepView::React(header_refusal(0x03, 0x01)),
        !header_refusal(0x03, 0x01).close,
        tcp_connections(e, socket, message) == e.connections,
{
}

/// The acknowledgement of a routed message always comes first, and no answer of an ECU closes the
/// socket.
pub proof fn law_acknowledgement_comes_first(
    version: u8,
    source: u16,
    target: u16,
    outcome: RoutingOutcome,
)
    requires
        outcome is Silenced || outcome is Handled,
    ensures
        routed_reaction(version, source, target, outcome).replies.len() > 0,
        routed_reaction(version, source, target, outcome).replies[0] == ack_message(
            version,
            source,
            target,
        ),
        !routed_reaction(version, source, target, outcome).close,
{
}

/// An entity nobody has configured injects nothing: whatever arrives is judged by its own bytes.
pub proof fn law_default_settings_force_nothing()
    ensures
        !default_settings().is_injecting(),
        default_settings().forced_header_code() is None,
        default_settings().forced_outcome() is None,
        default_settings().forced_nack() is None,
{
}

} // verus!
