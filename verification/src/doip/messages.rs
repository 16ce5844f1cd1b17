//! The payloads themselves: what each DoIP message carries once the header is off.

use vstd::prelude::*;

use crate::bytes::be16;
use crate::bytes::be16_at;
use crate::bytes::be32;
use crate::bytes::be32_at;
use crate::bytes::law_be16_reads_what_is_written;
use crate::bytes::law_be16_round_trip;
use crate::bytes::law_be32_reads_what_is_written;
use crate::bytes::law_be32_round_trip;
use crate::bytes::AppendBytes;
use crate::bytes::AppendU16;
use crate::bytes::AppendU32;
use crate::bytes::CopyRange;
use crate::bytes::ReadBe16;
use crate::bytes::ReadBe32;
use crate::doip::payload::PayloadType;
use vstd::array::array_as_slice;

verus! {

/// The vehicle announcement / vehicle identification response.
#[derive(Debug, Clone, PartialEq, Eq)]
pub struct VehicleAnnouncement {
    /// Seventeen bytes.
    pub m_arrVin: [u8; 17],
    /// The logical address of the entity that is answering.
    pub m_u16LogicalAddress: u16,
    /// Entity identification: six bytes, conventionally the MAC.
    pub m_arrEid: [u8; 6],
    /// Group identification: six bytes shared by every entity of one vehicle.
    pub m_arrGid: [u8; 6],
    /// `0x00` no further action; `0x10` routing activation required for central security.
    pub m_byFurtherActionRequired: u8,
    /// `0x00` synchronized, `0x10` not. Left out the payload is 32 bytes rather than 33, and a
    /// tester can see the difference.
    pub m_optBySyncStatus: Option<u8>,
}

impl VehicleAnnouncement {
    /// The payload of an announcement.
    pub open spec fn bytes(&self) -> Seq<u8> {
        self.m_arrVin@ + be16(self.m_u16LogicalAddress as int) + self.m_arrEid@ + self.m_arrGid@
            + seq![self.m_byFurtherActionRequired] + (match self.m_optBySyncStatus {
            Some(status) => seq![status],
            None => seq![],
        })
    }

    /// Serialize the payload.
    pub fn ToBytes(&self) -> (vecPayload: Vec<u8>)
        ensures
            vecPayload@ == self.bytes(),
            vecPayload@.len() == (if self.m_optBySyncStatus is Some {
                33
            } else {
                32int
            }),
    {
        let mut vecPayload: Vec<u8> = Vec::new();
        AppendBytes(&mut vecPayload, array_as_slice(&self.m_arrVin));
        assert(vecPayload@ =~= self.m_arrVin@);
        AppendU16(&mut vecPayload, self.m_u16LogicalAddress);
        AppendBytes(&mut vecPayload, array_as_slice(&self.m_arrEid));
        AppendBytes(&mut vecPayload, array_as_slice(&self.m_arrGid));
        vecPayload.push(self.m_byFurtherActionRequired);
        if let Some(bySyncStatus) = self.m_optBySyncStatus {
            vecPayload.push(bySyncStatus);
        }
        assert(vecPayload@ =~= self.bytes());
        vecPayload
    }
}

/// The routing activation request.
#[derive(Debug, Clone, Copy, PartialEq, Eq, Structural)]
pub struct RoutingActivationRequest {
    /// The tester's logical address, and the source address it will use from now on.
    pub m_u16SourceAddress: u16,
    /// `0x00` default, `0x01` required by regulation, `0xE0` central security.
    pub m_byActivationType: u8,
    /// Four reserved bytes.
    pub m_u32ReservedIso: u32,
    /// The optional manufacturer-specific tail, present when the payload is 11 bytes.
    pub m_optU32ReservedOem: Option<u32>,
}

impl RoutingActivationRequest {
    /// The payload of a request.
    pub open spec fn bytes(&self) -> Seq<u8> {
        be16(self.m_u16SourceAddress as int) + seq![self.m_byActivationType] + be32(
            self.m_u32ReservedIso as int,
        ) + (match self.m_optU32ReservedOem {
            Some(tail) => be32(tail as int),
            None => seq![],
        })
    }

    /// Read the payload. `None` when it is not one of the two conformant lengths.
    pub fn FromBytes(vecPayload: &[u8]) -> (optRequest: Option<Self>)
        ensures
            match optRequest {
                Some(request) => request.bytes() == vecPayload@,
                None => vecPayload@.len() != 7 && vecPayload@.len() != 11,
            },
    {
        if vecPayload.len() != 7 && vecPayload.len() != 11 {
            return None;
        }
        let request = RoutingActivationRequest {
            m_u16SourceAddress: ReadBe16(vecPayload, 0),
            m_byActivationType: vecPayload[2],
            m_u32ReservedIso: ReadBe32(vecPayload, 3),
            m_optU32ReservedOem: if vecPayload.len() == 11 {
                Some(ReadBe32(vecPayload, 7))
            } else {
                None
            },
        };
        proof {
            law_be16_reads_what_is_written(vecPayload@, 0);
            law_be32_reads_what_is_written(vecPayload@, 3);
            if vecPayload@.len() == 11 {
                law_be32_reads_what_is_written(vecPayload@, 7);
            }
            assert(request.bytes() =~= vecPayload@);
        }
        Some(request)
    }
}

/// A payload determines the request it carries.
pub proof fn law_routing_request_is_determined(
    a: RoutingActivationRequest,
    b: RoutingActivationRequest,
)
    requires
        a.bytes() == b.bytes(),
    ensures
        a == b,
{
    law_routing_request_layout(a);
    law_routing_request_layout(b);
}

/// The fields of a request stand at fixed places of its payload.
pub proof fn law_routing_request_layout(a: RoutingActivationRequest)
    ensures
        be16_at(a.bytes(), 0) == a.m_u16SourceAddress,
        a.bytes()[2] == a.m_byActivationType,
        be32_at(a.bytes(), 3) == a.m_u32ReservedIso,
        a.bytes().len() == (if a.m_optU32ReservedOem is Some {
            11
        } else {
            7int
        }),
        a.m_optU32ReservedOem is Some ==> be32_at(a.bytes(), 7) == a.m_optU32ReservedOem->0,
{
    let x = a.bytes();
    let address = be16(a.m_u16SourceAddress as int);
    let reserved = be32(a.m_u32ReservedIso as int);
    law_be16_round_trip(a.m_u16SourceAddress);
    law_be32_round_trip(a.m_u32ReservedIso);
    assert(x[0] == address[0] && x[1] == address[1]);
    assert(x[3] == reserved[0] && x[4] == reserved[1] && x[5] == reserved[2] && x[6]
        == reserved[3]);
    if let Some(tail) = a.m_optU32ReservedOem {
        let oem = be32(tail as int);
        law_be32_round_trip(tail);
        assert(x[7] == oem[0] && x[8] == oem[1] && x[9] == oem[2] && x[10] == oem[3]);
    }
}

/// What the entity decided about a routing activation request.
#[derive(Debug, Clone, Copy, PartialEq, Eq, Structural)]
pub enum RoutingActivationOutcome {
    /// `0x00`: the source address is not one this entity accepts.
    DeniedUnknownSourceAddress,
    /// `0x01`: every socket is registered and active.
    DeniedAllSocketsRegistered,
    /// `0x02`: this socket is already activated with a different source address.
    DeniedSourceAddressMismatch,
    /// `0x03`: that source address is already active on another socket.
    DeniedSourceAddressInUse,
    /// `0x04`: authentication is required and has not happened. The only denial that leaves the
    /// socket open.
    DeniedMissingAuthentication,
    /// `0x06`: the activation type is not one this entity supports.
    DeniedUnsupportedActivationType,
    /// `0x10`: routing is active.
    Activated,
}

impl RoutingActivationOutcome {
    /// The response code byte.
    pub open spec fn code(self) -> u8 {
        match self {
            RoutingActivationOutcome::DeniedUnknownSourceAddress => 0x00,
            RoutingActivationOutcome::DeniedAllSocketsRegistered => 0x01,
            RoutingActivationOutcome::DeniedSourceAddressMismatch => 0x02,
            RoutingActivationOutcome::DeniedSourceAddressInUse => 0x03,
            RoutingActivationOutcome::DeniedMissingAuthentication => 0x04,
            RoutingActivationOutcome::DeniedUnsupportedActivationType => 0x06,
            RoutingActivationOutcome::Activated => 0x10,
        }
    }

    /// The socket is closed after the response: for every denial but `0x04`.
    pub open spec fn closes(self) -> bool {
        self !is Activated && self !is DeniedMissingAuthentication
    }

    /// The response code byte.
    pub fn Code(self) -> (byCode: u8)
        ensures
            byCode == self.code(),
    {
        match self {
            RoutingActivationOutcome::DeniedUnknownSourceAddress => 0x00,
            RoutingActivationOutcome::DeniedAllSocketsRegistered => 0x01,
            RoutingActivationOutcome::DeniedSourceAddressMismatch => 0x02,
            RoutingActivationOutcome::DeniedSourceAddressInUse => 0x03,
            RoutingActivationOutcome::DeniedMissingAuthentication => 0x04,
            RoutingActivationOutcome::DeniedUnsupportedActivationType => 0x06,
            RoutingActivationOutcome::Activated => 0x10,
        }
    }

    /// The outcome a response code stands for, or `None` for one this entity cannot send.
    pub fn FromCode(byCode: u8) -> (optOutcome: Option<Self>)
        ensures
            optOutcome == outcome_of(byCode),
    {
        match byCode {
            0x00 => Some(RoutingActivationOutcome::DeniedUnknownSourceAddress),
            0x01 => Some(RoutingActivationOutcome::DeniedAllSocketsRegistered),
            0x02 => Some(RoutingActivationOutcome::DeniedSourceAddressMismatch),
            0x03 => Some(RoutingActivationOutcome::DeniedSourceAddressInUse),
            0x04 => Some(RoutingActivationOutcome::DeniedMissingAuthentication),
            0x06 => Some(RoutingActivationOutcome::DeniedUnsupportedActivationType),
            0x10 => Some(RoutingActivationOutcome::Activated),
            _ => None,
        }
    }

    /// True when routing is now active on this socket.
    pub fn IsActivated(self) -> (bIsActivated: bool)
        ensures
            bIsActivated == (self is Activated),
    {
        matches!(self, RoutingActivationOutcome::Activated)
    }

    /// Whether the socket must be closed after the response goes out. Every denial closes except
    /// `0x04`, whose connection stays so authentication can proceed on it.
    pub fn ClosesSocket(self) -> (bCloses: bool)
        ensures
            bCloses == self.closes(),
    {
        !matches!(
            self,
            RoutingActivationOutcome::Activated
                | RoutingActivationOutcome::DeniedMissingAuthentication
        )
    }
}

/// The outcome a response code stands for.
pub open spec fn outcome_of(code: u8) -> Option<RoutingActivationOutcome> {
    if code == 0x00 {
        Some(RoutingActivationOutcome::DeniedUnknownSourceAddress)
    } else if code == 0x01 {
        Some(RoutingActivationOutcome::DeniedAllSocketsRegistered)
    } else if code == 0x02 {
        Some(RoutingActivationOutcome::DeniedSourceAddressMismatch)
    } else if code == 0x03 {
        Some(RoutingActivationOutcome::DeniedSourceAddressInUse)
    } else if code == 0x04 {
        Some(RoutingActivationOutcome::DeniedMissingAuthentication)
    } else if code == 0x06 {
        Some(RoutingActivationOutcome::DeniedUnsupportedActivationType)
    } else if code == 0x10 {
        Some(RoutingActivationOutcome::Activated)
    } else {
        None
    }
}

/// Response codes and outcomes correspond: an outcome is found again by its code, and a code that
/// names an outcome is that outcome's own.
pub proof fn law_outcome_codes_correspond(outcome: RoutingActivationOutcome, code: u8)
    ensures
        outcome_of(outcome.code()) == Some(outcome),
        outcome_of(code) == Some(outcome) ==> outcome.code() == code,
{
}

/// A routing activation response: tester address, entity address, response code, four reserved
/// bytes.
pub open spec fn routing_response_bytes(tester: u16, entity: u16, code: u8) -> Seq<u8> {
    be16(tester as int) + be16(entity as int) + seq![code] + be32(0)
}

/// Build a routing activation response payload.
pub fn BuildRoutingActivationResponse(
    u16TesterAddress: u16,
    u16EntityAddress: u16,
    outcome: RoutingActivationOutcome,
) -> (vecPayload: Vec<u8>)
    ensures
        vecPayload@ == routing_response_bytes(
            u16TesterAddress,
            u16EntityAddress,
            outcome.code(),
        ),
{
    let mut vecPayload: Vec<u8> = Vec::new();
    AppendU16(&mut vecPayload, u16TesterAddress);
    AppendU16(&mut vecPayload, u16EntityAddress);
    vecPayload.push(outcome.Code());
    AppendU32(&mut vecPayload, 0);
    assert(vecPayload@ =~= routing_response_bytes(
        u16TesterAddress,
        u16EntityAddress,
        outcome.code(),
    ));
    vecPayload
}

/// A diagnostic message: the UDS payload with its addresses.
#[derive(Debug, Clone, PartialEq, Eq)]
pub struct DiagnosticMessage {
    /// The sender's logical address.
    pub m_u16SourceAddress: u16,
    /// The intended receiver's logical address.
    pub m_u16TargetAddress: u16,
    /// The UDS payload. There is no segmentation here: TCP delivers the whole message.
    pub m_vecUserData: Vec<u8>,
}

/// A diagnostic message payload.
pub open spec fn diagnostic_bytes(source: u16, target: u16, data: Seq<u8>) -> Seq<u8> {
    be16(source as int) + be16(target as int) + data
}

impl DiagnosticMessage {
    /// The payload of a diagnostic message.
    pub open spec fn bytes(&self) -> Seq<u8> {
        diagnostic_bytes(self.m_u16SourceAddress, self.m_u16TargetAddress, self.m_vecUserData@)
    }

    /// Read the payload; `None` without at least one byte of user data.
    pub fn FromBytes(vecPayload: &[u8]) -> (optMessage: Option<Self>)
        ensures
            match optMessage {
                Some(message) => vecPayload@.len() >= 5 && message.m_u16SourceAddress == be16_at(
                    vecPayload@,
                    0,
                ) && message.m_u16TargetAddress == be16_at(vecPayload@, 2)
                    && message.m_vecUserData@ == vecPayload@.skip(4),
                None => vecPayload@.len() < 5,
            },
    {
        if vecPayload.len() < 5 {
            return None;
        }
        let message = DiagnosticMessage {
            m_u16SourceAddress: ReadBe16(vecPayload, 0),
            m_u16TargetAddress: ReadBe16(vecPayload, 2),
            m_vecUserData: CopyRange(vecPayload, 4, vecPayload.len()),
        };
        assert(message.m_vecUserData@ =~= vecPayload@.skip(4));
        Some(message)
    }

    /// Serialize the payload.
    pub fn ToBytes(&self) -> (vecPayload: Vec<u8>)
        ensures
            vecPayload@ == self.bytes(),
    {
        let mut vecPayload: Vec<u8> = Vec::new();
        AppendU16(&mut vecPayload, self.m_u16SourceAddress);
        AppendU16(&mut vecPayload, self.m_u16TargetAddress);
        AppendBytes(&mut vecPayload, self.m_vecUserData.as_slice());
        assert(vecPayload@ =~= self.bytes());
        vecPayload
    }
}

/// A diagnostic message with user data reads back with its addresses and user data intact.
pub proof fn law_diagnostic_message_reads_back(source: u16, target: u16, data: Seq<u8>)
    ensures
        diagnostic_bytes(source, target, data).len() == 4 + data.len(),
        be16_at(diagnostic_bytes(source, target, data), 0) == source,
        be16_at(diagnostic_bytes(source, target, data), 2) == target,
        diagnostic_bytes(source, target, data).skip(4) == data,
{
    assert(diagnostic_bytes(source, target, data).skip(4) =~= data);
}

/// Why a diagnostic message could not be routed.
#[derive(Debug, Clone, Copy, PartialEq, Eq, Structural)]
pub enum DiagnosticNack {
    /// `0x02`: the message's source address is not the one activated on this socket.
    InvalidSourceAddress,
    /// `0x03`: no server is known at that target address.
    UnknownTargetAddress,
    /// `0x04`: too large for the target network's transport.
    MessageTooLarge,
    /// `0x05`: the destination buffer could not be provided.
    OutOfMemory,
    /// `0x06`: the target exists but cannot be reached right now.
    TargetUnreachable,
}

impl DiagnosticNack {
    /// The NACK code byte.
    pub open spec fn code(self) -> u8 {
        match self {
            DiagnosticNack::InvalidSourceAddress => 0x02,
            DiagnosticNack::UnknownTargetAddress => 0x03,
            DiagnosticNack::MessageTooLarge => 0x04,
            DiagnosticNack::OutOfMemory => 0x05,
            DiagnosticNack::TargetUnreachable => 0x06,
        }
    }

    /// The NACK code byte.
    pub fn Code(self) -> (byCode: u8)
        ensures
            byCode == self.code(),
    {
        match self {
            DiagnosticNack::InvalidSourceAddress => 0x02,
            DiagnosticNack::UnknownTargetAddress => 0x03,
            DiagnosticNack::MessageTooLarge => 0x04,
            DiagnosticNack::OutOfMemory => 0x05,
            DiagnosticNack::TargetUnreachable => 0x06,
        }
    }

    /// The NACK a code stands for, or `None` for one that is not defined.
    pub fn FromCode(byCode: u8) -> (optNack: Option<Self>)
        ensures
            optNack == diagnostic_nack_of(byCode),
    {
        match byCode {
            0x02 => Some(DiagnosticNack::InvalidSourceAddress),
            0x03 => Some(DiagnosticNack::UnknownTargetAddress),
            0x04 => Some(DiagnosticNack::MessageTooLarge),
            0x05 => Some(DiagnosticNack::OutOfMemory),
            0x06 => Some(DiagnosticNack::TargetUnreachable),
            _ => None,
        }
    }

    /// Whether the socket must be closed after this NACK: only for `0x02`.
    pub fn ClosesSocket(self) -> (bCloses: bool)
        ensures
            bCloses == (self is InvalidSourceAddress),
    {
        matches!(self, DiagnosticNack::InvalidSourceAddress)
    }
}

/// The NACK a code stands for.
pub open spec fn diagnostic_nack_of(code: u8) -> Option<DiagnosticNack> {
    if code == 0x02 {
        Some(DiagnosticNack::InvalidSourceAddress)
    } else if code == 0x03 {
        Some(DiagnosticNack::UnknownTargetAddress)
    } else if code == 0x04 {
        Some(DiagnosticNack::MessageTooLarge)
    } else if code == 0x05 {
        Some(DiagnosticNack::OutOfMemory)
    } else if code == 0x06 {
        Some(DiagnosticNack::TargetUnreachable)
    } else {
        None
    }
}

/// NACK codes and NACKs correspond: a NACK is found again by its code, and a code that names a
/// NACK is that NACK's own.
pub proof fn law_diagnostic_nack_codes_correspond(nack: DiagnosticNack, code: u8)
    ensures
        diagnostic_nack_of(nack.code()) == Some(nack),
        diagnostic_nack_of(code) == Some(nack) ==> nack.code() == code,
{
}

/// An acknowledgement payload. The addresses are swapped relative to the message being
/// acknowledged: its source is the intended receiver of that message, its target the sender.
pub open spec fn ack_bytes(request_source: u16, request_target: u16, code: u8) -> Seq<u8> {
    be16(request_target as int) + be16(request_source as int) + seq![code]
}

/// Build a diagnostic message acknowledgement or negative acknowledgement, swapping the addresses
/// of the message it acknowledges.
pub fn BuildDiagnosticAck(request: &DiagnosticMessage, byCode: u8) -> (vecPayload: Vec<u8>)
    ensures
        vecPayload@ == ack_bytes(
            request.m_u16SourceAddress,
            request.m_u16TargetAddress,
            byCode,
        ),
{
    let mut vecPayload: Vec<u8> = Vec::new();
    AppendU16(&mut vecPayload, request.m_u16TargetAddress);
    AppendU16(&mut vecPayload, request.m_u16SourceAddress);
    vecPayload.push(byCode);
    assert(vecPayload@ =~= ack_bytes(
        request.m_u16SourceAddress,
        request.m_u16TargetAddress,
        byCode,
    ));
    vecPayload
}

/// The acknowledgement code: "routed and put into the destination transmission buffer". It means
/// routed, never accepted.
pub const c_byAckRoutingConfirmation: u8 = 0x00;

/// The entity status response.
#[derive(Debug, Clone, Copy, PartialEq, Eq, Structural)]
pub struct EntityStatus {
    /// `0x00` gateway, `0x01` node.
    pub m_byNodeType: u8,
    /// How many concurrent TCP data sockets this entity supports, without the reserve socket.
    pub m_byMaxSockets: u8,
    /// How many are open right now.
    pub m_byOpenSockets: u8,
    /// The maximum data size, when the entity reports one.
    pub m_optU32MaxDataSize: Option<u32>,
}

impl EntityStatus {
    /// The payload of a status.
    pub open spec fn bytes(&self) -> Seq<u8> {
        seq![self.m_byNodeType, self.m_byMaxSockets, self.m_byOpenSockets] + (
        match self.m_optU32MaxDataSize {
            Some(size) => be32(size as int),
            None => seq![],
        })
    }

    /// Serialize the payload.
    pub fn ToBytes(&self) -> (vecPayload: Vec<u8>)
        ensures
            vecPayload@ == self.bytes(),
    {
        let mut vecPayload: Vec<u8> = Vec::new();
        vecPayload.push(self.m_byNodeType);
        vecPayload.push(self.m_byMaxSockets);
        vecPayload.push(self.m_byOpenSockets);
        if let Some(u32MaxDataSize) = self.m_optU32MaxDataSize {
            AppendU32(&mut vecPayload, u32MaxDataSize);
        }
        assert(vecPayload@ =~= self.bytes());
        vecPayload
    }
}

/// Node type: an entity that routes to other networks.
pub const c_byNodeTypeGateway: u8 = 0x00;

/// Diagnostic power mode: `0x00` not ready, `0x01` ready, `0x02` not supported.
pub const c_byPowerModeReady: u8 = 0x01;

/// The alive check response payload: the source address active on the socket.
pub fn BuildAliveCheckResponse(u16SourceAddress: u16) -> (vecPayload: Vec<u8>)
    ensures
        vecPayload@ == be16(u16SourceAddress as int),
{
    let mut vecPayload: Vec<u8> = Vec::new();
    AppendU16(&mut vecPayload, u16SourceAddress);
    assert(vecPayload@ =~= be16(u16SourceAddress as int));
    vecPayload
}

/// True for a logical address in the functional (broadcast) range.
pub fn IsFunctionalAddress(u16Address: u16) -> (bIsFunctional: bool)
    ensures
        bIsFunctional == (0xE000 <= u16Address <= 0xEFFF),
{
    0xE000 <= u16Address && u16Address <= 0xEFFF
}

/// The payload type an outcome is sent as.
pub fn AckPayloadType(bIsPositive: bool) -> (payloadType: PayloadType)
    ensures
        payloadType == (if bIsPositive {
            PayloadType::DiagnosticMessageAck
        } else {
            PayloadType::DiagnosticMessageNack
        }),
{
    if bIsPositive {
        PayloadType::DiagnosticMessageAck
    } else {
        PayloadType::DiagnosticMessageNack
    }
}

} // verus!
