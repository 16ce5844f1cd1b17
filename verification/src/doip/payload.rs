//! DoIP payload types and their permitted lengths.

use vstd::prelude::*;

verus! {

/// Which message this is. Only the types a vehicle entity implements are listed; anything else is
/// refused, not ignored.
#[derive(Debug, Clone, Copy, PartialEq, Eq, Structural)]
pub enum PayloadType {
    /// `0x0000`: generic header negative acknowledge.
    GenericHeaderNack,
    /// `0x0001`: vehicle identification request.
    VehicleIdentificationRequest,
    /// `0x0002`: vehicle identification request with EID.
    VehicleIdentificationRequestByEid,
    /// `0x0003`: vehicle identification request with VIN.
    VehicleIdentificationRequestByVin,
    /// `0x0004`: vehicle announcement / vehicle identification response.
    VehicleAnnouncement,
    /// `0x0005`: routing activation request.
    RoutingActivationRequest,
    /// `0x0006`: routing activation response.
    RoutingActivationResponse,
    /// `0x0007`: alive check request.
    AliveCheckRequest,
    /// `0x0008`: alive check response.
    AliveCheckResponse,
    /// `0x4001`: DoIP entity status request.
    EntityStatusRequest,
    /// `0x4002`: DoIP entity status response.
    EntityStatusResponse,
    /// `0x4003`: diagnostic power mode information request.
    PowerModeRequest,
    /// `0x4004`: diagnostic power mode information response.
    PowerModeResponse,
    /// `0x8001`: diagnostic message.
    DiagnosticMessage,
    /// `0x8002`: diagnostic message positive acknowledgement.
    DiagnosticMessageAck,
    /// `0x8003`: diagnostic message negative acknowledgement.
    DiagnosticMessageNack,
}

impl PayloadType {
    /// The wire value of a type.
    pub open spec fn code(self) -> u16 {
        match self {
            PayloadType::GenericHeaderNack => 0x0000,
            PayloadType::VehicleIdentificationRequest => 0x0001,
            PayloadType::VehicleIdentificationRequestByEid => 0x0002,
            PayloadType::VehicleIdentificationRequestByVin => 0x0003,
            PayloadType::VehicleAnnouncement => 0x0004,
            PayloadType::RoutingActivationRequest => 0x0005,
            PayloadType::RoutingActivationResponse => 0x0006,
            PayloadType::AliveCheckRequest => 0x0007,
            PayloadType::AliveCheckResponse => 0x0008,
            PayloadType::EntityStatusRequest => 0x4001,
            PayloadType::EntityStatusResponse => 0x4002,
            PayloadType::PowerModeRequest => 0x4003,
            PayloadType::PowerModeResponse => 0x4004,
            PayloadType::DiagnosticMessage => 0x8001,
            PayloadType::DiagnosticMessageAck => 0x8002,
            PayloadType::DiagnosticMessageNack => 0x8003,
        }
    }

    /// The lengths a type can carry. Several types have an optional tail, so two lengths.
    pub open spec fn accepts(self, length: int) -> bool {
        match self {
            PayloadType::GenericHeaderNack => length == 1,
            PayloadType::VehicleIdentificationRequest => length == 0,
            PayloadType::VehicleIdentificationRequestByEid => length == 6,
            PayloadType::VehicleIdentificationRequestByVin => length == 17,
            PayloadType::VehicleAnnouncement => length == 32 || length == 33,
            PayloadType::RoutingActivationRequest => length == 7 || length == 11,
            PayloadType::RoutingActivationResponse => length == 9 || length == 13,
            PayloadType::AliveCheckRequest => length == 0,
            PayloadType::AliveCheckResponse => length == 2,
            PayloadType::EntityStatusRequest => length == 0,
            PayloadType::EntityStatusResponse => length == 3 || length == 7,
            PayloadType::PowerModeRequest => length == 0,
            PayloadType::PowerModeResponse => length == 1,
            PayloadType::DiagnosticMessage => length >= 5,
            PayloadType::DiagnosticMessageAck => length >= 5,
            PayloadType::DiagnosticMessageNack => length >= 5,
        }
    }

    /// The wire value.
    pub fn Code(self) -> (u16Code: u16)
        ensures
            u16Code == self.code(),
    {
        match self {
            PayloadType::GenericHeaderNack => 0x0000,
            PayloadType::VehicleIdentificationRequest => 0x0001,
            PayloadType::VehicleIdentificationRequestByEid => 0x0002,
            PayloadType::VehicleIdentificationRequestByVin => 0x0003,
            PayloadType::VehicleAnnouncement => 0x0004,
            PayloadType::RoutingActivationRequest => 0x0005,
            PayloadType::RoutingActivationResponse => 0x0006,
            PayloadType::AliveCheckRequest => 0x0007,
            PayloadType::AliveCheckResponse => 0x0008,
            PayloadType::EntityStatusRequest => 0x4001,
            PayloadType::EntityStatusResponse => 0x4002,
            PayloadType::PowerModeRequest => 0x4003,
            PayloadType::PowerModeResponse => 0x4004,
            PayloadType::DiagnosticMessage => 0x8001,
            PayloadType::DiagnosticMessageAck => 0x8002,
            PayloadType::DiagnosticMessageNack => 0x8003,
        }
    }

    /// Decode a wire value, or `None` for one this entity does not implement.
    pub fn FromCode(u16Code: u16) -> (optPayloadType: Option<Self>)
        ensures
            match optPayloadType {
                Some(payloadType) => payloadType.code() == u16Code,
                None => is_unknown_code(u16Code),
            },
    {
        let payloadType = match u16Code {
            0x0000 => PayloadType::GenericHeaderNack,
            0x0001 => PayloadType::VehicleIdentificationRequest,
            0x0002 => PayloadType::VehicleIdentificationRequestByEid,
            0x0003 => PayloadType::VehicleIdentificationRequestByVin,
            0x0004 => PayloadType::VehicleAnnouncement,
            0x0005 => PayloadType::RoutingActivationRequest,
            0x0006 => PayloadType::RoutingActivationResponse,
            0x0007 => PayloadType::AliveCheckRequest,
            0x0008 => PayloadType::AliveCheckResponse,
            0x4001 => PayloadType::EntityStatusRequest,
            0x4002 => PayloadType::EntityStatusResponse,
            0x4003 => PayloadType::PowerModeRequest,
            0x4004 => PayloadType::PowerModeResponse,
            0x8001 => PayloadType::DiagnosticMessage,
            0x8002 => PayloadType::DiagnosticMessageAck,
            0x8003 => PayloadType::DiagnosticMessageNack,
            _ => {
                return None;
            },
        };
        Some(payloadType)
    }

    /// True when a payload of this length is one the type can carry.
    pub fn AcceptsPayloadLength(self, u32Length: u32) -> (bAccepts: bool)
        ensures
            bAccepts == self.accepts(u32Length as int),
    {
        match self {
            PayloadType::GenericHeaderNack => u32Length == 1,
            PayloadType::VehicleIdentificationRequest => u32Length == 0,
            PayloadType::VehicleIdentificationRequestByEid => u32Length == 6,
            PayloadType::VehicleIdentificationRequestByVin => u32Length == 17,
            PayloadType::VehicleAnnouncement => u32Length == 32 || u32Length == 33,
            PayloadType::RoutingActivationRequest => u32Length == 7 || u32Length == 11,
            PayloadType::RoutingActivationResponse => u32Length == 9 || u32Length == 13,
            PayloadType::AliveCheckRequest => u32Length == 0,
            PayloadType::AliveCheckResponse => u32Length == 2,
            PayloadType::EntityStatusRequest => u32Length == 0,
            PayloadType::EntityStatusResponse => u32Length == 3 || u32Length == 7,
            PayloadType::PowerModeRequest => u32Length == 0,
            PayloadType::PowerModeResponse => u32Length == 1,
            // Source and target address, then at least one byte of user data: a diagnostic
            // message with no service identifier cannot be routed anywhere.
            PayloadType::DiagnosticMessage => u32Length >= 5,
            PayloadType::DiagnosticMessageAck => u32Length >= 5,
            PayloadType::DiagnosticMessageNack => u32Length >= 5,
        }
    }

    /// True for a message that arrives on the UDP discovery port.
    pub fn IsUdpDiscovery(self) -> (bIsDiscovery: bool)
        ensures
            bIsDiscovery == (self is VehicleIdentificationRequest
                || self is VehicleIdentificationRequestByEid
                || self is VehicleIdentificationRequestByVin || self is EntityStatusRequest
                || self is PowerModeRequest),
    {
        matches!(
            self,
            PayloadType::VehicleIdentificationRequest
                | PayloadType::VehicleIdentificationRequestByEid
                | PayloadType::VehicleIdentificationRequestByVin
                | PayloadType::EntityStatusRequest
                | PayloadType::PowerModeRequest
        )
    }

    /// True for a vehicle identification request in any of its three forms. A tester that has not
    /// yet discovered the vehicle cannot know what version to use, so the version byte of these
    /// is not to be relied on.
    pub fn IsVehicleIdentificationRequest(self) -> (bIsIdentification: bool)
        ensures
            bIsIdentification == (self is VehicleIdentificationRequest
                || self is VehicleIdentificationRequestByEid
                || self is VehicleIdentificationRequestByVin),
    {
        matches!(
            self,
            PayloadType::VehicleIdentificationRequest
                | PayloadType::VehicleIdentificationRequestByEid
                | PayloadType::VehicleIdentificationRequestByVin
        )
    }
}

/// No implemented type has this wire value.
pub open spec fn is_unknown_code(code: u16) -> bool {
    forall|t: PayloadType| (#[trigger] t.code()) != code
}

/// No two payload types share a wire value, so a value names at most one type.
pub proof fn law_codes_are_distinct(a: PayloadType, b: PayloadType)
    ensures
        a.code() == b.code() ==> a == b,
{
}

} // verus!
