//! What the DoIP entity says about itself, and what it can be made to say instead.
//!
//! The entity's genuine parameters, and the fault injection that makes it answer something a
//! healthy entity would not.

use vstd::prelude::*;

use crate::doip::header::HeaderLimits;
use crate::doip::messages::c_byNodeTypeGateway;
use crate::doip::messages::c_byPowerModeReady;
use crate::doip::messages::diagnostic_nack_of;
use crate::doip::messages::outcome_of;
use crate::doip::messages::DiagnosticNack;
use crate::doip::messages::RoutingActivationOutcome;

verus! {

/// How many concurrent TCP data sockets the entity serves by default. This is what is reported to
/// a tester; one more is always kept free for socket handling.
pub const c_uDefaultMaxConnections: u8 = 4;

/// The entity's maximum data size, reported in the entity status response and used for the
/// generic header's "message too large" check.
pub const c_u32DefaultMaxDataSize: u32 = 4096;

/// The parameters and fault injection of one DoIP entity.
#[derive(Debug, Clone, Copy, PartialEq, Eq)]
pub struct DoIpSettings {
    /// Diagnostic power mode: `0x00` not ready, `0x01` ready, `0x02` not supported.
    pub m_byPowerMode: u8,
    /// Entity status node type: `0x00` gateway, `0x01` node.
    pub m_byNodeType: u8,
    /// Concurrent TCP data sockets reported to a tester, without the reserve socket.
    pub m_byMaxSockets: u8,
    /// The maximum data size reported, and enforced by the header check. The two must agree: a
    /// tester that reads this and then sends a message that size expects it to be accepted.
    pub m_u32MaxDataSize: u32,
    /// Answer nothing to a vehicle identification request.
    pub m_bSuppressIdentificationResponse: bool,
    /// Answer every routing activation with this response code instead of deciding. A code that
    /// is not a response code of this entity forces nothing.
    pub m_optByForcedRoutingActivationCode: Option<u8>,
    /// Negatively acknowledge every diagnostic message with this code instead of routing it. A
    /// code that is not defined forces nothing.
    pub m_optByForcedDiagnosticNack: Option<u8>,
    /// Refuse every message with this generic header NACK code, before it is even dispatched. A
    /// code that is not defined forces nothing.
    pub m_optByForcedHeaderNack: Option<u8>,
}

/// The settings of an entity nobody has configured.
pub open spec fn default_settings() -> DoIpSettings {
    DoIpSettings {
        m_byPowerMode: 0x01,
        m_byNodeType: 0x00,
        m_byMaxSockets: 4,
        m_u32MaxDataSize: 4096,
        m_bSuppressIdentificationResponse: false,
        m_optByForcedRoutingActivationCode: None,
        m_optByForcedDiagnosticNack: None,
        m_optByForcedHeaderNack: None,
    }
}

impl Default for DoIpSettings {
    fn default() -> (settings: Self)
        ensures
            settings == default_settings(),
    {
        DoIpSettings {
            m_byPowerMode: c_byPowerModeReady,
            m_byNodeType: c_byNodeTypeGateway,
            m_byMaxSockets: c_uDefaultMaxConnections,
            m_u32MaxDataSize: c_u32DefaultMaxDataSize,
            m_bSuppressIdentificationResponse: false,
            m_optByForcedRoutingActivationCode: None,
            m_optByForcedDiagnosticNack: None,
            m_optByForcedHeaderNack: None,
        }
    }
}

impl DoIpSettings {
    /// Something is set that makes the entity behave as a healthy one would not.
    pub open spec fn is_injecting(&self) -> bool {
        ||| self.m_bSuppressIdentificationResponse
        ||| self.m_optByForcedRoutingActivationCode is Some
        ||| self.m_optByForcedDiagnosticNack is Some
        ||| self.m_optByForcedHeaderNack is Some
    }

    /// True when a fault is being injected. Used to say so on screen: an entity quietly refusing
    /// everything because a setting was left on is confusing.
    pub fn IsInjectingFaults(&self) -> (bIsInjecting: bool)
        ensures
            bIsInjecting == self.is_injecting(),
    {
        self.m_bSuppressIdentificationResponse || self.m_optByForcedRoutingActivationCode.is_some()
            || self.m_optByForcedDiagnosticNack.is_some() || self.m_optByForcedHeaderNack.is_some()
    }

    /// The limits incoming messages are held to.
    pub open spec fn limits(&self) -> HeaderLimits {
        HeaderLimits {
            m_u32MaxDataSize: self.m_u32MaxDataSize,
            m_u32AvailableMemory: self.m_u32MaxDataSize,
        }
    }

    /// The limits incoming messages are held to: what is reported is what is accepted.
    pub fn Limits(&self) -> (limits: HeaderLimits)
        ensures
            limits == self.limits(),
    {
        HeaderLimits {
            m_u32MaxDataSize: self.m_u32MaxDataSize,
            m_u32AvailableMemory: self.m_u32MaxDataSize,
        }
    }

    /// The routing activation outcome that is forced, if one is.
    pub open spec fn forced_outcome(&self) -> Option<RoutingActivationOutcome> {
        match self.m_optByForcedRoutingActivationCode {
            Some(code) => outcome_of(code),
            None => None,
        }
    }

    /// The routing activation outcome that is forced, if one is.
    pub fn ForcedOutcome(&self) -> (optOutcome: Option<RoutingActivationOutcome>)
        ensures
            optOutcome == self.forced_outcome(),
    {
        match self.m_optByForcedRoutingActivationCode {
            Some(byCode) => RoutingActivationOutcome::FromCode(byCode),
            None => None,
        }
    }

    /// The diagnostic NACK that is forced, if one is.
    pub open spec fn forced_nack(&self) -> Option<DiagnosticNack> {
        match self.m_optByForcedDiagnosticNack {
            Some(code) => diagnostic_nack_of(code),
            None => None,
        }
    }

    /// The diagnostic NACK that is forced, if one is.
    pub fn ForcedNack(&self) -> (optNack: Option<DiagnosticNack>)
        ensures
            optNack == self.forced_nack(),
    {
        match self.m_optByForcedDiagnosticNack {
            Some(byCode) => DiagnosticNack::FromCode(byCode),
            None => None,
        }
    }

    /// The generic header NACK code that is forced, if one is: `0x00` to `0x04` are defined.
    pub open spec fn forced_header_code(&self) -> Option<u8> {
        match self.m_optByForcedHeaderNack {
            Some(code) => if code <= 0x04 {
                Some(code)
            } else {
                None
            },
            None => None,
        }
    }

    /// The generic header NACK code that is forced, if one is.
    pub fn ForcedHeaderCode(&self) -> (optByCode: Option<u8>)
        ensures
            optByCode == self.forced_header_code(),
    {
        match self.m_optByForcedHeaderNack {
            Some(byCode) if byCode <= 0x04 => Some(byCode),
            _ => None,
        }
    }
}

} // verus!
