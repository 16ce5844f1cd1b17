//! Diagnostic sessions, data identifiers, trouble codes and security levels.

use vstd::prelude::*;

use crate::core_domain::Confidence;

verus! {

/// UDS diagnostic session type: the sub-function of service 0x10 (DiagnosticSessionControl). A
/// running ECU is always in exactly one of these.
#[derive(Debug, Clone, Copy, PartialEq, Eq, Structural, Default)]
pub enum SessionType {
    /// 0x01: the session an ECU powers up in.
    #[default]
    Default,
    /// 0x02: used for reprogramming/flashing.
    Programming,
    /// 0x03: unlocks extended diagnostics.
    Extended,
    /// 0x04: safety-system diagnostics.
    SafetySystem,
}

impl SessionType {
    /// The sub-function byte of a session.
    pub open spec fn sub_function(self) -> u8 {
        match self {
            SessionType::Default => 0x01,
            SessionType::Programming => 0x02,
            SessionType::Extended => 0x03,
            SessionType::SafetySystem => 0x04,
        }
    }

    /// Map to the UDS sub-function byte used on the wire.
    pub fn ToSubFunction(self) -> (bySubFunction: u8)
        ensures
            bySubFunction == self.sub_function(),
    {
        match self {
            SessionType::Default => 0x01,
            SessionType::Programming => 0x02,
            SessionType::Extended => 0x03,
            SessionType::SafetySystem => 0x04,
        }
    }

    /// Map a UDS sub-function byte back to a session type; `None` for unknown values.
    pub fn FromSubFunction(bySubFunction: u8) -> (optSession: Option<SessionType>)
        ensures
            match optSession {
                Some(session) => session.sub_function() == bySubFunction,
                None => forall|session: SessionType|
                    (#[trigger] session.sub_function()) != bySubFunction,
            },
    {
        match bySubFunction {
            0x01 => Some(SessionType::Default),
            0x02 => Some(SessionType::Programming),
            0x03 => Some(SessionType::Extended),
            0x04 => Some(SessionType::SafetySystem),
            _ => None,
        }
    }
}

/// No two sessions share a sub-function byte, so a byte names at most one session.
pub proof fn law_sub_functions_are_distinct(a: SessionType, b: SessionType)
    ensures
        a.sub_function() == b.sub_function() ==> a == b,
{
}

/// A data identifier (DID) and the value the ECU returns for it (service 0x22).
#[derive(Debug, Clone, PartialEq, Eq)]
pub struct DataIdentifier {
    /// 16-bit DID, e.g. 0xF190 (VIN).
    pub m_u16Id: u16,
    /// Raw bytes the ECU reports for this DID.
    pub m_vecValue: Vec<u8>,
    /// How the value was established.
    pub m_confidence: Confidence,
}

/// A stored diagnostic trouble code (reported by service 0x19).
#[derive(Debug, Clone, Copy, PartialEq, Eq, Structural)]
pub struct DiagnosticTroubleCode {
    /// 3-byte DTC packed into a u32, e.g. 0x123456.
    pub m_u32Code: u32,
    /// DTC status byte.
    pub m_byStatus: u8,
    /// How this DTC was established.
    pub m_confidence: Confidence,
}

/// Security-access configuration for a single level (service 0x27): a fixed seed/key pair, so
/// behaviour is deterministic.
#[derive(Debug, Clone, PartialEq, Eq)]
pub struct SecurityLevel {
    /// The requestSeed sub-function that identifies this level (odd value, e.g. 0x01).
    pub m_byRequestSeedSubFunction: u8,
    /// The seed the ECU returns when this level's seed is requested.
    pub m_vecSeed: Vec<u8>,
    /// The key the ECU expects back to unlock this level.
    pub m_vecExpectedKey: Vec<u8>,
}

impl SecurityLevel {
    /// The sendKey sub-function paired with a level: one above requestSeed, wrapping at the end
    /// of the byte.
    pub open spec fn send_key(&self) -> int {
        (self.m_byRequestSeedSubFunction + 1) % 256
    }

    /// The sendKey sub-function paired with this level.
    pub fn SendKeySubFunction(&self) -> (bySubFunction: u8)
        ensures
            bySubFunction == self.send_key(),
    {
        self.m_byRequestSeedSubFunction.wrapping_add(1)
    }
}

} // verus!
