//! The protocol port: what a diagnostic protocol is told and what it answers.

use vstd::prelude::*;

verus! {

/// A data identifier as a protocol sees it.
#[derive(Debug, Clone, PartialEq, Eq)]
pub struct SnapshotDid {
    /// 16-bit identifier.
    pub m_u16Id: u16,
    /// The value the ECU reports for it.
    pub m_vecValue: Vec<u8>,
}

/// A stored trouble code as a protocol sees it.
#[derive(Debug, Clone, Copy, PartialEq, Eq, Structural)]
pub struct SnapshotDtc {
    /// 3-byte DTC packed into a u32.
    pub m_u32Code: u32,
    /// DTC status byte.
    pub m_byStatus: u8,
}

/// A security level as a protocol sees it.
#[derive(Debug, Clone, PartialEq, Eq)]
pub struct SnapshotSecurityLevel {
    /// The requestSeed sub-function that identifies the level.
    pub m_byRequestSeedSubFunction: u8,
    /// The seed the ECU returns.
    pub m_vecSeed: Vec<u8>,
    /// The key the ECU expects back.
    pub m_vecExpectedKey: Vec<u8>,
}

/// Everything a protocol needs to know to answer one request: the ECU's configuration and its
/// live state at that moment.
#[derive(Debug, Clone, PartialEq, Eq)]
pub struct EcuSnapshot {
    /// Current session as its sub-function byte.
    pub m_byCurrentSession: u8,
    /// Currently unlocked security level (0 = locked).
    pub m_bySecurityUnlockedLevel: u8,
    /// Security level for which a seed was most recently issued (0 = none outstanding).
    pub m_byActiveSeedLevel: u8,
    /// Request service identifiers the ECU supports.
    pub m_vecSupportedServices: Vec<u8>,
    /// Sessions the ECU can enter, as sub-function bytes.
    pub m_vecSupportedSessions: Vec<u8>,
    /// Data identifiers, in ascending order.
    pub m_vecDids: Vec<SnapshotDid>,
    /// Stored trouble codes.
    pub m_vecDtcs: Vec<SnapshotDtc>,
    /// Security levels.
    pub m_vecSecurityLevels: Vec<SnapshotSecurityLevel>,
}

/// One change a protocol asks the ECU to make to its live state.
#[derive(Debug, Clone, Copy, PartialEq, Eq, Structural)]
pub enum StateChange {
    /// Enter the session with this sub-function byte.
    SetSession(u8),
    /// The ECU was reset: return to the default session.
    ResetToDefaultSession,
    /// A seed was issued for this level (0 = none outstanding).
    SetActiveSeedLevel(u8),
    /// This level is now unlocked (0 = relock).
    UnlockSecurity(u8),
    /// A change this engine does not understand; ignored.
    Unknown { byKind: u8 },
}

/// A protocol's answer to one request.
#[derive(Debug, Clone, PartialEq, Eq)]
pub struct ProtocolOutcome {
    /// The response bytes; empty when the response is suppressed.
    pub m_vecResponse: Vec<u8>,
    /// The state changes to apply, in order.
    pub m_vecChanges: Vec<StateChange>,
}

/// A diagnostic protocol that answers requests on behalf of an ECU.
pub trait ProtocolHandler {
    /// Answer one request given the state of the ECU.
    fn Handle(&self, vecRequest: Vec<u8>, snapshot: EcuSnapshot) -> ProtocolOutcome;

    /// What the protocol is called.
    fn Name(&self) -> &str;
}

} // verus!
