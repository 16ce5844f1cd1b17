//! What routing a request into the simulated vehicle comes to, and when its answers go out.

pub mod due_laws;
pub mod timeline;

use vstd::prelude::*;

use crate::ecu::schedule::ResponsePlan;

verus! {

/// What one ECU made of a request.
#[derive(Debug, Clone, PartialEq, Eq)]
pub struct RoutedResponse {
    /// The ECU that answered.
    pub m_strEcuName: String,
    /// The CAN identifier it was asked on.
    pub m_u32RequestCanId: u32,
    /// The CAN identifier it answers on.
    pub m_u32ResponseCanId: u32,
    /// The UDS response. Empty when the positive response was suppressed.
    pub m_vecResponse: Vec<u8>,
    /// The diagnostic session afterwards.
    pub m_bySession: u8,
    /// Whether a security level is unlocked afterwards.
    pub m_bIsSecurityUnlocked: bool,
    /// The messages that go on the wire, and when.
    pub m_plan: ResponsePlan,
}

impl RoutedResponse {
    /// Nothing goes on the wire for this request: the response was suppressed, or withheld with
    /// nothing sent before it.
    pub open spec fn is_suppressed(&self) -> bool {
        self.m_plan.m_vecSteps@.len() == 0
    }

    /// True when the ECU stays quiet about this request.
    pub fn IsSuppressed(&self) -> (bIsSuppressed: bool)
        ensures
            bIsSuppressed == self.is_suppressed(),
    {
        self.m_plan.m_vecSteps.len() == 0
    }
}

/// What became of a request handed to the simulated vehicle.
#[derive(Debug, Clone, PartialEq, Eq)]
pub enum RoutingOutcome {
    /// The simulation is not running.
    Stopped,
    /// No ECU listens on that address.
    NoTarget,
    /// The request does not fit the transport of the network its target is on.
    TooLargeForSubnetwork { uRequestBytes: usize, uMaxBytes: usize, strEcuName: String },
    /// The target exists and is off the air.
    Silenced { strEcuName: String, strReason: String },
    /// These ECUs took the request.
    Handled(Vec<RoutedResponse>),
}

} // verus!
