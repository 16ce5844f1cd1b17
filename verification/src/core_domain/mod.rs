//! The unified vehicle model and the rules that operate on it: sessions, timing, CAN addressing,
//! user-defined answers, ECUs and how they are wired together.

pub mod address;
pub mod ecu;
pub mod identity;
pub mod model_laws;
pub mod override_laws;
pub mod overrides;
pub mod ranking;
pub mod reach;
pub mod reach_laws;
pub mod session;
pub mod timing;
pub mod topology;
pub mod wiring_laws;

use vstd::prelude::*;
use vstd::string::StringExecFns;

verus! {

/// Domain-level error.
#[derive(Debug, Clone, PartialEq, Eq)]
pub enum DomainError {
    /// A value violated a domain invariant.
    Invalid(String),
}

impl DomainError {
    /// What the error says.
    pub fn Message(&self) -> (strMessage: String)
        ensures
            match self {
                DomainError::Invalid(detail) => strMessage@ == "invalid domain state: "@ + detail@,
            },
    {
        match self {
            DomainError::Invalid(strDetail) => {
                let mut strMessage = "invalid domain state: ".to_string();
                strMessage.append(strDetail.as_str());
                strMessage
            },
        }
    }
}

/// Confidence attached to a reconstructed fact.
#[derive(Debug, Clone, Copy, PartialEq, Eq, Structural)]
pub enum Confidence {
    /// Known for certain (e.g. from a specification or a confirmed handshake).
    Confirmed,
    /// Directly seen in a trace.
    Observed,
    /// Deduced, not directly seen.
    Inferred,
    /// Not known.
    Unknown,
    /// Sources disagree.
    Conflict,
}

} // verus!
