//! How an ECU is addressed on CAN.

use vstd::prelude::*;

use crate::core_domain::Confidence;

verus! {

/// How an ECU is addressed on CAN.
#[derive(Debug, Clone, Copy, PartialEq, Eq, Structural, Default)]
pub enum CanAddressingMode {
    /// Normal 11-bit addressing: one CAN identifier per direction, no address byte.
    #[default]
    Normal11Bit,
    /// Normal fixed 29-bit addressing: 0x18DA<target><source>, tester source address 0xF1.
    NormalFixed29Bit,
}

/// The pair of CAN identifiers a physically-addressed ECU uses: the identifier a tester sends
/// requests on, and the identifier the ECU answers on.
#[derive(Debug, Clone, Copy, PartialEq, Eq, Structural)]
pub struct CanAddress {
    /// CAN identifier the tester sends requests on (e.g. 0x7E0).
    pub m_u32RequestCanId: u32,
    /// CAN identifier the ECU sends responses on (e.g. 0x7E8).
    pub m_u32ResponseCanId: u32,
    /// Functional (broadcast) identifier this ECU also accepts requests on, if any.
    pub m_optU32FunctionalCanId: Option<u32>,
    /// Addressing mode the two identifiers follow.
    pub m_addressingMode: CanAddressingMode,
    /// How the pair was established.
    pub m_confidence: Confidence,
}

/// Offset between a legislated 11-bit request identifier and its response identifier
/// (0x7E0 -> 0x7E8). Outside 0x7E0..=0x7E7 pairs follow no derivable rule.
pub const c_u32Response11BitOffset: u32 = 0x08;

/// Lowest legislated 11-bit UDS request identifier.
pub const c_u32LegislatedRequestCanIdFirst: u32 = 0x7E0;

/// Highest legislated 11-bit UDS request identifier.
pub const c_u32LegislatedRequestCanIdLast: u32 = 0x7E7;

/// The 11-bit functional (broadcast) request identifier every legislated ECU listens on.
pub const c_u32Functional11BitCanId: u32 = 0x7DF;

/// The 29-bit normal-fixed functional request identifier: target address 0x33 (all ECUs), source
/// address 0xF1 (tester).
pub const c_u32FunctionalNormalFixed29BitCanId: u32 = 0x18DB_33F1;

/// The functional identifier the standards mandate: 0x18DB33F1 for 29-bit normal-fixed
/// addressing, 0x7DF for the legislated 11-bit range, nothing otherwise.
pub open spec fn functional_id(request: u32, mode: CanAddressingMode) -> Option<u32> {
    if mode == CanAddressingMode::NormalFixed29Bit {
        Some(0x18DB_33F1u32)
    } else if 0x7E0 <= request <= 0x7E7 {
        Some(0x7DFu32)
    } else {
        None
    }
}

impl CanAddress {
    /// Build a normal 11-bit address pair from both observed identifiers.
    pub fn NewObserved11Bit(u32RequestCanId: u32, u32ResponseCanId: u32) -> (address: Self)
        ensures
            address == (CanAddress {
                m_u32RequestCanId: u32RequestCanId,
                m_u32ResponseCanId: u32ResponseCanId,
                m_optU32FunctionalCanId: functional_id(
                    u32RequestCanId,
                    CanAddressingMode::Normal11Bit,
                ),
                m_addressingMode: CanAddressingMode::Normal11Bit,
                m_confidence: Confidence::Observed,
            }),
    {
        CanAddress {
            m_u32RequestCanId: u32RequestCanId,
            m_u32ResponseCanId: u32ResponseCanId,
            m_optU32FunctionalCanId: DefaultFunctionalCanId(
                u32RequestCanId,
                CanAddressingMode::Normal11Bit,
            ),
            m_addressingMode: CanAddressingMode::Normal11Bit,
            m_confidence: Confidence::Observed,
        }
    }

    /// Build an address pair a user stated rather than one observed on a bus.
    pub fn NewSpecified(
        u32RequestCanId: u32,
        u32ResponseCanId: u32,
        mode: CanAddressingMode,
    ) -> (address: Self)
        ensures
            address == (CanAddress {
                m_u32RequestCanId: u32RequestCanId,
                m_u32ResponseCanId: u32ResponseCanId,
                m_optU32FunctionalCanId: functional_id(u32RequestCanId, mode),
                m_addressingMode: mode,
                m_confidence: Confidence::Confirmed,
            }),
    {
        CanAddress {
            m_u32RequestCanId: u32RequestCanId,
            m_u32ResponseCanId: u32ResponseCanId,
            m_optU32FunctionalCanId: DefaultFunctionalCanId(u32RequestCanId, mode),
            m_addressingMode: mode,
            m_confidence: Confidence::Confirmed,
        }
    }

    /// True when the identifiers are 29-bit extended. Derived from the addressing mode: a value
    /// below 0x800 may legally be transmitted in an extended frame.
    pub fn IsExtendedId(&self) -> (bIsExtended: bool)
        ensures
            bIsExtended == (self.m_addressingMode == CanAddressingMode::NormalFixed29Bit),
    {
        self.m_addressingMode == CanAddressingMode::NormalFixed29Bit
    }

    /// True when this ECU listens on the given functional (broadcast) identifier.
    pub fn ListensFunctionallyOn(&self, u32CanId: u32) -> (bListens: bool)
        ensures
            bListens == (self.m_optU32FunctionalCanId == Some(u32CanId)),
    {
        match self.m_optU32FunctionalCanId {
            Some(u32FunctionalCanId) => u32FunctionalCanId == u32CanId,
            None => false,
        }
    }
}

/// The functional identifier an ECU on this request identifier is required to listen on, or
/// `None` when no standard mandates one.
pub fn DefaultFunctionalCanId(u32RequestCanId: u32, mode: CanAddressingMode) -> (optU32CanId:
    Option<u32>)
    ensures
        optU32CanId == functional_id(u32RequestCanId, mode),
{
    match mode {
        CanAddressingMode::NormalFixed29Bit => Some(c_u32FunctionalNormalFixed29BitCanId),
        CanAddressingMode::Normal11Bit => {
            if c_u32LegislatedRequestCanIdFirst <= u32RequestCanId && u32RequestCanId
                <= c_u32LegislatedRequestCanIdLast {
                Some(c_u32Functional11BitCanId)
            } else {
                None
            }
        },
    }
}

} // verus!
