//! The ECU the scripted exchange talks to.

use vstd::prelude::*;

use crate::core_domain::ecu::Ecu;
use crate::core_domain::session::SessionType;
use crate::ecu::sample::is_engine_ecu;

verus! {

/// The engine ECU answers for its identification number, which reads as text, has one trouble code
/// and one security level, offers seven services in three sessions, and neither delays nor
/// overrides anything.
pub proof fn law_the_engine_ecu(ecu: Ecu, i: int)
    requires
        is_engine_ecu(ecu),
        0 <= i < 16,
    ensures
        ecu.m_u16LogicalAddress == 0x1001,
        ecu.m_mapDids@.contains_key(0xF190),
        ecu.m_mapDids@[0xF190].m_u16Id == 0xF190,
        ecu.m_mapDids@[0xF190].m_vecValue@.len() == "VIN0123456789XYZ"@.len(),
        ecu.m_mapDids@[0xF190].m_vecValue@[i] == "VIN0123456789XYZ"@[i] as u8,
        ecu.m_vecDtcs@.len() == 1,
        ecu.m_vecDtcs@[0].m_u32Code == 0x123456,
        ecu.m_vecSecurityLevels@.len() == 1,
        ecu.m_vecSecurityLevels@[0].m_byRequestSeedSubFunction == 1,
        ecu.m_vecSecurityLevels@[0].m_vecSeed@ != ecu.m_vecSecurityLevels@[0].m_vecExpectedKey@,
        ecu.m_vecSupportedServices@.len() == 7,
        ecu.m_vecSupportedSessions@.len() == 3,
        ecu.m_vecSupportedSessions@.contains(SessionType::Extended),
        ecu.m_timing.m_u32ResponseDelayMs == 0,
        ecu.m_vecResponseOverrides@.len() == 0,
{
    reveal_strlit("VIN0123456789XYZ");
    assert(ecu.m_mapDids@.dom().contains(0xF190u16));
    assert(ecu.m_vecSupportedSessions@[2] == SessionType::Extended);
    assert(ecu.m_vecSecurityLevels@[0].m_vecSeed@[0] == 0x11);
    assert(ecu.m_vecSecurityLevels@[0].m_vecExpectedKey@[0] == 0xAA);
}

} // verus!
