//! A sample ECU configuration shared by the demo, the API and the tests.

use vstd::prelude::*;

use crate::core_domain::ecu::Ecu;
use crate::core_domain::session::DataIdentifier;
use crate::core_domain::session::DiagnosticTroubleCode;
use crate::core_domain::session::SecurityLevel;
use crate::core_domain::session::SessionType;
use crate::core_domain::timing::default_timing;
use crate::core_domain::Confidence;

verus! {

/// The value of the sample vehicle identification number: "VIN0123456789XYZ" in ASCII.
pub open spec fn sample_vin() -> Seq<u8> {
    seq![
        0x56u8, 0x49, 0x4E, 0x30, 0x31, 0x32, 0x33, 0x34,
        0x35, 0x36, 0x37, 0x38, 0x39, 0x58, 0x59, 0x5A,
    ]
}

/// The configuration of the sample engine ECU: seven services, three sessions, one DID, one DTC and
/// one security level with a fixed seed/key pair.
pub open spec fn is_engine_ecu(ecu: Ecu) -> bool {
    &&& ecu.m_strName@ == "Engine_ECU"@
    &&& ecu.m_u16LogicalAddress == 0x1001
    &&& ecu.m_optCanAddress is None
    &&& ecu.m_vecSupportedServices@ == seq![0x10u8, 0x11, 0x19, 0x22, 0x27, 0x31, 0x3E]
    &&& ecu.m_vecSupportedSessions@ == seq![
        SessionType::Default,
        SessionType::Programming,
        SessionType::Extended,
    ]
    &&& ecu.m_mapDids@.dom() == set![0xF190u16]
    &&& ecu.m_mapDids@[0xF190].m_u16Id == 0xF190
    &&& ecu.m_mapDids@[0xF190].m_vecValue@ == sample_vin()
    &&& ecu.m_mapDids@[0xF190].m_confidence == Confidence::Observed
    &&& ecu.m_vecDtcs@ == seq![
        DiagnosticTroubleCode {
            m_u32Code: 0x123456,
            m_byStatus: 0x2F,
            m_confidence: Confidence::Observed,
        },
    ]
    &&& ecu.m_vecSecurityLevels@.len() == 1
    &&& ecu.m_vecSecurityLevels@[0].m_byRequestSeedSubFunction == 0x01
    &&& ecu.m_vecSecurityLevels@[0].m_vecSeed@ == seq![0x11u8, 0x22, 0x33, 0x44]
    &&& ecu.m_vecSecurityLevels@[0].m_vecExpectedKey@ == seq![0xAAu8, 0xBB, 0xCC, 0xDD]
    &&& ecu.m_timing == default_timing()
    &&& ecu.m_mapSessionServices@.dom() == Set::<u8>::empty()
    &&& ecu.m_vecGatewayForNetworkIds@.len() == 0
    &&& ecu.m_optStrNetworkId is None
    &&& !ecu.m_bHasDoIpAddress
    &&& ecu.m_vecResponseOverrides@.len() == 0
}

/// Build a representative engine ECU: seven services, three sessions, one DID (VIN), one DTC, and
/// one security level with a fixed seed/key pair.
pub fn BuildEngineEcu() -> (ecu: Ecu)
    ensures
        is_engine_ecu(ecu),
{
    broadcast use vstd::std_specs::btree::group_btree_axioms;

    let mut ecu = Ecu::New("Engine_ECU", 0x1001);
    ecu.m_vecSupportedServices = vec![0x10, 0x11, 0x19, 0x22, 0x27, 0x31, 0x3E];
    ecu.m_vecSupportedSessions =
    vec![SessionType::Default, SessionType::Programming, SessionType::Extended];
    let vecVin: Vec<u8> = vec![
        0x56, 0x49, 0x4E, 0x30, 0x31, 0x32, 0x33, 0x34,
        0x35, 0x36, 0x37, 0x38, 0x39, 0x58, 0x59, 0x5A,
    ];
    assert(vecVin@ =~= sample_vin());
    ecu.m_mapDids.insert(
        0xF190,
        DataIdentifier { m_u16Id: 0xF190, m_vecValue: vecVin, m_confidence: Confidence::Observed },
    );
    ecu.m_vecDtcs.push(
        DiagnosticTroubleCode {
            m_u32Code: 0x123456,
            m_byStatus: 0x2F,
            m_confidence: Confidence::Observed,
        },
    );
    ecu.m_vecSecurityLevels.push(
        SecurityLevel {
            m_byRequestSeedSubFunction: 0x01,
            m_vecSeed: vec![0x11, 0x22, 0x33, 0x44],
            m_vecExpectedKey: vec![0xAA, 0xBB, 0xCC, 0xDD],
        },
    );
    assert(ecu.m_mapDids@.dom() =~= set![0xF190u16]);
    assert(ecu.m_mapSessionServices@.dom() =~= Set::<u8>::empty());
    ecu
}

} // verus!
