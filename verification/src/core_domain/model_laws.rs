//! What the vehicle model promises of timing, addresses, sessions and security levels.

use vstd::prelude::*;

use crate::core_domain::address::functional_id;
use crate::core_domain::address::CanAddressingMode;
use crate::core_domain::ecu::first_level;
use crate::core_domain::ecu::Ecu;
use crate::core_domain::session::SecurityLevel;
use crate::core_domain::session::SessionType;
use crate::core_domain::timing::default_timing;
use crate::core_domain::timing::EcuTiming;
use crate::core_domain::timing::TimingValidationError;

verus! {

/// Timing is accepted exactly when it can be told to a tester and kept: P2 fits two bytes of
/// milliseconds, P2* two bytes of ten milliseconds each, P4 is at least P2 and at most ten minutes,
/// the delay is at most a minute and not beyond P4, and forcing ResponsePending asks for one to ten
/// of them, with a P2* to announce and a P4 that allows them.
pub proof fn law_timing_that_can_be_kept_is_accepted(timing: EcuTiming)
    ensures
        ({
            let kept = {
                &&& timing.m_u32P2ServerMaxMs < 0x1_0000
                &&& timing.m_u32P2StarServerMaxMs as int / 10 < 0x1_0000
                &&& timing.m_u32P2StarServerMaxMs as int / 10 * 10 == timing.m_u32P2StarServerMaxMs
                &&& timing.m_u32P4ServerMaxMs >= timing.m_u32P2ServerMaxMs
                &&& timing.m_u32P4ServerMaxMs <= 10 * 60 * 1000
                &&& timing.m_u32ResponseDelayMs <= 60 * 1000
                &&& timing.m_u32ResponseDelayMs <= timing.m_u32P4ServerMaxMs
                &&& timing.m_bForceResponsePending ==> timing.m_u8ForcedResponsePendingCount >= 1
                    && timing.m_u8ForcedResponsePendingCount <= 10 && timing.m_u32P2StarServerMaxMs
                    > 0 && timing.m_u32P4ServerMaxMs > timing.m_u32P2ServerMaxMs
            };
            &&& timing.first_error() is None <==> kept
            &&& timing.is_valid() <==> kept
        }),
        default_timing().first_error() is None,
{
}

/// A P2* between two steps is refused with the two steps it lies between.
pub proof fn law_the_nearest_steps_are_named(timing: EcuTiming)
    requires
        timing.m_u32P2ServerMaxMs <= 65_535,
        timing.m_u32P2StarServerMaxMs <= 655_350,
        timing.m_u32P2StarServerMaxMs as int % 10 != 0,
    ensures
        timing.first_error() matches Some(
            TimingValidationError::P2StarServerMaxNotAMultiple {
                u32ValueMs,
                u32LowerMs,
                u32UpperMs,
            },
        ) && u32ValueMs == timing.m_u32P2StarServerMaxMs && u32LowerMs < u32ValueMs < u32UpperMs
            && u32LowerMs as int % 10 == 0 && u32UpperMs == u32LowerMs + 10,
{
}

/// Who listens to a broadcast: every ECU with a 29-bit address on the one such identifier, an ECU
/// of the legislated range on 0x7DF, and no other.
pub proof fn law_who_listens_to_a_broadcast(request: u32, mode: CanAddressingMode)
    ensures
        mode is NormalFixed29Bit ==> functional_id(request, mode) == Some(0x18DB33F1u32),
        mode is Normal11Bit && (request < 0x7E0 || request > 0x7E7) ==> functional_id(
            request,
            mode,
        ) is None,
        mode is Normal11Bit && 0x7E0 <= request <= 0x7E7 ==> functional_id(request, mode) == Some(
            0x7DFu32,
        ),
{
}

/// The four sessions, by the byte that asks for them.
pub proof fn law_sessions_are_numbered()
    ensures
        SessionType::Default.sub_function() == 1,
        SessionType::Programming.sub_function() == 2,
        SessionType::Extended.sub_function() == 3,
        SessionType::SafetySystem.sub_function() == 4,
{
}

/// A service is refused in a session exactly where that session has a list and the service is not
/// on it.
pub proof fn law_only_a_listed_session_restricts(ecu: Ecu, service: u8, session: u8)
    ensures
        !ecu.allows_in_session(service, session) <==> ecu.m_mapSessionServices@.contains_key(session)
            && !ecu.m_mapSessionServices@[session]@.contains(service),
{
}

proof fn lemma_first_level(levels: Seq<SecurityLevel>, p: spec_fn(SecurityLevel) -> bool)
    ensures
        match first_level(levels, p) {
            Some(i) => 0 <= i < levels.len() && p(levels[i]) && forall|j: int|
                0 <= j < i ==> !p(#[trigger] levels[j]),
            None => forall|j: int| 0 <= j < levels.len() ==> !p(#[trigger] levels[j]),
        },
    decreases levels.len(),
{
    if levels.len() > 0 {
        let head = levels.drop_last();
        lemma_first_level(head, p);
        assert forall|j: int| 0 <= j < head.len() implies head[j] == #[trigger] levels[j] by {}
    }
}

/// A security level is found by the byte that asks for its seed, and by the next one, which sends
/// its key: the first such level of the list, and none where there is none.
pub proof fn law_a_level_is_found_by_either_byte(ecu: Ecu, byte: u8)
    ensures
        ({
            let levels = ecu.m_vecSecurityLevels@;
            &&& match ecu.level_by_request_seed(byte) {
                Some(i) => 0 <= i < levels.len() && levels[i].m_byRequestSeedSubFunction == byte
                    && forall|j: int|
                    0 <= j < i ==> (#[trigger] levels[j]).m_byRequestSeedSubFunction != byte,
                None => forall|j: int|
                    0 <= j < levels.len() ==> (#[trigger] levels[j]).m_byRequestSeedSubFunction
                        != byte,
            }
            &&& match ecu.level_by_send_key(byte) {
                Some(i) => 0 <= i < levels.len() && (levels[i].m_byRequestSeedSubFunction + 1) % 256
                    == byte && forall|j: int|
                    0 <= j < i ==> ((#[trigger] levels[j]).m_byRequestSeedSubFunction + 1) % 256
                        != byte,
                None => forall|j: int|
                    0 <= j < levels.len() ==> ((#[trigger] levels[j]).m_byRequestSeedSubFunction
                        + 1) % 256 != byte,
            }
        }),
{
    let levels = ecu.m_vecSecurityLevels@;
    lemma_first_level(
        levels,
        |level: SecurityLevel| level.m_byRequestSeedSubFunction == byte,
    );
    lemma_first_level(levels, |level: SecurityLevel| level.send_key() == byte);
}

/// An ECU whose timing is left alone answers at once, within fifty milliseconds by its own account,
/// asks for five seconds more where it needs them and for thirty at most, lets one frame come at a
/// time, and neither forces nor drops anything.
pub proof fn law_timing_left_alone()
    ensures
        default_timing().m_u32ResponseDelayMs == 0,
        default_timing().m_u32P2ServerMaxMs == 50,
        default_timing().m_u32P2StarServerMaxMs == 5_000,
        default_timing().m_u32P4ServerMaxMs == 30_000,
        default_timing().m_u8IsoTpBlockSize == 1,
        default_timing().m_byIsoTpSeparationTimeMin == 0,
        default_timing().m_u8ForcedResponsePendingCount == 1,
        !default_timing().m_bForceResponsePending,
        !default_timing().m_bDropFinalResponse,
        default_timing().is_valid(),
{
}

} // verus!
