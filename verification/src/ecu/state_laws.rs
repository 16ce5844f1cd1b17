//! What a request leaves behind in an ECU, and what the protocol is told of it.

use vstd::prelude::*;

use crate::application::protocol::EcuSnapshot;
use crate::application::protocol::StateChange;
use crate::core_domain::ecu::Ecu;
use crate::ecu::changed_all;
use crate::ecu::is_snapshot_of;
use crate::ecu::LiveState;

verus! {

/// The last change of a kind is the one that counts, and touches nothing else: the session is what
/// it was last set to, or the default one where it was last reset; likewise the level a seed is
/// outstanding for, and the level that is unlocked. A change nobody knows changes nothing.
pub proof fn law_the_last_change_counts(
    state: LiveState,
    earlier: Seq<StateChange>,
    session: u8,
    seed: u8,
    level: u8,
    unknown: StateChange,
)
    requires
        unknown is Unknown,
    ensures
        changed_all(state, seq![]) == state,
        ({
            let before = changed_all(state, earlier);
            let set = changed_all(state, earlier.push(StateChange::SetSession(session)));
            let reset = changed_all(state, earlier.push(StateChange::ResetToDefaultSession));
            let asked = changed_all(state, earlier.push(StateChange::SetActiveSeedLevel(seed)));
            let opened = changed_all(state, earlier.push(StateChange::UnlockSecurity(level)));
            &&& set.session == session && set.seed == before.seed && set.unlocked
                == before.unlocked
            &&& reset.session == 0x01 && reset.seed == before.seed && reset.unlocked
                == before.unlocked
            &&& asked.seed == seed && asked.session == before.session && asked.unlocked
                == before.unlocked
            &&& opened.unlocked == level && opened.session == before.session && opened.seed
                == before.seed
            &&& changed_all(state, earlier.push(unknown)) == before
        }),
{
    assert(earlier.push(StateChange::SetSession(session)).drop_last() =~= earlier);
    assert(earlier.push(StateChange::ResetToDefaultSession).drop_last() =~= earlier);
    assert(earlier.push(StateChange::SetActiveSeedLevel(seed)).drop_last() =~= earlier);
    assert(earlier.push(StateChange::UnlockSecurity(level)).drop_last() =~= earlier);
    assert(earlier.push(unknown).drop_last() =~= earlier);
}

/// The protocol is told the truth: the live state, every service and session, every trouble code
/// and security level in order, and every data identifier with its value and no other.
pub proof fn law_the_protocol_is_told_everything(
    snapshot: EcuSnapshot,
    ecu: Ecu,
    state: LiveState,
    did: u16,
    i: int,
)
    requires
        is_snapshot_of(snapshot, ecu, state),
    ensures
        snapshot.m_byCurrentSession == state.session,
        snapshot.m_bySecurityUnlockedLevel == state.unlocked,
        snapshot.m_byActiveSeedLevel == state.seed,
        snapshot.m_vecSupportedServices@ == ecu.m_vecSupportedServices@,
        snapshot.m_vecSupportedSessions@.len() == ecu.m_vecSupportedSessions@.len(),
        snapshot.m_vecDtcs@.len() == ecu.m_vecDtcs@.len(),
        snapshot.m_vecSecurityLevels@.len() == ecu.m_vecSecurityLevels@.len(),
        0 <= i < ecu.m_vecDtcs@.len() ==> snapshot.m_vecDtcs@[i].m_u32Code
            == ecu.m_vecDtcs@[i].m_u32Code && snapshot.m_vecDtcs@[i].m_byStatus
            == ecu.m_vecDtcs@[i].m_byStatus,
        0 <= i < ecu.m_vecSecurityLevels@.len() ==> {
            let told = snapshot.m_vecSecurityLevels@[i];
            let level = ecu.m_vecSecurityLevels@[i];
            &&& told.m_byRequestSeedSubFunction == level.m_byRequestSeedSubFunction
            &&& told.m_vecSeed@ == level.m_vecSeed@
            &&& told.m_vecExpectedKey@ == level.m_vecExpectedKey@
        },
        ecu.m_mapDids@.contains_key(did) ==> exists|k: int|
            0 <= k < snapshot.m_vecDids@.len() && (#[trigger] snapshot.m_vecDids@[k]).m_u16Id
                == ecu.m_mapDids@[did].m_u16Id && snapshot.m_vecDids@[k].m_vecValue@
                == ecu.m_mapDids@[did].m_vecValue@,
        0 <= i < snapshot.m_vecDids@.len() ==> exists|key: u16| #[trigger]
            ecu.m_mapDids@.contains_key(key) && snapshot.m_vecDids@[i].m_u16Id
                == ecu.m_mapDids@[key].m_u16Id && snapshot.m_vecDids@[i].m_vecValue@
                == ecu.m_mapDids@[key].m_vecValue@,
{
    let keys = choose|keys: Seq<u16>| #[trigger]
        crate::core_domain::ecu::is_key_list(keys, ecu.m_mapDids@) && keys.len()
            == snapshot.m_vecDids@.len() && forall|k: int|
            0 <= k < keys.len() ==> (#[trigger] snapshot.m_vecDids@[k]).m_u16Id
                == ecu.m_mapDids@[keys[k]].m_u16Id && snapshot.m_vecDids@[k].m_vecValue@
                == ecu.m_mapDids@[keys[k]].m_vecValue@;
    if ecu.m_mapDids@.contains_key(did) {
        assert(keys.contains(did));
        let k = choose|k: int| 0 <= k < keys.len() && keys[k] == did;
        assert(snapshot.m_vecDids@[k].m_u16Id == ecu.m_mapDids@[did].m_u16Id);
    }
    if 0 <= i < snapshot.m_vecDids@.len() {
        assert(keys.contains(keys[i]));
        assert(ecu.m_mapDids@.contains_key(keys[i]));
        assert(snapshot.m_vecDids@[i].m_u16Id == ecu.m_mapDids@[keys[i]].m_u16Id);
    }
}

} // verus!
