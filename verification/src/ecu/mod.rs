//! The virtual ECU: its live diagnostic state, the schedule of its answers, and a sample one.
//!
//! A [`VirtualEcu`] owns the live, mutable diagnostic state of one running ECU and drives a
//! protocol handler to answer requests: for each one it builds a snapshot of its state, asks the
//! protocol for a response plus the state changes to apply, applies them, and returns the bytes.

pub mod sample;
pub mod sample_laws;
pub mod schedule;
pub mod schedule_laws;
pub mod state_laws;

use vstd::prelude::*;

use crate::application::protocol::EcuSnapshot;
use crate::application::protocol::ProtocolHandler;
use crate::application::protocol::ProtocolOutcome;
use crate::application::protocol::SnapshotDid;
use crate::application::protocol::SnapshotDtc;
use crate::application::protocol::SnapshotSecurityLevel;
use crate::application::protocol::StateChange;
use crate::bytes::CopyAll;
use crate::core_domain::ecu::is_key_list;
use crate::core_domain::ecu::Ecu;

verus! {

/// UDS default-session sub-function; the session an ECU powers up in.
pub const c_bySessionDefault: u8 = 0x01;

/// A running virtual ECU: static configuration plus live diagnostic state.
pub struct VirtualEcu {
    m_config: Ecu,
    m_byCurrentSession: u8,
    m_bySecurityUnlockedLevel: u8,
    m_byActiveSeedLevel: u8,
}

/// The live part of a running ECU: its session, the unlocked level and the level a seed is
/// outstanding for.
pub ghost struct LiveState {
    pub session: u8,
    pub unlocked: u8,
    pub seed: u8,
}

/// The live state after one change.
pub open spec fn changed(state: LiveState, change: StateChange) -> LiveState {
    match change {
        StateChange::SetSession(session) => LiveState { session, ..state },
        StateChange::ResetToDefaultSession => LiveState { session: 0x01, ..state },
        StateChange::SetActiveSeedLevel(seed) => LiveState { seed, ..state },
        StateChange::UnlockSecurity(unlocked) => LiveState { unlocked, ..state },
        StateChange::Unknown { .. } => state,
    }
}

/// The live state after a list of changes, in order.
pub open spec fn changed_all(state: LiveState, changes: Seq<StateChange>) -> LiveState
    decreases changes.len(),
{
    if changes.len() == 0 {
        state
    } else {
        changed(changed_all(state, changes.drop_last()), changes.last())
    }
}

/// What a protocol is told about an ECU: its configuration, plus its live state.
pub open spec fn is_snapshot_of(snapshot: EcuSnapshot, ecu: Ecu, state: LiveState) -> bool {
    &&& snapshot.m_byCurrentSession == state.session
    &&& snapshot.m_bySecurityUnlockedLevel == state.unlocked
    &&& snapshot.m_byActiveSeedLevel == state.seed
    &&& snapshot.m_vecSupportedServices@ == ecu.m_vecSupportedServices@
    &&& snapshot.m_vecSupportedSessions@ == Seq::new(
        ecu.m_vecSupportedSessions@.len(),
        |i: int| ecu.m_vecSupportedSessions@[i].sub_function(),
    )
    &&& exists|keys: Seq<u16>| #[trigger]
        is_key_list(keys, ecu.m_mapDids@) && keys.len() == snapshot.m_vecDids@.len() && forall|
            i: int,
        |
            0 <= i < keys.len() ==> (#[trigger] snapshot.m_vecDids@[i]).m_u16Id
                == ecu.m_mapDids@[keys[i]].m_u16Id && snapshot.m_vecDids@[i].m_vecValue@
                == ecu.m_mapDids@[keys[i]].m_vecValue@
    &&& snapshot.m_vecDtcs@ == Seq::new(
        ecu.m_vecDtcs@.len(),
        |i: int|
            SnapshotDtc {
                m_u32Code: ecu.m_vecDtcs@[i].m_u32Code,
                m_byStatus: ecu.m_vecDtcs@[i].m_byStatus,
            },
    )
    &&& snapshot.m_vecSecurityLevels@.len() == ecu.m_vecSecurityLevels@.len()
    &&& forall|i: int|
        0 <= i < ecu.m_vecSecurityLevels@.len() ==> {
            let told = #[trigger] snapshot.m_vecSecurityLevels@[i];
            let level = ecu.m_vecSecurityLevels@[i];
            &&& told.m_byRequestSeedSubFunction == level.m_byRequestSeedSubFunction
            &&& told.m_vecSeed@ == level.m_vecSeed@
            &&& told.m_vecExpectedKey@ == level.m_vecExpectedKey@
        }
}

impl VirtualEcu {
    /// The configuration.
    pub closed spec fn config(&self) -> Ecu {
        self.m_config
    }

    /// The live state.
    pub closed spec fn state(&self) -> LiveState {
        LiveState {
            session: self.m_byCurrentSession,
            unlocked: self.m_bySecurityUnlockedLevel,
            seed: self.m_byActiveSeedLevel,
        }
    }

    /// Create a running ECU from its configuration. It starts in the default session with
    /// security locked.
    pub fn New(config: Ecu) -> (ecu: Self)
        ensures
            ecu.config() == config,
            ecu.state() == (LiveState { session: 0x01, unlocked: 0, seed: 0 }),
    {
        VirtualEcu {
            m_config: config,
            m_byCurrentSession: c_bySessionDefault,
            m_bySecurityUnlockedLevel: 0,
            m_byActiveSeedLevel: 0,
        }
    }

    /// The ECU's static configuration.
    pub fn Config(&self) -> (config: &Ecu)
        ensures
            *config == self.config(),
    {
        &self.m_config
    }

    /// The current session sub-function byte.
    pub fn CurrentSession(&self) -> (bySession: u8)
        ensures
            bySession == self.state().session,
    {
        self.m_byCurrentSession
    }

    /// The currently unlocked security level (0 = locked).
    pub fn SecurityUnlockedLevel(&self) -> (byLevel: u8)
        ensures
            byLevel == self.state().unlocked,
    {
        self.m_bySecurityUnlockedLevel
    }

    /// Whether any security level is unlocked.
    pub fn IsSecurityUnlocked(&self) -> (bUnlocked: bool)
        ensures
            bUnlocked == (self.state().unlocked != 0),
    {
        self.m_bySecurityUnlockedLevel != 0
    }

    /// Process one diagnostic request: snapshot state, ask the protocol for a response and state
    /// changes, apply them, and return the response bytes (empty = suppressed).
    pub fn ProcessRequest<P: ProtocolHandler>(&mut self, protocol: &P, vecRequest: &[u8]) -> (
        vecResponse: Vec<u8>)
        ensures
            final(self).config() == old(self).config(),
            exists|request: Vec<u8>, snapshot: EcuSnapshot, outcome: ProtocolOutcome|
                {
                    &&& #[trigger] call_ensures(P::Handle, (protocol, request, snapshot), outcome)
                    &&& request@ == vecRequest@
                    &&& is_snapshot_of(snapshot, old(self).config(), old(self).state())
                    &&& final(self).state() == changed_all(
                        old(self).state(),
                        outcome.m_vecChanges@,
                    )
                    &&& vecResponse@ == outcome.m_vecResponse@
                },
    {
        let snapshot = self.BuildSnapshot();
        let vecCopy = CopyAll(vecRequest);
        let ghost told = snapshot;
        let ghost asked = vecCopy;
        let outcome = protocol.Handle(vecCopy, snapshot);
        assert(call_ensures(P::Handle, (protocol, asked, told), outcome));
        self.ApplyOutcome(outcome)
    }

    /// Apply what a protocol answered: every state change in order, then hand back the response
    /// bytes.
    pub fn ApplyOutcome(&mut self, outcome: ProtocolOutcome) -> (vecResponse: Vec<u8>)
        ensures
            final(self).config() == old(self).config(),
            final(self).state() == changed_all(old(self).state(), outcome.m_vecChanges@),
            vecResponse == outcome.m_vecResponse,
    {
        let mut uIndex: usize = 0;
        while uIndex < outcome.m_vecChanges.len()
            invariant
                uIndex <= outcome.m_vecChanges@.len(),
                self.config() == old(self).config(),
                self.state() == changed_all(
                    old(self).state(),
                    outcome.m_vecChanges@.take(uIndex as int),
                ),
            decreases outcome.m_vecChanges@.len() - uIndex,
        {
            assert(outcome.m_vecChanges@.take(uIndex + 1).drop_last()
                =~= outcome.m_vecChanges@.take(uIndex as int));
            self.ApplyStateChange(&outcome.m_vecChanges[uIndex]);
            uIndex = uIndex + 1;
        }
        assert(outcome.m_vecChanges@.take(uIndex as int) =~= outcome.m_vecChanges@);
        outcome.m_vecResponse
    }

    /// Build the snapshot the protocol handler needs, from configuration and live state.
    pub fn BuildSnapshot(&self) -> (snapshot: EcuSnapshot)
        ensures
            is_snapshot_of(snapshot, self.config(), self.state()),
    {
        let ghost ecu = self.m_config;
        let vecIds = self.m_config.DidIds();
        let mut vecDids: Vec<SnapshotDid> = Vec::new();
        let mut uIndex: usize = 0;
        while uIndex < vecIds.len()
            invariant
                uIndex <= vecIds@.len(),
                ecu == self.m_config,
                is_key_list(vecIds@, ecu.m_mapDids@),
                vecDids@.len() == uIndex,
                forall|i: int|
                    0 <= i < uIndex ==> (#[trigger] vecDids@[i]).m_u16Id
                        == ecu.m_mapDids@[vecIds@[i]].m_u16Id && vecDids@[i].m_vecValue@
                        == ecu.m_mapDids@[vecIds@[i]].m_vecValue@,
            decreases vecIds@.len() - uIndex,
        {
            assert(vecIds@.contains(vecIds@[uIndex as int]));
            match self.m_config.FindDid(vecIds[uIndex]) {
                Some(did) => {
                    vecDids.push(
                        SnapshotDid {
                            m_u16Id: did.m_u16Id,
                            m_vecValue: CopyAll(did.m_vecValue.as_slice()),
                        },
                    );
                },
                None => {},
            }
            uIndex = uIndex + 1;
        }
        let mut vecDtcs: Vec<SnapshotDtc> = Vec::new();
        let mut uDtc: usize = 0;
        while uDtc < self.m_config.m_vecDtcs.len()
            invariant
                uDtc <= self.m_config.m_vecDtcs@.len(),
                vecDtcs@ == Seq::new(
                    uDtc as nat,
                    |i: int|
                        SnapshotDtc {
                            m_u32Code: self.m_config.m_vecDtcs@[i].m_u32Code,
                            m_byStatus: self.m_config.m_vecDtcs@[i].m_byStatus,
                        },
                ),
            decreases self.m_config.m_vecDtcs@.len() - uDtc,
        {
            vecDtcs.push(
                SnapshotDtc {
                    m_u32Code: self.m_config.m_vecDtcs[uDtc].m_u32Code,
                    m_byStatus: self.m_config.m_vecDtcs[uDtc].m_byStatus,
                },
            );
            uDtc = uDtc + 1;
        }
        let mut vecLevels: Vec<SnapshotSecurityLevel> = Vec::new();
        let mut uLevel: usize = 0;
        while uLevel < self.m_config.m_vecSecurityLevels.len()
            invariant
                uLevel <= self.m_config.m_vecSecurityLevels@.len(),
                vecLevels@.len() == uLevel,
                forall|i: int|
                    0 <= i < uLevel ==> {
                        let told = #[trigger] vecLevels@[i];
                        let level = self.m_config.m_vecSecurityLevels@[i];
                        &&& told.m_byRequestSeedSubFunction == level.m_byRequestSeedSubFunction
                        &&& told.m_vecSeed@ == level.m_vecSeed@
                        &&& told.m_vecExpectedKey@ == level.m_vecExpectedKey@
                    },
            decreases self.m_config.m_vecSecurityLevels@.len() - uLevel,
        {
            let level = &self.m_config.m_vecSecurityLevels[uLevel];
            vecLevels.push(
                SnapshotSecurityLevel {
                    m_byRequestSeedSubFunction: level.m_byRequestSeedSubFunction,
                    m_vecSeed: CopyAll(level.m_vecSeed.as_slice()),
                    m_vecExpectedKey: CopyAll(level.m_vecExpectedKey.as_slice()),
                },
            );
            uLevel = uLevel + 1;
        }
        let mut vecSessions: Vec<u8> = Vec::new();
        let mut uSession: usize = 0;
        while uSession < self.m_config.m_vecSupportedSessions.len()
            invariant
                uSession <= self.m_config.m_vecSupportedSessions@.len(),
                vecSessions@ == Seq::new(
                    uSession as nat,
                    |i: int| self.m_config.m_vecSupportedSessions@[i].sub_function(),
                ),
            decreases self.m_config.m_vecSupportedSessions@.len() - uSession,
        {
            vecSessions.push(self.m_config.m_vecSupportedSessions[uSession].ToSubFunction());
            uSession = uSession + 1;
        }
        EcuSnapshot {
            m_byCurrentSession: self.m_byCurrentSession,
            m_bySecurityUnlockedLevel: self.m_bySecurityUnlockedLevel,
            m_byActiveSeedLevel: self.m_byActiveSeedLevel,
            m_vecSupportedServices: CopyAll(self.m_config.m_vecSupportedServices.as_slice()),
            m_vecSupportedSessions: vecSessions,
            m_vecDids: vecDids,
            m_vecDtcs: vecDtcs,
            m_vecSecurityLevels: vecLevels,
        }
    }

    /// Apply one state change requested by the protocol handler. A change this engine does not
    /// understand is ignored.
    fn ApplyStateChange(&mut self, change: &StateChange)
        ensures
            final(self).config() == old(self).config(),
            final(self).state() == changed(old(self).state(), *change),
    {
        match change {
            StateChange::SetSession(bySession) => {
                self.m_byCurrentSession = *bySession;
            },
            StateChange::ResetToDefaultSession => {
                self.m_byCurrentSession = c_bySessionDefault;
            },
            StateChange::SetActiveSeedLevel(byLevel) => {
                self.m_byActiveSeedLevel = *byLevel;
            },
            StateChange::UnlockSecurity(byLevel) => {
                self.m_bySecurityUnlockedLevel = *byLevel;
            },
            StateChange::Unknown { .. } => {},
        }
    }
}

/// State changes are applied in order: one list after another comes to the same as both in one.
pub proof fn law_changes_are_applied_in_order(
    state: LiveState,
    first: Seq<StateChange>,
    second: Seq<StateChange>,
)
    ensures
        changed_all(changed_all(state, first), second) == changed_all(state, first + second),
    decreases second.len(),
{
    if second.len() == 0 {
        assert(first + second =~= first);
    } else {
        law_changes_are_applied_in_order(state, first, second.drop_last());
        assert((first + second).drop_last() =~= first + second.drop_last());
    }
}

} // verus!
