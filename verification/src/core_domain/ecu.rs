//! A single virtual ECU's static diagnostic configuration.

use vstd::prelude::*;

use std::collections::BTreeMap;

use crate::core_domain::address::CanAddress;
use crate::core_domain::overrides::ResponseOverride;
use crate::core_domain::ranking::law_overrides_are_fully_ordered;
use crate::core_domain::ranking::law_the_order_of_overrides_is_transitive;
use crate::core_domain::ranking::override_view;
use crate::core_domain::ranking::says_at_most;
use crate::core_domain::ranking::OverrideView;
use crate::core_domain::ranking::SaysAtMost;
use crate::core_domain::session::DataIdentifier;
use crate::core_domain::session::DiagnosticTroubleCode;
use crate::core_domain::session::SecurityLevel;
use crate::core_domain::session::SessionType;
use crate::core_domain::timing::default_timing;
use crate::core_domain::timing::EcuTiming;

verus! {

/// A single virtual ECU's static diagnostic configuration.
#[derive(Debug, Clone)]
pub struct Ecu {
    /// Human-readable name, e.g. "Engine_ECU".
    pub m_strName: String,
    /// UDS logical/diagnostic address.
    pub m_u16LogicalAddress: u16,
    /// CAN identifiers this ECU is reached on. `None` means the ECU cannot be routed to on CAN.
    pub m_optCanAddress: Option<CanAddress>,
    /// Service IDs (request SIDs) this ECU supports, e.g. 0x10, 0x22, 0x27.
    pub m_vecSupportedServices: Vec<u8>,
    /// Sessions this ECU can enter.
    pub m_vecSupportedSessions: Vec<SessionType>,
    /// DIDs keyed by identifier.
    pub m_mapDids: BTreeMap<u16, DataIdentifier>,
    /// Stored DTCs reported by service 0x19.
    pub m_vecDtcs: Vec<DiagnosticTroubleCode>,
    /// Security levels this ECU supports (service 0x27).
    pub m_vecSecurityLevels: Vec<SecurityLevel>,
    /// Timing parameters.
    pub m_timing: EcuTiming,
    /// Which services are reachable in which session, keyed by the session's sub-function byte.
    /// A session that is not listed is unrestricted.
    pub m_mapSessionServices: BTreeMap<u8, Vec<u8>>,
    /// Networks this ECU forwards diagnostics onto, by id: what makes an ECU a gateway.
    pub m_vecGatewayForNetworkIds: Vec<String>,
    /// Which network this ECU sits on, by id. `None` means nobody has said.
    pub m_optStrNetworkId: Option<String>,
    /// True when `m_u16LogicalAddress` is a real DoIP logical address a tester can route to.
    pub m_bHasDoIpAddress: bool,
    /// User-defined answers to particular requests, tried most-specific-first.
    pub m_vecResponseOverrides: Vec<ResponseOverride>,
}

/// One specificity ranks at or below another: more fixed bytes wins, then the longer pattern,
/// then the anchored one.
pub open spec fn ranks_at_most(a: (nat, nat, bool), b: (nat, nat, bool)) -> bool {
    ||| a.0 < b.0
    ||| a.0 == b.0 && a.1 < b.1
    ||| a.0 == b.0 && a.1 == b.1 && (a.2 ==> b.2)
}

/// The override at an index answers a request: it matches, no matching override ranks above it,
/// and none that is equally specific comes after it in the order of what the overrides say. Where
/// an override is listed plays no part.
pub open spec fn is_chosen_override(rules: Seq<ResponseOverride>, request: Seq<u8>, i: int) -> bool {
    &&& 0 <= i < rules.len()
    &&& rules[i].matches(request)
    &&& forall|j: int|
        0 <= j < rules.len() && (#[trigger] rules[j]).matches(request) ==> is_outranked(
            rules[j],
            rules[i],
        )
}

/// One override gives way to another: it is less specific, or it is as specific and comes at or
/// before the other in the order of what they say.
pub open spec fn is_outranked(a: ResponseOverride, b: ResponseOverride) -> bool {
    &&& ranks_at_most(a.specificity(), b.specificity())
    &&& a.specificity() == b.specificity() ==> says_at_most(override_view(a), override_view(b))
}

/// What the overrides of a list say, in the order of the list.
pub open spec fn override_views(rules: Seq<ResponseOverride>) -> Seq<OverrideView> {
    rules.map_values(|rule: ResponseOverride| override_view(rule))
}

/// A list holds the keys of a map, each once, in ascending order.
pub open spec fn is_key_list(keys: Seq<u16>, map: Map<u16, DataIdentifier>) -> bool {
    &&& forall|i: int, j: int| 0 <= i < j < keys.len() ==> keys[i] < keys[j]
    &&& forall|k: u16| keys.contains(k) <==> #[trigger] map.contains_key(k)
}

/// The first position of a security level with a given property, if there is one.
pub open spec fn first_level(levels: Seq<SecurityLevel>, p: spec_fn(SecurityLevel) -> bool) -> Option<
    int,
>
    decreases levels.len(),
{
    if levels.len() == 0 {
        None
    } else {
        match first_level(levels.drop_last(), p) {
            Some(i) => Some(i),
            None => if p(levels.last()) {
                Some(levels.len() - 1)
            } else {
                None
            },
        }
    }
}

impl Ecu {
    /// Create an ECU with the given name/address and no capabilities yet.
    pub fn New(strName: &str, u16LogicalAddress: u16) -> (ecu: Self)
        ensures
            ecu.m_strName@ == strName@,
            ecu.m_u16LogicalAddress == u16LogicalAddress,
            ecu.m_optCanAddress is None,
            ecu.m_vecSupportedServices@ == Seq::<u8>::empty(),
            ecu.m_vecSupportedSessions@ == seq![SessionType::Default],
            ecu.m_mapDids@ == Map::<u16, DataIdentifier>::empty(),
            ecu.m_vecDtcs@ == Seq::<DiagnosticTroubleCode>::empty(),
            ecu.m_vecSecurityLevels@ == Seq::<SecurityLevel>::empty(),
            ecu.m_timing == default_timing(),
            ecu.m_mapSessionServices@ == Map::<u8, Vec<u8>>::empty(),
            ecu.m_vecGatewayForNetworkIds@ == Seq::<String>::empty(),
            ecu.m_optStrNetworkId is None,
            !ecu.m_bHasDoIpAddress,
            ecu.m_vecResponseOverrides@ == Seq::<ResponseOverride>::empty(),
    {
        let mut vecSessions: Vec<SessionType> = Vec::new();
        vecSessions.push(SessionType::Default);
        assert(vecSessions@ =~= seq![SessionType::Default]);
        Ecu {
            m_strName: strName.to_string(),
            m_u16LogicalAddress: u16LogicalAddress,
            m_optCanAddress: None,
            m_vecSupportedServices: Vec::new(),
            m_vecSupportedSessions: vecSessions,
            m_mapDids: BTreeMap::new(),
            m_vecDtcs: Vec::new(),
            m_vecSecurityLevels: Vec::new(),
            m_timing: EcuTiming::default(),
            m_mapSessionServices: BTreeMap::new(),
            m_vecGatewayForNetworkIds: Vec::new(),
            m_optStrNetworkId: None,
            m_bHasDoIpAddress: false,
            m_vecResponseOverrides: Vec::new(),
        }
    }

    /// The override that answers this request, or `None` if none applies.
    ///
    /// Most specific wins, so a rule for one exact request always beats a wildcard family. Among
    /// equally specific rules what they say decides, never where they are listed: reordering the
    /// list does not change the answer.
    pub fn FindMatchingOverride(&self, vecRequest: &[u8]) -> (optRule: Option<&ResponseOverride>)
        ensures
            match optRule {
                Some(rule) => exists|i: int|
                    is_chosen_override(self.m_vecResponseOverrides@, vecRequest@, i) && *rule
                        == self.m_vecResponseOverrides@[i],
                None => forall|i: int|
                    0 <= i < self.m_vecResponseOverrides@.len() ==> !(
                    #[trigger] self.m_vecResponseOverrides@[i]).matches(vecRequest@),
            },
    {
        let vecRules = &self.m_vecResponseOverrides;
        let mut optBest: Option<usize> = None;
        let mut uIndex: usize = 0;
        while uIndex < vecRules.len()
            invariant
                uIndex <= vecRules@.len(),
                optBest is None ==> forall|i: int|
                    0 <= i < uIndex ==> !(#[trigger] vecRules@[i]).matches(vecRequest@),
                optBest is Some ==> {
                    &&& optBest->0 < uIndex
                    &&& vecRules@[optBest->0 as int].matches(vecRequest@)
                    &&& forall|j: int|
                        0 <= j < uIndex && (#[trigger] vecRules@[j]).matches(vecRequest@)
                            ==> is_outranked(vecRules@[j], vecRules@[optBest->0 as int])
                },
            decreases vecRules@.len() - uIndex,
        {
            if vecRules[uIndex].Matches(vecRequest) {
                match optBest {
                    None => {
                        proof {
                            law_overrides_are_fully_ordered(
                                override_view(vecRules@[uIndex as int]),
                                override_view(vecRules@[uIndex as int]),
                            );
                        }
                        optBest = Some(uIndex);
                    },
                    Some(uBest) => {
                        if IsOutranked(&vecRules[uBest], &vecRules[uIndex]) {
                            proof {
                                assert forall|j: int|
                                    0 <= j < uIndex + 1 && (#[trigger] vecRules@[j]).matches(
                                        vecRequest@,
                                    ) implies is_outranked(vecRules@[j], vecRules@[uIndex as int]) by {
                                    if j < uIndex {
                                        lemma_outranked_is_transitive(
                                            vecRules@[j],
                                            vecRules@[uBest as int],
                                            vecRules@[uIndex as int],
                                        );
                                    } else {
                                        lemma_outranked_is_total(vecRules@[j], vecRules@[j]);
                                    }
                                }
                            }
                            optBest = Some(uIndex);
                        } else {
                            proof {
                                lemma_outranked_is_total(
                                    vecRules@[uBest as int],
                                    vecRules@[uIndex as int],
                                );
                            }
                        }
                    },
                }
            }
            uIndex = uIndex + 1;
        }
        match optBest {
            Some(uBest) => {
                assert(is_chosen_override(vecRules@, vecRequest@, uBest as int));
                Some(&vecRules[uBest])
            },
            None => None,
        }
    }

    /// True if the ECU advertises support for the given request service id.
    pub fn IsServiceSupported(&self, byServiceId: u8) -> (bSupported: bool)
        ensures
            bSupported == self.m_vecSupportedServices@.contains(byServiceId),
    {
        ContainsByte(&self.m_vecSupportedServices, byServiceId)
    }

    /// The service can be reached from a session: the session lists it, or is not restricted.
    pub open spec fn allows_in_session(&self, service: u8, session: u8) -> bool {
        self.m_mapSessionServices@.contains_key(session)
            ==> self.m_mapSessionServices@[session]@.contains(service)
    }

    /// True if the service can be reached from the session the ECU is currently in.
    ///
    /// A session the ECU does not mention at all is unrestricted, so adding a rule for one
    /// session does not silently lock down another.
    pub fn IsServiceAllowedInSession(&self, byServiceId: u8, bySession: u8) -> (bAllowed: bool)
        ensures
            bAllowed == self.allows_in_session(byServiceId, bySession),
    {
        broadcast use vstd::std_specs::btree::group_btree_axioms;

        match self.m_mapSessionServices.get(&bySession) {
            Some(vecAllowed) => ContainsByte(vecAllowed, byServiceId),
            None => true,
        }
    }

    /// True if the ECU can enter the given session.
    pub fn IsSessionSupported(&self, session: SessionType) -> (bSupported: bool)
        ensures
            bSupported == self.m_vecSupportedSessions@.contains(session),
    {
        let mut uIndex: usize = 0;
        while uIndex < self.m_vecSupportedSessions.len()
            invariant
                uIndex <= self.m_vecSupportedSessions@.len(),
                forall|i: int| 0 <= i < uIndex ==> self.m_vecSupportedSessions@[i] != session,
            decreases self.m_vecSupportedSessions@.len() - uIndex,
        {
            if self.m_vecSupportedSessions[uIndex] == session {
                return true;
            }
            uIndex = uIndex + 1;
        }
        false
    }

    /// Look up a DID's configured value.
    pub fn FindDid(&self, u16Id: u16) -> (optDid: Option<&DataIdentifier>)
        ensures
            match optDid {
                Some(did) => self.m_mapDids@.contains_key(u16Id) && *did == self.m_mapDids@[u16Id],
                None => !self.m_mapDids@.contains_key(u16Id),
            },
    {
        broadcast use vstd::std_specs::btree::group_btree_axioms;

        self.m_mapDids.get(&u16Id)
    }

    /// The identifiers of the configured DIDs, in ascending order.
    pub fn DidIds(&self) -> (vecIds: Vec<u16>)
        ensures
            is_key_list(vecIds@, self.m_mapDids@),
    {
        broadcast use vstd::std_specs::btree::group_btree_axioms;

        let itMap = self.m_mapDids.iter();
        let ghost all = vstd::std_specs::iter::IteratorSpec::remaining(&itMap);
        let ghost keys = all.map_values(|entry: (&u16, &DataIdentifier)| *entry.0);
        assert(vstd::laws_cmp::obeys_cmp::<u16>());
        assert(vstd::std_specs::btree::key_obeys_cmp_spec::<u16>());
        assert(vstd::std_specs::btree::increasing_seq(keys));
        let mut vecIds: Vec<u16> = Vec::new();
        for entry in itEntries: itMap
            invariant
                itEntries.seq() == all,
                keys == all.map_values(|entry: (&u16, &DataIdentifier)| *entry.0),
                vecIds@ == keys.take(itEntries.index()),
        {
            vecIds.push(*entry.0);
            assert(keys.take(itEntries.index() + 1) =~= keys.take(itEntries.index()).push(
                *entry.0,
            ));
        }
        assert(vecIds@ =~= keys);
        proof {
            assert forall|i: int, j: int| 0 <= i < j < keys.len() implies keys[i] < keys[j] by {
                assert(vstd::std_specs::cmp::OrdSpec::cmp_spec(&keys[i], &keys[j]) is Less);
            }
            assert forall|k: u16| keys.contains(k) <==> #[trigger] self.m_mapDids@.contains_key(
                k,
            ) by {
                if keys.contains(k) {
                    let i = choose|i: int| 0 <= i < keys.len() && keys[i] == k;
                    assert(self.m_mapDids@.contains_key(*all[i].0));
                }
                if self.m_mapDids@.contains_key(k) {
                    assert(all.contains((&k, &self.m_mapDids@[k])));
                    let i = choose|i: int|
                        0 <= i < all.len() && all[i] == (&k, &self.m_mapDids@[k]);
                    assert(keys[i] == k);
                }
            }
        }
        vecIds
    }

    /// The position of the security level with a requestSeed sub-function.
    pub open spec fn level_by_request_seed(&self, sub_function: u8) -> Option<int> {
        first_level(
            self.m_vecSecurityLevels@,
            |level: SecurityLevel| level.m_byRequestSeedSubFunction == sub_function,
        )
    }

    /// The position of the security level with a sendKey sub-function.
    pub open spec fn level_by_send_key(&self, sub_function: u8) -> Option<int> {
        first_level(
            self.m_vecSecurityLevels@,
            |level: SecurityLevel| level.send_key() == sub_function,
        )
    }

    /// Find the security level identified by a requestSeed sub-function: the first one listed.
    pub fn FindSecurityLevelByRequestSeed(&self, bySubFunction: u8) -> (optLevel: Option<
        &SecurityLevel,
    >)
        ensures
            match (optLevel, self.level_by_request_seed(bySubFunction)) {
                (Some(level), Some(i)) => *level == self.m_vecSecurityLevels@[i],
                (None, None) => true,
                _ => false,
            },
    {
        let ghost p = |level: SecurityLevel| level.m_byRequestSeedSubFunction == bySubFunction;
        let ghost levels = self.m_vecSecurityLevels@;
        let mut uIndex: usize = 0;
        assert(first_level(levels.take(0), p) is None);
        while uIndex < self.m_vecSecurityLevels.len()
            invariant
                uIndex <= self.m_vecSecurityLevels@.len(),
                levels == self.m_vecSecurityLevels@,
                p == (|level: SecurityLevel| level.m_byRequestSeedSubFunction == bySubFunction),
                first_level(levels.take(uIndex as int), p) is None,
            decreases self.m_vecSecurityLevels@.len() - uIndex,
        {
            assert(levels.take(uIndex + 1).drop_last() =~= levels.take(uIndex as int));
            if self.m_vecSecurityLevels[uIndex].m_byRequestSeedSubFunction == bySubFunction {
                proof {
                    lemma_first_level_stays(levels, p, uIndex + 1);
                }
                return Some(&self.m_vecSecurityLevels[uIndex]);
            }
            uIndex = uIndex + 1;
        }
        assert(levels.take(uIndex as int) =~= levels);
        None
    }

    /// Find the security level whose sendKey sub-function matches the given value: the first one
    /// listed.
    pub fn FindSecurityLevelBySendKey(&self, bySubFunction: u8) -> (optLevel: Option<
        &SecurityLevel,
    >)
        ensures
            match (optLevel, self.level_by_send_key(bySubFunction)) {
                (Some(level), Some(i)) => *level == self.m_vecSecurityLevels@[i],
                (None, None) => true,
                _ => false,
            },
    {
        let ghost p = |level: SecurityLevel| level.send_key() == bySubFunction;
        let ghost levels = self.m_vecSecurityLevels@;
        let mut uIndex: usize = 0;
        assert(first_level(levels.take(0), p) is None);
        while uIndex < self.m_vecSecurityLevels.len()
            invariant
                uIndex <= self.m_vecSecurityLevels@.len(),
                levels == self.m_vecSecurityLevels@,
                p == (|level: SecurityLevel| level.send_key() == bySubFunction),
                first_level(levels.take(uIndex as int), p) is None,
            decreases self.m_vecSecurityLevels@.len() - uIndex,
        {
            assert(levels.take(uIndex + 1).drop_last() =~= levels.take(uIndex as int));
            if self.m_vecSecurityLevels[uIndex].SendKeySubFunction() == bySubFunction {
                proof {
                    lemma_first_level_stays(levels, p, uIndex + 1);
                }
                return Some(&self.m_vecSecurityLevels[uIndex]);
            }
            uIndex = uIndex + 1;
        }
        assert(levels.take(uIndex as int) =~= levels);
        None
    }
}

/// Whether one override gives way to another.
fn IsOutranked(a: &ResponseOverride, b: &ResponseOverride) -> (bOutranked: bool)
    ensures
        bOutranked == is_outranked(*a, *b),
{
    let lower = a.Specificity();
    let higher = b.Specificity();
    if lower.0 != higher.0 {
        return lower.0 < higher.0;
    }
    if lower.1 != higher.1 {
        return lower.1 < higher.1;
    }
    if lower.2 != higher.2 {
        return higher.2;
    }
    SaysAtMost(a, b)
}

proof fn lemma_outranked_is_total(a: ResponseOverride, b: ResponseOverride)
    ensures
        is_outranked(a, b) || is_outranked(b, a),
{
    law_overrides_are_fully_ordered(override_view(a), override_view(b));
}

proof fn lemma_outranked_is_transitive(
    a: ResponseOverride,
    b: ResponseOverride,
    c: ResponseOverride,
)
    requires
        is_outranked(a, b),
        is_outranked(b, c),
    ensures
        is_outranked(a, c),
{
    if a.specificity() == c.specificity() {
        law_the_order_of_overrides_is_transitive(
            override_view(a),
            override_view(b),
            override_view(c),
        );
    }
}

proof fn lemma_first_level_stays(
    levels: Seq<SecurityLevel>,
    p: spec_fn(SecurityLevel) -> bool,
    k: int,
)
    requires
        0 <= k <= levels.len(),
        first_level(levels.take(k), p) is Some,
    ensures
        first_level(levels, p) == first_level(levels.take(k), p),
    decreases levels.len(),
{
    if k == levels.len() {
        assert(levels.take(k) =~= levels);
    } else {
        assert(levels.drop_last().take(k) =~= levels.take(k));
        lemma_first_level_stays(levels.drop_last(), p, k);
    }
}

/// True when a list of bytes holds the given one.
pub(crate) fn ContainsByte(vecBytes: &Vec<u8>, byWanted: u8) -> (bFound: bool)
    ensures
        bFound == vecBytes@.contains(byWanted),
{
    let mut uIndex: usize = 0;
    while uIndex < vecBytes.len()
        invariant
            uIndex <= vecBytes@.len(),
            forall|i: int| 0 <= i < uIndex ==> vecBytes@[i] != byWanted,
        decreases vecBytes@.len() - uIndex,
    {
        if vecBytes[uIndex] == byWanted {
            return true;
        }
        uIndex = uIndex + 1;
    }
    false
}

/// No matching rule fixes more bytes than the chosen one, so a rule for one exact request always
/// beats a wildcard family that also covers it.
pub proof fn law_more_fixed_bytes_win(
    rules: Seq<ResponseOverride>,
    request: Seq<u8>,
    other: int,
    chosen: int,
)
    requires
        is_chosen_override(rules, request, chosen),
        0 <= other < rules.len(),
        rules[other].matches(request),
    ensures
        rules[other].specificity().0 <= rules[chosen].specificity().0,
{
}

proof fn lemma_each_outranked_is_the_same(a: ResponseOverride, b: ResponseOverride)
    requires
        is_outranked(a, b),
        is_outranked(b, a),
    ensures
        override_view(a) == override_view(b),
{
    law_overrides_are_fully_ordered(override_view(a), override_view(b));
}

/// Overrides that are chosen for the same request say the same.
pub proof fn law_the_choice_is_unique(rules: Seq<ResponseOverride>, request: Seq<u8>, a: int, b: int)
    requires
        is_chosen_override(rules, request, a),
        is_chosen_override(rules, request, b),
    ensures
        override_view(rules[a]) == override_view(rules[b]),
{
    lemma_each_outranked_is_the_same(rules[a], rules[b]);
}

/// Overrides that say the same match the same requests, are equally specific and give the same
/// response.
pub proof fn law_what_an_override_says_decides(
    a: ResponseOverride,
    b: ResponseOverride,
    request: Seq<u8>,
)
    requires
        override_view(a) == override_view(b),
    ensures
        a.matches(request) == b.matches(request),
        a.specificity() == b.specificity(),
        a.response_to(request) == b.response_to(request),
{
}

proof fn lemma_found_in_the_other_list(
    rules: Seq<ResponseOverride>,
    others: Seq<ResponseOverride>,
    i: int,
) -> (j: int)
    requires
        override_views(rules).to_multiset() == override_views(others).to_multiset(),
        0 <= i < rules.len(),
    ensures
        0 <= j < others.len(),
        override_view(rules[i]) == override_view(others[j]),
{
    broadcast use vstd::seq_lib::group_to_multiset_ensures;

    let view = override_views(rules)[i];
    assert(override_views(rules).contains(view));
    assert(override_views(rules).to_multiset().count(view) > 0);
    assert(override_views(others).contains(view));
    choose|j: int| 0 <= j < override_views(others).len() && override_views(others)[j] == view
}

/// Reordering a list of overrides never changes which one answers: where two lists hold the same
/// overrides, each as often, an override is chosen from the one exactly where one is chosen from
/// the other, and the two say the same.
pub proof fn law_reordering_does_not_change_the_choice(
    rules: Seq<ResponseOverride>,
    others: Seq<ResponseOverride>,
    request: Seq<u8>,
)
    requires
        override_views(rules).to_multiset() == override_views(others).to_multiset(),
    ensures
        (forall|i: int| 0 <= i < rules.len() ==> !(#[trigger] rules[i]).matches(request)) <==> (
        forall|j: int| 0 <= j < others.len() ==> !(#[trigger] others[j]).matches(request)),
        forall|i: int, j: int|
            #![trigger is_chosen_override(rules, request, i), is_chosen_override(others, request, j)]
            is_chosen_override(rules, request, i) && is_chosen_override(others, request, j)
                ==> override_view(rules[i]) == override_view(others[j]),
{
    if forall|j: int| 0 <= j < others.len() ==> !(#[trigger] others[j]).matches(request) {
        assert forall|i: int| 0 <= i < rules.len() implies !(#[trigger] rules[i]).matches(
            request,
        ) by {
            let j = lemma_found_in_the_other_list(rules, others, i);
            law_what_an_override_says_decides(rules[i], others[j], request);
        }
    }
    if forall|i: int| 0 <= i < rules.len() ==> !(#[trigger] rules[i]).matches(request) {
        assert forall|j: int| 0 <= j < others.len() implies !(#[trigger] others[j]).matches(
            request,
        ) by {
            let i = lemma_found_in_the_other_list(others, rules, j);
            law_what_an_override_says_decides(others[j], rules[i], request);
        }
    }
    assert forall|i: int, j: int|
        #![trigger is_chosen_override(rules, request, i), is_chosen_override(others, request, j)]
        is_chosen_override(rules, request, i) && is_chosen_override(
            others,
            request,
            j,
        ) implies override_view(rules[i]) == override_view(others[j]) by {
        let k = lemma_found_in_the_other_list(rules, others, i);
        law_what_an_override_says_decides(rules[i], others[k], request);
        assert(is_outranked(others[k], others[j]));
        let l = lemma_found_in_the_other_list(others, rules, j);
        law_what_an_override_says_decides(others[j], rules[l], request);
        assert(is_outranked(rules[l], rules[i]));
        lemma_each_outranked_is_the_same(rules[i], others[j]);
    }
}

} // verus!
