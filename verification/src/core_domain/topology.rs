//! Vehicle wiring: which ECU sits behind which gateway, and on what.
//!
//! A vehicle is not a flat list of ECUs. A tester attaches to one link and reaches everything
//! else through something; this module is the one place that fact is worked out.

use vstd::prelude::*;
use vstd::string::StringExecFns;

use crate::core_domain::ecu::Ecu;
use crate::core_domain::Confidence;

verus! {

/// What kind of link a network is.
#[derive(Debug, Clone, Copy, PartialEq, Eq, Structural, Default)]
pub enum NetworkKind {
    /// Classic CAN, up to 8 bytes per frame.
    CanClassic,
    /// CAN-FD, which carries longer frames and a second bit rate for the data phase.
    CanFd,
    /// Ethernet carrying DoIP.
    EthernetDoIp,
    /// The link exists but nothing said what it is.
    #[default]
    Unknown,
}

/// One bus in the vehicle. A network only exists when something actually stated it.
#[derive(Debug, Clone, PartialEq, Eq)]
pub struct Network {
    /// Stable key ECUs refer to, e.g. "powertrain".
    pub m_strId: String,
    /// What to call it on screen, e.g. "Powertrain CAN".
    pub m_strName: String,
    /// What kind of link it is.
    pub m_kind: NetworkKind,
    /// Arbitration bit rate, when known.
    pub m_optU32BitrateBps: Option<u32>,
    /// The CAN-FD data-phase bit rate, when the link has one.
    pub m_optU32DataBitrateBps: Option<u32>,
    /// True for the link a tester actually connects to.
    pub m_bIsDiagnosticEntryPoint: bool,
    /// How the existence of this network was established.
    pub m_confidence: Confidence,
}

/// The whole reconstructed/simulated vehicle: its buses and the ECUs on them.
#[derive(Debug, Clone, Default)]
pub struct Vehicle {
    /// Vehicle name/identifier.
    pub m_strName: String,
    /// All ECUs in the vehicle.
    pub m_vecEcus: Vec<Ecu>,
    /// The buses, when something stated them.
    pub m_vecNetworks: Vec<Network>,
}

/// Why a vehicle's declared wiring does not describe something that could exist.
#[derive(Debug, Clone, PartialEq, Eq)]
pub enum TopologyError {
    /// An ECU sits on, or gateways onto, a network the vehicle does not define.
    UnknownNetwork { strEcuName: String, strNetworkId: String },
    /// An ECU gateways onto the network it is already on, which is a loop of length one.
    GatewayOntoOwnNetwork { strEcuName: String, strNetworkId: String },
    /// Two ECUs both claim to forward onto one network, so there is no single path to it.
    NetworkHasTwoGateways { strNetworkId: String, strFirstEcu: String, strSecondEcu: String },
    /// Following the gateways leads back to where it started, so nothing is reachable. The loop
    /// is written as a chain of network ids.
    GatewayCycle { strCycle: String },
}

/// A topology error as a mathematical value.
pub ghost enum TopologyErrorView {
    UnknownNetwork { ecu: Seq<char>, network: Seq<char> },
    GatewayOntoOwnNetwork { ecu: Seq<char>, network: Seq<char> },
    NetworkHasTwoGateways { network: Seq<char>, first: Seq<char>, second: Seq<char> },
    GatewayCycle { cycle: Seq<char> },
}

impl View for TopologyError {
    type V = TopologyErrorView;

    open spec fn view(&self) -> TopologyErrorView {
        match self {
            TopologyError::UnknownNetwork { strEcuName, strNetworkId } =>
                TopologyErrorView::UnknownNetwork { ecu: strEcuName@, network: strNetworkId@ },
            TopologyError::GatewayOntoOwnNetwork { strEcuName, strNetworkId } =>
                TopologyErrorView::GatewayOntoOwnNetwork {
                    ecu: strEcuName@,
                    network: strNetworkId@,
                },
            TopologyError::NetworkHasTwoGateways { strNetworkId, strFirstEcu, strSecondEcu } =>
                TopologyErrorView::NetworkHasTwoGateways {
                    network: strNetworkId@,
                    first: strFirstEcu@,
                    second: strSecondEcu@,
                },
            TopologyError::GatewayCycle { strCycle } => TopologyErrorView::GatewayCycle {
                cycle: strCycle@,
            },
        }
    }
}

impl TopologyError {
    /// What the refusal says.
    pub open spec fn message(&self) -> Seq<char> {
        match self@ {
            TopologyErrorView::UnknownNetwork { ecu, network } => "ECU '"@ + ecu
                + "' refers to network '"@ + network + "', which this vehicle does not define"@,
            TopologyErrorView::GatewayOntoOwnNetwork { ecu, network } => "ECU '"@ + ecu
                + "' gateways onto '"@ + network + "', the network it is itself on"@,
            TopologyErrorView::NetworkHasTwoGateways { network, first, second } => "network '"@
                + network + "' is gatewayed by both '"@ + first + "' and '"@ + second
                + "'; a network is reached through one gateway"@,
            TopologyErrorView::GatewayCycle { cycle } => "the gateways form a loop: "@ + cycle
                + ". Every network would be reached only through itself"@,
        }
    }

    /// What the refusal says, for the operator.
    pub fn Message(&self) -> (strMessage: String)
        ensures
            strMessage@ == self.message(),
    {
        match self {
            TopologyError::UnknownNetwork { strEcuName, strNetworkId } => {
                let mut strMessage = "ECU '".to_string();
                strMessage.append(strEcuName.as_str());
                strMessage.append("' refers to network '");
                strMessage.append(strNetworkId.as_str());
                strMessage.append("', which this vehicle does not define");
                strMessage
            },
            TopologyError::GatewayOntoOwnNetwork { strEcuName, strNetworkId } => {
                let mut strMessage = "ECU '".to_string();
                strMessage.append(strEcuName.as_str());
                strMessage.append("' gateways onto '");
                strMessage.append(strNetworkId.as_str());
                strMessage.append("', the network it is itself on");
                strMessage
            },
            TopologyError::NetworkHasTwoGateways { strNetworkId, strFirstEcu, strSecondEcu } => {
                let mut strMessage = "network '".to_string();
                strMessage.append(strNetworkId.as_str());
                strMessage.append("' is gatewayed by both '");
                strMessage.append(strFirstEcu.as_str());
                strMessage.append("' and '");
                strMessage.append(strSecondEcu.as_str());
                strMessage.append("'; a network is reached through one gateway");
                strMessage
            },
            TopologyError::GatewayCycle { strCycle } => {
                let mut strMessage = "the gateways form a loop: ".to_string();
                strMessage.append(strCycle.as_str());
                strMessage.append(". Every network would be reached only through itself");
                strMessage
            },
        }
    }
}

/// How a tester reaches one ECU: through how many gateways, and which ones.
#[derive(Debug, Clone, PartialEq, Eq)]
pub struct DiagnosticPath {
    /// Gateway ECUs between the tester and this one, nearest the tester first.
    pub m_vecGatewayEcuNames: Vec<String>,
    /// How many gateways the request crosses. `0` means the ECU is on an entry-point link.
    pub m_uHopCount: usize,
    /// False when no chain of gateways connects an entry point to this ECU's network.
    pub m_bIsReachable: bool,
}

/// One network and how many gateways a tester crosses to reach it.
#[derive(Debug, Clone, PartialEq, Eq)]
pub struct NetworkDepth {
    /// The network's id.
    pub m_strNetworkId: String,
    /// Gateways crossed: `0` for an entry point.
    pub m_uDepth: usize,
}

// ---------------------------------------------------------------------------------------------
// The wiring as a mathematical object.

/// The first network with an id, by position.
pub open spec fn network_at(networks: Seq<Network>, id: Seq<char>) -> Option<int>
    decreases networks.len(),
{
    if networks.len() == 0 {
        None
    } else {
        match network_at(networks.drop_last(), id) {
            Some(i) => Some(i),
            None => if networks.last().m_strId@ == id {
                Some(networks.len() - 1)
            } else {
                None
            },
        }
    }
}

/// An ECU forwards diagnostics onto a network.
pub open spec fn forwards_onto(ecu: Ecu, id: Seq<char>) -> bool {
    exists|k: int|
        0 <= k < ecu.m_vecGatewayForNetworkIds@.len() && (
        #[trigger] ecu.m_vecGatewayForNetworkIds@[k])@ == id
}

/// The first ECU that forwards onto a network, by position.
pub open spec fn gateway_at(ecus: Seq<Ecu>, id: Seq<char>) -> Option<int>
    decreases ecus.len(),
{
    if ecus.len() == 0 {
        None
    } else {
        match gateway_at(ecus.drop_last(), id) {
            Some(i) => Some(i),
            None => if forwards_onto(ecus.last(), id) {
                Some(ecus.len() - 1)
            } else {
                None
            },
        }
    }
}

/// An ECU sits on a network.
pub open spec fn sits_on(ecu: Ecu, id: Seq<char>) -> bool {
    ecu.m_optStrNetworkId is Some && ecu.m_optStrNetworkId->0@ == id
}

/// The network the gateway of a network sits on: the next step towards the tester.
pub open spec fn upstream(ecus: Seq<Ecu>, id: Seq<char>) -> Option<Seq<char>> {
    match gateway_at(ecus, id) {
        Some(i) => match ecus[i].m_optStrNetworkId {
            Some(network) => Some(network@),
            None => None,
        },
        None => None,
    }
}

/// The network ids met on the way up from a network, itself first, for at most `steps` steps.
pub open spec fn walk_up(ecus: Seq<Ecu>, id: Seq<char>, steps: nat) -> Seq<Seq<char>>
    decreases steps,
{
    if steps == 0 {
        seq![id]
    } else {
        let before = walk_up(ecus, id, (steps - 1) as nat);
        match upstream(ecus, before.last()) {
            Some(next) if before.len() == steps => before.push(next),
            _ => before,
        }
    }
}

/// Every network id is met at most once.
pub open spec fn meets_nothing_twice(walk: Seq<Seq<char>>) -> bool {
    forall|i: int, j: int| 0 <= i < j < walk.len() ==> walk[i] != walk[j]
}

pub(crate) proof fn lemma_network_at(networks: Seq<Network>, id: Seq<char>)
    ensures
        match network_at(networks, id) {
            Some(i) => 0 <= i < networks.len() && networks[i].m_strId@ == id && forall|j: int|
                0 <= j < i ==> (#[trigger] networks[j]).m_strId@ != id,
            None => forall|j: int|
                0 <= j < networks.len() ==> (#[trigger] networks[j]).m_strId@ != id,
        },
    decreases networks.len(),
{
    if networks.len() > 0 {
        lemma_network_at(networks.drop_last(), id);
        let head = networks.drop_last();
        assert forall|j: int| 0 <= j < head.len() implies head[j] == networks[j] by {}
    }
}

proof fn lemma_network_at_first(networks: Seq<Network>, id: Seq<char>, i: int)
    requires
        0 <= i < networks.len(),
        networks[i].m_strId@ == id,
        forall|j: int| 0 <= j < i ==> (#[trigger] networks[j]).m_strId@ != id,
    ensures
        network_at(networks, id) == Some(i),
{
    lemma_network_at(networks, id);
    if network_at(networks, id) is None {
        assert(networks[i].m_strId@ != id);
    } else {
        let k = network_at(networks, id)->0;
        if k < i {
            assert(networks[k].m_strId@ != id);
        }
        if i < k {
            assert(networks[i].m_strId@ != id);
        }
    }
}

pub(crate) proof fn lemma_gateway_at(ecus: Seq<Ecu>, id: Seq<char>)
    ensures
        match gateway_at(ecus, id) {
            Some(i) => 0 <= i < ecus.len() && forwards_onto(ecus[i], id) && forall|j: int|
                0 <= j < i ==> !forwards_onto(#[trigger] ecus[j], id),
            None => forall|j: int| 0 <= j < ecus.len() ==> !forwards_onto(#[trigger] ecus[j], id),
        },
    decreases ecus.len(),
{
    if ecus.len() > 0 {
        lemma_gateway_at(ecus.drop_last(), id);
        let head = ecus.drop_last();
        assert forall|j: int| 0 <= j < head.len() implies head[j] == ecus[j] by {}
    }
}

proof fn lemma_gateway_at_first(ecus: Seq<Ecu>, id: Seq<char>, i: int)
    requires
        0 <= i < ecus.len(),
        forwards_onto(ecus[i], id),
        forall|j: int| 0 <= j < i ==> !forwards_onto(#[trigger] ecus[j], id),
    ensures
        gateway_at(ecus, id) == Some(i),
{
    lemma_gateway_at(ecus, id);
    if gateway_at(ecus, id) is None {
        assert(!forwards_onto(ecus[i], id));
    } else {
        let k = gateway_at(ecus, id)->0;
        if k < i {
            assert(!forwards_onto(ecus[k], id));
        }
        if i < k {
            assert(!forwards_onto(ecus[i], id));
        }
    }
}

// ---------------------------------------------------------------------------------------------
// Lookups.

/// True when an ECU forwards onto a network.
fn ForwardsOnto(ecu: &Ecu, strNetworkId: &String) -> (bForwards: bool)
    ensures
        bForwards == forwards_onto(*ecu, strNetworkId@),
{
    let mut uIndex: usize = 0;
    while uIndex < ecu.m_vecGatewayForNetworkIds.len()
        invariant
            uIndex <= ecu.m_vecGatewayForNetworkIds@.len(),
            forall|k: int|
                0 <= k < uIndex ==> (#[trigger] ecu.m_vecGatewayForNetworkIds@[k])@
                    != strNetworkId@,
        decreases ecu.m_vecGatewayForNetworkIds@.len() - uIndex,
    {
        if ecu.m_vecGatewayForNetworkIds[uIndex] == *strNetworkId {
            assert(ecu.m_vecGatewayForNetworkIds@[uIndex as int]@ == strNetworkId@);
            return true;
        }
        uIndex = uIndex + 1;
    }
    false
}

/// True when an ECU sits on a network.
fn SitsOn(ecu: &Ecu, strNetworkId: &String) -> (bSits: bool)
    ensures
        bSits == sits_on(*ecu, strNetworkId@),
{
    match &ecu.m_optStrNetworkId {
        Some(strOwn) => *strOwn == *strNetworkId,
        None => false,
    }
}

impl Vehicle {
    /// The first network with an id, by position.
    fn NetworkIndex(&self, strNetworkId: &String) -> (optIndex: Option<usize>)
        ensures
            match optIndex {
                Some(i) => network_at(self.m_vecNetworks@, strNetworkId@) == Some(i as int)
                    && i < self.m_vecNetworks@.len(),
                None => network_at(self.m_vecNetworks@, strNetworkId@) is None,
            },
    {
        let mut uIndex: usize = 0;
        while uIndex < self.m_vecNetworks.len()
            invariant
                uIndex <= self.m_vecNetworks@.len(),
                forall|j: int|
                    0 <= j < uIndex ==> (#[trigger] self.m_vecNetworks@[j]).m_strId@
                        != strNetworkId@,
            decreases self.m_vecNetworks@.len() - uIndex,
        {
            if self.m_vecNetworks[uIndex].m_strId == *strNetworkId {
                proof {
                    lemma_network_at_first(self.m_vecNetworks@, strNetworkId@, uIndex as int);
                }
                return Some(uIndex);
            }
            uIndex = uIndex + 1;
        }
        proof {
            lemma_network_at(self.m_vecNetworks@, strNetworkId@);
        }
        None
    }

    /// The first ECU that forwards onto a network, by position.
    fn GatewayIndex(&self, strNetworkId: &String) -> (optIndex: Option<usize>)
        ensures
            match optIndex {
                Some(i) => gateway_at(self.m_vecEcus@, strNetworkId@) == Some(i as int) && i
                    < self.m_vecEcus@.len(),
                None => gateway_at(self.m_vecEcus@, strNetworkId@) is None,
            },
    {
        let mut uIndex: usize = 0;
        while uIndex < self.m_vecEcus.len()
            invariant
                uIndex <= self.m_vecEcus@.len(),
                forall|j: int|
                    0 <= j < uIndex ==> !forwards_onto(
                        #[trigger] self.m_vecEcus@[j],
                        strNetworkId@,
                    ),
            decreases self.m_vecEcus@.len() - uIndex,
        {
            if ForwardsOnto(&self.m_vecEcus[uIndex], strNetworkId) {
                proof {
                    lemma_gateway_at_first(self.m_vecEcus@, strNetworkId@, uIndex as int);
                }
                return Some(uIndex);
            }
            uIndex = uIndex + 1;
        }
        proof {
            lemma_gateway_at(self.m_vecEcus@, strNetworkId@);
        }
        None
    }

    /// Find a network by the id ECUs refer to it with: the first one listed.
    pub fn FindNetwork(&self, strNetworkId: &str) -> (optNetwork: Option<&Network>)
        ensures
            match (optNetwork, network_at(self.m_vecNetworks@, strNetworkId@)) {
                (Some(network), Some(i)) => *network == self.m_vecNetworks@[i],
                (None, None) => true,
                _ => false,
            },
    {
        match self.NetworkIndex(&strNetworkId.to_string()) {
            Some(uIndex) => Some(&self.m_vecNetworks[uIndex]),
            None => None,
        }
    }

    /// The ECU that forwards diagnostics onto a network, if one does: the first one listed.
    pub fn FindGatewayForNetwork(&self, strNetworkId: &str) -> (optGateway: Option<&Ecu>)
        ensures
            match (optGateway, gateway_at(self.m_vecEcus@, strNetworkId@)) {
                (Some(gateway), Some(i)) => *gateway == self.m_vecEcus@[i],
                (None, None) => true,
                _ => false,
            },
    {
        match self.GatewayIndex(&strNetworkId.to_string()) {
            Some(uIndex) => Some(&self.m_vecEcus[uIndex]),
            None => None,
        }
    }

    /// The networks a tester can attach to directly, in the order they are listed.
    pub fn EntryPointNetworks(&self) -> (vecNetworks: Vec<&Network>)
        ensures
            vecNetworks@.len() == entry_points(self.m_vecNetworks@).len(),
            forall|i: int|
                0 <= i < vecNetworks@.len() ==> *(#[trigger] vecNetworks@[i]) == entry_points(
                    self.m_vecNetworks@,
                )[i],
    {
        let mut vecNetworks: Vec<&Network> = Vec::new();
        let mut uIndex: usize = 0;
        assert(entry_points(self.m_vecNetworks@.take(0)) =~= seq![]);
        while uIndex < self.m_vecNetworks.len()
            invariant
                uIndex <= self.m_vecNetworks@.len(),
                vecNetworks@.len() == entry_points(self.m_vecNetworks@.take(uIndex as int)).len(),
                forall|i: int|
                    0 <= i < vecNetworks@.len() ==> *(#[trigger] vecNetworks@[i]) == entry_points(
                        self.m_vecNetworks@.take(uIndex as int),
                    )[i],
            decreases self.m_vecNetworks@.len() - uIndex,
        {
            assert(self.m_vecNetworks@.take(uIndex + 1).drop_last() =~= self.m_vecNetworks@.take(
                uIndex as int,
            ));
            if self.m_vecNetworks[uIndex].m_bIsDiagnosticEntryPoint {
                vecNetworks.push(&self.m_vecNetworks[uIndex]);
            }
            uIndex = uIndex + 1;
        }
        assert(self.m_vecNetworks@.take(uIndex as int) =~= self.m_vecNetworks@);
        vecNetworks
    }
}

/// The networks marked as entry points, in order.
pub open spec fn entry_points(networks: Seq<Network>) -> Seq<Network>
    decreases networks.len(),
{
    if networks.len() == 0 {
        seq![]
    } else if networks.last().m_bIsDiagnosticEntryPoint {
        entry_points(networks.drop_last()).push(networks.last())
    } else {
        entry_points(networks.drop_last())
    }
}

// ---------------------------------------------------------------------------------------------
// Wiring that could not exist.

/// What is wrong with one entry of an ECU's gateway list, if anything.
pub open spec fn forwarding_error(ecu: Ecu, networks: Seq<Network>, id: Seq<char>) -> Option<
    TopologyErrorView,
> {
    if network_at(networks, id) is None {
        Some(TopologyErrorView::UnknownNetwork { ecu: ecu.m_strName@, network: id })
    } else if sits_on(ecu, id) {
        Some(TopologyErrorView::GatewayOntoOwnNetwork { ecu: ecu.m_strName@, network: id })
    } else {
        None
    }
}

/// What is wrong with the first faulty one of the first `k` entries of an ECU's gateway list.
pub open spec fn forwarding_errors(ecu: Ecu, networks: Seq<Network>, k: int) -> Option<
    TopologyErrorView,
>
    decreases k,
{
    if k <= 0 {
        None
    } else {
        match forwarding_errors(ecu, networks, k - 1) {
            Some(error) => Some(error),
            None => forwarding_error(ecu, networks, ecu.m_vecGatewayForNetworkIds@[k - 1]@),
        }
    }
}

/// What is wrong with the networks one ECU refers to, if anything: first the one it sits on,
/// then the ones it forwards onto, in order.
pub open spec fn reference_error(ecu: Ecu, networks: Seq<Network>) -> Option<TopologyErrorView> {
    if ecu.m_optStrNetworkId is Some && network_at(networks, ecu.m_optStrNetworkId->0@) is None {
        Some(
            TopologyErrorView::UnknownNetwork {
                ecu: ecu.m_strName@,
                network: ecu.m_optStrNetworkId->0@,
            },
        )
    } else {
        forwarding_errors(ecu, networks, ecu.m_vecGatewayForNetworkIds@.len() as int)
    }
}

/// What is wrong with the first of the first `n` ECUs whose references are faulty.
pub open spec fn reference_errors(ecus: Seq<Ecu>, networks: Seq<Network>, n: int) -> Option<
    TopologyErrorView,
>
    decreases n,
{
    if n <= 0 {
        None
    } else {
        match reference_errors(ecus, networks, n - 1) {
            Some(error) => Some(error),
            None => reference_error(ecus[n - 1], networks),
        }
    }
}

/// One ECU's claim to forward onto one network: the ECU by its position and its name.
pub ghost struct Claim {
    pub network: Seq<char>,
    pub owner: int,
    pub ecu: Seq<char>,
}

/// The claims of the first `k` gateway entries of the ECU at a position.
pub open spec fn claims_of(ecu: Ecu, owner: int, k: int) -> Seq<Claim>
    decreases k,
{
    if k <= 0 {
        seq![]
    } else {
        claims_of(ecu, owner, k - 1).push(
            Claim { network: ecu.m_vecGatewayForNetworkIds@[k - 1]@, owner, ecu: ecu.m_strName@ },
        )
    }
}

/// Every claim of the first `n` ECUs, in the order they are stated.
pub open spec fn all_claims(ecus: Seq<Ecu>, n: int) -> Seq<Claim>
    decreases n,
{
    if n <= 0 {
        seq![]
    } else {
        all_claims(ecus, n - 1) + claims_of(
            ecus[n - 1],
            n - 1,
            ecus[n - 1].m_vecGatewayForNetworkIds@.len() as int,
        )
    }
}

/// The first claim for a network, by position.
pub open spec fn claim_at(claims: Seq<Claim>, id: Seq<char>) -> Option<int>
    decreases claims.len(),
{
    if claims.len() == 0 {
        None
    } else {
        match claim_at(claims.drop_last(), id) {
            Some(i) => Some(i),
            None => if claims.last().network == id {
                Some(claims.len() - 1)
            } else {
                None
            },
        }
    }
}

/// The first claim, in order, for a network that another ECU claimed before. An ECU that names one
/// network twice is still its only gateway.
pub open spec fn shared_gateway_error(claims: Seq<Claim>) -> Option<TopologyErrorView>
    decreases claims.len(),
{
    if claims.len() == 0 {
        None
    } else {
        match shared_gateway_error(claims.drop_last()) {
            Some(error) => Some(error),
            None => match claim_at(claims.drop_last(), claims.last().network) {
                Some(i) if claims[i].owner != claims.last().owner => Some(
                    TopologyErrorView::NetworkHasTwoGateways {
                        network: claims.last().network,
                        first: claims[i].ecu,
                        second: claims.last().ecu,
                    },
                ),
                _ => None,
            },
        }
    }
}

/// Ids joined by an arrow.
pub open spec fn joined(ids: Seq<Seq<char>>) -> Seq<char>
    decreases ids.len(),
{
    if ids.len() == 0 {
        seq![]
    } else if ids.len() == 1 {
        ids[0]
    } else {
        joined(ids.drop_last()) + " → "@ + ids.last()
    }
}

/// The loop met on the way up from a network: the walk up to and including the first id met a
/// second time.
pub open spec fn is_loop_from(ecus: Seq<Ecu>, id: Seq<char>, cycle: Seq<Seq<char>>) -> bool {
    &&& cycle.len() >= 2
    &&& cycle == walk_up(ecus, id, (cycle.len() - 1) as nat)
    &&& meets_nothing_twice(cycle.drop_last())
    &&& cycle.drop_last().contains(cycle.last())
}

/// Going up from a network meets no id twice, however far.
pub open spec fn is_loop_free(ecus: Seq<Ecu>, id: Seq<char>) -> bool {
    forall|steps: nat| meets_nothing_twice(#[trigger] walk_up(ecus, id, steps))
}

/// The texts of a list of strings.
pub open spec fn texts(strings: Seq<String>) -> Seq<Seq<char>> {
    Seq::new(strings.len(), |i: int| strings[i]@)
}

/// A list of distinct values that all occur in another list is no longer than it.
pub(crate) proof fn lemma_distinct_within<A>(small: Seq<A>, big: Seq<A>)
    requires
        small.no_duplicates(),
        forall|i: int| 0 <= i < small.len() ==> big.contains(#[trigger] small[i]),
    ensures
        small.len() <= big.len(),
{
    small.unique_seq_to_set();
    big.lemma_cardinality_of_set();
    assert(small.to_set().subset_of(big.to_set())) by {
        assert forall|a: A| small.to_set().contains(a) implies big.to_set().contains(a) by {
            let i = choose|i: int| 0 <= i < small.len() && small[i] == a;
            assert(big.contains(small[i]));
        }
    }
    vstd::set_lib::lemma_len_subset(small.to_set(), big.to_set());
}

proof fn lemma_walk_prefix(ecus: Seq<Ecu>, id: Seq<char>, steps: nat, s: nat)
    requires
        s <= steps,
        walk_up(ecus, id, steps).len() == steps + 1,
    ensures
        walk_up(ecus, id, s) == walk_up(ecus, id, steps).take(s as int + 1),
        walk_up(ecus, id, s).len() == s + 1,
    decreases steps,
{
    let walk = walk_up(ecus, id, steps);
    if s == steps {
        assert(walk.take(s as int + 1) =~= walk);
    } else {
        let before = walk_up(ecus, id, (steps - 1) as nat);
        lemma_walk_length(ecus, id, (steps - 1) as nat);
        assert(before.len() == steps);
        lemma_walk_prefix(ecus, id, (steps - 1) as nat, s);
        assert(before.take(s as int + 1) =~= walk.take(s as int + 1));
    }
}

proof fn lemma_walk_length(ecus: Seq<Ecu>, id: Seq<char>, steps: nat)
    ensures
        1 <= walk_up(ecus, id, steps).len() <= steps + 1,
    decreases steps,
{
    if steps > 0 {
        lemma_walk_length(ecus, id, (steps - 1) as nat);
    }
}

proof fn lemma_walk_ends(ecus: Seq<Ecu>, id: Seq<char>, steps: nat, further: nat)
    requires
        steps <= further,
        walk_up(ecus, id, steps).len() == steps + 1,
        upstream(ecus, walk_up(ecus, id, steps).last()) is None,
    ensures
        walk_up(ecus, id, further) == walk_up(ecus, id, steps),
    decreases further,
{
    if further > steps {
        lemma_walk_ends(ecus, id, steps, (further - 1) as nat);
    }
}

/// A walk that ends and meets nothing twice shows the network to be loop-free.
proof fn lemma_ended_walk_is_loop_free(ecus: Seq<Ecu>, id: Seq<char>, steps: nat)
    requires
        walk_up(ecus, id, steps).len() == steps + 1,
        upstream(ecus, walk_up(ecus, id, steps).last()) is None,
        meets_nothing_twice(walk_up(ecus, id, steps)),
    ensures
        is_loop_free(ecus, id),
{
    assert forall|k: nat| meets_nothing_twice(#[trigger] walk_up(ecus, id, k)) by {
        if k <= steps {
            lemma_walk_prefix(ecus, id, steps, k);
        } else {
            lemma_walk_ends(ecus, id, steps, k);
        }
    }
}

/// The network each ECU sits on, with a filler for those that say nothing.
spec fn ecu_networks(ecus: Seq<Ecu>) -> Seq<Seq<char>> {
    Seq::new(
        ecus.len(),
        |i: int|
            match ecus[i].m_optStrNetworkId {
                Some(network) => network@,
                None => seq![],
            },
    )
}

/// Everything met after the start of a walk is a network some ECU sits on.
proof fn lemma_walk_stays_on_ecu_networks(ecus: Seq<Ecu>, id: Seq<char>, steps: nat)
    ensures
        forall|i: int|
            1 <= i < walk_up(ecus, id, steps).len() ==> ecu_networks(ecus).contains(
                #[trigger] walk_up(ecus, id, steps)[i],
            ),
    decreases steps,
{
    if steps > 0 {
        lemma_walk_stays_on_ecu_networks(ecus, id, (steps - 1) as nat);
        let before = walk_up(ecus, id, (steps - 1) as nat);
        match upstream(ecus, before.last()) {
            Some(next) if before.len() == steps => {
                lemma_gateway_at(ecus, before.last());
                let g = gateway_at(ecus, before.last())->0;
                assert(ecu_networks(ecus)[g] == next);
            },
            _ => {},
        }
    }
}

/// A walk that meets nothing twice is at most one longer than the list of ECUs.
proof fn lemma_walk_is_short(ecus: Seq<Ecu>, id: Seq<char>, steps: nat)
    requires
        meets_nothing_twice(walk_up(ecus, id, steps)),
    ensures
        walk_up(ecus, id, steps).len() <= ecus.len() + 1,
{
    let walk = walk_up(ecus, id, steps);
    lemma_walk_length(ecus, id, steps);
    lemma_walk_stays_on_ecu_networks(ecus, id, steps);
    let tail = walk.skip(1);
    assert forall|i: int| 0 <= i < tail.len() implies ecu_networks(ecus).contains(
        #[trigger] tail[i],
    ) by {
        assert(tail[i] == walk[i + 1]);
    }
    lemma_distinct_within(tail, ecu_networks(ecus));
}

pub(crate) proof fn lemma_claim_at(claims: Seq<Claim>, id: Seq<char>)
    ensures
        match claim_at(claims, id) {
            Some(i) => 0 <= i < claims.len() && claims[i].network == id && forall|j: int|
                0 <= j < i ==> (#[trigger] claims[j]).network != id,
            None => forall|j: int| 0 <= j < claims.len() ==> (#[trigger] claims[j]).network != id,
        },
    decreases claims.len(),
{
    if claims.len() > 0 {
        let head = claims.drop_last();
        lemma_claim_at(head, id);
        assert forall|j: int| 0 <= j < head.len() implies head[j] == claims[j] by {}
    }
}

proof fn lemma_claim_at_first(claims: Seq<Claim>, id: Seq<char>, i: int)
    requires
        0 <= i < claims.len(),
        claims[i].network == id,
        forall|j: int| 0 <= j < i ==> (#[trigger] claims[j]).network != id,
    ensures
        claim_at(claims, id) == Some(i),
{
    lemma_claim_at(claims, id);
    if claim_at(claims, id) is None {
        assert(claims[i].network != id);
    } else {
        let k = claim_at(claims, id)->0;
        if k < i {
            assert(claims[k].network != id);
        }
        if i < k {
            assert(claims[i].network != id);
        }
    }
}

proof fn lemma_shared_error_stays(claims: Seq<Claim>, k: int)
    requires
        0 <= k <= claims.len(),
        shared_gateway_error(claims.take(k)) is Some,
    ensures
        shared_gateway_error(claims) == shared_gateway_error(claims.take(k)),
    decreases claims.len(),
{
    if k == claims.len() {
        assert(claims.take(k) =~= claims);
    } else {
        assert(claims.drop_last().take(k) =~= claims.take(k));
        lemma_shared_error_stays(claims.drop_last(), k);
    }
}

proof fn lemma_forwarding_error_stays(ecu: Ecu, networks: Seq<Network>, k: int, n: int)
    requires
        0 <= k <= n,
        forwarding_errors(ecu, networks, k) is Some,
    ensures
        forwarding_errors(ecu, networks, n) == forwarding_errors(ecu, networks, k),
    decreases n,
{
    if k < n {
        lemma_forwarding_error_stays(ecu, networks, k, n - 1);
    }
}

proof fn lemma_reference_error_stays(ecus: Seq<Ecu>, networks: Seq<Network>, k: int, n: int)
    requires
        0 <= k <= n,
        reference_errors(ecus, networks, k) is Some,
    ensures
        reference_errors(ecus, networks, n) == reference_errors(ecus, networks, k),
    decreases n,
{
    if k < n {
        lemma_reference_error_stays(ecus, networks, k, n - 1);
    }
}

proof fn lemma_claims_prefix(ecus: Seq<Ecu>, k: int, n: int)
    requires
        0 <= k <= n <= ecus.len(),
    ensures
        all_claims(ecus, k).len() <= all_claims(ecus, n).len(),
        all_claims(ecus, n).take(all_claims(ecus, k).len() as int) == all_claims(ecus, k),
    decreases n,
{
    if k < n {
        lemma_claims_prefix(ecus, k, n - 1);
        let shorter = all_claims(ecus, n - 1);
        let longer = all_claims(ecus, n);
        assert(longer.take(shorter.len() as int) =~= shorter);
        assert(longer.take(all_claims(ecus, k).len() as int) =~= shorter.take(
            all_claims(ecus, k).len() as int,
        ));
    } else {
        assert(all_claims(ecus, n).take(all_claims(ecus, n).len() as int) =~= all_claims(ecus, n));
    }
}

pub(crate) proof fn lemma_claims_of_prefix(ecu: Ecu, owner: int, k: int, n: int)
    requires
        0 <= k <= n,
    ensures
        claims_of(ecu, owner, n).len() == n,
        claims_of(ecu, owner, n).take(k) == claims_of(ecu, owner, k),
    decreases n,
{
    if k < n {
        lemma_claims_of_prefix(ecu, owner, k, n - 1);
        assert(claims_of(ecu, owner, n).take(k) =~= claims_of(ecu, owner, n - 1).take(k));
    } else {
        if n > 0 {
            lemma_claims_of_prefix(ecu, owner, n - 1, n - 1);
        }
        assert(claims_of(ecu, owner, n).take(n) =~= claims_of(ecu, owner, n));
    }
}

impl Vehicle {
    /// What the wiring of a vehicle is refused for, in the order the rules are checked: faulty
    /// references, then a network claimed twice. `None` when only a loop could be wrong.
    pub open spec fn wiring_error(&self) -> Option<TopologyErrorView> {
        let ecus = self.m_vecEcus@;
        match reference_errors(ecus, self.m_vecNetworks@, ecus.len() as int) {
            Some(error) => Some(error),
            None => shared_gateway_error(all_claims(ecus, ecus.len() as int)),
        }
    }

    /// A network and the loop met on the way up from it, when no network listed before it meets
    /// one.
    pub open spec fn first_loop(&self, n: int, cycle: Seq<Seq<char>>) -> bool {
        &&& 0 <= n < self.m_vecNetworks@.len()
        &&& is_loop_from(self.m_vecEcus@, self.m_vecNetworks@[n].m_strId@, cycle)
        &&& forall|m: int|
            0 <= m < n ==> is_loop_free(
                self.m_vecEcus@,
                (#[trigger] self.m_vecNetworks@[m]).m_strId@,
            )
    }

    /// The declared wiring describes a vehicle that could exist: every reference names a declared
    /// network, no ECU forwards onto its own network, every network has at most one gateway, and
    /// following the gateways never leads back.
    pub open spec fn is_sound(&self) -> bool {
        &&& self.wiring_error() is None
        &&& forall|m: int|
            0 <= m < self.m_vecNetworks@.len() ==> is_loop_free(
                self.m_vecEcus@,
                (#[trigger] self.m_vecNetworks@[m]).m_strId@,
            )
    }

    /// Check that the declared wiring describes a vehicle that could exist.
    pub fn ValidateTopology(&self) -> (result: Result<(), TopologyError>)
        ensures
            result is Ok <==> self.is_sound(),
            self.wiring_error() is Some ==> result is Err && self.wiring_error() == Some(
                result->Err_0@,
            ),
            self.wiring_error() is None && result is Err ==> exists|n: int, cycle: Seq<Seq<char>>|
                self.first_loop(n, cycle) && result->Err_0@ == (TopologyErrorView::GatewayCycle {
                    cycle: joined(cycle),
                }),
    {
        let mut uIndex: usize = 0;
        while uIndex < self.m_vecEcus.len()
            invariant
                uIndex <= self.m_vecEcus@.len(),
                reference_errors(self.m_vecEcus@, self.m_vecNetworks@, uIndex as int) is None,
            decreases self.m_vecEcus@.len() - uIndex,
        {
            match self.CheckReferences(uIndex) {
                Ok(()) => {},
                Err(error) => {
                    proof {
                        lemma_reference_error_stays(
                            self.m_vecEcus@,
                            self.m_vecNetworks@,
                            uIndex + 1,
                            self.m_vecEcus@.len() as int,
                        );
                    }
                    return Err(error);
                },
            }
            uIndex = uIndex + 1;
        }
        match self.RejectSharedGateways() {
            Ok(()) => {},
            Err(error) => {
                return Err(error);
            },
        }
        let result = self.RejectGatewayCycles();
        proof {
            if result is Err {
                let (n, cycle) = choose|n: int, cycle: Seq<Seq<char>>|
                    self.first_loop(n, cycle) && result->Err_0@ == (
                    TopologyErrorView::GatewayCycle { cycle: joined(cycle) });
                lemma_loop_is_not_loop_free(
                    self.m_vecEcus@,
                    self.m_vecNetworks@[n].m_strId@,
                    cycle,
                );
            }
        }
        result
    }

    /// Check the networks one ECU refers to.
    fn CheckReferences(&self, uEcu: usize) -> (result: Result<(), TopologyError>)
        requires
            uEcu < self.m_vecEcus@.len(),
        ensures
            match result {
                Ok(()) => reference_error(
                    self.m_vecEcus@[uEcu as int],
                    self.m_vecNetworks@,
                ) is None,
                Err(error) => reference_error(self.m_vecEcus@[uEcu as int], self.m_vecNetworks@)
                    == Some(error@),
            },
    {
        let ecu = &self.m_vecEcus[uEcu];
        if let Some(strNetworkId) = &ecu.m_optStrNetworkId {
            if self.NetworkIndex(strNetworkId).is_none() {
                return Err(
                    TopologyError::UnknownNetwork {
                        strEcuName: ecu.m_strName.clone(),
                        strNetworkId: strNetworkId.clone(),
                    },
                );
            }
        }
        let mut uIndex: usize = 0;
        while uIndex < ecu.m_vecGatewayForNetworkIds.len()
            invariant
                uIndex <= ecu.m_vecGatewayForNetworkIds@.len(),
                forwarding_errors(*ecu, self.m_vecNetworks@, uIndex as int) is None,
                reference_error(*ecu, self.m_vecNetworks@) == forwarding_errors(
                    *ecu,
                    self.m_vecNetworks@,
                    ecu.m_vecGatewayForNetworkIds@.len() as int,
                ),
                *ecu == self.m_vecEcus@[uEcu as int],
            decreases ecu.m_vecGatewayForNetworkIds@.len() - uIndex,
        {
            let strBehindId = &ecu.m_vecGatewayForNetworkIds[uIndex];
            if self.NetworkIndex(strBehindId).is_none() {
                proof {
                    lemma_forwarding_error_stays(
                        *ecu,
                        self.m_vecNetworks@,
                        uIndex + 1,
                        ecu.m_vecGatewayForNetworkIds@.len() as int,
                    );
                }
                return Err(
                    TopologyError::UnknownNetwork {
                        strEcuName: ecu.m_strName.clone(),
                        strNetworkId: strBehindId.clone(),
                    },
                );
            }
            if SitsOn(ecu, strBehindId) {
                proof {
                    lemma_forwarding_error_stays(
                        *ecu,
                        self.m_vecNetworks@,
                        uIndex + 1,
                        ecu.m_vecGatewayForNetworkIds@.len() as int,
                    );
                }
                return Err(
                    TopologyError::GatewayOntoOwnNetwork {
                        strEcuName: ecu.m_strName.clone(),
                        strNetworkId: strBehindId.clone(),
                    },
                );
            }
            uIndex = uIndex + 1;
        }
        Ok(())
    }

    /// Refuse two ECUs forwarding onto the same network.
    fn RejectSharedGateways(&self) -> (result: Result<(), TopologyError>)
        ensures
            match result {
                Ok(()) => shared_gateway_error(
                    all_claims(self.m_vecEcus@, self.m_vecEcus@.len() as int),
                ) is None,
                Err(error) => shared_gateway_error(
                    all_claims(self.m_vecEcus@, self.m_vecEcus@.len() as int),
                ) == Some(error@),
            },
    {
        let ghost ecus = self.m_vecEcus@;
        let ghost every = all_claims(ecus, ecus.len() as int);
        // Who claimed which network, in the order the claims are stated.
        let mut vecClaims: Vec<(String, usize, String)> = Vec::new();
        let ghost mut claims: Seq<Claim> = seq![];
        let mut uEcu: usize = 0;
        while uEcu < self.m_vecEcus.len()
            invariant
                uEcu <= self.m_vecEcus@.len(),
                ecus == self.m_vecEcus@,
                every == all_claims(ecus, ecus.len() as int),
                claims == all_claims(ecus, uEcu as int),
                claims_match(vecClaims@, claims),
                shared_gateway_error(claims) is None,
            decreases self.m_vecEcus@.len() - uEcu,
        {
            let ecu = &self.m_vecEcus[uEcu];
            let ghost before = claims;
            let mut uIndex: usize = 0;
            assert(before + claims_of(*ecu, uEcu as int, 0) =~= before);
            while uIndex < ecu.m_vecGatewayForNetworkIds.len()
                invariant
                    uEcu < self.m_vecEcus@.len(),
                    ecus == self.m_vecEcus@,
                    *ecu == ecus[uEcu as int],
                    every == all_claims(ecus, ecus.len() as int),
                    before == all_claims(ecus, uEcu as int),
                    uIndex <= ecu.m_vecGatewayForNetworkIds@.len(),
                    claims == before + claims_of(*ecu, uEcu as int, uIndex as int),
                    claims_match(vecClaims@, claims),
                    shared_gateway_error(claims) is None,
                decreases ecu.m_vecGatewayForNetworkIds@.len() - uIndex,
            {
                let strBehindId = &ecu.m_vecGatewayForNetworkIds[uIndex];
                let ghost next = Claim {
                    network: strBehindId@,
                    owner: uEcu as int,
                    ecu: ecu.m_strName@,
                };
                let ghost extended = claims.push(next);
                assert(extended.drop_last() =~= claims);
                assert(extended =~= before + claims_of(*ecu, uEcu as int, uIndex + 1));
                match FindClaim(&vecClaims, strBehindId, Ghost(claims)) {
                    Some(uFirst) if vecClaims[uFirst].1 != uEcu => {
                        proof {
                            let n = ecu.m_vecGatewayForNetworkIds@.len() as int;
                            lemma_claims_of_prefix(*ecu, uEcu as int, uIndex + 1, n);
                            lemma_claims_prefix(ecus, uEcu + 1, ecus.len() as int);
                            let through = all_claims(ecus, uEcu + 1);
                            assert(through.take(extended.len() as int) =~= extended);
                            assert(every.take(extended.len() as int) =~= extended) by {
                                assert(every.take(through.len() as int) == through);
                            }
                            lemma_shared_error_stays(every, extended.len() as int);
                        }
                        return Err(
                            TopologyError::NetworkHasTwoGateways {
                                strNetworkId: strBehindId.clone(),
                                strFirstEcu: vecClaims[uFirst].2.clone(),
                                strSecondEcu: ecu.m_strName.clone(),
                            },
                        );
                    },
                    _ => {
                        vecClaims.push((strBehindId.clone(), uEcu, ecu.m_strName.clone()));
                    },
                }
                proof {
                    claims = extended;
                }
                uIndex = uIndex + 1;
            }
            uEcu = uEcu + 1;
        }
        Ok(())
    }
}

/// A list of claims held as strings stands for a list of claims.
spec fn claims_match(held: Seq<(String, usize, String)>, claims: Seq<Claim>) -> bool {
    &&& held.len() == claims.len()
    &&& forall|i: int|
        0 <= i < held.len() ==> (#[trigger] held[i]).0@ == claims[i].network && held[i].1
            == claims[i].owner && held[i].2@ == claims[i].ecu
}

/// The first claim for a network.
fn FindClaim(
    vecClaims: &Vec<(String, usize, String)>,
    strNetworkId: &String,
    Ghost(claims): Ghost<Seq<Claim>>,
) -> (optIndex: Option<usize>)
    requires
        claims_match(vecClaims@, claims),
    ensures
        match optIndex {
            Some(i) => claim_at(claims, strNetworkId@) == Some(i as int) && i < claims.len(),
            None => claim_at(claims, strNetworkId@) is None,
        },
{
    let mut uIndex: usize = 0;
    while uIndex < vecClaims.len()
        invariant
            uIndex <= vecClaims@.len(),
            claims_match(vecClaims@, claims),
            forall|j: int| 0 <= j < uIndex ==> (#[trigger] claims[j]).network != strNetworkId@,
        decreases vecClaims@.len() - uIndex,
    {
        if vecClaims[uIndex].0 == *strNetworkId {
            proof {
                lemma_claim_at_first(claims, strNetworkId@, uIndex as int);
            }
            return Some(uIndex);
        }
        assert(claims[uIndex as int].network == vecClaims@[uIndex as int].0@);
        uIndex = uIndex + 1;
    }
    proof {
        lemma_claim_at(claims, strNetworkId@);
    }
    None
}

proof fn lemma_loop_is_not_loop_free(ecus: Seq<Ecu>, id: Seq<char>, cycle: Seq<Seq<char>>)
    requires
        is_loop_from(ecus, id, cycle),
    ensures
        !is_loop_free(ecus, id),
{
    let i = choose|i: int|
        0 <= i < cycle.drop_last().len() && cycle.drop_last()[i] == cycle.last();
    assert(cycle[i] == cycle[cycle.len() - 1]);
    assert(!meets_nothing_twice(walk_up(ecus, id, (cycle.len() - 1) as nat)));
}

impl Vehicle {
    /// Refuse wiring where following the gateways never reaches the tester.
    ///
    /// Walk upward from every network: a network is reached through its gateway ECU, which sits
    /// on another network, and so on. Meeting a network twice on one walk is a loop.
    fn RejectGatewayCycles(&self) -> (result: Result<(), TopologyError>)
        ensures
            result is Ok ==> forall|m: int|
                0 <= m < self.m_vecNetworks@.len() ==> is_loop_free(
                    self.m_vecEcus@,
                    (#[trigger] self.m_vecNetworks@[m]).m_strId@,
                ),
            result is Err ==> exists|n: int, cycle: Seq<Seq<char>>|
                self.first_loop(n, cycle) && result->Err_0@ == (TopologyErrorView::GatewayCycle {
                    cycle: joined(cycle),
                }),
    {
        let mut uIndex: usize = 0;
        while uIndex < self.m_vecNetworks.len()
            invariant
                uIndex <= self.m_vecNetworks@.len(),
                forall|m: int|
                    0 <= m < uIndex ==> is_loop_free(
                        self.m_vecEcus@,
                        (#[trigger] self.m_vecNetworks@[m]).m_strId@,
                    ),
            decreases self.m_vecNetworks@.len() - uIndex,
        {
            match self.FindLoopFrom(&self.m_vecNetworks[uIndex].m_strId) {
                Some(vecCycle) => {
                    let strCycle = JoinWithArrows(&vecCycle);
                    assert(self.first_loop(uIndex as int, texts(vecCycle@)));
                    return Err(TopologyError::GatewayCycle { strCycle });
                },
                None => {},
            }
            uIndex = uIndex + 1;
        }
        Ok(())
    }

    /// The loop met on the way up from a network, if there is one.
    fn FindLoopFrom(&self, strStartId: &String) -> (optCycle: Option<Vec<String>>)
        ensures
            match optCycle {
                Some(vecCycle) => is_loop_from(self.m_vecEcus@, strStartId@, texts(vecCycle@)),
                None => is_loop_free(self.m_vecEcus@, strStartId@),
            },
    {
        let ghost ecus = self.m_vecEcus@;
        let ghost start = strStartId@;
        let mut vecWalked: Vec<String> = Vec::new();
        vecWalked.push(strStartId.clone());
        assert(texts(vecWalked@) =~= walk_up(ecus, start, 0));
        loop
            invariant
                ecus == self.m_vecEcus@,
                start == strStartId@,
                vecWalked@.len() >= 1,
                texts(vecWalked@) == walk_up(ecus, start, (vecWalked@.len() - 1) as nat),
                meets_nothing_twice(texts(vecWalked@)),
            decreases ecus.len() + 1 - vecWalked@.len(),
        {
            let ghost walked = texts(vecWalked@);
            let ghost steps = (vecWalked@.len() - 1) as nat;
            proof {
                lemma_walk_is_short(ecus, start, steps);
            }
            let strCurrentId = &vecWalked[vecWalked.len() - 1];
            assert(strCurrentId@ == walked.last());
            let optUpstreamId: Option<String> = match self.GatewayIndex(strCurrentId) {
                Some(uGateway) => match &self.m_vecEcus[uGateway].m_optStrNetworkId {
                    Some(strUpstreamId) => Some(strUpstreamId.clone()),
                    None => None,
                },
                None => None,
            };
            match optUpstreamId {
                None => {
                    proof {
                        lemma_ended_walk_is_loop_free(ecus, start, steps);
                    }
                    return None;
                },
                Some(strUpstreamId) => {
                    let bSeen = ContainsText(&vecWalked, &strUpstreamId);
                    let ghost next = strUpstreamId@;
                    vecWalked.push(strUpstreamId);
                    assert(texts(vecWalked@) =~= walked.push(next));
                    assert(walk_up(ecus, start, steps + 1) == walked.push(next));
                    if bSeen {
                        assert(texts(vecWalked@).drop_last() =~= walked);
                        return Some(vecWalked);
                    }
                    proof {
                        assert(meets_nothing_twice(texts(vecWalked@))) by {
                            assert forall|i: int, j: int|
                                0 <= i < j < walked.push(next).len() implies walked.push(next)[i]
                                != walked.push(next)[j] by {
                                if j == walked.len() {
                                    assert(walked.contains(walked[i]));
                                }
                            }
                        }
                        lemma_walk_is_short(ecus, start, steps + 1);
                    }
                },
            }
        }
    }
}

/// True when a list of strings holds the given text.
fn ContainsText(vecTexts: &Vec<String>, strWanted: &String) -> (bFound: bool)
    ensures
        bFound == texts(vecTexts@).contains(strWanted@),
{
    let mut uIndex: usize = 0;
    while uIndex < vecTexts.len()
        invariant
            uIndex <= vecTexts@.len(),
            forall|i: int| 0 <= i < uIndex ==> (#[trigger] texts(vecTexts@)[i]) != strWanted@,
        decreases vecTexts@.len() - uIndex,
    {
        if vecTexts[uIndex] == *strWanted {
            assert(texts(vecTexts@)[uIndex as int] == strWanted@);
            return true;
        }
        uIndex = uIndex + 1;
    }
    false
}

/// The ids joined by an arrow.
fn JoinWithArrows(vecIds: &Vec<String>) -> (strJoined: String)
    ensures
        strJoined@ == joined(texts(vecIds@)),
{
    let mut strJoined = String::new();
    let ghost ids = texts(vecIds@);
    let mut uIndex: usize = 0;
    assert(joined(ids.take(0)) =~= seq![]);
    while uIndex < vecIds.len()
        invariant
            uIndex <= vecIds@.len(),
            ids == texts(vecIds@),
            strJoined@ == joined(ids.take(uIndex as int)),
        decreases vecIds@.len() - uIndex,
    {
        let ghost before = strJoined@;
        assert(ids.take(uIndex + 1).drop_last() =~= ids.take(uIndex as int));
        if uIndex > 0 {
            strJoined.append(" → ");
        }
        strJoined.append(vecIds[uIndex].as_str());
        assert(strJoined@ =~= joined(ids.take(uIndex + 1)));
        uIndex = uIndex + 1;
    }
    assert(ids.take(uIndex as int) =~= ids);
    strJoined
}

} // verus!
