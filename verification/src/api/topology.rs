//! How the loaded vehicle is wired, as far as anything knows, with the caveats that belong next to
//! the picture.

use vstd::prelude::*;

use crate::api::events::text_of;
use crate::api::simulation::addressing_mode_name;
use crate::api::simulation::confidence_name;
use crate::api::simulation::AddressingModeName;
use crate::api::simulation::ConfidenceName;
use crate::core_domain::address::CanAddress;
use crate::core_domain::address::CanAddressingMode;
use crate::core_domain::Confidence;
use crate::ecu::VirtualEcu;
use crate::text::can_id_text;
use crate::text::FormatCanId;

verus! {

/// A link in the topology view.
///
/// Deliberately not called a bus. A tester-side capture has one vantage point, the diagnostic
/// connector: appearing in one capture proves the ECUs are reachable through the same tester
/// connection, not that they share a wire.
#[derive(Debug, Clone, PartialEq, Eq)]
pub struct TopologyLinkDto {
    pub id: String,
    pub label: String,
    /// "CAN", "CAN-FD" or "Ethernet". Only what the model can support.
    pub kind: String,
    /// Broadcast identifiers a tester can address on this link.
    pub functional_can_ids_hex: Vec<String>,
    /// How confidently the membership of this link is known.
    pub membership_confidence: String,
}

/// One node hanging off a link.
#[derive(Debug, Clone, PartialEq, Eq)]
pub struct TopologyNodeDto {
    pub id: String,
    pub label: String,
    /// "ecu" or "tester".
    pub kind: String,
    pub link_id: Option<String>,
    pub request_can_id_hex: Option<String>,
    pub response_can_id_hex: Option<String>,
    pub addressing_mode: Option<String>,
    /// How the identifier pair was established.
    pub address_confidence: Option<String>,
    /// True when the ECU is in the model but cannot be reached on CAN.
    pub is_unreachable: bool,
}

/// The diagram, plus the caveats that belong next to it.
#[derive(Debug, Clone, PartialEq, Eq)]
pub struct TopologyDto {
    pub vehicle_name: Option<String>,
    pub links: Vec<TopologyLinkDto>,
    pub nodes: Vec<TopologyNodeDto>,
    /// What this diagram does not know.
    pub caveats: Vec<String>,
}

/// An ECU uses 29-bit addressing.
pub open spec fn is_extended(ecu: VirtualEcu) -> bool {
    ecu.config().m_optCanAddress matches Some(address) && address.m_addressingMode
        == CanAddressingMode::NormalFixed29Bit
}

/// True when this ECU uses 29-bit addressing.
pub fn IsExtended(runningEcu: &VirtualEcu) -> (bIsExtended: bool)
    ensures
        bIsExtended == is_extended(*runningEcu),
{
    match runningEcu.Config().m_optCanAddress {
        Some(address) => address.IsExtendedId(),
        None => false,
    }
}

/// ECUs of both identifier widths are shown together.
pub open spec fn is_mixed(ecus: Seq<VirtualEcu>) -> bool {
    &&& exists|i: int| 0 <= i < ecus.len() && is_extended(#[trigger] ecus[i])
    &&& exists|i: int| 0 <= i < ecus.len() && !is_extended(#[trigger] ecus[i])
}

/// The texts of a list.
pub open spec fn texts(list: Seq<String>) -> Seq<Seq<char>> {
    Seq::new(list.len(), |i: int| list[i]@)
}

/// The things a diagram of these ECUs cannot know.
pub open spec fn caveats(ecus: Seq<VirtualEcu>) -> Seq<Seq<char>> {
    let connection = seq![
        "These ECUs were reached through the same tester connection. That does not prove they share a physical bus — an ECU behind a gateway answers on the same connector."@,
    ];
    let mixed = if is_mixed(ecus) {
        seq![
            "11-bit and 29-bit ECUs are shown together. Identifier width says nothing about bus membership: one CAN segment carries both, and a gateway can present several segments on one connector."@,
        ]
    } else {
        seq![]
    };
    let unseen = seq![
        "Only ECUs that answered are here. Bus load, termination, error state and silent nodes are not visible from a tester-side capture."@,
    ];
    connection + mixed + unseen
}

/// Tell whether ECUs of both identifier widths are shown together.
fn IsMixed(vecEcus: &[VirtualEcu]) -> (bIsMixed: bool)
    ensures
        bIsMixed == is_mixed(vecEcus@),
{
    let mut bHasExtended = false;
    let mut bHasStandard = false;
    let mut uAt: usize = 0;
    while uAt < vecEcus.len()
        invariant
            uAt <= vecEcus@.len(),
            bHasExtended == exists|i: int| 0 <= i < uAt && is_extended(#[trigger] vecEcus@[i]),
            bHasStandard == exists|i: int| 0 <= i < uAt && !is_extended(#[trigger] vecEcus@[i]),
        decreases vecEcus@.len() - uAt,
    {
        if IsExtended(&vecEcus[uAt]) {
            bHasExtended = true;
            assert(is_extended(vecEcus@[uAt as int]));
        } else {
            bHasStandard = true;
            assert(!is_extended(vecEcus@[uAt as int]));
        }
        uAt += 1;
    }
    bHasExtended && bHasStandard
}

/// The things this diagram cannot know, stated plainly.
pub fn BuildTopologyCaveats(vecEcus: &[VirtualEcu]) -> (vecCaveats: Vec<String>)
    ensures
        texts(vecCaveats@) == caveats(vecEcus@),
{
    let mut vecCaveats: Vec<String> = Vec::new();
    vecCaveats.push(
        "These ECUs were reached through the same tester connection. That does not prove they share a physical bus — an ECU behind a gateway answers on the same connector.".to_string(),
    );
    if IsMixed(vecEcus) {
        vecCaveats.push(
            "11-bit and 29-bit ECUs are shown together. Identifier width says nothing about bus membership: one CAN segment carries both, and a gateway can present several segments on one connector.".to_string(),
        );
    }
    vecCaveats.push(
        "Only ECUs that answered are here. Bus load, termination, error state and silent nodes are not visible from a tester-side capture.".to_string(),
    );
    assert(texts(vecCaveats@) =~= caveats(vecEcus@));
    vecCaveats
}

/// A list of identifiers with one more, in ascending order and each once.
pub open spec fn with_id(ids: Seq<u32>, id: u32) -> Seq<u32>
    decreases ids.len(),
{
    if ids.len() == 0 || ids.last() < id {
        ids.push(id)
    } else if ids.last() == id {
        ids
    } else {
        with_id(ids.drop_last(), id).push(ids.last())
    }
}

/// The broadcast identifiers of some ECUs, in ascending order and each once.
pub open spec fn functional_ids(ecus: Seq<VirtualEcu>) -> Seq<u32>
    decreases ecus.len(),
{
    if ecus.len() == 0 {
        seq![]
    } else {
        let before = functional_ids(ecus.drop_last());
        match functional_id_of(ecus.last()) {
            Some(id) => with_id(before, id),
            None => before,
        }
    }
}

/// The broadcast identifier an ECU listens on.
pub open spec fn functional_id_of(ecu: VirtualEcu) -> Option<u32> {
    match ecu.config().m_optCanAddress {
        Some(address) => address.m_optU32FunctionalCanId,
        None => None,
    }
}

proof fn lemma_with_id_at(ids: Seq<u32>, id: u32, at: int)
    requires
        0 <= at <= ids.len(),
        forall|i: int| at <= i < ids.len() ==> (#[trigger] ids[i]) > id,
        at > 0 ==> ids[at - 1] <= id,
    ensures
        with_id(ids, id) == if at > 0 && ids[at - 1] == id {
            ids
        } else {
            ids.insert(at, id)
        },
    decreases ids.len(),
{
    if at < ids.len() {
        let front = ids.drop_last();
        assert(ids.last() == ids[ids.len() - 1]);
        assert(ids[ids.len() - 1] > id);
        lemma_with_id_at(front, id, at);
        if at > 0 && ids[at - 1] == id {
            assert(front.push(ids.last()) =~= ids);
        } else {
            assert(front.insert(at, id).push(ids.last()) =~= ids.insert(at, id));
        }
    } else if ids.len() > 0 {
        assert(ids.last() == ids[at - 1]);
        assert(ids.push(id) =~= ids.insert(at, id));
    } else {
        assert(ids.push(id) =~= ids.insert(at, id));
    }
}

/// Add an identifier to an ascending list, unless it is there.
fn AddId(vecIds: &mut Vec<u32>, u32Id: u32)
    ensures
        final(vecIds)@ == with_id(old(vecIds)@, u32Id),
{
    let mut uAt: usize = vecIds.len();
    while uAt > 0 && vecIds[uAt - 1] > u32Id
        invariant
            uAt <= vecIds@.len(),
            vecIds@ == old(vecIds)@,
            forall|i: int| uAt <= i < vecIds@.len() ==> (#[trigger] vecIds@[i]) > u32Id,
        decreases uAt,
    {
        uAt = uAt - 1;
    }
    proof {
        lemma_with_id_at(vecIds@, u32Id, uAt as int);
    }
    if uAt > 0 && vecIds[uAt - 1] == u32Id {
        return;
    }
    vecIds.insert(uAt, u32Id);
}

/// The node a tester is drawn as.
pub open spec fn is_tester_node(node: TopologyNodeDto) -> bool {
    &&& node.id@ == "tester"@
    &&& node.label@ == "Tester"@
    &&& node.kind@ == "tester"@
    &&& text_of(node.link_id) == Some("diagnostic-link"@)
    &&& node.request_can_id_hex is None
    &&& node.response_can_id_hex is None
    &&& node.addressing_mode is None
    &&& node.address_confidence is None
    &&& !node.is_unreachable
}

/// The node an ECU is drawn as.
pub open spec fn is_ecu_node(node: TopologyNodeDto, ecu: VirtualEcu) -> bool {
    &&& ecu.config().m_optCanAddress matches Some(address)
    &&& node.id@ == can_id_text(address.m_u32RequestCanId)
    &&& node.label@ == ecu.config().m_strName@
    &&& node.kind@ == "ecu"@
    &&& text_of(node.link_id) == Some("diagnostic-link"@)
    &&& text_of(node.request_can_id_hex) == Some(can_id_text(address.m_u32RequestCanId))
    &&& text_of(node.response_can_id_hex) == Some(can_id_text(address.m_u32ResponseCanId))
    &&& text_of(node.addressing_mode) == Some(addressing_mode_name(address.m_addressingMode))
    &&& text_of(node.address_confidence) == Some(confidence_name(address.m_confidence))
    &&& !node.is_unreachable
}

/// The one link that can honestly be drawn: everything reachable through one tester connection.
pub open spec fn is_diagnostic_link(link: TopologyLinkDto, ids: Seq<u32>) -> bool {
    &&& link.id@ == "diagnostic-link"@
    &&& link.label@ == "Diagnostic link, as captured"@
    &&& link.kind@ == "CAN"@
    &&& texts(link.functional_can_ids_hex@) == Seq::new(ids.len(), |i: int| can_id_text(ids[i]))
    &&& link.membership_confidence@ == confidence_name(Confidence::Inferred)
}

/// The diagram of a vehicle. With no ECU there is nothing to draw.
pub open spec fn is_topology_of(
    dto: TopologyDto,
    vehicle_name: Option<Seq<char>>,
    ecus: Seq<VirtualEcu>,
) -> bool {
    &&& text_of(dto.vehicle_name) == vehicle_name
    &&& if ecus.len() == 0 {
        dto.links@.len() == 0 && dto.nodes@.len() == 0 && dto.caveats@.len() == 0
    } else {
        &&& dto.links@.len() == 1
        &&& is_diagnostic_link(dto.links@[0], functional_ids(ecus))
        &&& dto.nodes@.len() == ecus.len() + 1
        &&& is_tester_node(dto.nodes@[0])
        &&& forall|i: int|
            0 <= i < ecus.len() ==> is_ecu_node(#[trigger] dto.nodes@[i + 1], ecus[i])
        &&& texts(dto.caveats@) == caveats(ecus)
    }
}

/// Draw the tester.
fn BuildTesterNode() -> (node: TopologyNodeDto)
    ensures
        is_tester_node(node),
{
    TopologyNodeDto {
        id: "tester".to_string(),
        label: "Tester".to_string(),
        kind: "tester".to_string(),
        link_id: Some("diagnostic-link".to_string()),
        request_can_id_hex: None,
        response_can_id_hex: None,
        addressing_mode: None,
        address_confidence: None,
        is_unreachable: false,
    }
}

/// Draw one ECU.
fn BuildEcuNode(runningEcu: &VirtualEcu, address: &CanAddress) -> (node: TopologyNodeDto)
    requires
        runningEcu.config().m_optCanAddress == Some(*address),
    ensures
        is_ecu_node(node, *runningEcu),
{
    TopologyNodeDto {
        id: FormatCanId(address.m_u32RequestCanId),
        label: runningEcu.Config().m_strName.clone(),
        kind: "ecu".to_string(),
        link_id: Some("diagnostic-link".to_string()),
        request_can_id_hex: Some(FormatCanId(address.m_u32RequestCanId)),
        response_can_id_hex: Some(FormatCanId(address.m_u32ResponseCanId)),
        addressing_mode: Some(AddressingModeName(address.m_addressingMode)),
        address_confidence: Some(ConfidenceName(address.m_confidence)),
        is_unreachable: false,
    }
}

/// Draw the one link, with its broadcast identifiers.
fn BuildLink(vecIds: &Vec<u32>) -> (link: TopologyLinkDto)
    ensures
        is_diagnostic_link(link, vecIds@),
{
    let mut vecTexts: Vec<String> = Vec::new();
    let mut uAt: usize = 0;
    while uAt < vecIds.len()
        invariant
            uAt <= vecIds@.len(),
            vecTexts@.len() == uAt,
            forall|i: int| 0 <= i < uAt ==> (#[trigger] vecTexts@[i])@ == can_id_text(vecIds@[i]),
        decreases vecIds@.len() - uAt,
    {
        vecTexts.push(FormatCanId(vecIds[uAt]));
        uAt += 1;
    }
    assert(texts(vecTexts@) =~= Seq::new(vecIds@.len(), |i: int| can_id_text(vecIds@[i])));
    TopologyLinkDto {
        id: "diagnostic-link".to_string(),
        label: "Diagnostic link, as captured".to_string(),
        kind: "CAN".to_string(),
        functional_can_ids_hex: vecTexts,
        // A capture cannot observe bus membership, so the strongest honest claim is that these
        // ECUs were reached together.
        membership_confidence: ConfidenceName(Confidence::Inferred),
    }
}

/// Derive the diagram from the running ECUs. There is exactly one link, and it is honest about
/// being a reachability set rather than a bus.
pub fn BuildTopologyDto(optStrVehicleName: Option<&str>, vecEcus: &[VirtualEcu]) -> (dto: TopologyDto)
    requires
        forall|i: int|
            0 <= i < vecEcus@.len() ==> (#[trigger] vecEcus@[i]).config().m_optCanAddress is Some,
    ensures
        is_topology_of(
            dto,
            match optStrVehicleName {
                Some(name) => Some(name@),
                None => None,
            },
            vecEcus@,
        ),
{
    let optStrName = match optStrVehicleName {
        Some(strName) => Some(strName.to_string()),
        None => None,
    };
    if vecEcus.len() == 0 {
        return TopologyDto {
            vehicle_name: optStrName,
            links: Vec::new(),
            nodes: Vec::new(),
            caveats: Vec::new(),
        };
    }
    let mut vecIds: Vec<u32> = Vec::new();
    let mut vecNodes: Vec<TopologyNodeDto> = Vec::new();
    vecNodes.push(BuildTesterNode());
    let mut uAt: usize = 0;
    assert(vecEcus@.take(0) =~= seq![]);
    assert(vecIds@ =~= seq![]);
    while uAt < vecEcus.len()
        invariant
            uAt <= vecEcus@.len(),
            forall|i: int|
                0 <= i < vecEcus@.len() ==> (
                #[trigger] vecEcus@[i]).config().m_optCanAddress is Some,
            vecIds@ == functional_ids(vecEcus@.take(uAt as int)),
            vecNodes@.len() == uAt + 1,
            is_tester_node(vecNodes@[0]),
            forall|i: int| 0 <= i < uAt ==> is_ecu_node(#[trigger] vecNodes@[i + 1], vecEcus@[i]),
        decreases vecEcus@.len() - uAt,
    {
        assert(vecEcus@.take(uAt + 1).drop_last() =~= vecEcus@.take(uAt as int));
        let address = vecEcus[uAt].Config().m_optCanAddress.unwrap();
        if let Some(u32FunctionalCanId) = address.m_optU32FunctionalCanId {
            AddId(&mut vecIds, u32FunctionalCanId);
        }
        vecNodes.push(BuildEcuNode(&vecEcus[uAt], &address));
        uAt += 1;
    }
    assert(vecEcus@.take(uAt as int) =~= vecEcus@);
    let mut vecLinks: Vec<TopologyLinkDto> = Vec::new();
    vecLinks.push(BuildLink(&vecIds));
    TopologyDto {
        vehicle_name: optStrName,
        links: vecLinks,
        nodes: vecNodes,
        caveats: BuildTopologyCaveats(vecEcus),
    }
}

/// A list is in ascending order, each value once.
pub open spec fn is_strictly_ascending(ids: Seq<u32>) -> bool {
    forall|i: int, j: int| 0 <= i < j < ids.len() ==> #[trigger] ids[i] < #[trigger] ids[j]
}

proof fn lemma_with_id(ids: Seq<u32>, id: u32)
    requires
        is_strictly_ascending(ids),
    ensures
        is_strictly_ascending(with_id(ids, id)),
        forall|x: u32| #[trigger]
            with_id(ids, id).contains(x) <==> x == id || ids.contains(x),
        ids.len() > 0 && id < ids.last() ==> with_id(ids, id).last() == ids.last(),
    decreases ids.len(),
{
    let longer = with_id(ids, id);
    if ids.len() == 0 || ids.last() < id {
        assert forall|x: u32| longer.contains(x) <==> x == id || ids.contains(x) by {
            if ids.contains(x) {
                let i = choose|i: int| 0 <= i < ids.len() && ids[i] == x;
                assert(longer[i] == x);
            }
            if x == id {
                assert(longer[ids.len() as int] == x);
            }
        }
        assert forall|i: int, j: int| 0 <= i < j < longer.len() implies #[trigger] longer[i]
            < #[trigger] longer[j] by {
            if j == ids.len() && i < ids.len() - 1 {
                assert(ids[i] < ids[ids.len() - 1]);
            }
        }
    } else if ids.last() == id {
        assert(ids[ids.len() - 1] == id);
    } else {
        let front = ids.drop_last();
        lemma_with_id(front, id);
        let shorter = with_id(front, id);
        assert forall|x: u32| longer.contains(x) <==> x == id || ids.contains(x) by {
            if longer.contains(x) {
                let i = choose|i: int| 0 <= i < longer.len() && longer[i] == x;
                if i < shorter.len() {
                    assert(shorter[i] == x);
                    assert(shorter.contains(x));
                    if front.contains(x) {
                        let k = choose|k: int| 0 <= k < front.len() && front[k] == x;
                        assert(ids[k] == x);
                    }
                } else {
                    assert(ids[ids.len() - 1] == x);
                }
            }
            if ids.contains(x) {
                let k = choose|k: int| 0 <= k < ids.len() && ids[k] == x;
                if k < front.len() {
                    assert(front[k] == x);
                    assert(front.contains(x));
                    assert(shorter.contains(x));
                    let i = choose|i: int| 0 <= i < shorter.len() && shorter[i] == x;
                    assert(longer[i] == x);
                } else {
                    assert(longer[shorter.len() as int] == x);
                }
            }
            if x == id {
                assert(shorter.contains(x));
                let i = choose|i: int| 0 <= i < shorter.len() && shorter[i] == x;
                assert(longer[i] == x);
            }
        }
        assert forall|i: int, j: int| 0 <= i < j < longer.len() implies #[trigger] longer[i]
            < #[trigger] longer[j] by {
            if j == shorter.len() {
                assert(shorter.contains(longer[i]));
                let x = longer[i];
                if front.contains(x) {
                    let k = choose|k: int| 0 <= k < front.len() && front[k] == x;
                    assert(ids[k] < ids[ids.len() - 1]);
                }
            }
        }
    }
}

/// The broadcast identifiers of a link are those of its ECUs, in ascending order and each once.
pub proof fn law_functional_ids_are_a_sorted_set(ecus: Seq<VirtualEcu>)
    ensures
        is_strictly_ascending(functional_ids(ecus)),
        forall|id: u32|
            functional_ids(ecus).contains(id) <==> exists|i: int|
                0 <= i < ecus.len() && functional_id_of(#[trigger] ecus[i]) == Some(id),
    decreases ecus.len(),
{
    if ecus.len() > 0 {
        let front = ecus.drop_last();
        law_functional_ids_are_a_sorted_set(front);
        match functional_id_of(ecus.last()) {
            Some(id) => lemma_with_id(functional_ids(front), id),
            None => {},
        }
        assert forall|id: u32|
            functional_ids(ecus).contains(id) <==> exists|i: int|
                0 <= i < ecus.len() && functional_id_of(#[trigger] ecus[i]) == Some(id) by {
            if functional_ids(ecus).contains(id) {
                if functional_id_of(ecus.last()) == Some(id) {
                    assert(functional_id_of(ecus[ecus.len() - 1]) == Some(id));
                } else {
                    assert(functional_ids(front).contains(id));
                    let i = choose|i: int|
                        0 <= i < front.len() && functional_id_of(#[trigger] front[i]) == Some(id);
                    assert(functional_id_of(ecus[i]) == Some(id));
                }
            }
            if exists|i: int|
                0 <= i < ecus.len() && functional_id_of(#[trigger] ecus[i]) == Some(id) {
                let i = choose|i: int|
                    0 <= i < ecus.len() && functional_id_of(#[trigger] ecus[i]) == Some(id);
                if i < front.len() {
                    assert(functional_id_of(front[i]) == Some(id));
                    assert(functional_ids(front).contains(id));
                } else {
                    assert(ecus[i] == ecus.last());
                }
                match functional_id_of(ecus.last()) {
                    Some(last) => {
                        assert(functional_ids(ecus) == with_id(functional_ids(front), last));
                        assert(with_id(functional_ids(front), last).contains(id));
                    },
                    None => {
                        assert(functional_ids(ecus) == functional_ids(front));
                    },
                }
            }
        }
    }
}

} // verus!
