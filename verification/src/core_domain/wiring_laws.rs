//! What makes the wiring of a vehicle one that could exist, and how far everything is.

use vstd::prelude::*;

use crate::core_domain::ecu::Ecu;
use crate::core_domain::reach::climb;
use crate::core_domain::reach::has_depth;
use crate::core_domain::reach::is_ascending;
use crate::core_domain::reach::is_depth;
use crate::core_domain::reach::leads_to;
use crate::core_domain::reach::path_to;
use crate::core_domain::reach::reached_in;
use crate::core_domain::topology::all_claims;
use crate::core_domain::topology::claim_at;
use crate::core_domain::topology::claims_of;
use crate::core_domain::topology::entry_points;
use crate::core_domain::topology::forwarding_errors;
use crate::core_domain::topology::gateway_at;
use crate::core_domain::topology::lemma_claim_at;
use crate::core_domain::topology::lemma_gateway_at;
use crate::core_domain::topology::lemma_network_at;
use crate::core_domain::topology::network_at;
use crate::core_domain::topology::reference_error;
use crate::core_domain::topology::reference_errors;
use crate::core_domain::topology::shared_gateway_error;
use crate::core_domain::topology::upstream;
use crate::core_domain::topology::walk_up;
use crate::core_domain::topology::Claim;
use crate::core_domain::topology::Network;
use crate::core_domain::topology::NetworkDepth;
use crate::core_domain::topology::TopologyErrorView;
use crate::core_domain::topology::Vehicle;
use crate::order::text_before;

verus! {

/// A vehicle declares a network with an id.
pub open spec fn declares(v: Vehicle, id: Seq<char>) -> bool {
    exists|n: int| 0 <= n < v.m_vecNetworks@.len() && (#[trigger] v.m_vecNetworks@[n]).m_strId@ == id
}

/// The ECU at a position names a network in its gateway list.
pub open spec fn gateways_onto(v: Vehicle, e: int, id: Seq<char>) -> bool {
    exists|k: int|
        0 <= k < v.m_vecEcus@[e].m_vecGatewayForNetworkIds@.len() && (
        #[trigger] v.m_vecEcus@[e].m_vecGatewayForNetworkIds@[k])@ == id
}

/// What every ECU refers to is there, no ECU gateways onto the network it is on, and no two ECUs
/// gateway onto one network.
pub open spec fn references_hold(v: Vehicle) -> bool {
    &&& forall|e: int|
        0 <= e < v.m_vecEcus@.len() && (#[trigger] v.m_vecEcus@[e]).m_optStrNetworkId is Some
            ==> declares(v, v.m_vecEcus@[e].m_optStrNetworkId->0@)
    &&& forall|e: int, id: Seq<char>|
        0 <= e < v.m_vecEcus@.len() && #[trigger] gateways_onto(v, e, id) ==> declares(v, id) && (
        v.m_vecEcus@[e].m_optStrNetworkId is Some ==> v.m_vecEcus@[e].m_optStrNetworkId->0@ != id)
    &&& forall|e: int, f: int, id: Seq<char>|
        0 <= e < f < v.m_vecEcus@.len() && #[trigger] gateways_onto(v, e, id)
            ==> !#[trigger] gateways_onto(v, f, id)
}

proof fn lemma_declares(v: Vehicle, id: Seq<char>)
    ensures
        declares(v, id) <==> network_at(v.m_vecNetworks@, id) is Some,
{
    lemma_network_at(v.m_vecNetworks@, id);
    if network_at(v.m_vecNetworks@, id) is Some {
        let n = network_at(v.m_vecNetworks@, id)->0;
        assert(v.m_vecNetworks@[n].m_strId@ == id);
    }
}

proof fn lemma_forwarding(v: Vehicle, e: int, k: int)
    requires
        0 <= e < v.m_vecEcus@.len(),
        0 <= k <= v.m_vecEcus@[e].m_vecGatewayForNetworkIds@.len(),
    ensures
        ({
            let ecu = v.m_vecEcus@[e];
            forwarding_errors(ecu, v.m_vecNetworks@, k) is None <==> forall|i: int|
                0 <= i < k ==> {
                    let id = (#[trigger] ecu.m_vecGatewayForNetworkIds@[i])@;
                    declares(v, id) && (ecu.m_optStrNetworkId is Some ==> ecu.m_optStrNetworkId->0@
                        != id)
                }
        }),
    decreases k,
{
    if k > 0 {
        let ecu = v.m_vecEcus@[e];
        lemma_forwarding(v, e, k - 1);
        lemma_declares(v, ecu.m_vecGatewayForNetworkIds@[k - 1]@);
    }
}

proof fn lemma_references(v: Vehicle, n: int)
    requires
        0 <= n <= v.m_vecEcus@.len(),
    ensures
        reference_errors(v.m_vecEcus@, v.m_vecNetworks@, n) is None <==> forall|e: int|
            0 <= e < n ==> reference_error(#[trigger] v.m_vecEcus@[e], v.m_vecNetworks@) is None,
    decreases n,
{
    if n > 0 {
        lemma_references(v, n - 1);
    }
}

/// A claim is one entry of the gateway list of its owner, and every such entry is a claim.
proof fn lemma_claims_of_one(ecu: Ecu, owner: int, k: int)
    requires
        0 <= k <= ecu.m_vecGatewayForNetworkIds@.len(),
    ensures
        claims_of(ecu, owner, k).len() == k,
        forall|i: int|
            0 <= i < k ==> (#[trigger] claims_of(ecu, owner, k)[i]) == (Claim {
                network: ecu.m_vecGatewayForNetworkIds@[i]@,
                owner,
                ecu: ecu.m_strName@,
            }),
    decreases k,
{
    if k > 0 {
        lemma_claims_of_one(ecu, owner, k - 1);
    }
}

proof fn lemma_claims(v: Vehicle, n: int)
    requires
        0 <= n <= v.m_vecEcus@.len(),
    ensures
        ({
            let claims = all_claims(v.m_vecEcus@, n);
            &&& forall|i: int|
                0 <= i < claims.len() ==> 0 <= (#[trigger] claims[i]).owner < n && gateways_onto(
                    v,
                    claims[i].owner,
                    claims[i].network,
                ) && claims[i].ecu == v.m_vecEcus@[claims[i].owner].m_strName@
            &&& forall|e: int, id: Seq<char>|
                0 <= e < n && #[trigger] gateways_onto(v, e, id) ==> exists|i: int|
                    0 <= i < claims.len() && (#[trigger] claims[i]).owner == e && claims[i].network
                        == id
        }),
    decreases n,
{
    if n > 0 {
        lemma_claims(v, n - 1);
        let ecu = v.m_vecEcus@[n - 1];
        let before = all_claims(v.m_vecEcus@, n - 1);
        let own = claims_of(ecu, n - 1, ecu.m_vecGatewayForNetworkIds@.len() as int);
        let claims = all_claims(v.m_vecEcus@, n);
        lemma_claims_of_one(ecu, n - 1, ecu.m_vecGatewayForNetworkIds@.len() as int);
        assert(claims == before + own);
        assert forall|i: int| 0 <= i < claims.len() implies 0 <= (#[trigger] claims[i]).owner < n
            && gateways_onto(v, claims[i].owner, claims[i].network) && claims[i].ecu
            == v.m_vecEcus@[claims[i].owner].m_strName@ by {
            if i < before.len() {
                assert(claims[i] == before[i]);
            } else {
                let k = i - before.len();
                assert(claims[i] == own[k]);
                assert(ecu.m_vecGatewayForNetworkIds@[k]@ == claims[i].network);
            }
        }
        assert forall|e: int, id: Seq<char>|
            0 <= e < n && #[trigger] gateways_onto(v, e, id) implies exists|i: int|
            0 <= i < claims.len() && (#[trigger] claims[i]).owner == e && claims[i].network
                == id by {
            if e < n - 1 {
                let i = choose|i: int|
                    0 <= i < before.len() && (#[trigger] before[i]).owner == e && before[i].network
                        == id;
                assert(claims[i] == before[i]);
            } else {
                let k = choose|k: int|
                    0 <= k < ecu.m_vecGatewayForNetworkIds@.len() && (
                    #[trigger] ecu.m_vecGatewayForNetworkIds@[k])@ == id;
                assert(own[k].network == id);
                assert(claims[before.len() + k] == own[k]);
            }
        }
    }
}

/// No claim is refused exactly where claims for one network have one owner.
proof fn lemma_shared(claims: Seq<Claim>)
    ensures
        shared_gateway_error(claims) is None <==> forall|i: int, j: int|
            0 <= i < j < claims.len() && (#[trigger] claims[i]).network == (
            #[trigger] claims[j]).network ==> claims[i].owner == claims[j].owner,
        shared_gateway_error(claims) matches Some(error) ==> exists|i: int, j: int|
            0 <= i < j < claims.len() && (#[trigger] claims[i]).network == (
            #[trigger] claims[j]).network && claims[i].owner != claims[j].owner && error == (
            TopologyErrorView::NetworkHasTwoGateways {
                network: claims[j].network,
                first: claims[i].ecu,
                second: claims[j].ecu,
            }),
    decreases claims.len(),
{
    if claims.len() > 0 {
        let head = claims.drop_last();
        let last = claims.len() - 1;
        lemma_shared(head);
        lemma_claim_at(head, claims.last().network);
        assert forall|i: int| 0 <= i < last implies head[i] == #[trigger] claims[i] by {}
        if shared_gateway_error(head) is None {
            match claim_at(head, claims.last().network) {
                Some(k) => {
                    assert(claims[k].network == claims[last].network);
                    if claims[k].owner == claims.last().owner {
                        assert forall|i: int, j: int|
                            0 <= i < j < claims.len() && (#[trigger] claims[i]).network == (
                            #[trigger] claims[j]).network implies claims[i].owner
                            == claims[j].owner by {
                            if j < last {
                                assert(head[i].network == head[j].network);
                            } else {
                                assert(head[i].network == claims.last().network);
                                if k < i {
                                    assert(head[k].network == head[i].network);
                                }
                            }
                        }
                    }
                },
                None => {
                    assert forall|i: int, j: int|
                        0 <= i < j < claims.len() && (#[trigger] claims[i]).network == (
                        #[trigger] claims[j]).network implies claims[i].owner == claims[j].owner by {
                        if j < last {
                            assert(head[i].network == head[j].network);
                        } else {
                            assert(head[i].network != claims.last().network);
                        }
                    }
                },
            }
        } else {
            let (i, j) = choose|i: int, j: int|
                0 <= i < j < head.len() && (#[trigger] head[i]).network == (
                #[trigger] head[j]).network && head[i].owner != head[j].owner
                    && shared_gateway_error(head)->0 == (TopologyErrorView::NetworkHasTwoGateways {
                    network: head[j].network,
                    first: head[i].ecu,
                    second: head[j].ecu,
                });
            assert(claims[i].network == claims[j].network);
        }
    }
}

/// Wiring passes the rules on references exactly when they hold: every network an ECU sits on or
/// gateways onto is declared, none gateways onto its own, and no two gateway onto one.
pub proof fn law_references_decide_the_wiring(v: Vehicle)
    ensures
        v.wiring_error() is None <==> references_hold(v),
{
    let ecus = v.m_vecEcus@;
    let n = ecus.len() as int;
    let claims = all_claims(ecus, n);
    lemma_references(v, n);
    lemma_claims(v, n);
    lemma_shared(claims);
    assert forall|e: int| 0 <= e < n implies (reference_error(
        #[trigger] ecus[e],
        v.m_vecNetworks@,
    ) is None <==> {
        &&& ecus[e].m_optStrNetworkId is Some ==> declares(v, ecus[e].m_optStrNetworkId->0@)
        &&& forall|id: Seq<char>| #[trigger]
            gateways_onto(v, e, id) ==> declares(v, id) && (ecus[e].m_optStrNetworkId is Some
                ==> ecus[e].m_optStrNetworkId->0@ != id)
    }) by {
        lemma_forwarding(v, e, ecus[e].m_vecGatewayForNetworkIds@.len() as int);
        if ecus[e].m_optStrNetworkId is Some {
            lemma_declares(v, ecus[e].m_optStrNetworkId->0@);
        }
        if forall|id: Seq<char>| #[trigger]
            gateways_onto(v, e, id) ==> declares(v, id) && (ecus[e].m_optStrNetworkId is Some
                ==> ecus[e].m_optStrNetworkId->0@ != id) {
            assert forall|i: int| 0 <= i < ecus[e].m_vecGatewayForNetworkIds@.len() implies {
                let id = (#[trigger] ecus[e].m_vecGatewayForNetworkIds@[i])@;
                declares(v, id) && (ecus[e].m_optStrNetworkId is Some
                    ==> ecus[e].m_optStrNetworkId->0@ != id)
            } by {
                assert(gateways_onto(v, e, ecus[e].m_vecGatewayForNetworkIds@[i]@));
            }
        }
    }
    if references_hold(v) {
        assert forall|i: int, j: int|
            0 <= i < j < claims.len() && (#[trigger] claims[i]).network == (
            #[trigger] claims[j]).network implies claims[i].owner == claims[j].owner by {
            let a = claims[i].owner;
            let b = claims[j].owner;
            assert(gateways_onto(v, a, claims[i].network) && gateways_onto(v, b, claims[j].network));
            if a < b {
                assert(!gateways_onto(v, b, claims[i].network));
            }
            if b < a {
                assert(!gateways_onto(v, a, claims[j].network));
            }
        }
    }
    if v.wiring_error() is None {
        assert forall|e: int, f: int, id: Seq<char>|
            0 <= e < f < n && #[trigger] gateways_onto(v, e, id) implies !#[trigger] gateways_onto(
            v,
            f,
            id,
        ) by {
            if gateways_onto(v, f, id) {
                let i = choose|i: int|
                    0 <= i < claims.len() && (#[trigger] claims[i]).owner == e && claims[i].network
                        == id;
                let j = choose|j: int|
                    0 <= j < claims.len() && (#[trigger] claims[j]).owner == f && claims[j].network
                        == id;
                if i < j {
                    assert(claims[i].network == claims[j].network);
                } else {
                    assert(claims[j].network == claims[i].network);
                }
            }
        }
    }
}

/// A refusal names what is wrong: an ECU and a network it refers to that is not declared, an ECU
/// and the network it is on and gateways onto, or two ECUs and the network both gateway onto.
pub proof fn law_a_refusal_names_what_is_wrong(v: Vehicle)
    ensures
        match v.wiring_error() {
            Some(TopologyErrorView::UnknownNetwork { ecu, network }) => exists|e: int|
                0 <= e < v.m_vecEcus@.len() && (#[trigger] v.m_vecEcus@[e]).m_strName@ == ecu
                    && !declares(v, network) && (gateways_onto(v, e, network) || (
                v.m_vecEcus@[e].m_optStrNetworkId is Some && v.m_vecEcus@[e].m_optStrNetworkId->0@
                    == network)),
            Some(TopologyErrorView::GatewayOntoOwnNetwork { ecu, network }) => exists|e: int|
                0 <= e < v.m_vecEcus@.len() && (#[trigger] v.m_vecEcus@[e]).m_strName@ == ecu
                    && gateways_onto(v, e, network) && v.m_vecEcus@[e].m_optStrNetworkId is Some
                    && v.m_vecEcus@[e].m_optStrNetworkId->0@ == network,
            Some(TopologyErrorView::NetworkHasTwoGateways { network, first, second }) => exists|
                e: int,
                f: int,
            |
                e != f && 0 <= e < v.m_vecEcus@.len() && 0 <= f < v.m_vecEcus@.len()
                    && #[trigger] gateways_onto(v, e, network) && #[trigger] gateways_onto(
                    v,
                    f,
                    network,
                ) && v.m_vecEcus@[e].m_strName@ == first && v.m_vecEcus@[f].m_strName@ == second,
            Some(TopologyErrorView::GatewayCycle { .. }) => false,
            None => true,
        },
{
    let ecus = v.m_vecEcus@;
    let n = ecus.len() as int;
    match reference_errors(ecus, v.m_vecNetworks@, n) {
        Some(_) => {
            let e = lemma_faulty_reference(v, n);
            lemma_faulty_ecu(v, e);
            assert(v.wiring_error() == reference_error(v.m_vecEcus@[e], v.m_vecNetworks@));
            match v.wiring_error() {
                Some(TopologyErrorView::UnknownNetwork { ecu, network }) => {
                    assert(v.m_vecEcus@[e].m_strName@ == ecu && !declares(v, network));
                },
                Some(TopologyErrorView::GatewayOntoOwnNetwork { ecu, network }) => {
                    assert(v.m_vecEcus@[e].m_strName@ == ecu && gateways_onto(v, e, network));
                },
                Some(TopologyErrorView::GatewayCycle { .. }) => {
                    assert(false);
                },
                _ => {},
            }
        },
        None => {
            let claims = all_claims(ecus, n);
            lemma_claims(v, n);
            lemma_shared(claims);
            if shared_gateway_error(claims) is Some {
                let (i, j) = choose|i: int, j: int|
                    0 <= i < j < claims.len() && (#[trigger] claims[i]).network == (
                    #[trigger] claims[j]).network && claims[i].owner != claims[j].owner
                        && shared_gateway_error(claims)->0 == (
                    TopologyErrorView::NetworkHasTwoGateways {
                        network: claims[j].network,
                        first: claims[i].ecu,
                        second: claims[j].ecu,
                    });
                let e = claims[i].owner;
                let f = claims[j].owner;
                assert(v.wiring_error() == shared_gateway_error(claims));
                assert(gateways_onto(v, e, claims[j].network));
                assert(gateways_onto(v, f, claims[j].network));
                assert(claims[i].ecu == v.m_vecEcus@[e].m_strName@);
                assert(claims[j].ecu == v.m_vecEcus@[f].m_strName@);
                if let Some(
                    TopologyErrorView::NetworkHasTwoGateways { network, first, second },
                ) = v.wiring_error() {
                    assert(e != f && 0 <= e < v.m_vecEcus@.len() && 0 <= f < v.m_vecEcus@.len());
                    assert(gateways_onto(v, e, network) && gateways_onto(v, f, network));
                    assert(v.m_vecEcus@[e].m_strName@ == first && v.m_vecEcus@[f].m_strName@
                        == second);
                } else {
                    assert(false);
                }
            } else {
                assert(v.wiring_error() is None);
            }
        },
    }
}

proof fn lemma_faulty_reference(v: Vehicle, n: int) -> (e: int)
    requires
        0 <= n <= v.m_vecEcus@.len(),
        reference_errors(v.m_vecEcus@, v.m_vecNetworks@, n) is Some,
    ensures
        0 <= e < n,
        reference_error(v.m_vecEcus@[e], v.m_vecNetworks@) == reference_errors(
            v.m_vecEcus@,
            v.m_vecNetworks@,
            n,
        ),
    decreases n,
{
    if reference_errors(v.m_vecEcus@, v.m_vecNetworks@, n - 1) is Some {
        lemma_faulty_reference(v, n - 1)
    } else {
        n - 1
    }
}

proof fn lemma_faulty_ecu(v: Vehicle, e: int)
    requires
        0 <= e < v.m_vecEcus@.len(),
    ensures
        ({
            let own = v.m_vecEcus@[e];
            match reference_error(own, v.m_vecNetworks@) {
                Some(TopologyErrorView::UnknownNetwork { ecu, network }) => own.m_strName@ == ecu
                    && !declares(v, network) && (gateways_onto(v, e, network) || (
                own.m_optStrNetworkId is Some && own.m_optStrNetworkId->0@ == network)),
                Some(TopologyErrorView::GatewayOntoOwnNetwork { ecu, network }) => own.m_strName@
                    == ecu && gateways_onto(v, e, network) && own.m_optStrNetworkId is Some
                    && own.m_optStrNetworkId->0@ == network,
                Some(_) => false,
                None => true,
            }
        }),
{
    let own = v.m_vecEcus@[e];
    if own.m_optStrNetworkId is Some {
        lemma_declares(v, own.m_optStrNetworkId->0@);
    }
    lemma_faulty_entry(v, e, own.m_vecGatewayForNetworkIds@.len() as int);
}

proof fn lemma_faulty_entry(v: Vehicle, e: int, k: int)
    requires
        0 <= e < v.m_vecEcus@.len(),
        0 <= k <= v.m_vecEcus@[e].m_vecGatewayForNetworkIds@.len(),
    ensures
        ({
            let own = v.m_vecEcus@[e];
            match forwarding_errors(own, v.m_vecNetworks@, k) {
                Some(TopologyErrorView::UnknownNetwork { ecu, network }) => own.m_strName@ == ecu
                    && !declares(v, network) && gateways_onto(v, e, network),
                Some(TopologyErrorView::GatewayOntoOwnNetwork { ecu, network }) => own.m_strName@
                    == ecu && gateways_onto(v, e, network) && own.m_optStrNetworkId is Some
                    && own.m_optStrNetworkId->0@ == network,
                Some(_) => false,
                None => true,
            }
        }),
    decreases k,
{
    if k > 0 {
        let own = v.m_vecEcus@[e];
        let id = own.m_vecGatewayForNetworkIds@[k - 1]@;
        lemma_faulty_entry(v, e, k - 1);
        lemma_declares(v, id);
        assert(gateways_onto(v, e, id));
    }
}

/// A tester stands at depth zero of exactly the networks marked as entry points.
pub proof fn law_entry_points_are_at_depth_zero(v: Vehicle, id: Seq<char>)
    ensures
        is_depth(v, id, 0) <==> exists|n: int|
            0 <= n < v.m_vecNetworks@.len() && (#[trigger] v.m_vecNetworks@[n]).m_strId@ == id
                && v.m_vecNetworks@[n].m_bIsDiagnosticEntryPoint,
{
}

/// A gateway takes a tester one network further: what it leads onto is at most one deeper than the
/// network it sits on, and every network deeper than zero is led onto by an ECU exactly one less
/// deep.
pub proof fn law_a_gateway_leads_one_deeper(v: Vehicle, e: int, from: Seq<char>, to: Seq<char>, depth: nat)
    ensures
        0 <= e < v.m_vecEcus@.len() && v.m_vecEcus@[e].m_optStrNetworkId is Some
            && v.m_vecEcus@[e].m_optStrNetworkId->0@ == from && gateways_onto(v, e, to) && is_depth(
            v,
            from,
            depth,
        ) ==> exists|nearer: nat| nearer <= depth + 1 && #[trigger] is_depth(v, to, nearer),
        depth > 0 && is_depth(v, to, depth) ==> exists|f: int, near: Seq<char>|
            0 <= f < v.m_vecEcus@.len() && #[trigger] gateways_onto(v, f, to)
                && v.m_vecEcus@[f].m_optStrNetworkId is Some && v.m_vecEcus@[f].m_optStrNetworkId->0@
                == near && #[trigger] is_depth(v, near, (depth - 1) as nat),
{
    let ecus = v.m_vecEcus@;
    if 0 <= e < ecus.len() && ecus[e].m_optStrNetworkId is Some && ecus[e].m_optStrNetworkId->0@
        == from && gateways_onto(v, e, to) && is_depth(v, from, depth) {
        assert(crate::core_domain::topology::sits_on(ecus[e], from));
        assert(crate::core_domain::topology::forwards_onto(ecus[e], to));
        assert(leads_to(ecus, from, to));
        assert(reached_in(v, to, depth + 1)) by {
            assert(leads_to(ecus, from, to) && reached_in(v, from, ((depth + 1) - 1) as nat));
        }
        lemma_some_depth(v, to, depth + 1);
    }
    if depth > 0 && is_depth(v, to, depth) {
        let near = choose|near: Seq<char>| #[trigger]
            leads_to(ecus, near, to) && reached_in(v, near, (depth - 1) as nat);
        let f = choose|f: int|
            0 <= f < ecus.len() && crate::core_domain::topology::sits_on(#[trigger] ecus[f], near)
                && crate::core_domain::topology::forwards_onto(ecus[f], to);
        assert(gateways_onto(v, f, to));
        assert forall|fewer: nat| fewer < depth - 1 implies !reached_in(v, near, fewer) by {
            if reached_in(v, near, fewer) {
                assert(leads_to(ecus, near, to) && reached_in(v, near, ((fewer + 1) - 1) as nat));
                assert(reached_in(v, to, fewer + 1));
            }
        }
        assert(is_depth(v, near, (depth - 1) as nat));
    }
}

proof fn lemma_some_depth(v: Vehicle, id: Seq<char>, hops: nat)
    requires
        reached_in(v, id, hops),
    ensures
        exists|nearer: nat| nearer <= hops && #[trigger] is_depth(v, id, nearer),
    decreases hops,
{
    if exists|fewer: nat| fewer < hops && reached_in(v, id, fewer) {
        let fewer = choose|fewer: nat| fewer < hops && reached_in(v, id, fewer);
        lemma_some_depth(v, id, fewer);
    } else {
        assert(is_depth(v, id, hops));
    }
}

proof fn lemma_climbing_on(v: Vehicle, id: Seq<char>, steps: nat)
    requires
        climb(v, id, steps).1,
    ensures
        climb(v, id, steps + 1) == climb(v, id, steps),
    decreases steps,
{
    if steps > 0 && !crate::core_domain::reach::found_entry(v.m_vecNetworks@, id) {
        let g = gateway_at(v.m_vecEcus@, id)->0;
        let gateway = v.m_vecEcus@[g];
        let up = gateway.m_optStrNetworkId->0@;
        lemma_climbing_on(v, up, (steps - 1) as nat);
    }
}

/// The path to an ECU is the path to the gateway of its network and then that gateway, nearest the
/// tester first: it names one gateway more, and crosses one more.
pub proof fn law_a_path_goes_through_the_gateway(v: Vehicle, ecu: Ecu)
    requires
        path_to(v, ecu).2,
        path_to(v, ecu).1 > 0,
    ensures
        ({
            let g = gateway_at(v.m_vecEcus@, ecu.m_optStrNetworkId->0@);
            let gateway = v.m_vecEcus@[g->0];
            &&& ecu.m_optStrNetworkId is Some
            &&& g is Some
            &&& path_to(v, gateway).2
            &&& path_to(v, ecu).0 == path_to(v, gateway).0.push(gateway.m_strName@)
            &&& path_to(v, ecu).1 == path_to(v, gateway).1 + 1
        }),
{
    let n = v.m_vecNetworks@.len();
    let id = ecu.m_optStrNetworkId->0@;
    let gateway = v.m_vecEcus@[gateway_at(v.m_vecEcus@, id)->0];
    let up = gateway.m_optStrNetworkId->0@;
    let rest = climb(v, up, n);
    lemma_climbing_on(v, up, n);
    assert(path_to(v, ecu).0 =~= rest.0.reverse().push(gateway.m_strName@));
}

/// An ECU on an entry point is reached directly, and so is one nobody has wired.
pub proof fn law_the_shortest_paths(v: Vehicle, ecu: Ecu)
    ensures
        ecu.m_optStrNetworkId is None ==> path_to(v, ecu).2 && path_to(v, ecu).1 == 0,
        ecu.m_optStrNetworkId is Some && network_at(
            v.m_vecNetworks@,
            ecu.m_optStrNetworkId->0@,
        ) is Some && v.m_vecNetworks@[network_at(
            v.m_vecNetworks@,
            ecu.m_optStrNetworkId->0@,
        )->0].m_bIsDiagnosticEntryPoint ==> path_to(v, ecu).2 && path_to(v, ecu).1 == 0,
{
}

/// A network is found by its id, the first listed, and its gateway is the first ECU listed that
/// names it.
pub proof fn law_lookups_find_the_first(v: Vehicle, id: Seq<char>)
    ensures
        match network_at(v.m_vecNetworks@, id) {
            Some(n) => 0 <= n < v.m_vecNetworks@.len() && v.m_vecNetworks@[n].m_strId@ == id
                && forall|m: int| 0 <= m < n ==> (#[trigger] v.m_vecNetworks@[m]).m_strId@ != id,
            None => !declares(v, id),
        },
        match gateway_at(v.m_vecEcus@, id) {
            Some(g) => 0 <= g < v.m_vecEcus@.len() && gateways_onto(v, g, id) && forall|f: int|
                0 <= f < g ==> !#[trigger] gateways_onto(v, f, id),
            None => forall|f: int|
                0 <= f < v.m_vecEcus@.len() ==> !#[trigger] gateways_onto(v, f, id),
        },
{
    lemma_network_at(v.m_vecNetworks@, id);
    lemma_gateway_at(v.m_vecEcus@, id);
    assert forall|f: int| 0 <= f < v.m_vecEcus@.len() implies #[trigger] gateways_onto(v, f, id)
        == crate::core_domain::topology::forwards_onto(v.m_vecEcus@[f], id) by {}
}

/// The networks a tester can attach to are those marked so, in the order they are listed.
pub proof fn law_entry_points_are_the_marked_ones(networks: Seq<Network>)
    ensures
        entry_points(networks) == networks.filter(
            |network: Network| network.m_bIsDiagnosticEntryPoint,
        ),
    decreases networks.len(),
{
    let marked = |network: Network| network.m_bIsDiagnosticEntryPoint;
    reveal(Seq::filter);
    if networks.len() == 0 {
        assert(networks.filter(marked) =~= seq![]);
    } else {
        law_entry_points_are_the_marked_ones(networks.drop_last());
    }
}

proof fn lemma_walk_climbs(ecus: Seq<Ecu>, id: Seq<char>, steps: nat)
    ensures
        ({
            let walk = walk_up(ecus, id, steps);
            &&& 1 <= walk.len() <= steps + 1
            &&& walk[0] == id
            &&& forall|k: int|
                0 <= k < walk.len() - 1 ==> upstream(ecus, #[trigger] walk[k]) == Some(walk[k + 1])
        }),
    decreases steps,
{
    if steps > 0 {
        lemma_walk_climbs(ecus, id, (steps - 1) as nat);
        let before = walk_up(ecus, id, (steps - 1) as nat);
        let walk = walk_up(ecus, id, steps);
        assert forall|k: int| 0 <= k < walk.len() - 1 implies upstream(ecus, #[trigger] walk[k])
            == Some(walk[k + 1]) by {
            if walk.len() > before.len() {
                if k < before.len() - 1 {
                    assert(walk[k] == before[k] && walk[k + 1] == before[k + 1]);
                } else {
                    assert(walk[k] == before.last());
                }
            }
        }
    }
}

/// A loop that is reported starts at a declared network, goes up through a gateway at every step,
/// meets no network twice on the way, and ends on one it has met.
pub proof fn law_a_reported_loop_comes_back(v: Vehicle, n: int, cycle: Seq<Seq<char>>, k: int)
    requires
        v.first_loop(n, cycle),
        0 <= k < cycle.len() - 1,
    ensures
        cycle[0] == v.m_vecNetworks@[n].m_strId@,
        exists|e: int|
            0 <= e < v.m_vecEcus@.len() && #[trigger] gateways_onto(v, e, cycle[k])
                && v.m_vecEcus@[e].m_optStrNetworkId is Some
                && v.m_vecEcus@[e].m_optStrNetworkId->0@ == cycle[k + 1],
        exists|j: int| 0 <= j < cycle.len() - 1 && #[trigger] cycle[j] == cycle.last(),
        forall|i: int, j: int|
            0 <= i < j < cycle.len() - 1 ==> #[trigger] cycle[i] != #[trigger] cycle[j],
{
    let ecus = v.m_vecEcus@;
    let id = v.m_vecNetworks@[n].m_strId@;
    lemma_walk_climbs(ecus, id, (cycle.len() - 1) as nat);
    assert(upstream(ecus, cycle[k]) == Some(cycle[k + 1]));
    let e = gateway_at(ecus, cycle[k])->0;
    lemma_gateway_at(ecus, cycle[k]);
    assert(gateways_onto(v, e, cycle[k])) by {
        let m = choose|m: int|
            0 <= m < ecus[e].m_vecGatewayForNetworkIds@.len() && (
            #[trigger] ecus[e].m_vecGatewayForNetworkIds@[m])@ == cycle[k];
        assert(v.m_vecEcus@[e].m_vecGatewayForNetworkIds@[m]@ == cycle[k]);
    }
    let front = cycle.drop_last();
    let j = choose|j: int| 0 <= j < front.len() && front[j] == cycle.last();
    assert(cycle[j] == front[j]);
    assert forall|i: int, j: int| 0 <= i < j < cycle.len() - 1 implies #[trigger] cycle[i]
        != #[trigger] cycle[j] by {
        assert(front[i] != front[j]);
    }
}

/// A list of networks and their depths names each network once: it gives one depth for it, and the
/// networks come in the order of their names.
pub proof fn law_a_network_is_listed_once(
    table: Seq<NetworkDepth>,
    id: Seq<char>,
    a: nat,
    b: nat,
    i: int,
    j: int,
)
    requires
        is_ascending(table),
        has_depth(table, id, a),
        has_depth(table, id, b),
        0 <= i < j < table.len(),
    ensures
        a == b,
        text_before(table[i].m_strNetworkId@, table[j].m_strNetworkId@),
        table[i].m_strNetworkId@ != table[j].m_strNetworkId@,
{
    let m = choose|m: int|
        0 <= m < table.len() && (#[trigger] table[m]).m_strNetworkId@ == id && table[m].m_uDepth
            == a;
    let n = choose|n: int|
        0 <= n < table.len() && (#[trigger] table[n]).m_strNetworkId@ == id && table[n].m_uDepth
            == b;
    if m < n {
        assert(text_before(table[m].m_strNetworkId@, table[n].m_strNetworkId@));
    }
    if n < m {
        assert(text_before(table[n].m_strNetworkId@, table[m].m_strNetworkId@));
    }
}

} // verus!
