//! Depth tables and diagnostic paths tell the same story.

use vstd::prelude::*;

use crate::core_domain::ecu::Ecu;
use crate::core_domain::reach::climb;
use crate::core_domain::reach::found_entry;
use crate::core_domain::reach::has_entry_point;
use crate::core_domain::reach::is_depth;
use crate::core_domain::reach::is_entry;
use crate::core_domain::reach::leads_to;
use crate::core_domain::reach::normalized;
use crate::core_domain::reach::path_to;
use crate::core_domain::reach::reached_in;
use crate::core_domain::topology::all_claims;
use crate::core_domain::topology::claim_at;
use crate::core_domain::topology::claims_of;
use crate::core_domain::topology::forwarding_errors;
use crate::core_domain::topology::forwards_onto;
use crate::core_domain::topology::gateway_at;
use crate::core_domain::topology::is_loop_free;
use crate::core_domain::topology::lemma_claim_at;
use crate::core_domain::topology::lemma_claims_of_prefix;
use crate::core_domain::topology::lemma_distinct_within;
use crate::core_domain::topology::lemma_gateway_at;
use crate::core_domain::topology::lemma_network_at;
use crate::core_domain::topology::meets_nothing_twice;
use crate::core_domain::topology::network_at;
use crate::core_domain::topology::reference_error;
use crate::core_domain::topology::reference_errors;
use crate::core_domain::topology::shared_gateway_error;
use crate::core_domain::topology::sits_on;
use crate::core_domain::topology::upstream;
use crate::core_domain::topology::walk_up;
use crate::core_domain::topology::Claim;
use crate::core_domain::topology::Network;
use crate::core_domain::topology::Vehicle;

verus! {

/// No two declared networks share an id.
pub open spec fn ids_are_distinct(networks: Seq<Network>) -> bool {
    forall|i: int, j: int|
        0 <= i < j < networks.len() ==> (#[trigger] networks[i]).m_strId@ != (
        #[trigger] networks[j]).m_strId@
}

proof fn lemma_entries_agree(networks: Seq<Network>, id: Seq<char>)
    requires
        ids_are_distinct(networks),
    ensures
        found_entry(networks, id) == is_entry(networks, id),
{
    lemma_network_at(networks, id);
    if is_entry(networks, id) {
        let i = choose|i: int|
            0 <= i < networks.len() && (#[trigger] networks[i]).m_strId@ == id
                && networks[i].m_bIsDiagnosticEntryPoint;
        let n = network_at(networks, id)->0;
        if n < i {
            assert(networks[n].m_strId@ != networks[i].m_strId@);
        }
    }
    if found_entry(networks, id) {
        let n = network_at(networks, id)->0;
        assert(networks[n].m_strId@ == id);
    }
}

/// Without a shared gateway the claims that name one network are those of one ECU.
proof fn lemma_claims_have_one_owner(claims: Seq<Claim>, i: int, j: int)
    requires
        shared_gateway_error(claims) is None,
        0 <= i < j < claims.len(),
        claims[i].network == claims[j].network,
    ensures
        claims[i].owner == claims[j].owner,
    decreases claims.len(),
{
    let head = claims.drop_last();
    if j < head.len() {
        lemma_claims_have_one_owner(head, i, j);
    } else {
        lemma_claim_at(head, claims.last().network);
        assert(head[i].network == claims.last().network);
        let k = claim_at(head, claims.last().network)->0;
        assert(head[k] == claims[k]);
        if k < i {
            lemma_claims_have_one_owner(head, k, i);
        }
    }
}

/// Where a claim of an ECU stands in the list of all claims.
proof fn lemma_claim_position(ecus: Seq<Ecu>, n: int, e: int, k: int) -> (at: int)
    requires
        0 <= e < n <= ecus.len(),
        0 <= k < ecus[e].m_vecGatewayForNetworkIds@.len(),
    ensures
        all_claims(ecus, e).len() <= at < all_claims(ecus, e + 1).len(),
        all_claims(ecus, e + 1).len() <= all_claims(ecus, n).len(),
        all_claims(ecus, n)[at].network == ecus[e].m_vecGatewayForNetworkIds@[k]@,
        all_claims(ecus, n)[at].owner == e,
    decreases n,
{
    if e == n - 1 {
        let len = ecus[e].m_vecGatewayForNetworkIds@.len() as int;
        lemma_claims_of_prefix(ecus[e], e, k + 1, len);
        lemma_claims_of_prefix(ecus[e], e, len, len);
        lemma_claims_of_prefix(ecus[e], e, k, k);
        let own = claims_of(ecus[e], e, len);
        assert(own[k] == own.take(k + 1)[k]);
        assert(claims_of(ecus[e], e, k + 1).last() == claims_of(ecus[e], e, k + 1)[k]);
        all_claims(ecus, e).len() + k
    } else {
        let at = lemma_claim_position(ecus, n - 1, e, k);
        at
    }
}

/// Without a shared gateway, the ECU that forwards onto a network is its gateway.
proof fn lemma_gateway_is_unique(ecus: Seq<Ecu>, id: Seq<char>, e: int)
    requires
        shared_gateway_error(all_claims(ecus, ecus.len() as int)) is None,
        0 <= e < ecus.len(),
        forwards_onto(ecus[e], id),
    ensures
        gateway_at(ecus, id) == Some(e),
{
    lemma_gateway_at(ecus, id);
    if gateway_at(ecus, id) is None {
        assert(!forwards_onto(ecus[e], id));
    }
    let g = gateway_at(ecus, id)->0;
    if e < g {
        assert(!forwards_onto(ecus[e], id));
    }
    if g < e {
        let n = ecus.len() as int;
        let k = choose|k: int|
            0 <= k < ecus[e].m_vecGatewayForNetworkIds@.len() && (
            #[trigger] ecus[e].m_vecGatewayForNetworkIds@[k])@ == id;
        let m = choose|m: int|
            0 <= m < ecus[g].m_vecGatewayForNetworkIds@.len() && (
            #[trigger] ecus[g].m_vecGatewayForNetworkIds@[m])@ == id;
        let a = lemma_claim_position(ecus, n, g, m);
        let b = lemma_claim_position(ecus, n, e, k);
        lemma_claims_grow(ecus, g + 1, e);
        lemma_claims_have_one_owner(all_claims(ecus, n), a, b);
    }
}

proof fn lemma_claims_grow(ecus: Seq<Ecu>, k: int, n: int)
    requires
        0 <= k <= n,
    ensures
        all_claims(ecus, k).len() <= all_claims(ecus, n).len(),
    decreases n,
{
    if k < n {
        lemma_claims_grow(ecus, k, n - 1);
    }
}

/// Without a shared gateway, what leads to a network is what lies upstream of it.
proof fn lemma_leads_from_upstream(ecus: Seq<Ecu>, from: Seq<char>, to: Seq<char>)
    requires
        shared_gateway_error(all_claims(ecus, ecus.len() as int)) is None,
    ensures
        leads_to(ecus, from, to) <==> upstream(ecus, to) == Some(from),
{
    lemma_gateway_at(ecus, to);
    if leads_to(ecus, from, to) {
        let e = choose|e: int|
            0 <= e < ecus.len() && sits_on(#[trigger] ecus[e], from) && forwards_onto(ecus[e], to);
        lemma_gateway_is_unique(ecus, to, e);
    }
    if upstream(ecus, to) == Some(from) {
        let g = gateway_at(ecus, to)->0;
        assert(sits_on(ecus[g], from) && forwards_onto(ecus[g], to));
    }
}

/// A network is one hop further than what lies upstream of it.
proof fn lemma_reached_through_upstream(v: Vehicle, id: Seq<char>, hops: nat)
    requires
        shared_gateway_error(all_claims(v.m_vecEcus@, v.m_vecEcus@.len() as int)) is None,
    ensures
        reached_in(v, id, hops + 1) <==> (upstream(v.m_vecEcus@, id) is Some && reached_in(
            v,
            upstream(v.m_vecEcus@, id)->0,
            hops,
        )),
{
    if reached_in(v, id, hops + 1) {
        let from = choose|from: Seq<char>| #[trigger]
            leads_to(v.m_vecEcus@, from, id) && reached_in(v, from, hops);
        lemma_leads_from_upstream(v.m_vecEcus@, from, id);
    }
    if upstream(v.m_vecEcus@, id) is Some && reached_in(v, upstream(v.m_vecEcus@, id)->0, hops) {
        let from = upstream(v.m_vecEcus@, id)->0;
        lemma_leads_from_upstream(v.m_vecEcus@, from, id);
        assert(leads_to(v.m_vecEcus@, from, id) && reached_in(v, from, ((hops + 1) - 1) as nat));
    }
}

/// Climbing meets an entry point exactly when the depth is below the number of steps, and then
/// crosses that many gateways.
proof fn lemma_climb_is_depth(v: Vehicle, id: Seq<char>, steps: nat, depth: nat)
    requires
        shared_gateway_error(all_claims(v.m_vecEcus@, v.m_vecEcus@.len() as int)) is None,
        ids_are_distinct(v.m_vecNetworks@),
    ensures
        (climb(v, id, steps).1 && climb(v, id, steps).0.len() == depth) <==> (is_depth(
            v,
            id,
            depth,
        ) && depth < steps),
    decreases steps,
{
    lemma_entries_agree(v.m_vecNetworks@, id);
    if steps > 0 {
        assert(reached_in(v, id, 0) == is_entry(v.m_vecNetworks@, id));
        if is_entry(v.m_vecNetworks@, id) {
            if is_depth(v, id, depth) && depth > 0 {
                assert(!reached_in(v, id, 0));
            }
        } else {
            match upstream(v.m_vecEcus@, id) {
                None => {
                    if is_depth(v, id, depth) {
                        if depth > 0 {
                            lemma_reached_through_upstream(v, id, (depth - 1) as nat);
                        }
                    }
                },
                Some(up) => {
                    if depth > 0 {
                        lemma_climb_is_depth(v, up, (steps - 1) as nat, (depth - 1) as nat);
                        lemma_reached_through_upstream(v, id, (depth - 1) as nat);
                        if is_depth(v, up, (depth - 1) as nat) {
                            assert forall|fewer: nat| fewer < depth implies !reached_in(
                                v,
                                id,
                                fewer,
                            ) by {
                                if fewer > 0 {
                                    lemma_reached_through_upstream(v, id, (fewer - 1) as nat);
                                }
                            }
                        }
                        if is_depth(v, id, depth) {
                            assert forall|fewer: nat| fewer < depth - 1 implies !reached_in(
                                v,
                                up,
                                fewer,
                            ) by {
                                lemma_reached_through_upstream(v, id, fewer);
                                assert(!reached_in(v, id, fewer + 1));
                            }
                        }
                        let rest = climb(v, up, (steps - 1) as nat);
                        assert(climb(v, id, steps).1 == rest.1);
                        assert(climb(v, id, steps).0.len() == 1 + rest.0.len());
                    }
                },
            }
        }
    }
}

proof fn lemma_references_are_declared(ecus: Seq<Ecu>, networks: Seq<Network>, n: int, e: int)
    requires
        0 <= e < n <= ecus.len(),
        reference_errors(ecus, networks, n) is None,
    ensures
        reference_error(ecus[e], networks) is None,
    decreases n,
{
    if e < n - 1 {
        lemma_references_are_declared(ecus, networks, n - 1, e);
    }
}

/// A network reached in some number of hops is that many steps below an entry point.
proof fn lemma_reached_walks_up(v: Vehicle, id: Seq<char>, hops: nat, k: nat)
    requires
        shared_gateway_error(all_claims(v.m_vecEcus@, v.m_vecEcus@.len() as int)) is None,
        reached_in(v, id, hops),
        k <= hops,
    ensures
        walk_up(v.m_vecEcus@, id, k).len() == k + 1,
        reached_in(v, walk_up(v.m_vecEcus@, id, k).last(), (hops - k) as nat),
    decreases k,
{
    if k > 0 {
        lemma_reached_walks_up(v, id, hops, (k - 1) as nat);
        let before = walk_up(v.m_vecEcus@, id, (k - 1) as nat);
        lemma_reached_through_upstream(v, before.last(), (hops - k) as nat);
    }
}

/// The ids of the declared networks.
spec fn declared(v: Vehicle) -> Seq<Seq<char>> {
    Seq::new(v.m_vecNetworks@.len(), |i: int| v.m_vecNetworks@[i].m_strId@)
}

/// In sound wiring every step up stays on declared networks.
proof fn lemma_walk_is_declared(v: Vehicle, id: Seq<char>, steps: nat)
    requires
        v.is_sound(),
        network_at(v.m_vecNetworks@, id) is Some,
    ensures
        forall|i: int|
            0 <= i < walk_up(v.m_vecEcus@, id, steps).len() ==> declared(v).contains(
                #[trigger] walk_up(v.m_vecEcus@, id, steps)[i],
            ),
    decreases steps,
{
    let ecus = v.m_vecEcus@;
    if steps == 0 {
        lemma_network_at(v.m_vecNetworks@, id);
        assert(declared(v)[network_at(v.m_vecNetworks@, id)->0] == id);
    } else {
        lemma_walk_is_declared(v, id, (steps - 1) as nat);
        let before = walk_up(ecus, id, (steps - 1) as nat);
        match upstream(ecus, before.last()) {
            Some(next) if before.len() == steps => {
                lemma_gateway_at(ecus, before.last());
                let g = gateway_at(ecus, before.last())->0;
                lemma_references_are_declared(ecus, v.m_vecNetworks@, ecus.len() as int, g);
                lemma_network_at(v.m_vecNetworks@, next);
                assert(declared(v)[network_at(v.m_vecNetworks@, next)->0] == next);
            },
            _ => {},
        }
    }
}

/// In sound wiring no depth exceeds the number of networks.
proof fn lemma_depth_is_bounded(v: Vehicle, id: Seq<char>, depth: nat)
    requires
        v.is_sound(),
        network_at(v.m_vecNetworks@, id) is Some,
        reached_in(v, id, depth),
    ensures
        depth < v.m_vecNetworks@.len(),
{
    lemma_reached_walks_up(v, id, depth, depth);
    lemma_walk_is_declared(v, id, depth);
    let walk = walk_up(v.m_vecEcus@, id, depth);
    lemma_network_at(v.m_vecNetworks@, id);
    let n = network_at(v.m_vecNetworks@, id)->0;
    assert(is_loop_free(v.m_vecEcus@, v.m_vecNetworks@[n].m_strId@));
    assert(meets_nothing_twice(walk));
    lemma_distinct_within(walk, declared(v));
}

/// In sound wiring a network that can be reached is declared.
proof fn lemma_reached_is_declared(v: Vehicle, id: Seq<char>, hops: nat)
    requires
        v.is_sound(),
        reached_in(v, id, hops),
    ensures
        network_at(v.m_vecNetworks@, id) is Some,
{
    let ecus = v.m_vecEcus@;
    lemma_network_at(v.m_vecNetworks@, id);
    if hops > 0 {
        let from = choose|from: Seq<char>| #[trigger]
            leads_to(ecus, from, id) && reached_in(v, from, (hops - 1) as nat);
        let e = choose|e: int|
            0 <= e < ecus.len() && sits_on(#[trigger] ecus[e], from) && forwards_onto(ecus[e], id);
        let k = choose|k: int|
            0 <= k < ecus[e].m_vecGatewayForNetworkIds@.len() && (
            #[trigger] ecus[e].m_vecGatewayForNetworkIds@[k])@ == id;
        lemma_references_are_declared(ecus, v.m_vecNetworks@, ecus.len() as int, e);
        lemma_forwards_are_declared(
            ecus[e],
            v.m_vecNetworks@,
            ecus[e].m_vecGatewayForNetworkIds@.len() as int,
            k,
        );
    }
}

proof fn lemma_forwards_are_declared(ecu: Ecu, networks: Seq<Network>, n: int, k: int)
    requires
        0 <= k < n <= ecu.m_vecGatewayForNetworkIds@.len(),
        forwarding_errors(ecu, networks, n) is None,
    ensures
        network_at(networks, ecu.m_vecGatewayForNetworkIds@[k]@) is Some,
    decreases n,
{
    if k < n - 1 {
        lemma_forwards_are_declared(ecu, networks, n - 1, k);
    }
}

/// In sound wiring with distinct network ids, the path to an ECU on a network and the depth of
/// that network agree: the ECU is reachable exactly when its network has a depth, and it crosses
/// that many gateways.
pub proof fn law_paths_and_depths_agree(v: Vehicle, ecu: Ecu)
    requires
        v.is_sound(),
        ids_are_distinct(v.m_vecNetworks@),
        ecu.m_optStrNetworkId is Some,
    ensures
        path_to(v, ecu).2 <==> exists|depth: nat| is_depth(v, ecu.m_optStrNetworkId->0@, depth),
        forall|depth: nat|
            #![trigger is_depth(v, ecu.m_optStrNetworkId->0@, depth)]
            (path_to(v, ecu).2 && path_to(v, ecu).1 == depth) <==> is_depth(
                v,
                ecu.m_optStrNetworkId->0@,
                depth,
            ),
{
    let id = ecu.m_optStrNetworkId->0@;
    assert forall|depth: nat|
        #![trigger is_depth(v, id, depth)]
        (path_to(v, ecu).2 && path_to(v, ecu).1 == depth) <==> is_depth(v, id, depth) by {
        lemma_climb_is_depth(v, id, v.m_vecNetworks@.len() + 1, depth);
        if is_depth(v, id, depth) {
            lemma_reached_is_declared(v, id, depth);
            lemma_depth_is_bounded(v, id, depth);
        }
    }
    if path_to(v, ecu).2 {
        assert(is_depth(v, id, path_to(v, ecu).1));
    }
}

/// A path names every gateway crossed, the one nearest the ECU last: that is the gateway of the
/// network the ECU sits on. An ECU that cannot be reached names none, and one on no declared
/// network crosses none.
pub proof fn law_a_path_ends_at_the_gateway_of_the_network(v: Vehicle, ecu: Ecu)
    ensures
        ecu.m_optStrNetworkId is None ==> path_to(v, ecu) == (Seq::<Seq<char>>::empty(), 0nat, true),
        path_to(v, ecu).2 ==> path_to(v, ecu).0.len() == path_to(v, ecu).1,
        path_to(v, ecu).2 && path_to(v, ecu).1 > 0 ==> {
            let gateway = gateway_at(v.m_vecEcus@, ecu.m_optStrNetworkId->0@);
            &&& gateway is Some
            &&& path_to(v, ecu).0.last() == v.m_vecEcus@[gateway->0].m_strName@
        },
        !path_to(v, ecu).2 ==> path_to(v, ecu).0.len() == 0,
{
}

/// Deciding the entry points once is enough: doing it again changes nothing.
pub proof fn law_entry_points_are_decided_once(ecus: Seq<Ecu>, networks: Seq<Network>)
    ensures
        normalized(ecus, normalized(ecus, networks)) == normalized(ecus, networks),
{
    let once = normalized(ecus, networks);
    if !has_entry_point(networks) && !has_entry_point(once) {
        assert(normalized(ecus, once) =~= once);
    }
}

/// An explicit choice is left alone; with none, a network is an entry point exactly when nothing
/// gateways onto it.
pub proof fn law_an_explicit_choice_stands(ecus: Seq<Ecu>, networks: Seq<Network>, i: int)
    requires
        0 <= i < networks.len(),
    ensures
        has_entry_point(networks) ==> normalized(ecus, networks) == networks,
        !has_entry_point(networks) ==> normalized(ecus, networks)[i].m_bIsDiagnosticEntryPoint == (
        gateway_at(ecus, networks[i].m_strId@) is None),
        normalized(ecus, networks).len() == networks.len(),
        normalized(ecus, networks)[i].m_strId == networks[i].m_strId,
{
}

} // verus!
