//! How far each network and each ECU is from the tester.

use vstd::prelude::*;

use crate::core_domain::ecu::Ecu;
use crate::core_domain::topology::forwards_onto;
use crate::core_domain::topology::gateway_at;
use crate::core_domain::topology::network_at;
use crate::core_domain::topology::sits_on;
use crate::core_domain::topology::texts;
use crate::core_domain::topology::DiagnosticPath;
use crate::core_domain::topology::Network;
use crate::core_domain::topology::NetworkDepth;
use crate::core_domain::topology::Vehicle;
use crate::order::law_texts_are_fully_ordered;
use crate::order::law_the_order_of_texts_is_transitive;
use crate::order::text_before;
use crate::order::TextAtMost;

verus! {

/// Some network with the id is marked as an entry point.
pub open spec fn is_entry(networks: Seq<Network>, id: Seq<char>) -> bool {
    exists|i: int|
        0 <= i < networks.len() && (#[trigger] networks[i]).m_strId@ == id
            && networks[i].m_bIsDiagnosticEntryPoint
}

/// An ECU on one network forwards onto another.
pub open spec fn leads_to(ecus: Seq<Ecu>, from: Seq<char>, to: Seq<char>) -> bool {
    exists|e: int|
        0 <= e < ecus.len() && sits_on(#[trigger] ecus[e], from) && forwards_onto(ecus[e], to)
}

/// A tester reaches a network by crossing exactly `hops` gateways.
pub open spec fn reached_in(v: Vehicle, id: Seq<char>, hops: nat) -> bool
    decreases hops,
{
    if hops == 0 {
        is_entry(v.m_vecNetworks@, id)
    } else {
        exists|from: Seq<char>| #[trigger]
            leads_to(v.m_vecEcus@, from, id) && reached_in(v, from, (hops - 1) as nat)
    }
}

/// The fewest gateways a tester crosses to reach a network.
pub open spec fn is_depth(v: Vehicle, id: Seq<char>, depth: nat) -> bool {
    &&& reached_in(v, id, depth)
    &&& forall|fewer: nat| fewer < depth ==> !reached_in(v, id, fewer)
}

/// An entry of a depth table.
pub open spec fn has_depth(table: Seq<NetworkDepth>, id: Seq<char>, depth: nat) -> bool {
    exists|i: int|
        0 <= i < table.len() && (#[trigger] table[i]).m_strNetworkId@ == id && table[i].m_uDepth
            == depth
}

/// The ids of a depth table ascend.
pub open spec fn is_ascending(table: Seq<NetworkDepth>) -> bool {
    forall|i: int, j: int|
        0 <= i < j < table.len() ==> text_before(
            (#[trigger] table[i]).m_strNetworkId@,
            (#[trigger] table[j]).m_strNetworkId@,
        )
}

/// The ids of a depth table.
spec fn ids_of(table: Seq<NetworkDepth>) -> Seq<Seq<char>> {
    Seq::new(table.len(), |i: int| table[i].m_strNetworkId@)
}

/// What holds while the table is being filled: ids are distinct, depths grow by at most one from
/// the entry being worked on, and every depth is reached.
spec fn is_partial(v: Vehicle, table: Seq<NetworkDepth>, head: int) -> bool {
    &&& 0 <= head <= table.len()
    &&& forall|i: int, j: int|
        0 <= i < j < table.len() ==> (#[trigger] table[i]).m_strNetworkId@ != (
        #[trigger] table[j]).m_strNetworkId@
    &&& forall|i: int, j: int|
        0 <= i <= j < table.len() ==> (#[trigger] table[i]).m_uDepth <= (
        #[trigger] table[j]).m_uDepth
    &&& forall|i: int| 0 <= i < table.len() ==> (#[trigger] table[i]).m_uDepth <= i
    &&& forall|i: int|
        head <= i < table.len() && head < table.len() ==> (#[trigger] table[i]).m_uDepth
            <= table[head].m_uDepth + 1
    &&& forall|i: int|
        0 <= i < table.len() ==> reached_in(
            v,
            (#[trigger] table[i]).m_strNetworkId@,
            table[i].m_uDepth as nat,
        )
}

/// Everything an entry leads to is in the table, at most one deeper.
spec fn is_expanded(v: Vehicle, table: Seq<NetworkDepth>, i: int) -> bool {
    forall|to: Seq<char>| #[trigger]
        leads_to(v.m_vecEcus@, table[i].m_strNetworkId@, to) ==> exists|k: int|
            0 <= k < table.len() && (#[trigger] table[k]).m_strNetworkId@ == to
                && table[k].m_uDepth <= table[i].m_uDepth + 1
}

/// The position of a network in a depth table.
fn TableIndex(vecTable: &Vec<NetworkDepth>, strNetworkId: &String) -> (optIndex: Option<usize>)
    ensures
        match optIndex {
            Some(i) => i < vecTable@.len() && vecTable@[i as int].m_strNetworkId@ == strNetworkId@,
            None => forall|k: int|
                0 <= k < vecTable@.len() ==> (#[trigger] vecTable@[k]).m_strNetworkId@
                    != strNetworkId@,
        },
{
    let mut uIndex: usize = 0;
    while uIndex < vecTable.len()
        invariant
            uIndex <= vecTable@.len(),
            forall|k: int|
                0 <= k < uIndex ==> (#[trigger] vecTable@[k]).m_strNetworkId@ != strNetworkId@,
        decreases vecTable@.len() - uIndex,
    {
        if vecTable[uIndex].m_strNetworkId == *strNetworkId {
            return Some(uIndex);
        }
        uIndex = uIndex + 1;
    }
    None
}

/// Every network id a vehicle mentions: the declared ones and the ones forwarded onto.
spec fn mentioned(v: Vehicle) -> Seq<Seq<char>> {
    Seq::new(v.m_vecNetworks@.len(), |i: int| v.m_vecNetworks@[i].m_strId@) + forwarded(
        v.m_vecEcus@,
        v.m_vecEcus@.len() as int,
    )
}

/// Every id the first `n` ECUs forward onto, in order.
spec fn forwarded(ecus: Seq<Ecu>, n: int) -> Seq<Seq<char>>
    decreases n,
{
    if n <= 0 {
        seq![]
    } else {
        forwarded(ecus, n - 1) + texts(ecus[n - 1].m_vecGatewayForNetworkIds@)
    }
}

proof fn lemma_forwarded(ecus: Seq<Ecu>, n: int, e: int, k: int)
    requires
        0 <= e < n <= ecus.len(),
        0 <= k < ecus[e].m_vecGatewayForNetworkIds@.len(),
    ensures
        forwarded(ecus, n).contains(ecus[e].m_vecGatewayForNetworkIds@[k]@),
    decreases n,
{
    let id = ecus[e].m_vecGatewayForNetworkIds@[k]@;
    let head = forwarded(ecus, n - 1);
    let tail = texts(ecus[n - 1].m_vecGatewayForNetworkIds@);
    if e == n - 1 {
        assert((head + tail)[head.len() + k] == id);
    } else {
        lemma_forwarded(ecus, n - 1, e, k);
        let i = choose|i: int| 0 <= i < head.len() && head[i] == id;
        assert((head + tail)[i] == id);
    }
}

/// A network that can be reached is one the vehicle mentions.
proof fn lemma_reached_is_mentioned(v: Vehicle, id: Seq<char>, hops: nat)
    requires
        reached_in(v, id, hops),
    ensures
        mentioned(v).contains(id),
{
    let declared = Seq::new(v.m_vecNetworks@.len(), |i: int| v.m_vecNetworks@[i].m_strId@);
    let rest = forwarded(v.m_vecEcus@, v.m_vecEcus@.len() as int);
    if hops == 0 {
        let i = choose|i: int|
            0 <= i < v.m_vecNetworks@.len() && (#[trigger] v.m_vecNetworks@[i]).m_strId@ == id
                && v.m_vecNetworks@[i].m_bIsDiagnosticEntryPoint;
        assert((declared + rest)[i] == id);
    } else {
        let from = choose|from: Seq<char>| #[trigger]
            leads_to(v.m_vecEcus@, from, id) && reached_in(v, from, (hops - 1) as nat);
        let e = choose|e: int|
            0 <= e < v.m_vecEcus@.len() && sits_on(#[trigger] v.m_vecEcus@[e], from)
                && forwards_onto(v.m_vecEcus@[e], id);
        let k = choose|k: int|
            0 <= k < v.m_vecEcus@[e].m_vecGatewayForNetworkIds@.len() && (
            #[trigger] v.m_vecEcus@[e].m_vecGatewayForNetworkIds@[k])@ == id;
        lemma_forwarded(v.m_vecEcus@, v.m_vecEcus@.len() as int, e, k);
        let i = choose|i: int| 0 <= i < rest.len() && rest[i] == id;
        assert((declared + rest)[declared.len() + i] == id);
    }
}

/// A table being filled is no longer than the list of ids the vehicle mentions.
proof fn lemma_table_is_short(v: Vehicle, table: Seq<NetworkDepth>, head: int)
    requires
        is_partial(v, table, head),
    ensures
        table.len() <= mentioned(v).len(),
{
    let ids = ids_of(table);
    assert forall|i: int| 0 <= i < ids.len() implies mentioned(v).contains(#[trigger] ids[i]) by {
        assert(reached_in(v, table[i].m_strNetworkId@, table[i].m_uDepth as nat));
        lemma_reached_is_mentioned(v, ids[i], table[i].m_uDepth as nat);
    }
    assert(ids.no_duplicates()) by {
        assert forall|i: int, j: int| 0 <= i < ids.len() && 0 <= j < ids.len() && i != j implies
            ids[i] != ids[j] by {
            if i < j {
                assert(table[i].m_strNetworkId@ != table[j].m_strNetworkId@);
            } else {
                assert(table[j].m_strNetworkId@ != table[i].m_strNetworkId@);
            }
        }
    }
    crate::core_domain::topology::lemma_distinct_within(ids, mentioned(v));
}

/// When every entry is expanded and every entry point is present, each reachable network is in
/// the table at no more than the depth it is reached in.
proof fn lemma_table_is_complete(v: Vehicle, table: Seq<NetworkDepth>, id: Seq<char>, hops: nat)
    requires
        is_partial(v, table, table.len() as int),
        forall|i: int| 0 <= i < table.len() ==> #[trigger] is_expanded(v, table, i),
        forall|entry: Seq<char>| #[trigger]
            is_entry(v.m_vecNetworks@, entry) ==> has_depth(table, entry, 0),
        reached_in(v, id, hops),
    ensures
        exists|i: int|
            0 <= i < table.len() && (#[trigger] table[i]).m_strNetworkId@ == id && table[i].m_uDepth
                <= hops,
    decreases hops,
{
    if hops == 0 {
        assert(has_depth(table, id, 0));
    } else {
        let from = choose|from: Seq<char>| #[trigger]
            leads_to(v.m_vecEcus@, from, id) && reached_in(v, from, (hops - 1) as nat);
        lemma_table_is_complete(v, table, from, (hops - 1) as nat);
        let i = choose|i: int|
            0 <= i < table.len() && (#[trigger] table[i]).m_strNetworkId@ == from
                && table[i].m_uDepth <= hops - 1;
        assert(is_expanded(v, table, i));
        assert(leads_to(v.m_vecEcus@, table[i].m_strNetworkId@, id));
    }
}

proof fn lemma_inserted_has(table: Seq<NetworkDepth>, at: int, entry: NetworkDepth)
    requires
        0 <= at <= table.len(),
    ensures
        forall|id: Seq<char>, depth: nat| #[trigger]
            has_depth(table.insert(at, entry), id, depth) <==> has_depth(table, id, depth) || (
            entry.m_strNetworkId@ == id && entry.m_uDepth == depth),
{
    let more = table.insert(at, entry);
    assert forall|id: Seq<char>, depth: nat| #[trigger]
        has_depth(more, id, depth) <==> has_depth(table, id, depth) || (entry.m_strNetworkId@ == id
            && entry.m_uDepth == depth) by {
        if has_depth(more, id, depth) {
            let i = choose|i: int|
                0 <= i < more.len() && (#[trigger] more[i]).m_strNetworkId@ == id
                    && more[i].m_uDepth == depth;
            if i < at {
                assert(table[i] == more[i]);
            } else if i > at {
                assert(table[i - 1] == more[i]);
            }
        }
        if has_depth(table, id, depth) {
            let i = choose|i: int|
                0 <= i < table.len() && (#[trigger] table[i]).m_strNetworkId@ == id
                    && table[i].m_uDepth == depth;
            if i < at {
                assert(more[i] == table[i]);
            } else {
                assert(more[i + 1] == table[i]);
            }
        }
        assert(more[at] == entry);
    }
}

/// The position at which an id belongs in an ascending table that does not hold it.
fn InsertionPoint(vecTable: &Vec<NetworkDepth>, strNetworkId: &String) -> (uAt: usize)
    requires
        is_ascending(vecTable@),
        forall|i: int|
            0 <= i < vecTable@.len() ==> (#[trigger] vecTable@[i]).m_strNetworkId@ != strNetworkId@,
    ensures
        uAt <= vecTable@.len(),
        forall|i: int|
            0 <= i < uAt ==> text_before((#[trigger] vecTable@[i]).m_strNetworkId@, strNetworkId@),
        forall|i: int|
            uAt <= i < vecTable@.len() ==> text_before(
                strNetworkId@,
                (#[trigger] vecTable@[i]).m_strNetworkId@,
            ),
{
    let mut uAt: usize = 0;
    while uAt < vecTable.len()
        invariant
            uAt <= vecTable@.len(),
            is_ascending(vecTable@),
            forall|i: int|
                0 <= i < vecTable@.len() ==> (#[trigger] vecTable@[i]).m_strNetworkId@
                    != strNetworkId@,
            forall|i: int|
                0 <= i < uAt ==> text_before(
                    (#[trigger] vecTable@[i]).m_strNetworkId@,
                    strNetworkId@,
                ),
        decreases vecTable@.len() - uAt,
    {
        let ghost here = vecTable@[uAt as int].m_strNetworkId@;
        if TextAtMost(strNetworkId.as_str(), vecTable[uAt].m_strNetworkId.as_str()) {
            proof {
                assert forall|i: int| uAt <= i < vecTable@.len() implies text_before(
                    strNetworkId@,
                    (#[trigger] vecTable@[i]).m_strNetworkId@,
                ) by {
                    if uAt < i {
                        law_the_order_of_texts_is_transitive(
                            strNetworkId@,
                            here,
                            vecTable@[i].m_strNetworkId@,
                        );
                    }
                }
            }
            return uAt;
        }
        proof {
            law_texts_are_fully_ordered(here, strNetworkId@);
        }
        uAt = uAt + 1;
    }
    uAt
}

/// The same table with its ids in ascending order.
fn SortDepths(vecTable: Vec<NetworkDepth>) -> (vecSorted: Vec<NetworkDepth>)
    requires
        forall|i: int, j: int|
            0 <= i < j < vecTable@.len() ==> (#[trigger] vecTable@[i]).m_strNetworkId@ != (
            #[trigger] vecTable@[j]).m_strNetworkId@,
    ensures
        is_ascending(vecSorted@),
        forall|id: Seq<char>, depth: nat| #[trigger]
            has_depth(vecSorted@, id, depth) <==> has_depth(vecTable@, id, depth),
{
    let ghost all = vecTable@;
    let mut vecRest = vecTable;
    let mut vecSorted: Vec<NetworkDepth> = Vec::new();
    while vecRest.len() > 0
        invariant
            vecRest@.len() <= all.len(),
            vecRest@ == all.take(vecRest@.len() as int),
            forall|i: int, j: int|
                0 <= i < j < all.len() ==> (#[trigger] all[i]).m_strNetworkId@ != (
                #[trigger] all[j]).m_strNetworkId@,
            is_ascending(vecSorted@),
            forall|i: int, j: int|
                0 <= i < vecRest@.len() && 0 <= j < vecSorted@.len() ==> (
                #[trigger] all[i]).m_strNetworkId@ != (#[trigger] vecSorted@[j]).m_strNetworkId@,
            forall|id: Seq<char>, depth: nat| #[trigger]
                has_depth(vecSorted@, id, depth) || has_depth(vecRest@, id, depth) <==> has_depth(
                    all,
                    id,
                    depth,
                ),
        decreases vecRest@.len(),
    {
        let ghost before = vecRest@;
        let ghost sorted = vecSorted@;
        let ghost last = before.len() - 1;
        if let Some(entry) = vecRest.pop() {
            assert(entry == all[last]);
            let uAt = InsertionPoint(&vecSorted, &entry.m_strNetworkId);
            vecSorted.insert(uAt, entry);
            proof {
                lemma_inserted_has(sorted, uAt as int, entry);
                lemma_inserted_has(vecRest@, last, entry);
                assert(vecRest@.insert(last, entry) =~= before);
                assert(vecRest@ =~= all.take(last));
                let more = vecSorted@;
                assert(more =~= sorted.insert(uAt as int, entry));
                assert forall|i: int, j: int| 0 <= i < j < more.len() implies text_before(
                    (#[trigger] more[i]).m_strNetworkId@,
                    (#[trigger] more[j]).m_strNetworkId@,
                ) by {
                    let a = if i < uAt {
                        i
                    } else {
                        i - 1
                    };
                    let b = if j < uAt {
                        j
                    } else {
                        j - 1
                    };
                    if i != uAt {
                        assert(more[i] == sorted[a]);
                    }
                    if j != uAt {
                        assert(more[j] == sorted[b]);
                    }
                }
                assert forall|i: int, j: int|
                    0 <= i < vecRest@.len() && 0 <= j < more.len() implies (
                #[trigger] all[i]).m_strNetworkId@ != (#[trigger] more[j]).m_strNetworkId@ by {
                    if j < uAt {
                        assert(more[j] == sorted[j]);
                    } else if j > uAt {
                        assert(more[j] == sorted[j - 1]);
                    } else {
                        assert(all[i].m_strNetworkId@ != all[last].m_strNetworkId@);
                    }
                }
            }
        }
    }
    assert forall|id: Seq<char>, depth: nat| #[trigger]
        has_depth(vecSorted@, id, depth) <==> has_depth(all, id, depth) by {
        assert(!has_depth(vecRest@, id, depth));
    }
    vecSorted
}

/// Some network is marked as one a tester can attach to.
pub open spec fn has_entry_point(networks: Seq<Network>) -> bool {
    exists|i: int|
        0 <= i < networks.len() && (#[trigger] networks[i]).m_bIsDiagnosticEntryPoint
}

/// The networks with their entry points decided: as they were marked, or else every network
/// nothing gateways onto.
pub open spec fn normalized(ecus: Seq<Ecu>, networks: Seq<Network>) -> Seq<Network> {
    if has_entry_point(networks) {
        networks
    } else {
        Seq::new(
            networks.len(),
            |i: int|
                Network {
                    m_bIsDiagnosticEntryPoint: gateway_at(ecus, networks[i].m_strId@) is None,
                    ..networks[i]
                },
        )
    }
}

impl Vehicle {
    /// Decide which links a tester can attach to, when nobody has said: every network nothing
    /// gateways onto. An explicit choice is left alone.
    pub fn NormalizeEntryPoints(&mut self)
        ensures
            final(self).m_strName == old(self).m_strName,
            final(self).m_vecEcus == old(self).m_vecEcus,
            final(self).m_vecNetworks@ == normalized(old(self).m_vecEcus@, old(self).m_vecNetworks@),
    {
        let ghost before = self.m_vecNetworks@;
        let mut uIndex: usize = 0;
        while uIndex < self.m_vecNetworks.len()
            invariant
                uIndex <= self.m_vecNetworks@.len(),
                *self == *old(self),
                forall|i: int|
                    0 <= i < uIndex ==> !(
                    #[trigger] self.m_vecNetworks@[i]).m_bIsDiagnosticEntryPoint,
            decreases self.m_vecNetworks@.len() - uIndex,
        {
            if self.m_vecNetworks[uIndex].m_bIsDiagnosticEntryPoint {
                assert(has_entry_point(self.m_vecNetworks@));
                return ;
            }
            uIndex = uIndex + 1;
        }
        let mut uNetwork: usize = 0;
        while uNetwork < self.m_vecNetworks.len()
            invariant
                uNetwork <= self.m_vecNetworks@.len(),
                self.m_vecNetworks@.len() == before.len(),
                self.m_strName == old(self).m_strName,
                self.m_vecEcus == old(self).m_vecEcus,
                before == old(self).m_vecNetworks@,
                forall|i: int|
                    uNetwork <= i < before.len() ==> #[trigger] self.m_vecNetworks@[i] == before[i],
                forall|i: int|
                    0 <= i < uNetwork ==> #[trigger] self.m_vecNetworks@[i] == (Network {
                        m_bIsDiagnosticEntryPoint: gateway_at(
                            self.m_vecEcus@,
                            before[i].m_strId@,
                        ) is None,
                        ..before[i]
                    }),
            decreases self.m_vecNetworks@.len() - uNetwork,
        {
            let bIsFree = self.FindGatewayForNetwork(
                self.m_vecNetworks[uNetwork].m_strId.as_str(),
            ).is_none();
            self.m_vecNetworks[uNetwork].m_bIsDiagnosticEntryPoint = bIsFree;
            uNetwork = uNetwork + 1;
        }
        assert(self.m_vecNetworks@ =~= normalized(self.m_vecEcus@, before));
    }

    /// How many gateways a tester crosses to reach each network.
    ///
    /// A network missing from the result is one no chain of gateways connects to an entry point.
    /// Breadth-first from the entry points, so the answer is the shortest path. The ids are
    /// listed in ascending order, each once.
    pub fn NetworkDepths(&self) -> (vecDepths: Vec<NetworkDepth>)
        ensures
            forall|id: Seq<char>, depth: nat| #[trigger]
                has_depth(vecDepths@, id, depth) <==> is_depth(*self, id, depth),
            is_ascending(vecDepths@),
    {
        let mut vecDepths: Vec<NetworkDepth> = self.EntryPointDepths();
        let ghost v = *self;
        // The table doubles as the frontier: everything before the head has been expanded.
        let mut uHead: usize = 0;
        proof {
            lemma_table_is_short(v, vecDepths@, 0);
        }
        while uHead < vecDepths.len()
            invariant
                v == *self,
                is_partial(v, vecDepths@, uHead as int),
                forall|i: int| 0 <= i < uHead ==> #[trigger] is_expanded(v, vecDepths@, i),
                forall|entry: Seq<char>| #[trigger]
                    is_entry(v.m_vecNetworks@, entry) ==> has_depth(vecDepths@, entry, 0),
                vecDepths@.len() <= mentioned(v).len(),
            decreases mentioned(v).len() - uHead,
        {
            let ghost before = vecDepths@;
            self.ExpandNetwork(&mut vecDepths, uHead);
            proof {
                lemma_table_is_short(v, vecDepths@, uHead + 1);
                lemma_growing_keeps(v, before, vecDepths@, uHead as int);
            }
            uHead = uHead + 1;
        }
        proof {
            let table = vecDepths@;
            assert forall|id: Seq<char>, depth: nat| #[trigger]
                has_depth(table, id, depth) <==> is_depth(v, id, depth) by {
                if has_depth(table, id, depth) {
                    let i = choose|i: int|
                        0 <= i < table.len() && (#[trigger] table[i]).m_strNetworkId@ == id
                            && table[i].m_uDepth == depth;
                    assert(reached_in(v, id, depth));
                    assert forall|fewer: nat| fewer < depth implies !reached_in(v, id, fewer) by {
                        if reached_in(v, id, fewer) {
                            lemma_table_is_complete(v, table, id, fewer);
                            let k = choose|k: int|
                                0 <= k < table.len() && (#[trigger] table[k]).m_strNetworkId@ == id
                                    && table[k].m_uDepth <= fewer;
                            if i < k {
                                assert(table[i].m_strNetworkId@ != table[k].m_strNetworkId@);
                            }
                            if k < i {
                                assert(table[k].m_strNetworkId@ != table[i].m_strNetworkId@);
                            }
                        }
                    }
                }
                if is_depth(v, id, depth) {
                    lemma_table_is_complete(v, table, id, depth);
                    let k = choose|k: int|
                        0 <= k < table.len() && (#[trigger] table[k]).m_strNetworkId@ == id
                            && table[k].m_uDepth <= depth;
                    assert(reached_in(v, id, table[k].m_uDepth as nat));
                    assert(table[k].m_uDepth == depth);
                }
            }
        }
        SortDepths(vecDepths)
    }

    /// The entry points, each once, at depth zero.
    fn EntryPointDepths(&self) -> (vecDepths: Vec<NetworkDepth>)
        ensures
            is_partial(*self, vecDepths@, 0),
            forall|entry: Seq<char>| #[trigger]
                is_entry(self.m_vecNetworks@, entry) ==> has_depth(vecDepths@, entry, 0),
    {
        let mut vecDepths: Vec<NetworkDepth> = Vec::new();
        let mut uIndex: usize = 0;
        while uIndex < self.m_vecNetworks.len()
            invariant
                uIndex <= self.m_vecNetworks@.len(),
                is_partial(*self, vecDepths@, 0),
                forall|i: int| 0 <= i < vecDepths@.len() ==> (#[trigger] vecDepths@[i]).m_uDepth == 0,
                forall|i: int|
                    0 <= i < uIndex && (
                    #[trigger] self.m_vecNetworks@[i]).m_bIsDiagnosticEntryPoint ==> has_depth(
                        vecDepths@,
                        self.m_vecNetworks@[i].m_strId@,
                        0,
                    ),
            decreases self.m_vecNetworks@.len() - uIndex,
        {
            let network = &self.m_vecNetworks[uIndex];
            let ghost before = vecDepths@;
            if network.m_bIsDiagnosticEntryPoint {
                match TableIndex(&vecDepths, &network.m_strId) {
                    Some(uFound) => {
                        assert(has_depth(vecDepths@, network.m_strId@, 0)) by {
                            assert(vecDepths@[uFound as int].m_uDepth == 0);
                        }
                    },
                    None => {
                        vecDepths.push(
                            NetworkDepth { m_strNetworkId: network.m_strId.clone(), m_uDepth: 0 },
                        );
                        proof {
                            let n = before.len() as int;
                            assert(is_entry(self.m_vecNetworks@, network.m_strId@));
                            assert(reached_in(*self, network.m_strId@, 0));
                            assert(vecDepths@[n].m_strNetworkId@ == network.m_strId@);
                            assert(has_depth(vecDepths@, network.m_strId@, 0));
                            assert forall|i: int|
                                0 <= i < uIndex && (
                                #[trigger] self.m_vecNetworks@[i]).m_bIsDiagnosticEntryPoint implies
                                has_depth(vecDepths@, self.m_vecNetworks@[i].m_strId@, 0) by {
                                let id = self.m_vecNetworks@[i].m_strId@;
                                assert(has_depth(before, id, 0));
                                let k = choose|k: int|
                                    0 <= k < before.len() && (#[trigger] before[k]).m_strNetworkId@
                                        == id && before[k].m_uDepth == 0;
                                assert(vecDepths@[k] == before[k]);
                            }
                        }
                    },
                }
            }
            uIndex = uIndex + 1;
        }
        proof {
            assert forall|entry: Seq<char>| #[trigger]
                is_entry(self.m_vecNetworks@, entry) implies has_depth(vecDepths@, entry, 0) by {
                let i = choose|i: int|
                    0 <= i < self.m_vecNetworks@.len() && (
                    #[trigger] self.m_vecNetworks@[i]).m_strId@ == entry
                        && self.m_vecNetworks@[i].m_bIsDiagnosticEntryPoint;
                assert(has_depth(vecDepths@, self.m_vecNetworks@[i].m_strId@, 0));
            }
        }
        vecDepths
    }
}

/// One table extends another.
spec fn extends(longer: Seq<NetworkDepth>, shorter: Seq<NetworkDepth>) -> bool {
    &&& longer.len() >= shorter.len()
    &&& forall|i: int| 0 <= i < shorter.len() ==> #[trigger] longer[i] == shorter[i]
}

/// Growing a table keeps what was in it and what was expanded.
proof fn lemma_growing_keeps(
    v: Vehicle,
    shorter: Seq<NetworkDepth>,
    longer: Seq<NetworkDepth>,
    head: int,
)
    requires
        extends(longer, shorter),
        head <= shorter.len(),
        forall|i: int| 0 <= i < head ==> #[trigger] is_expanded(v, shorter, i),
    ensures
        forall|i: int| 0 <= i < head ==> #[trigger] is_expanded(v, longer, i),
        forall|id: Seq<char>, depth: nat| #[trigger]
            has_depth(shorter, id, depth) ==> has_depth(longer, id, depth),
{
    assert forall|i: int| 0 <= i < head implies #[trigger] is_expanded(v, longer, i) by {
        assert(is_expanded(v, shorter, i));
        assert(longer[i] == shorter[i]);
        assert forall|to: Seq<char>| #[trigger]
            leads_to(v.m_vecEcus@, longer[i].m_strNetworkId@, to) implies exists|k: int|
            0 <= k < longer.len() && (#[trigger] longer[k]).m_strNetworkId@ == to
                && longer[k].m_uDepth <= longer[i].m_uDepth + 1 by {
            assert(leads_to(v.m_vecEcus@, shorter[i].m_strNetworkId@, to));
            let k = choose|k: int|
                0 <= k < shorter.len() && (#[trigger] shorter[k]).m_strNetworkId@ == to
                    && shorter[k].m_uDepth <= shorter[i].m_uDepth + 1;
            assert(longer[k] == shorter[k]);
        }
    }
    assert forall|id: Seq<char>, depth: nat| #[trigger]
        has_depth(shorter, id, depth) implies has_depth(longer, id, depth) by {
        let k = choose|k: int|
            0 <= k < shorter.len() && (#[trigger] shorter[k]).m_strNetworkId@ == id
                && shorter[k].m_uDepth == depth;
        assert(longer[k] == shorter[k]);
    }
}

/// The table holds an id at no more than a depth.
spec fn is_within(table: Seq<NetworkDepth>, id: Seq<char>, depth: int) -> bool {
    exists|k: int|
        0 <= k < table.len() && (#[trigger] table[k]).m_strNetworkId@ == id && table[k].m_uDepth
            <= depth
}

proof fn lemma_within_grows(
    shorter: Seq<NetworkDepth>,
    longer: Seq<NetworkDepth>,
    id: Seq<char>,
    depth: int,
)
    requires
        extends(longer, shorter),
        is_within(shorter, id, depth),
    ensures
        is_within(longer, id, depth),
{
    let k = choose|k: int|
        0 <= k < shorter.len() && (#[trigger] shorter[k]).m_strNetworkId@ == id
            && shorter[k].m_uDepth <= depth;
    assert(longer[k] == shorter[k]);
}

/// The first `n` ids an ECU forwards onto are all in the table at no more than a depth.
spec fn forwards_within(table: Seq<NetworkDepth>, ecu: Ecu, n: int, depth: int) -> bool {
    forall|k: int|
        0 <= k < n ==> is_within(table, (#[trigger] ecu.m_vecGatewayForNetworkIds@[k])@, depth)
}

proof fn lemma_forwards_within_grows(
    shorter: Seq<NetworkDepth>,
    longer: Seq<NetworkDepth>,
    ecu: Ecu,
    n: int,
    depth: int,
)
    requires
        extends(longer, shorter),
        forwards_within(shorter, ecu, n, depth),
    ensures
        forwards_within(longer, ecu, n, depth),
{
    assert forall|k: int| 0 <= k < n implies is_within(
        longer,
        (#[trigger] ecu.m_vecGatewayForNetworkIds@[k])@,
        depth,
    ) by {
        lemma_within_grows(shorter, longer, ecu.m_vecGatewayForNetworkIds@[k]@, depth);
    }
}

/// True when an ECU sits on a network.
fn IsOn(ecu: &Ecu, strNetworkId: &String) -> (bIsOn: bool)
    ensures
        bIsOn == sits_on(*ecu, strNetworkId@),
{
    match &ecu.m_optStrNetworkId {
        Some(strOwn) => *strOwn == *strNetworkId,
        None => false,
    }
}

impl Vehicle {
    /// Add what one network of the table leads to, one hop deeper than it.
    fn ExpandNetwork(&self, vecDepths: &mut Vec<NetworkDepth>, uHead: usize)
        requires
            is_partial(*self, old(vecDepths)@, uHead as int),
            uHead < old(vecDepths)@.len(),
        ensures
            is_partial(*self, final(vecDepths)@, uHead + 1),
            extends(final(vecDepths)@, old(vecDepths)@),
            is_expanded(*self, final(vecDepths)@, uHead as int),
    {
        let strNetworkId = vecDepths[uHead].m_strNetworkId.clone();
        let uDepth: usize = vecDepths[uHead].m_uDepth;
        let ghost start = vecDepths@;
        let mut uEcu: usize = 0;
        while uEcu < self.m_vecEcus.len()
            invariant
                uEcu <= self.m_vecEcus@.len(),
                is_partial(*self, vecDepths@, uHead as int),
                extends(vecDepths@, start),
                uHead < start.len(),
                start[uHead as int].m_strNetworkId@ == strNetworkId@,
                start[uHead as int].m_uDepth == uDepth,
                forall|e: int|
                    0 <= e < uEcu && sits_on(#[trigger] self.m_vecEcus@[e], strNetworkId@)
                        ==> forwards_within(
                        vecDepths@,
                        self.m_vecEcus@[e],
                        self.m_vecEcus@[e].m_vecGatewayForNetworkIds@.len() as int,
                        uDepth + 1,
                    ),
            decreases self.m_vecEcus@.len() - uEcu,
        {
            let ghost before = vecDepths@;
            if IsOn(&self.m_vecEcus[uEcu], &strNetworkId) {
                self.AddForwarded(vecDepths, uHead, uEcu);
                proof {
                    assert forall|e: int|
                        0 <= e < uEcu && sits_on(
                            #[trigger] self.m_vecEcus@[e],
                            strNetworkId@,
                        ) implies forwards_within(
                        vecDepths@,
                        self.m_vecEcus@[e],
                        self.m_vecEcus@[e].m_vecGatewayForNetworkIds@.len() as int,
                        uDepth + 1,
                    ) by {
                        lemma_forwards_within_grows(
                            before,
                            vecDepths@,
                            self.m_vecEcus@[e],
                            self.m_vecEcus@[e].m_vecGatewayForNetworkIds@.len() as int,
                            uDepth + 1,
                        );
                    }
                }
            }
            uEcu = uEcu + 1;
        }
        proof {
            let table = vecDepths@;
            assert(table[uHead as int] == start[uHead as int]);
            assert forall|to: Seq<char>| #[trigger]
                leads_to(
                    self.m_vecEcus@,
                    table[uHead as int].m_strNetworkId@,
                    to,
                ) implies exists|k: int|
                0 <= k < table.len() && (#[trigger] table[k]).m_strNetworkId@ == to
                    && table[k].m_uDepth <= table[uHead as int].m_uDepth + 1 by {
                let e = choose|e: int|
                    0 <= e < self.m_vecEcus@.len() && sits_on(
                        #[trigger] self.m_vecEcus@[e],
                        strNetworkId@,
                    ) && forwards_onto(self.m_vecEcus@[e], to);
                let k = choose|k: int|
                    0 <= k < self.m_vecEcus@[e].m_vecGatewayForNetworkIds@.len() && (
                    #[trigger] self.m_vecEcus@[e].m_vecGatewayForNetworkIds@[k])@ == to;
                assert(is_within(
                    table,
                    self.m_vecEcus@[e].m_vecGatewayForNetworkIds@[k]@,
                    uDepth + 1,
                ));
            }
            assert(is_partial(*self, table, uHead + 1)) by {
                if uHead + 1 < table.len() {
                    assert(table[uHead as int].m_uDepth <= table[uHead + 1].m_uDepth);
                }
            }
        }
    }

    /// Add every network one ECU forwards onto that is not in the table yet.
    fn AddForwarded(&self, vecDepths: &mut Vec<NetworkDepth>, uHead: usize, uEcu: usize)
        requires
            is_partial(*self, old(vecDepths)@, uHead as int),
            uHead < old(vecDepths)@.len(),
            uEcu < self.m_vecEcus@.len(),
            sits_on(
                self.m_vecEcus@[uEcu as int],
                old(vecDepths)@[uHead as int].m_strNetworkId@,
            ),
        ensures
            is_partial(*self, final(vecDepths)@, uHead as int),
            extends(final(vecDepths)@, old(vecDepths)@),
            forwards_within(
                final(vecDepths)@,
                self.m_vecEcus@[uEcu as int],
                self.m_vecEcus@[uEcu as int].m_vecGatewayForNetworkIds@.len() as int,
                old(vecDepths)@[uHead as int].m_uDepth + 1,
            ),
    {
        let ecu = &self.m_vecEcus[uEcu];
        let uDepth: usize = vecDepths[uHead].m_uDepth;
        let ghost start = vecDepths@;
        let mut uIndex: usize = 0;
        while uIndex < ecu.m_vecGatewayForNetworkIds.len()
            invariant
                uIndex <= ecu.m_vecGatewayForNetworkIds@.len(),
                uEcu < self.m_vecEcus@.len(),
                *ecu == self.m_vecEcus@[uEcu as int],
                is_partial(*self, vecDepths@, uHead as int),
                extends(vecDepths@, start),
                uHead < start.len(),
                start[uHead as int].m_uDepth == uDepth,
                sits_on(*ecu, start[uHead as int].m_strNetworkId@),
                forwards_within(vecDepths@, *ecu, uIndex as int, uDepth + 1),
            decreases ecu.m_vecGatewayForNetworkIds@.len() - uIndex,
        {
            let strBehindId = &ecu.m_vecGatewayForNetworkIds[uIndex];
            let ghost before = vecDepths@;
            assert(before[uHead as int] == start[uHead as int]);
            match TableIndex(vecDepths, strBehindId) {
                Some(uFound) => {
                    assert(is_within(vecDepths@, strBehindId@, uDepth + 1)) by {
                        if uFound < uHead {
                            assert(before[uFound as int].m_uDepth <= before[uHead as int].m_uDepth);
                        }
                        assert(before[uFound as int].m_uDepth <= uDepth + 1);
                    }
                },
                None => {
                    assert(uDepth <= uHead < vecDepths.len());
                    vecDepths.push(
                        NetworkDepth { m_strNetworkId: strBehindId.clone(), m_uDepth: uDepth + 1 },
                    );
                    proof {
                        let table = vecDepths@;
                        let n = before.len() as int;
                        let from = start[uHead as int].m_strNetworkId@;
                        assert(ecu.m_vecGatewayForNetworkIds@[uIndex as int]@ == strBehindId@);
                        assert(forwards_onto(self.m_vecEcus@[uEcu as int], strBehindId@));
                        assert(leads_to(self.m_vecEcus@, from, strBehindId@));
                        assert(reached_in(*self, from, uDepth as nat));
                        assert(reached_in(*self, strBehindId@, (uDepth + 1) as nat));
                        assert(table[n].m_strNetworkId@ == strBehindId@);
                        assert forall|i: int| 0 <= i < n implies (
                        #[trigger] table[i]).m_uDepth <= uDepth + 1 by {
                            assert(table[i] == before[i]);
                            if i < uHead {
                                assert(before[i].m_uDepth <= before[uHead as int].m_uDepth);
                            }
                        }
                        assert(is_partial(*self, table, uHead as int));
                        lemma_forwards_within_grows(
                            before,
                            table,
                            *ecu,
                            uIndex as int,
                            uDepth + 1,
                        );
                        assert(is_within(table, strBehindId@, uDepth + 1));
                    }
                },
            }
            uIndex = uIndex + 1;
        }
    }
}

/// The network found under an id is marked as an entry point.
pub open spec fn found_entry(networks: Seq<Network>, id: Seq<char>) -> bool {
    network_at(networks, id) is Some && networks[network_at(
        networks,
        id,
    )->0].m_bIsDiagnosticEntryPoint
}

/// The gateways crossed on the way from a network up to an entry point, nearest the network
/// first, and whether an entry point was met within the given number of steps.
pub open spec fn climb(v: Vehicle, id: Seq<char>, steps: nat) -> (Seq<Seq<char>>, bool)
    decreases steps,
{
    if steps == 0 {
        (seq![], false)
    } else if found_entry(v.m_vecNetworks@, id) {
        (seq![], true)
    } else {
        match gateway_at(v.m_vecEcus@, id) {
            None => (seq![], false),
            Some(g) => {
                let gateway = v.m_vecEcus@[g];
                match gateway.m_optStrNetworkId {
                    None => (seq![gateway.m_strName@], false),
                    Some(network) => {
                        let rest = climb(v, network@, (steps - 1) as nat);
                        (seq![gateway.m_strName@] + rest.0, rest.1)
                    },
                }
            },
        }
    }
}

/// How a tester reaches an ECU. An ECU on no declared network counts as directly reachable.
/// Otherwise the gateways are the ones met while climbing from its network, for at most one more
/// step than there are networks; an unreachable ECU names none of them.
pub open spec fn path_to(v: Vehicle, ecu: Ecu) -> (Seq<Seq<char>>, nat, bool) {
    match ecu.m_optStrNetworkId {
        None => (seq![], 0, true),
        Some(network) => {
            let climbed = climb(v, network@, v.m_vecNetworks@.len() + 1);
            (
                if climbed.1 {
                    climbed.0.reverse()
                } else {
                    seq![]
                },
                climbed.0.len(),
                climbed.1,
            )
        },
    }
}

/// A list of strings in the opposite order.
fn Reversed(vecTexts: &Vec<String>) -> (vecReversed: Vec<String>)
    ensures
        texts(vecReversed@) == texts(vecTexts@).reverse(),
{
    let mut vecReversed: Vec<String> = Vec::new();
    let mut uLeft: usize = vecTexts.len();
    while uLeft > 0
        invariant
            uLeft <= vecTexts@.len(),
            vecReversed@.len() == vecTexts@.len() - uLeft,
            forall|i: int|
                0 <= i < vecReversed@.len() ==> (#[trigger] vecReversed@[i])@
                    == vecTexts@[vecTexts@.len() - 1 - i]@,
        decreases uLeft,
    {
        uLeft = uLeft - 1;
        vecReversed.push(vecTexts[uLeft].clone());
    }
    assert(texts(vecReversed@) =~= texts(vecTexts@).reverse());
    vecReversed
}

impl Vehicle {
    /// The chain of gateways a tester goes through to reach one ECU.
    ///
    /// An ECU on no declared network is treated as directly reachable: "nobody said how it is
    /// wired" must not become "it is unreachable".
    pub fn DiagnosticPathTo(&self, ecu: &Ecu) -> (path: DiagnosticPath)
        ensures
            path_to(*self, *ecu) == (
                texts(path.m_vecGatewayEcuNames@),
                path.m_uHopCount as nat,
                path.m_bIsReachable,
            ),
    {
        let mut strCurrentId: String = match &ecu.m_optStrNetworkId {
            Some(strNetworkId) => strNetworkId.clone(),
            None => {
                let path = DiagnosticPath {
                    m_vecGatewayEcuNames: Vec::new(),
                    m_uHopCount: 0,
                    m_bIsReachable: true,
                };
                assert(texts(path.m_vecGatewayEcuNames@) =~= seq![]);
                return path;
            },
        };
        let mut vecGatewayNames: Vec<String> = Vec::new();
        let ghost start = strCurrentId@;
        // The cycle check of a validated vehicle is what makes the walk end; the hop limit is a
        // belt-and-braces stop for one that was never validated.
        let mut uStepsLeft: usize = self.m_vecNetworks.len();
        let ghost whole = climb(*self, start, self.m_vecNetworks@.len() + 1);
        assert(texts(vecGatewayNames@) + whole.0 =~= whole.0);
        let mut bEnded = false;
        while !bEnded
            invariant
                whole == climb(*self, start, self.m_vecNetworks@.len() + 1),
                path_to(*self, *ecu) == (
                    (if whole.1 {
                        whole.0.reverse()
                    } else {
                        seq![]
                    }),
                    whole.0.len(),
                    whole.1,
                ),
                !bEnded ==> ({
                    let rest = climb(*self, strCurrentId@, uStepsLeft as nat + 1);
                    whole == (texts(vecGatewayNames@) + rest.0, rest.1)
                }),
                bEnded ==> whole == (texts(vecGatewayNames@), false),
            decreases
                    uStepsLeft + if bEnded {
                        0int
                    } else {
                        1int
                    },
        {
            let ghost names = texts(vecGatewayNames@);
            let ghost rest = climb(*self, strCurrentId@, uStepsLeft as nat + 1);
            let bIsEntryPoint = match self.FindNetwork(strCurrentId.as_str()) {
                Some(network) => network.m_bIsDiagnosticEntryPoint,
                None => false,
            };
            if bIsEntryPoint {
                assert(names + rest.0 =~= names);
                return DiagnosticPath {
                    m_uHopCount: vecGatewayNames.len(),
                    m_vecGatewayEcuNames: Reversed(&vecGatewayNames),
                    m_bIsReachable: true,
                };
            }
            match self.FindGatewayForNetwork(strCurrentId.as_str()) {
                None => {
                    assert(names + rest.0 =~= names);
                    bEnded = true;
                },
                Some(gateway) => {
                    vecGatewayNames.push(gateway.m_strName.clone());
                    assert(texts(vecGatewayNames@) =~= names.push(gateway.m_strName@));
                    match &gateway.m_optStrNetworkId {
                        None => {
                            assert(names + rest.0 =~= names.push(gateway.m_strName@));
                            bEnded = true;
                        },
                        Some(strUpstreamId) => {
                            strCurrentId = strUpstreamId.clone();
                            let ghost further = climb(*self, strCurrentId@, uStepsLeft as nat);
                            assert(names + rest.0 =~= names.push(gateway.m_strName@) + further.0);
                            if uStepsLeft == 0 {
                                assert(names.push(gateway.m_strName@) + further.0 =~= names.push(
                                    gateway.m_strName@,
                                ));
                                bEnded = true;
                            } else {
                                uStepsLeft = uStepsLeft - 1;
                            }
                        },
                    }
                },
            }
        }
        let path = DiagnosticPath {
            m_uHopCount: vecGatewayNames.len(),
            m_vecGatewayEcuNames: Vec::new(),
            m_bIsReachable: false,
        };
        assert(texts(path.m_vecGatewayEcuNames@) =~= seq![]);
        path
    }
}

} // verus!
