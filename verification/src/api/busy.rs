//! Which ECUs are in the middle of an answer.
//!
//! An ECU part-way through a ResponsePending sequence has told the tester it cannot receive another
//! request, so a second one is refused before any ECU has seen it, instead of changing its state
//! mid-answer.

use std::collections::BTreeSet;
use vstd::prelude::*;
use vstd::string::StringExecFns;

use crate::api::error::conflict;
use crate::api::error::ApiError;
use crate::api::error::ErrorView;
use crate::simulation::RoutedResponse;
use crate::text::hex;
use crate::text::AppendHex;

verus! {

/// The ECUs whose answer spans time, by request identifier. A single immediate response occupies
/// nothing.
pub open spec fn occupying(responses: Seq<RoutedResponse>) -> Seq<u32>
    decreases responses.len(),
{
    if responses.len() == 0 {
        seq![]
    } else {
        let before = occupying(responses.drop_last());
        if responses.last().m_plan.m_vecSteps@.len() > 1 {
            before.push(responses.last().m_u32RequestCanId)
        } else {
            before
        }
    }
}

/// List the ECUs whose answer spans time.
fn Occupying(vecResponses: &[RoutedResponse]) -> (vecIds: Vec<u32>)
    ensures
        vecIds@ == occupying(vecResponses@),
{
    let mut vecIds: Vec<u32> = Vec::new();
    let mut uAt: usize = 0;
    assert(vecResponses@.take(0) =~= seq![]);
    assert(vecIds@ =~= seq![]);
    while uAt < vecResponses.len()
        invariant
            uAt <= vecResponses@.len(),
            vecIds@ == occupying(vecResponses@.take(uAt as int)),
        decreases vecResponses@.len() - uAt,
    {
        assert(vecResponses@.take(uAt + 1).drop_last() =~= vecResponses@.take(uAt as int));
        if vecResponses[uAt].m_plan.m_vecSteps.len() > 1 {
            vecIds.push(vecResponses[uAt].m_u32RequestCanId);
        }
        uAt += 1;
    }
    assert(vecResponses@.take(uAt as int) =~= vecResponses@);
    vecIds
}

/// The first of the wanted ECUs that is busy already.
pub open spec fn first_busy(busy: Set<u32>, wanted: Seq<u32>) -> Option<u32>
    decreases wanted.len(),
{
    if wanted.len() == 0 {
        None
    } else {
        match first_busy(busy, wanted.drop_last()) {
            Some(id) => Some(id),
            None => if busy.contains(wanted.last()) {
                Some(wanted.last())
            } else {
                None
            },
        }
    }
}

/// What a caller is told of an ECU that is busy.
pub open spec fn busy_error(id: u32) -> ErrorView {
    conflict(
        "the ECU on CAN id 0x"@ + hex(id as nat, 3)
            + " is completing a ResponsePending sequence and cannot receive another request yet"@,
    )
}

/// Refuse a request to a busy ECU.
fn BusyError(u32RequestCanId: u32) -> (error: ApiError)
    ensures
        error@ == busy_error(u32RequestCanId),
{
    let mut strMessage = "the ECU on CAN id 0x".to_string();
    AppendHex(&mut strMessage, u32RequestCanId as u64, 3);
    strMessage.append(
        " is completing a ResponsePending sequence and cannot receive another request yet",
    );
    ApiError::Conflict(strMessage)
}

proof fn lemma_first_busy_stays(busy: Set<u32>, wanted: Seq<u32>, k: int)
    requires
        0 <= k <= wanted.len(),
        first_busy(busy, wanted.take(k)) is Some,
    ensures
        first_busy(busy, wanted) == first_busy(busy, wanted.take(k)),
    decreases wanted.len(),
{
    if k == wanted.len() {
        assert(wanted.take(k) =~= wanted);
    } else {
        assert(wanted.drop_last().take(k) =~= wanted.take(k));
        lemma_first_busy_stays(busy, wanted.drop_last(), k);
    }
}

/// The ECUs that are in the middle of an answer, by request identifier.
pub struct BusyEcus {
    m_setBusy: BTreeSet<u32>,
}

/// The part of a busy set that a claim added.
pub struct BusyClaim {
    m_vecClaimedRequestCanIds: Vec<u32>,
}

impl BusyClaim {
    /// The claimed ECUs.
    pub closed spec fn ids(&self) -> Seq<u32> {
        self.m_vecClaimedRequestCanIds@
    }
}

impl BusyEcus {
    /// The busy ECUs.
    pub closed spec fn view(&self) -> Set<u32> {
        self.m_setBusy@
    }

    /// Nothing is busy.
    pub fn New() -> (busy: Self)
        ensures
            busy@ == Set::<u32>::empty(),
    {
        BusyEcus { m_setBusy: BTreeSet::new() }
    }

    /// Check that none of the ECUs a request is for is in the middle of an answer. It is made
    /// before the request is processed, whatever its answer would be: the first busy ECU is
    /// reported.
    pub fn CheckFree(&self, vecTargets: &[u32]) -> (result: Result<(), ApiError>)
        ensures
            match first_busy(self@, vecTargets@) {
                Some(id) => result matches Err(error) && error@ == busy_error(id),
                None => result is Ok,
            },
    {
        match self.FirstBusy(vecTargets) {
            Some(u32Busy) => Err(BusyError(u32Busy)),
            None => Ok(()),
        }
    }

    /// Claim every ECU whose answer spans time. Either all of them are claimed, or the first one
    /// that is busy already is reported and nothing changes.
    pub fn Claim(&mut self, vecResponses: &[RoutedResponse]) -> (result: Result<BusyClaim, ApiError>)
        ensures
            match first_busy(old(self)@, occupying(vecResponses@)) {
                Some(id) => result matches Err(error) && error@ == busy_error(id) && final(self)@
                    == old(self)@,
                None => result matches Ok(claim) && claim.ids() == occupying(vecResponses@)
                    && final(self)@ == old(self)@.union(occupying(vecResponses@).to_set()),
            },
    {
        let vecWanted = Occupying(vecResponses);
        match self.FirstBusy(vecWanted.as_slice()) {
            Some(u32Busy) => {
                return Err(BusyError(u32Busy));
            },
            None => {},
        }
        self.Add(&vecWanted);
        Ok(BusyClaim { m_vecClaimedRequestCanIds: vecWanted })
    }

    /// Find the first of these ECUs that is busy.
    fn FirstBusy(&self, vecWanted: &[u32]) -> (optU32Busy: Option<u32>)
        ensures
            optU32Busy == first_busy(self@, vecWanted@),
    {
        let ghost wanted = vecWanted@;
        let mut uAt: usize = 0;
        assert(wanted.take(0) =~= seq![]);
        while uAt < vecWanted.len()
            invariant
                uAt <= wanted.len(),
                wanted == vecWanted@,
                first_busy(self@, wanted.take(uAt as int)) is None,
            decreases wanted.len() - uAt,
        {
            assert(wanted.take(uAt + 1).drop_last() =~= wanted.take(uAt as int));
            if self.Holds(vecWanted[uAt]) {
                proof {
                    lemma_first_busy_stays(self@, wanted, uAt + 1);
                }
                return Some(vecWanted[uAt]);
            }
            uAt += 1;
        }
        assert(wanted.take(uAt as int) =~= wanted);
        None
    }

    /// Whether one ECU is busy.
    fn Holds(&self, u32Id: u32) -> (bHolds: bool)
        ensures
            bHolds == self@.contains(u32Id),
    {
        broadcast use vstd::std_specs::btree::group_btree_axioms;

        assert(vstd::laws_cmp::obeys_cmp::<u32>());
        self.m_setBusy.contains(&u32Id)
    }

    /// Mark one ECU busy.
    fn AddOne(&mut self, u32Id: u32)
        ensures
            final(self)@ == old(self)@.insert(u32Id),
    {
        broadcast use vstd::std_specs::btree::group_btree_axioms;

        assert(vstd::laws_cmp::obeys_cmp::<u32>());
        self.m_setBusy.insert(u32Id);
    }

    /// Mark one ECU free.
    fn RemoveOne(&mut self, u32Id: u32)
        ensures
            final(self)@ == old(self)@.remove(u32Id),
    {
        broadcast use vstd::std_specs::btree::group_btree_axioms;

        assert(vstd::laws_cmp::obeys_cmp::<u32>());
        self.m_setBusy.remove(&u32Id);
        assert(self@ =~= old(self)@.remove(u32Id));
    }

    /// Mark these ECUs busy.
    fn Add(&mut self, vecIds: &Vec<u32>)
        ensures
            final(self)@ == old(self)@.union(vecIds@.to_set()),
    {
        let mut uAt: usize = 0;
        while uAt < vecIds.len()
            invariant
                uAt <= vecIds@.len(),
                forall|id: u32|
                    self@.contains(id) <==> old(self)@.contains(id) || exists|i: int|
                        0 <= i < uAt && vecIds@[i] == id,
            decreases vecIds@.len() - uAt,
        {
            self.AddOne(vecIds[uAt]);
            assert forall|id: u32|
                self@.contains(id) <==> old(self)@.contains(id) || exists|i: int|
                    0 <= i < uAt + 1 && vecIds@[i] == id by {
                if id == vecIds@[uAt as int] {
                    assert(0 <= uAt < uAt + 1 && vecIds@[uAt as int] == id);
                } else {
                    if exists|i: int| 0 <= i < uAt + 1 && vecIds@[i] == id {
                        let i = choose|i: int| 0 <= i < uAt + 1 && vecIds@[i] == id;
                        assert(0 <= i < uAt && vecIds@[i] == id);
                    }
                }
            }
            uAt += 1;
        }
        assert(self@ =~= old(self)@.union(vecIds@.to_set()));
    }

    /// Give back what was claimed, however the request ended.
    pub fn Release(&mut self, claim: BusyClaim)
        ensures
            final(self)@ == old(self)@.difference(claim.ids().to_set()),
    {
        let ghost ids = claim.m_vecClaimedRequestCanIds@;
        let vecIds = claim.m_vecClaimedRequestCanIds;
        let mut uAt: usize = 0;
        while uAt < vecIds.len()
            invariant
                uAt <= vecIds@.len(),
                vecIds@ == ids,
                forall|id: u32|
                    self@.contains(id) <==> old(self)@.contains(id) && !exists|i: int|
                        0 <= i < uAt && ids[i] == id,
            decreases vecIds@.len() - uAt,
        {
            self.RemoveOne(vecIds[uAt]);
            assert forall|id: u32|
                self@.contains(id) <==> old(self)@.contains(id) && !exists|i: int|
                    0 <= i < uAt + 1 && ids[i] == id by {
                if id == ids[uAt as int] {
                    assert(0 <= uAt < uAt + 1 && ids[uAt as int] == id);
                } else {
                    if exists|i: int| 0 <= i < uAt + 1 && ids[i] == id {
                        let i = choose|i: int| 0 <= i < uAt + 1 && ids[i] == id;
                        assert(0 <= i < uAt && ids[i] == id);
                    }
                }
            }
            uAt += 1;
        }
        assert(self@ =~= old(self)@.difference(claim.ids().to_set()));
    }
}

proof fn lemma_none_busy(busy: Set<u32>, wanted: Seq<u32>)
    requires
        first_busy(busy, wanted) is None,
    ensures
        forall|i: int| 0 <= i < wanted.len() ==> !busy.contains(#[trigger] wanted[i]),
    decreases wanted.len(),
{
    if wanted.len() > 0 {
        let front = wanted.drop_last();
        lemma_none_busy(busy, front);
        assert forall|i: int| 0 <= i < wanted.len() implies !busy.contains(#[trigger] wanted[i]) by {
            if i < front.len() {
                assert(front[i] == wanted[i]);
            }
        }
    }
}

/// A claim that succeeded and is released leaves the busy ECUs as they were.
pub proof fn law_release_undoes_a_claim(busy: Set<u32>, responses: Seq<RoutedResponse>)
    requires
        first_busy(busy, occupying(responses)) is None,
    ensures
        busy.union(occupying(responses).to_set()).difference(occupying(responses).to_set()) == busy,
{
    lemma_none_busy(busy, occupying(responses));
    assert(busy.union(occupying(responses).to_set()).difference(occupying(responses).to_set())
        =~= busy);
}

proof fn lemma_claimed_is_busy(busy: Set<u32>, wanted: Seq<u32>, i: int)
    requires
        0 <= i < wanted.len(),
        busy.contains(wanted[i]),
    ensures
        first_busy(busy, wanted) is Some,
    decreases wanted.len(),
{
    if i < wanted.len() - 1 {
        assert(wanted.drop_last()[i] == wanted[i]);
        lemma_claimed_is_busy(busy, wanted.drop_last(), i);
    }
}

/// While a claim stands, a second request to one of its ECUs is refused before it is processed,
/// whatever its answer would be.
pub proof fn law_a_busy_ecu_takes_no_second_request(
    busy: Set<u32>,
    first: Seq<RoutedResponse>,
    targets: Seq<u32>,
    id: u32,
)
    requires
        occupying(first).contains(id),
        targets.contains(id),
    ensures
        first_busy(busy.union(occupying(first).to_set()), targets) is Some,
{
    let i = choose|i: int| 0 <= i < targets.len() && targets[i] == id;
    lemma_claimed_is_busy(busy.union(occupying(first).to_set()), targets, i);
}

proof fn lemma_occupying_are_asked(responses: Seq<RoutedResponse>, i: int) -> (j: int)
    requires
        0 <= i < occupying(responses).len(),
    ensures
        0 <= j < responses.len(),
        occupying(responses)[i] == responses[j].m_u32RequestCanId,
    decreases responses.len(),
{
    if i < occupying(responses.drop_last()).len() {
        lemma_occupying_are_asked(responses.drop_last(), i)
    } else {
        responses.len() - 1
    }
}

proof fn lemma_free_where_none_is_busy(busy: Set<u32>, wanted: Seq<u32>)
    requires
        forall|i: int| 0 <= i < wanted.len() ==> !busy.contains(#[trigger] wanted[i]),
    ensures
        first_busy(busy, wanted) is None,
    decreases wanted.len(),
{
    if wanted.len() > 0 {
        assert forall|i: int| 0 <= i < wanted.drop_last().len() implies !busy.contains(
            #[trigger] wanted.drop_last()[i],
        ) by {
            assert(wanted.drop_last()[i] == wanted[i]);
        }
        lemma_free_where_none_is_busy(busy, wanted.drop_last());
    }
}

/// A request whose targets were all free is never refused once they have answered it: the claim
/// on those of them whose answer spans time succeeds.
pub proof fn law_free_targets_can_be_claimed(
    busy: Set<u32>,
    targets: Seq<u32>,
    responses: Seq<RoutedResponse>,
)
    requires
        first_busy(busy, targets) is None,
        forall|i: int|
            0 <= i < responses.len() ==> targets.contains(
                (#[trigger] responses[i]).m_u32RequestCanId,
            ),
    ensures
        first_busy(busy, occupying(responses)) is None,
{
    lemma_none_busy(busy, targets);
    let wanted = occupying(responses);
    assert forall|i: int| 0 <= i < wanted.len() implies !busy.contains(#[trigger] wanted[i]) by {
        let j = lemma_occupying_are_asked(responses, i);
        assert(targets.contains(responses[j].m_u32RequestCanId));
    }
    lemma_free_where_none_is_busy(busy, wanted);
}

} // verus!
