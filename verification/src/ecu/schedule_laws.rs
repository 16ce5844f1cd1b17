//! What a tester that waits for an answer can rely on, whatever the timing is set to.

use vstd::prelude::*;

use crate::core_domain::timing::EcuTiming;
use crate::ecu::schedule::allowed_pending_count;
use crate::ecu::schedule::conformance_warnings;
use crate::ecu::schedule::final_instant;
use crate::ecu::schedule::final_step;
use crate::ecu::schedule::first_long_gap;
use crate::ecu::schedule::first_short_gap;
use crate::ecu::schedule::law_required_pendings_is_least;
use crate::ecu::schedule::pending_count;
use crate::ecu::schedule::pending_offsets;
use crate::ecu::schedule::planned_steps;
use crate::ecu::schedule::required_pendings;
use crate::ecu::schedule::step_views;
use crate::ecu::schedule::ResponsePlan;

verus! {

/// As many ResponsePending messages are sent as the delay needs, forced or not: below the most a
/// plan can hold, their budgets reach the final response. Forcing never lowers the count, and
/// none is sent without a reason: either it is the forced count, or one fewer would not reach the
/// final response.
pub proof fn law_pending_count_covers_the_delay(timing: EcuTiming)
    ensures
        0 <= pending_count(timing) <= 255,
        timing.m_u32P2StarServerMaxMs > 0 && pending_count(timing) < 255
            ==> timing.m_u32P2ServerMaxMs + pending_count(timing) * timing.m_u32P2StarServerMaxMs
            >= timing.m_u32ResponseDelayMs,
        timing.m_bForceResponsePending ==> pending_count(timing)
            >= timing.m_u8ForcedResponsePendingCount,
        pending_count(timing) > 0 ==> {
            ||| timing.m_bForceResponsePending && pending_count(timing)
                == timing.m_u8ForcedResponsePendingCount
            ||| timing.m_u32P2StarServerMaxMs > 0 && timing.m_u32P2ServerMaxMs + (pending_count(
                timing,
            ) - 1) * timing.m_u32P2StarServerMaxMs < timing.m_u32ResponseDelayMs
        },
{
    let b = timing.m_u32P2StarServerMaxMs as int;
    let n = required_pendings(timing);
    let c = pending_count(timing);
    if b > 0 {
        law_required_pendings_is_least(timing);
        assert(n >= 0) by {
            if timing.m_u32ResponseDelayMs > timing.m_u32P2ServerMaxMs {
                let a = timing.m_u32ResponseDelayMs - timing.m_u32P2ServerMaxMs;
                assert((a + b - 1) / b >= 0) by (nonlinear_arith)
                    requires
                        a > 0,
                        b > 0,
                ;
            }
        }
        if c >= n {
            assert(c * b >= n * b) by (nonlinear_arith)
                requires
                    c >= n,
                    b > 0,
            ;
        }
        if c <= n {
            assert((c - 1) * b <= (n - 1) * b) by (nonlinear_arith)
                requires
                    c <= n,
                    b > 0,
            ;
        }
    }
}

/// Turning forcing on, or forcing more, never takes a ResponsePending away.
pub proof fn law_forcing_never_lowers_the_count(timing: EcuTiming, forced: u8)
    requires
        timing.m_bForceResponsePending ==> timing.m_u8ForcedResponsePendingCount <= forced,
    ensures
        pending_count(timing) <= pending_count(
            EcuTiming {
                m_bForceResponsePending: true,
                m_u8ForcedResponsePendingCount: forced,
                ..timing
            },
        ),
{
}

/// ResponsePending is not used at all for a service the ECU does not support, nor where P4 equals
/// P2; anywhere else the count is the one the delay and forcing ask for.
pub proof fn law_pending_is_gated(timing: EcuTiming)
    ensures
        allowed_pending_count(timing, false) == 0,
        timing.m_u32P4ServerMaxMs == timing.m_u32P2ServerMaxMs ==> allowed_pending_count(
            timing,
            true,
        ) == 0,
        timing.m_u32P4ServerMaxMs != timing.m_u32P2ServerMaxMs ==> allowed_pending_count(
            timing,
            true,
        ) == pending_count(timing),
{
}

/// What a plan puts on the wire: the asked-for number of ResponsePending messages, each naming the
/// requested service, and behind them the response itself, unless there is none or it is withheld.
pub proof fn law_a_plan_ends_with_the_response(
    plan: ResponsePlan,
    timing: EcuTiming,
    sid: u8,
    response: Seq<u8>,
    count: int,
)
    requires
        0 <= count <= 255,
        step_views(plan.m_vecSteps@) == planned_steps(timing, sid, response, count),
    ensures
        ({
            let steps = plan.m_vecSteps@;
            let answered = response.len() > 0 && !timing.m_bDropFinalResponse;
            &&& steps.len() == if answered {
                count + 1
            } else {
                count
            }
            &&& forall|i: int|
                0 <= i < count ==> (#[trigger] steps[i]).m_bIsResponsePending
                    && steps[i].m_vecBytes@ == seq![0x7Fu8, sid, 0x78u8]
            &&& answered ==> !steps.last().m_bIsResponsePending && steps.last().m_vecBytes@
                == response && steps.last().m_u32AtMs >= timing.m_u32ResponseDelayMs
            &&& answered && (count == 0 || timing.m_u32ResponseDelayMs >= 10 * (count + 1))
                ==> steps.last().m_u32AtMs == timing.m_u32ResponseDelayMs
            &&& answered && count > 0 && timing.m_u32ResponseDelayMs < 10 * (count + 1)
                ==> steps.last().m_u32AtMs == 10 * (count + 1)
            &&& forall|i: int, j: int|
                0 <= i < j < steps.len() ==> (#[trigger] steps[i]).m_u32AtMs < (
                #[trigger] steps[j]).m_u32AtMs
            &&& count > 0 ==> steps[0].m_u32AtMs <= timing.m_u32P2ServerMaxMs
        }),
{
    let steps = plan.m_vecSteps@;
    let planned = planned_steps(timing, sid, response, count);
    assert(step_views(steps).len() == steps.len());
    assert forall|i: int| 0 <= i < steps.len() implies (#[trigger] steps[i])@ == planned[i] by {
        assert(step_views(steps)[i] == steps[i]@);
    }
    assert forall|i: int, j: int| 0 <= i < j < steps.len() implies (
    #[trigger] steps[i]).m_u32AtMs < (#[trigger] steps[j]).m_u32AtMs by {
        crate::ecu::schedule::law_steps_are_strictly_ascending(timing, sid, response, count, i, j);
        assert(steps[i]@ == planned[i] && steps[j]@ == planned[j]);
    }
    if count > 0 {
        crate::ecu::schedule::law_first_pending_meets_p2(timing, count);
        assert(steps[0]@ == planned[0]);
    }
    if response.len() > 0 && !timing.m_bDropFinalResponse {
        assert(steps[count]@ == planned[count]);
    }
}

/// The ResponsePending messages are spread evenly over the wait: all gaps between them are equal,
/// the gap before the final response is at least as long, and it is longer by less than one
/// millisecond for each of them. The first goes out at P2, or sooner where the wait is so short
/// that an even share of it comes before P2.
pub proof fn law_pendings_are_spread_evenly(timing: EcuTiming, count: int)
    requires
        1 <= count <= 255,
    ensures
        ({
            let at = pending_offsets(timing, count);
            let end = final_instant(timing, count);
            let gap = if count == 1 {
                end - at[0]
            } else {
                at[1] - at[0]
            };
            &&& at.len() == count
            &&& forall|i: int| 0 <= i < count ==> #[trigger] at[i] == at[0] + i * gap
            &&& gap >= 10
            &&& gap <= end - at[count - 1] < gap + count
            &&& at[0] * (count + 1) <= end
            &&& at[0] == timing.m_u32P2ServerMaxMs || end < (at[0] + 1) * (count + 1)
        }),
{
    let at = pending_offsets(timing, count);
    let end = final_instant(timing, count);
    let s = crate::ecu::schedule::pending_step(timing, count);
    let first = crate::ecu::schedule::first_pending(timing, count);
    let q = end / (count + 1);
    assert(end >= 10 * (count + 1));
    assert(q * (count + 1) <= end < (q + 1) * (count + 1) && q >= 10) by (nonlinear_arith)
        requires
            q == end / (count + 1),
            end >= 10 * (count + 1),
            count >= 1,
    ;
    assert(first * (count + 1) <= q * (count + 1)) by (nonlinear_arith)
        requires
            first <= q,
            count >= 1,
    ;
    assert(end - first >= 10 * count) by (nonlinear_arith)
        requires
            first <= q,
            q * (count + 1) <= end,
            q >= 10,
            count >= 1,
    ;
    assert(s >= 10 && count * s <= end - first < count * s + count) by (nonlinear_arith)
        requires
            s == (end - first) / count,
            end - first >= 10 * count,
            count >= 1,
    ;
    assert(0 * s == 0 && 1 * s == s);
    assert(at[0] == first);
    assert(at[count - 1] == first + (count - 1) * s);
    assert((count - 1) * s == count * s - s) by (nonlinear_arith);
    if count == 1 {
        assert(s == end - first) by (nonlinear_arith)
            requires
                s == (end - first) / count,
                count == 1,
        ;
    } else {
        assert(at[1] == first + 1 * s);
    }
}

proof fn lemma_no_short_gap(instants: Seq<int>, floor: int)
    ensures
        first_short_gap(instants, floor) is None <==> forall|i: int|
            0 <= i < instants.len() - 1 ==> #[trigger] instants[i + 1] - instants[i] >= floor,
    decreases instants.len(),
{
    if instants.len() >= 2 {
        let head = instants.drop_last();
        lemma_no_short_gap(head, floor);
        let last = instants.len() - 2;
        if first_short_gap(instants, floor) is None {
            assert forall|i: int| 0 <= i < instants.len() - 1 implies #[trigger] instants[i + 1]
                - instants[i] >= floor by {
                if i < last {
                    assert(head[i + 1] - head[i] >= floor);
                }
            }
        }
        if forall|i: int|
            0 <= i < instants.len() - 1 ==> #[trigger] instants[i + 1] - instants[i] >= floor {
            assert forall|i: int| 0 <= i < head.len() - 1 implies #[trigger] head[i + 1] - head[i]
                >= floor by {
                assert(instants[i + 1] - instants[i] >= floor);
            }
            assert(instants[last + 1] - instants[last] >= floor);
        }
    }
}

proof fn lemma_no_long_gap(instants: Seq<int>, ceiling: int)
    ensures
        first_long_gap(instants, ceiling) is None <==> forall|i: int|
            0 <= i < instants.len() - 1 ==> #[trigger] instants[i + 1] - instants[i] <= ceiling,
    decreases instants.len(),
{
    if instants.len() >= 2 {
        let head = instants.drop_last();
        lemma_no_long_gap(head, ceiling);
        let last = instants.len() - 2;
        if first_long_gap(instants, ceiling) is None {
            assert forall|i: int| 0 <= i < instants.len() - 1 implies #[trigger] instants[i + 1]
                - instants[i] <= ceiling by {
                if i < last {
                    assert(head[i + 1] - head[i] <= ceiling);
                }
            }
        }
        if forall|i: int|
            0 <= i < instants.len() - 1 ==> #[trigger] instants[i + 1] - instants[i] <= ceiling {
            assert forall|i: int| 0 <= i < head.len() - 1 implies #[trigger] head[i + 1] - head[i]
                <= ceiling by {
                assert(instants[i + 1] - instants[i] <= ceiling);
            }
            assert(instants[last + 1] - instants[last] <= ceiling);
        }
    }
}

/// A schedule is conformant exactly when it breaks no timing rule: the final response is sent, and
/// by P4; without ResponsePending it starts by P2; with it the first one starts by P2, no gap
/// exceeds P2*, the one before the final response included, and no two of them are closer than
/// three tenths of P2*.
pub proof fn law_conformant_means_no_rule_is_broken(
    timing: EcuTiming,
    offsets: Seq<int>,
    final_at: int,
    dropped: bool,
)
    ensures
        conformance_warnings(timing, offsets, final_at, dropped).len() == 0 <==> {
            &&& !dropped
            &&& final_at <= timing.m_u32P4ServerMaxMs
            &&& offsets.len() == 0 ==> final_at <= timing.m_u32P2ServerMaxMs
            &&& offsets.len() > 0 ==> {
                &&& offsets[0] <= timing.m_u32P2ServerMaxMs
                &&& final_at - offsets.last() <= timing.m_u32P2StarServerMaxMs
                &&& forall|i: int|
                    0 <= i < offsets.len() - 1 ==> {
                        &&& #[trigger] offsets[i + 1] - offsets[i] <= timing.m_u32P2StarServerMaxMs
                        &&& offsets[i + 1] - offsets[i] >= timing.m_u32P2StarServerMaxMs * 3 / 10
                    }
            }
        },
{
    let floor = timing.m_u32P2StarServerMaxMs * 3 / 10;
    let ceiling = timing.m_u32P2StarServerMaxMs as int;
    let all = offsets.push(final_at);
    lemma_no_short_gap(offsets, floor);
    lemma_no_long_gap(all, ceiling);
    if offsets.len() > 0 {
        let last = offsets.len() - 1;
        if first_long_gap(all, ceiling) is None {
            assert(all[last + 1] - all[last] <= ceiling);
            assert forall|i: int| 0 <= i < offsets.len() - 1 implies #[trigger] offsets[i + 1]
                - offsets[i] <= ceiling by {
                assert(all[i + 1] - all[i] <= ceiling);
            }
        }
        if final_at - offsets.last() <= ceiling && (forall|i: int|
            0 <= i < offsets.len() - 1 ==> #[trigger] offsets[i + 1] - offsets[i] <= ceiling) {
            assert forall|i: int| 0 <= i < all.len() - 1 implies #[trigger] all[i + 1] - all[i]
                <= ceiling by {
                if i < last {
                    assert(offsets[i + 1] - offsets[i] <= ceiling);
                }
            }
        }
    }
}

/// The final response of a plan is its first message that is not a ResponsePending.
pub proof fn law_the_final_step_is_the_first_answer(plan: ResponsePlan)
    ensures
        match final_step(plan.m_vecSteps@) {
            Some(i) => 0 <= i < plan.m_vecSteps@.len() && !plan.m_vecSteps@[i].m_bIsResponsePending
                && forall|j: int| 0 <= j < i ==> (#[trigger] plan.m_vecSteps@[j]).m_bIsResponsePending,
            None => forall|j: int|
                0 <= j < plan.m_vecSteps@.len() ==> (
                #[trigger] plan.m_vecSteps@[j]).m_bIsResponsePending,
        },
{
    lemma_final_step_is_first(plan.m_vecSteps@);
}

proof fn lemma_final_step_is_first(steps: Seq<crate::ecu::schedule::ScheduledResponse>)
    ensures
        match final_step(steps) {
            Some(i) => 0 <= i < steps.len() && !steps[i].m_bIsResponsePending && forall|j: int|
                0 <= j < i ==> (#[trigger] steps[j]).m_bIsResponsePending,
            None => forall|j: int|
                0 <= j < steps.len() ==> (#[trigger] steps[j]).m_bIsResponsePending,
        },
    decreases steps.len(),
{
    if steps.len() > 0 {
        let head = steps.drop_last();
        lemma_final_step_is_first(head);
        assert forall|j: int| 0 <= j < head.len() implies head[j] == #[trigger] steps[j] by {}
    }
}

} // verus!
