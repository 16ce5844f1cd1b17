//! Response scheduling: turning one request into the sequence of messages the ECU puts on the
//! wire, and when.
//!
//! When a server needs longer than P2Server_max it must first send NRC 0x78 ResponsePending, may
//! repeat that, and must eventually send a final response. A plan is a list of byte strings with
//! millisecond offsets from the moment the request was completely received, so every timing
//! decision is plain arithmetic and only the transport that executes a plan ever sleeps.

use vstd::prelude::*;

use crate::bytes::max_int;
use crate::bytes::min_int;
use crate::bytes::CopyAll;
use crate::core_domain::overrides::c_byNegativeResponseSid;
use crate::core_domain::overrides::c_byNrcResponsePending;
use crate::core_domain::timing::EcuTiming;
use crate::text::decimal;
use crate::text::TextWithNumbers;

verus! {

/// Consecutive ResponsePending messages must be at least 0.3 x P2*Server_max apart, so a slow
/// server does not flood the link.
pub const c_u32AntiFloodNumerator: u32 = 3;

/// See [`c_u32AntiFloodNumerator`].
pub const c_u32AntiFloodDenominator: u32 = 10;

/// Smallest spacing used when ResponsePending messages are forced with (nearly) no delay.
pub const c_u32MinPendingStepMs: u32 = 10;

/// One message the ECU puts on the wire, and when.
#[derive(Debug, Clone, PartialEq, Eq)]
pub struct ScheduledResponse {
    /// Offset in milliseconds from the completion of request reception.
    pub m_u32AtMs: u32,
    /// The UDS bytes to transmit.
    pub m_vecBytes: Vec<u8>,
    /// True for `7F <sid> 78`; false for the final response.
    pub m_bIsResponsePending: bool,
}

/// The complete answer to one request, spread over time.
#[derive(Debug, Clone, PartialEq, Eq, Default)]
pub struct ResponsePlan {
    /// Ascending by offset. Empty when nothing goes on the wire at all.
    pub m_vecSteps: Vec<ScheduledResponse>,
    /// True when fault injection withheld the final response.
    pub m_bIsFinalResponseDropped: bool,
    /// False when the schedule knowingly breaks a timing rule.
    pub m_bIsIsoConformant: bool,
    /// One line per broken rule, with the numbers.
    pub m_vecConformanceWarnings: Vec<String>,
    /// How many ResponsePending messages this plan contains.
    pub m_u8ResponsePendingCount: u8,
    /// True when a user-defined override produced the answer rather than the protocol.
    pub m_bIsOverridden: bool,
}

/// A scheduled message as a mathematical value.
pub ghost struct StepView {
    pub at: int,
    pub bytes: Seq<u8>,
    pub pending: bool,
}

impl View for ScheduledResponse {
    type V = StepView;

    open spec fn view(&self) -> StepView {
        StepView {
            at: self.m_u32AtMs as int,
            bytes: self.m_vecBytes@,
            pending: self.m_bIsResponsePending,
        }
    }
}

/// The values of a list of scheduled messages.
pub open spec fn step_views(steps: Seq<ScheduledResponse>) -> Seq<StepView> {
    Seq::new(steps.len(), |i: int| steps[i]@)
}

/// The texts of a list of warnings.
pub open spec fn warning_texts(warnings: Seq<String>) -> Seq<Seq<char>> {
    Seq::new(warnings.len(), |i: int| warnings[i]@)
}

/// The position of the final response among the steps.
pub open spec fn final_step(steps: Seq<ScheduledResponse>) -> Option<int>
    decreases steps.len(),
{
    if steps.len() == 0 {
        None
    } else {
        match final_step(steps.drop_last()) {
            Some(i) => Some(i),
            None => if !steps.last().m_bIsResponsePending {
                Some(steps.len() - 1)
            } else {
                None
            },
        }
    }
}

proof fn lemma_final_step(steps: Seq<ScheduledResponse>, i: int)
    requires
        0 <= i <= steps.len(),
        forall|j: int| 0 <= j < i ==> (#[trigger] steps[j]).m_bIsResponsePending,
        i < steps.len() ==> !steps[i].m_bIsResponsePending,
    ensures
        final_step(steps) == (if i < steps.len() {
            Some(i)
        } else {
            None
        }),
    decreases steps.len(),
{
    if steps.len() > 0 {
        let head = steps.drop_last();
        if i < steps.len() {
            if i < head.len() {
                lemma_final_step(head, i);
            } else {
                lemma_final_step(head, i);
            }
        } else {
            lemma_final_step(head, i - 1);
        }
    }
}

impl ResponsePlan {
    /// The position of the final response: the first step that is not a ResponsePending.
    fn FinalStep(&self) -> (optIndex: Option<usize>)
        ensures
            match optIndex {
                Some(i) => i < self.m_vecSteps@.len() && final_step(self.m_vecSteps@) == Some(
                    i as int,
                ),
                None => final_step(self.m_vecSteps@) is None,
            },
    {
        let mut uIndex: usize = 0;
        while uIndex < self.m_vecSteps.len()
            invariant
                uIndex <= self.m_vecSteps@.len(),
                forall|j: int|
                    0 <= j < uIndex ==> (#[trigger] self.m_vecSteps@[j]).m_bIsResponsePending,
            decreases self.m_vecSteps@.len() - uIndex,
        {
            if !self.m_vecSteps[uIndex].m_bIsResponsePending {
                proof {
                    lemma_final_step(self.m_vecSteps@, uIndex as int);
                }
                return Some(uIndex);
            }
            uIndex = uIndex + 1;
        }
        proof {
            lemma_final_step(self.m_vecSteps@, uIndex as int);
        }
        None
    }

    /// The offset of the final response, or `None` when none is sent.
    pub fn FinalAtMs(&self) -> (optU32AtMs: Option<u32>)
        ensures
            optU32AtMs == (match final_step(self.m_vecSteps@) {
                Some(i) => Some(self.m_vecSteps@[i].m_u32AtMs),
                None => None,
            }),
    {
        match self.FinalStep() {
            Some(uIndex) => Some(self.m_vecSteps[uIndex].m_u32AtMs),
            None => None,
        }
    }

    /// The final response bytes, or an empty slice when none is sent.
    pub fn FinalResponse(&self) -> (vecResponse: &[u8])
        ensures
            vecResponse@ == (match final_step(self.m_vecSteps@) {
                Some(i) => self.m_vecSteps@[i].m_vecBytes@,
                None => Seq::<u8>::empty(),
            }),
    {
        match self.FinalStep() {
            Some(uIndex) => self.m_vecSteps[uIndex].m_vecBytes.as_slice(),
            None => {
                let arrNothing: &[u8] = &[];
                assert(arrNothing@ =~= Seq::<u8>::empty());
                arrNothing
            },
        }
    }
}

/// How many whole budgets of size `b` it takes to cover `a`.
pub open spec fn budgets(a: int, b: int) -> int {
    (a + b - 1) / b
}

/// How many ResponsePending messages the delay requires: none inside P2Server_max, otherwise as
/// many P2*Server_max budgets as cover the overrun. Without any enhanced budget no number would
/// help, and none are required.
pub open spec fn required_pendings(timing: EcuTiming) -> int {
    if timing.m_u32ResponseDelayMs <= timing.m_u32P2ServerMaxMs || timing.m_u32P2StarServerMaxMs
        == 0 {
        0
    } else {
        budgets(
            timing.m_u32ResponseDelayMs - timing.m_u32P2ServerMaxMs,
            timing.m_u32P2StarServerMaxMs as int,
        )
    }
}

/// How many ResponsePending messages a request gets: the larger of what the delay requires and
/// what is forced, at most 255.
pub open spec fn pending_count(timing: EcuTiming) -> int {
    min_int(
        max_int(
            required_pendings(timing),
            if timing.m_bForceResponsePending {
                timing.m_u8ForcedResponsePendingCount as int
            } else {
                0
            },
        ),
        255,
    )
}

/// How many ResponsePending messages this request needs.
///
/// Two reasons to send them, and the larger wins: the configured delay pushes the answer past
/// P2Server_max, or the operator forced them. The caller is responsible for the cases where NRC
/// 0x78 is not allowed at all.
pub fn ResolveResponsePendingCount(timing: &EcuTiming) -> (u8Count: u8)
    ensures
        u8Count == pending_count(*timing),
{
    let u32Required: u32 = RequiredResponsePendingCount(timing);
    let u32Forced: u32 = if timing.m_bForceResponsePending {
        timing.m_u8ForcedResponsePendingCount as u32
    } else {
        0
    };
    let u32Count: u32 = if u32Required > u32Forced {
        u32Required
    } else {
        u32Forced
    };
    if u32Count > 255 {
        255
    } else {
        u32Count as u8
    }
}

/// How many ResponsePending messages a request is answered with: none where NRC 0x78 is not allowed
/// at all, which is for a service the ECU does not support and where P4 equals P2; otherwise as
/// many as the request needs.
pub open spec fn allowed_pending_count(timing: EcuTiming, is_supported: bool) -> int {
    if !is_supported || timing.m_u32P4ServerMaxMs == timing.m_u32P2ServerMaxMs {
        0
    } else {
        pending_count(timing)
    }
}

/// How many ResponsePending messages a request is answered with.
pub fn AllowedResponsePendingCount(timing: &EcuTiming, bIsServiceSupported: bool) -> (u8Count: u8)
    ensures
        u8Count == allowed_pending_count(*timing, bIsServiceSupported),
{
    if !bIsServiceSupported || timing.m_u32P4ServerMaxMs == timing.m_u32P2ServerMaxMs {
        return 0;
    }
    ResolveResponsePendingCount(timing)
}

/// The smallest number of ResponsePending messages that covers the delay: the first response
/// must start within P2, and each later one within P2* of the previous.
fn RequiredResponsePendingCount(timing: &EcuTiming) -> (u32Count: u32)
    ensures
        u32Count == required_pendings(*timing),
{
    if timing.m_u32ResponseDelayMs <= timing.m_u32P2ServerMaxMs {
        return 0;
    }
    if timing.m_u32P2StarServerMaxMs == 0 {
        // No enhanced budget exists, so no number of pending messages would make the delay
        // conformant. Say zero and let the conformance check report the P2 violation.
        return 0;
    }
    let u32Overrun: u32 = timing.m_u32ResponseDelayMs - timing.m_u32P2ServerMaxMs;
    let u32Budget: u32 = timing.m_u32P2StarServerMaxMs;
    let u32Whole: u32 = u32Overrun / u32Budget;
    proof {
        lemma_budgets(u32Overrun as int, u32Budget as int);
    }
    if u32Overrun % u32Budget == 0 {
        u32Whole
    } else {
        u32Whole + 1
    }
}

proof fn lemma_budgets(a: int, b: int)
    requires
        0 < a <= u32::MAX,
        0 < b,
    ensures
        budgets(a, b) == a / b + (if a % b == 0 {
            0int
        } else {
            1int
        }),
        a / b <= a,
        a % b != 0 ==> a / b < a,
{
    let q = a / b;
    let r = a % b;
    assert(a == b * q + r && 0 <= r < b && 0 <= q) by (nonlinear_arith)
        requires
            q == a / b,
            r == a % b,
            0 < b,
            0 < a,
    ;
    if r == 0 {
        assert((a + b - 1) / b == q) by (nonlinear_arith)
            requires
                a == b * q,
                0 < b,
        ;
    } else {
        assert((a + b - 1) / b == q + 1) by (nonlinear_arith)
            requires
                a == b * q + r,
                0 < r < b,
        ;
    }
    assert(q <= a && (r != 0 ==> q < a)) by (nonlinear_arith)
        requires
            a == b * q + r,
            0 <= r < b,
            0 <= q,
            0 < b,
    ;
}

/// The required number of ResponsePending messages is the least that covers the delay: together
/// with P2Server_max its budgets reach the final response, and one fewer would not.
pub proof fn law_required_pendings_is_least(timing: EcuTiming)
    requires
        timing.m_u32P2StarServerMaxMs > 0,
    ensures
        timing.m_u32P2ServerMaxMs + required_pendings(timing) * timing.m_u32P2StarServerMaxMs
            >= timing.m_u32ResponseDelayMs,
        required_pendings(timing) > 0 ==> timing.m_u32P2ServerMaxMs + (required_pendings(timing)
            - 1) * timing.m_u32P2StarServerMaxMs < timing.m_u32ResponseDelayMs,
{
    if timing.m_u32ResponseDelayMs > timing.m_u32P2ServerMaxMs {
        let a = timing.m_u32ResponseDelayMs - timing.m_u32P2ServerMaxMs;
        let b = timing.m_u32P2StarServerMaxMs as int;
        let n = required_pendings(timing);
        assert(n * b >= a && (n - 1) * b < a) by (nonlinear_arith)
            requires
                n == (a + b - 1) / b,
                0 < b,
                0 < a,
        ;
    }
}

/// When the final response starts: after the configured delay, and late enough that forced
/// ResponsePending messages fit in before it.
pub open spec fn final_instant(timing: EcuTiming, count: int) -> int {
    if count == 0 {
        timing.m_u32ResponseDelayMs as int
    } else {
        max_int(timing.m_u32ResponseDelayMs as int, (count + 1) * 10)
    }
}

/// When the first ResponsePending starts: no later than P2Server_max.
pub open spec fn first_pending(timing: EcuTiming, count: int) -> int {
    min_int(timing.m_u32P2ServerMaxMs as int, final_instant(timing, count) / (count + 1))
}

/// The spacing of the ResponsePending messages.
pub open spec fn pending_step(timing: EcuTiming, count: int) -> int {
    (final_instant(timing, count) - first_pending(timing, count)) / count
}

/// Where the ResponsePending messages fall: evenly spread from the first one to the final
/// response.
pub open spec fn pending_offsets(timing: EcuTiming, count: int) -> Seq<int> {
    Seq::new(
        count as nat,
        |i: int| first_pending(timing, count) + i * pending_step(timing, count),
    )
}

/// The ResponsePending message for a service.
pub open spec fn response_pending(sid: u8) -> Seq<u8> {
    seq![0x7Fu8, sid, 0x78u8]
}

/// The messages of a plan: the ResponsePending messages, then the final response unless there is
/// nothing to send or it is being withheld.
pub open spec fn planned_steps(
    timing: EcuTiming,
    sid: u8,
    response: Seq<u8>,
    count: int,
) -> Seq<StepView> {
    let offsets = pending_offsets(timing, count);
    let pending = Seq::new(
        offsets.len(),
        |i: int| StepView { at: offsets[i], bytes: response_pending(sid), pending: true },
    );
    if response.len() > 0 && !timing.m_bDropFinalResponse {
        pending.push(
            StepView { at: final_instant(timing, count), bytes: response, pending: false },
        )
    } else {
        pending
    }
}

/// The first gap between consecutive instants that is below a floor.
pub open spec fn first_short_gap(instants: Seq<int>, floor: int) -> Option<int>
    decreases instants.len(),
{
    if instants.len() < 2 {
        None
    } else {
        match first_short_gap(instants.drop_last(), floor) {
            Some(gap) => Some(gap),
            None => {
                let gap = instants.last() - instants[instants.len() - 2];
                if gap < floor {
                    Some(gap)
                } else {
                    None
                }
            },
        }
    }
}

/// The first gap between consecutive instants that is above a ceiling.
pub open spec fn first_long_gap(instants: Seq<int>, ceiling: int) -> Option<int>
    decreases instants.len(),
{
    if instants.len() < 2 {
        None
    } else {
        match first_long_gap(instants.drop_last(), ceiling) {
            Some(gap) => Some(gap),
            None => {
                let gap = instants.last() - instants[instants.len() - 2];
                if gap > ceiling {
                    Some(gap)
                } else {
                    None
                }
            },
        }
    }
}

/// The warning texts that an optional breach adds.
pub open spec fn warning_if(breached: bool, text: Seq<char>) -> Seq<Seq<char>> {
    if breached {
        seq![text]
    } else {
        seq![]
    }
}

/// The anti-flood floor: 0.3 x P2*Server_max.
pub open spec fn anti_flood_floor(timing: EcuTiming) -> int {
    timing.m_u32P2StarServerMaxMs * 3 / 10
}

/// The breaches of a ResponsePending sequence: messages too close together, a gap beyond
/// P2*Server_max (the one before the final response counts), and a late first message.
pub open spec fn gap_warnings(timing: EcuTiming, offsets: Seq<int>, final_at: int) -> Seq<
    Seq<char>,
> {
    let floor = anti_flood_floor(timing);
    let short = first_short_gap(offsets, floor);
    let long = first_long_gap(offsets.push(final_at), timing.m_u32P2StarServerMaxMs as int);
    warning_if(
        short is Some,
        "consecutive ResponsePending messages are "@ + decimal(short->0 as nat)
            + " ms apart; ISO 14229-2 Table 4 requires at least 0.3 x P2*Server_max, which is "@
            + decimal(floor as nat) + " ms"@,
    ) + warning_if(
        long is Some,
        "a gap of "@ + decimal(long->0 as nat) + " ms exceeds P2*Server_max of "@ + decimal(
            timing.m_u32P2StarServerMaxMs as nat,
        ) + " ms"@,
    ) + warning_if(
        offsets[0] > timing.m_u32P2ServerMaxMs,
        "the first ResponsePending starts at "@ + decimal(offsets[0] as nat)
            + " ms, exceeding P2Server_max of "@ + decimal(timing.m_u32P2ServerMaxMs as nat)
            + " ms"@,
    )
}

/// Every breach of the timing rules, in the order they are checked.
pub open spec fn conformance_warnings(
    timing: EcuTiming,
    offsets: Seq<int>,
    final_at: int,
    dropped: bool,
) -> Seq<Seq<char>> {
    warning_if(
        dropped,
        "no final response is sent; ISO 14229-1 Annex A.1 requires one after a ResponsePending, and P4Server_max would be missed in any case"@,
    ) + (if offsets.len() == 0 {
        warning_if(
            final_at > timing.m_u32P2ServerMaxMs,
            "the response starts at "@ + decimal(final_at as nat)
                + " ms with no ResponsePending, exceeding P2Server_max of "@ + decimal(
                timing.m_u32P2ServerMaxMs as nat,
            ) + " ms"@,
        )
    } else {
        gap_warnings(timing, offsets, final_at)
    }) + warning_if(
        !dropped && final_at > timing.m_u32P4ServerMaxMs,
        "the final response starts at "@ + decimal(final_at as nat)
            + " ms, exceeding P4Server_max of "@ + decimal(timing.m_u32P4ServerMaxMs as nat)
            + " ms"@,
    )
}

proof fn lemma_pending_bounds(timing: EcuTiming, count: int)
    requires
        1 <= count <= 255,
    ensures
        10 * (count + 1) <= final_instant(timing, count),
        0 <= first_pending(timing, count) <= final_instant(timing, count),
        10 <= pending_step(timing, count),
        first_pending(timing, count) + count * pending_step(timing, count) <= final_instant(
            timing,
            count,
        ),
        final_instant(timing, count) <= u32::MAX,
{
    let f = final_instant(timing, count);
    let p = first_pending(timing, count);
    let s = pending_step(timing, count);
    let q = f / (count + 1);
    assert(0 <= q && q * (count + 1) <= f && 10 <= q && q <= f) by (nonlinear_arith)
        requires
            q == f / (count + 1),
            f >= (count + 1) * 10,
            1 <= count,
    ;
    assert(f - p >= 10 * count) by (nonlinear_arith)
        requires
            p <= q,
            q * (count + 1) <= f,
            10 <= q,
            1 <= count,
    ;
    assert(10 <= s && count * s <= f - p) by (nonlinear_arith)
        requires
            s == (f - p) / count,
            f - p >= 10 * count,
            1 <= count,
    ;
}

proof fn lemma_plan_ascends(timing: EcuTiming, count: int)
    requires
        0 <= count <= 255,
    ensures
        is_ascending(pending_offsets(timing, count).push(final_instant(timing, count))),
{
    let all = pending_offsets(timing, count).push(final_instant(timing, count));
    if count > 0 {
        lemma_pending_bounds(timing, count);
        let s = pending_step(timing, count);
        assert forall|i: int, j: int| 0 <= i <= j < all.len() implies all[i] <= all[j] by {
            if j < count {
                assert(i * s <= j * s) by (nonlinear_arith)
                    requires
                        i <= j,
                        10 <= s,
                ;
            } else if i < count {
                assert(i * s <= count * s) by (nonlinear_arith)
                    requires
                        i <= count,
                        10 <= s,
                ;
            }
        }
    }
}

/// A plan's messages go out one after the other: every offset is strictly later than the one
/// before it.
pub proof fn law_steps_are_strictly_ascending(
    timing: EcuTiming,
    sid: u8,
    response: Seq<u8>,
    count: int,
    i: int,
    j: int,
)
    requires
        0 <= count <= 255,
        0 <= i < j < planned_steps(timing, sid, response, count).len(),
    ensures
        planned_steps(timing, sid, response, count)[i].at < planned_steps(
            timing,
            sid,
            response,
            count,
        )[j].at,
{
    lemma_pending_bounds(timing, count);
    let s = pending_step(timing, count);
    if j < count {
        assert(i * s < j * s) by (nonlinear_arith)
            requires
                i < j,
                10 <= s,
        ;
    } else {
        assert(i * s < count * s) by (nonlinear_arith)
            requires
                i < count,
                10 <= s,
        ;
    }
}

/// The first ResponsePending is never later than P2Server_max: that is the deadline it exists to
/// meet.
pub proof fn law_first_pending_meets_p2(timing: EcuTiming, count: int)
    requires
        1 <= count <= 255,
    ensures
        pending_offsets(timing, count)[0] <= timing.m_u32P2ServerMaxMs,
{
    assert(0 * pending_step(timing, count) == 0);
}

/// Build the plan for one request.
///
/// `vecFinalResponse` is what the protocol handler produced; empty means the ECU deliberately
/// sent nothing. `u8PendingCount` comes from [`ResolveResponsePendingCount`], already gated by
/// the caller.
pub fn BuildResponsePlan(
    timing: &EcuTiming,
    byRequestSid: u8,
    vecFinalResponse: &[u8],
    u8PendingCount: u8,
) -> (plan: ResponsePlan)
    requires
        u8PendingCount > 0 ==> timing.m_u32P2StarServerMaxMs * 3 <= u32::MAX,
    ensures
        step_views(plan.m_vecSteps@) == planned_steps(
            *timing,
            byRequestSid,
            vecFinalResponse@,
            u8PendingCount as int,
        ),
        plan.m_bIsFinalResponseDropped == (timing.m_bDropFinalResponse && vecFinalResponse@.len()
            > 0),
        warning_texts(plan.m_vecConformanceWarnings@) == conformance_warnings(
            *timing,
            pending_offsets(*timing, u8PendingCount as int),
            final_instant(*timing, u8PendingCount as int),
            timing.m_bDropFinalResponse && vecFinalResponse@.len() > 0,
        ),
        plan.m_bIsIsoConformant == (plan.m_vecConformanceWarnings@.len() == 0),
        plan.m_u8ResponsePendingCount == u8PendingCount,
        !plan.m_bIsOverridden,
{
    let u32FinalAtMs: u32 = FinalInstantMs(timing, u8PendingCount);
    let vecPendingOffsets = PendingOffsetsMs(timing, u8PendingCount, u32FinalAtMs);
    let ghost count = u8PendingCount as int;
    let ghost offsets = pending_offsets(*timing, count);
    let mut vecSteps: Vec<ScheduledResponse> = Vec::new();
    let mut uIndex: usize = 0;
    while uIndex < vecPendingOffsets.len()
        invariant
            uIndex <= vecPendingOffsets@.len(),
            instants(vecPendingOffsets@) == offsets,
            step_views(vecSteps@) == Seq::new(
                uIndex as nat,
                |i: int|
                    StepView {
                        at: offsets[i],
                        bytes: response_pending(byRequestSid),
                        pending: true,
                    },
            ),
        decreases vecPendingOffsets@.len() - uIndex,
    {
        let mut vecBytes: Vec<u8> = Vec::new();
        vecBytes.push(c_byNegativeResponseSid);
        vecBytes.push(byRequestSid);
        vecBytes.push(c_byNrcResponsePending);
        assert(vecBytes@ =~= response_pending(byRequestSid));
        assert(instants(vecPendingOffsets@)[uIndex as int] == vecPendingOffsets@[uIndex as int]);
        let ghost before = step_views(vecSteps@);
        vecSteps.push(
            ScheduledResponse {
                m_u32AtMs: vecPendingOffsets[uIndex],
                m_vecBytes: vecBytes,
                m_bIsResponsePending: true,
            },
        );
        assert(step_views(vecSteps@) =~= before.push(vecSteps@.last()@));
        uIndex = uIndex + 1;
        assert(step_views(vecSteps@) =~= Seq::new(
            uIndex as nat,
            |i: int|
                StepView { at: offsets[i], bytes: response_pending(byRequestSid), pending: true },
        ));
    }
    // A suppressed response has no bytes to send, so there is no final step to schedule.
    let bHasFinalResponse = vecFinalResponse.len() > 0 && !timing.m_bDropFinalResponse;
    let ghost pending = step_views(vecSteps@);
    assert(pending.len() == offsets.len());
    if bHasFinalResponse {
        vecSteps.push(
            ScheduledResponse {
                m_u32AtMs: u32FinalAtMs,
                m_vecBytes: CopyAll(vecFinalResponse),
                m_bIsResponsePending: false,
            },
        );
        assert(step_views(vecSteps@) =~= pending.push(vecSteps@.last()@));
    }
    assert(step_views(vecSteps@) =~= planned_steps(
        *timing,
        byRequestSid,
        vecFinalResponse@,
        count,
    ));
    let bIsFinalResponseDropped = timing.m_bDropFinalResponse && vecFinalResponse.len() > 0;
    proof {
        lemma_plan_ascends(*timing, count);
    }
    let vecWarnings = CollectConformanceWarnings(
        timing,
        vecPendingOffsets.as_slice(),
        u32FinalAtMs,
        bIsFinalResponseDropped,
    );
    ResponsePlan {
        m_vecSteps: vecSteps,
        m_bIsFinalResponseDropped: bIsFinalResponseDropped,
        m_bIsIsoConformant: vecWarnings.len() == 0,
        m_vecConformanceWarnings: vecWarnings,
        m_u8ResponsePendingCount: u8PendingCount,
        m_bIsOverridden: false,
    }
}

/// Offsets as integers.
pub open spec fn instants(offsets: Seq<u32>) -> Seq<int> {
    Seq::new(offsets.len(), |i: int| offsets[i] as int)
}

/// When the final response starts.
fn FinalInstantMs(timing: &EcuTiming, u8PendingCount: u8) -> (u32AtMs: u32)
    ensures
        u32AtMs == final_instant(*timing, u8PendingCount as int),
{
    if u8PendingCount == 0 {
        return timing.m_u32ResponseDelayMs;
    }
    let u32MinimumSpan: u32 = (u8PendingCount as u32 + 1) * c_u32MinPendingStepMs;
    if timing.m_u32ResponseDelayMs > u32MinimumSpan {
        timing.m_u32ResponseDelayMs
    } else {
        u32MinimumSpan
    }
}

/// Where the ResponsePending messages fall, spread evenly between the first one and the final
/// response.
fn PendingOffsetsMs(timing: &EcuTiming, u8PendingCount: u8, u32FinalAtMs: u32) -> (vecOffsets: Vec<
    u32,
>)
    requires
        u32FinalAtMs == final_instant(*timing, u8PendingCount as int),
    ensures
        instants(vecOffsets@) == pending_offsets(*timing, u8PendingCount as int),
{
    let mut vecOffsets: Vec<u32> = Vec::new();
    if u8PendingCount == 0 {
        assert(instants(vecOffsets@) =~= pending_offsets(*timing, u8PendingCount as int));
        return vecOffsets;
    }
    let u32Count: u32 = u8PendingCount as u32;
    let ghost count = u8PendingCount as int;
    proof {
        lemma_pending_bounds(*timing, count);
    }
    let u32Even: u32 = u32FinalAtMs / (u32Count + 1);
    let u32FirstAtMs: u32 = if timing.m_u32P2ServerMaxMs < u32Even {
        timing.m_u32P2ServerMaxMs
    } else {
        u32Even
    };
    let u32StepMs: u32 = (u32FinalAtMs - u32FirstAtMs) / u32Count;
    let mut u32Index: u32 = 0;
    while u32Index < u32Count
        invariant
            u32Index <= u32Count,
            u32Count == count,
            1 <= count <= 255,
            u32FirstAtMs == first_pending(*timing, count),
            u32StepMs == pending_step(*timing, count),
            u32FinalAtMs == final_instant(*timing, count),
            instants(vecOffsets@) == pending_offsets(*timing, count).take(u32Index as int),
        decreases u32Count - u32Index,
    {
        proof {
            lemma_pending_bounds(*timing, count);
            assert(0 <= u32Index * u32StepMs <= count * u32StepMs) by (nonlinear_arith)
                requires
                    0 <= u32Index <= count,
            ;
        }
        let ghost before = instants(vecOffsets@);
        vecOffsets.push(u32FirstAtMs + u32Index * u32StepMs);
        assert(instants(vecOffsets@) =~= before.push(u32FirstAtMs + u32Index * u32StepMs));
        u32Index = u32Index + 1;
        assert(instants(vecOffsets@) =~= pending_offsets(*timing, count).take(u32Index as int));
    }
    assert(pending_offsets(*timing, count).take(count) =~= pending_offsets(*timing, count));
    vecOffsets
}

/// Adds one warning.
fn AddWarning(vecWarnings: &mut Vec<String>, strWarning: String)
    ensures
        warning_texts(final(vecWarnings)@) == warning_texts(old(vecWarnings)@) + seq![strWarning@],
{
    vecWarnings.push(strWarning);
    assert(warning_texts(vecWarnings@) =~= warning_texts(old(vecWarnings)@) + seq![strWarning@]);
}

/// Check the schedule against the timing rules, returning one message per breach.
///
/// A breach is reported, not corrected: the operator may be deliberately simulating a server
/// that floods the link or never answers.
fn CollectConformanceWarnings(
    timing: &EcuTiming,
    vecPendingOffsets: &[u32],
    u32FinalAtMs: u32,
    bIsFinalResponseDropped: bool,
) -> (vecWarnings: Vec<String>)
    requires
        vecPendingOffsets@.len() > 0 ==> timing.m_u32P2StarServerMaxMs * 3 <= u32::MAX,
        is_ascending(instants(vecPendingOffsets@).push(u32FinalAtMs as int)),
    ensures
        warning_texts(vecWarnings@) == conformance_warnings(
            *timing,
            instants(vecPendingOffsets@),
            u32FinalAtMs as int,
            bIsFinalResponseDropped,
        ),
{
    let mut vecWarnings: Vec<String> = Vec::new();
    assert(warning_texts(vecWarnings@) =~= seq![]);
    if bIsFinalResponseDropped {
        AddWarning(
            &mut vecWarnings,
            "no final response is sent; ISO 14229-1 Annex A.1 requires one after a ResponsePending, and P4Server_max would be missed in any case".to_string(),
        );
    }
    let ghost first = warning_texts(vecWarnings@);
    assert(first =~= warning_if(
        bIsFinalResponseDropped,
        "no final response is sent; ISO 14229-1 Annex A.1 requires one after a ResponsePending, and P4Server_max would be missed in any case"@,
    ));
    let ghost mut second: Seq<Seq<char>> = seq![];
    if vecPendingOffsets.len() == 0 {
        if u32FinalAtMs > timing.m_u32P2ServerMaxMs {
            AddWarning(
                &mut vecWarnings,
                TextWithNumbers(
                    "the response starts at ",
                    u32FinalAtMs as u64,
                    " ms with no ResponsePending, exceeding P2Server_max of ",
                    timing.m_u32P2ServerMaxMs as u64,
                    " ms",
                ),
            );
        }
        proof {
            second =
            warning_if(
                u32FinalAtMs > timing.m_u32P2ServerMaxMs,
                "the response starts at "@ + decimal(u32FinalAtMs as nat)
                    + " ms with no ResponsePending, exceeding P2Server_max of "@ + decimal(
                    timing.m_u32P2ServerMaxMs as nat,
                ) + " ms"@,
            );
        }
    } else {
        CheckPendingGaps(timing, vecPendingOffsets, u32FinalAtMs, &mut vecWarnings);
        proof {
            second = gap_warnings(*timing, instants(vecPendingOffsets@), u32FinalAtMs as int);
        }
    }
    assert(warning_texts(vecWarnings@) =~= first + second);
    if !bIsFinalResponseDropped && u32FinalAtMs > timing.m_u32P4ServerMaxMs {
        AddWarning(
            &mut vecWarnings,
            TextWithNumbers(
                "the final response starts at ",
                u32FinalAtMs as u64,
                " ms, exceeding P4Server_max of ",
                timing.m_u32P4ServerMaxMs as u64,
                " ms",
            ),
        );
    }
    assert(warning_texts(vecWarnings@) =~= conformance_warnings(
        *timing,
        instants(vecPendingOffsets@),
        u32FinalAtMs as int,
        bIsFinalResponseDropped,
    ));
    vecWarnings
}

/// Every instant is at or after the one before it.
pub open spec fn is_ascending(instants: Seq<int>) -> bool {
    forall|i: int, j: int| 0 <= i <= j < instants.len() ==> instants[i] <= instants[j]
}

proof fn lemma_short_gap_stays(all: Seq<int>, floor: int, k: int)
    requires
        0 <= k <= all.len(),
        first_short_gap(all.take(k), floor) is Some,
    ensures
        first_short_gap(all, floor) == first_short_gap(all.take(k), floor),
    decreases all.len(),
{
    if k == all.len() {
        assert(all.take(k) =~= all);
    } else {
        assert(all.drop_last().take(k) =~= all.take(k));
        lemma_short_gap_stays(all.drop_last(), floor, k);
    }
}

proof fn lemma_long_gap_stays(all: Seq<int>, ceiling: int, k: int)
    requires
        0 <= k <= all.len(),
        first_long_gap(all.take(k), ceiling) is Some,
    ensures
        first_long_gap(all, ceiling) == first_long_gap(all.take(k), ceiling),
    decreases all.len(),
{
    if k == all.len() {
        assert(all.take(k) =~= all);
    } else {
        assert(all.drop_last().take(k) =~= all.take(k));
        lemma_long_gap_stays(all.drop_last(), ceiling, k);
    }
}

/// The first gap below a floor.
fn FirstShortGap(vecInstants: &Vec<u32>, u32FloorMs: u32) -> (optU32GapMs: Option<u32>)
    requires
        is_ascending(instants(vecInstants@)),
    ensures
        match optU32GapMs {
            Some(gap) => first_short_gap(instants(vecInstants@), u32FloorMs as int) == Some(
                gap as int,
            ),
            None => first_short_gap(instants(vecInstants@), u32FloorMs as int) is None,
        },
{
    let ghost all = instants(vecInstants@);
    let ghost floor = u32FloorMs as int;
    let mut uIndex: usize = 1;
    while uIndex < vecInstants.len()
        invariant
            1 <= uIndex,
            uIndex <= vecInstants@.len() || uIndex == 1,
            all == instants(vecInstants@),
            floor == u32FloorMs,
            is_ascending(all),
            first_short_gap(all.take(uIndex as int), floor) is None || uIndex > all.len(),
        decreases vecInstants@.len() - uIndex,
    {
        let ghost upto = all.take(uIndex + 1);
        assert(upto.drop_last() =~= all.take(uIndex as int));
        assert(all[uIndex - 1] <= all[uIndex as int]);
        let u32GapMs: u32 = vecInstants[uIndex] - vecInstants[uIndex - 1];
        if u32GapMs < u32FloorMs {
            proof {
                lemma_short_gap_stays(all, floor, uIndex + 1);
            }
            return Some(u32GapMs);
        }
        uIndex = uIndex + 1;
    }
    proof {
        if all.len() >= 1 {
            assert(all.take(uIndex as int) =~= all);
        }
    }
    None
}

/// The first gap above a ceiling.
fn FirstLongGap(vecInstants: &Vec<u32>, u32CeilingMs: u32) -> (optU32GapMs: Option<u32>)
    requires
        is_ascending(instants(vecInstants@)),
    ensures
        match optU32GapMs {
            Some(gap) => first_long_gap(instants(vecInstants@), u32CeilingMs as int) == Some(
                gap as int,
            ),
            None => first_long_gap(instants(vecInstants@), u32CeilingMs as int) is None,
        },
{
    let ghost all = instants(vecInstants@);
    let ghost ceiling = u32CeilingMs as int;
    let mut uIndex: usize = 1;
    while uIndex < vecInstants.len()
        invariant
            1 <= uIndex,
            uIndex <= vecInstants@.len() || uIndex == 1,
            all == instants(vecInstants@),
            ceiling == u32CeilingMs,
            is_ascending(all),
            first_long_gap(all.take(uIndex as int), ceiling) is None || uIndex > all.len(),
        decreases vecInstants@.len() - uIndex,
    {
        let ghost upto = all.take(uIndex + 1);
        assert(upto.drop_last() =~= all.take(uIndex as int));
        assert(all[uIndex - 1] <= all[uIndex as int]);
        let u32GapMs: u32 = vecInstants[uIndex] - vecInstants[uIndex - 1];
        if u32GapMs > u32CeilingMs {
            proof {
                lemma_long_gap_stays(all, ceiling, uIndex + 1);
            }
            return Some(u32GapMs);
        }
        uIndex = uIndex + 1;
    }
    proof {
        if all.len() >= 1 {
            assert(all.take(uIndex as int) =~= all);
        }
    }
    None
}

/// A copy of a list of offsets.
fn CopyOffsets(vecOffsets: &[u32]) -> (vecCopy: Vec<u32>)
    ensures
        vecCopy@ == vecOffsets@,
{
    vstd::slice::slice_to_vec(vecOffsets)
}

/// The rules that govern a ResponsePending sequence: no gap may exceed P2*Server_max,
/// consecutive pending messages must not be closer than the anti-flood floor, and the first must
/// meet P2Server_max.
fn CheckPendingGaps(
    timing: &EcuTiming,
    vecPendingOffsets: &[u32],
    u32FinalAtMs: u32,
    vecWarnings: &mut Vec<String>,
)
    requires
        vecPendingOffsets@.len() > 0,
        timing.m_u32P2StarServerMaxMs * 3 <= u32::MAX,
        is_ascending(instants(vecPendingOffsets@).push(u32FinalAtMs as int)),
    ensures
        warning_texts(final(vecWarnings)@) == warning_texts(old(vecWarnings)@) + gap_warnings(
            *timing,
            instants(vecPendingOffsets@),
            u32FinalAtMs as int,
        ),
{
    let ghost offsets = instants(vecPendingOffsets@);
    let ghost all = offsets.push(u32FinalAtMs as int);
    let ghost before = warning_texts(vecWarnings@);
    let u32AntiFloodFloorMs: u32 = (timing.m_u32P2StarServerMaxMs * c_u32AntiFloodNumerator)
        / c_u32AntiFloodDenominator;
    let mut vecInstants = CopyOffsets(vecPendingOffsets);
    assert(is_ascending(offsets)) by {
        assert forall|i: int, j: int| 0 <= i <= j < offsets.len() implies offsets[i]
            <= offsets[j] by {
            assert(all[i] <= all[j]);
        }
    }
    match FirstShortGap(&vecInstants, u32AntiFloodFloorMs) {
        Some(u32GapMs) => {
            AddWarning(
                vecWarnings,
                TextWithNumbers(
                    "consecutive ResponsePending messages are ",
                    u32GapMs as u64,
                    " ms apart; ISO 14229-2 Table 4 requires at least 0.3 x P2*Server_max, which is ",
                    u32AntiFloodFloorMs as u64,
                    " ms",
                ),
            );
        },
        None => {},
    }
    let ghost one = warning_texts(vecWarnings@);
    // Every gap after a ResponsePending is budgeted by P2*, and so is the one before the final
    // response.
    vecInstants.push(u32FinalAtMs);
    assert(instants(vecInstants@) =~= all);
    match FirstLongGap(&vecInstants, timing.m_u32P2StarServerMaxMs) {
        Some(u32GapMs) => {
            AddWarning(
                vecWarnings,
                TextWithNumbers(
                    "a gap of ",
                    u32GapMs as u64,
                    " ms exceeds P2*Server_max of ",
                    timing.m_u32P2StarServerMaxMs as u64,
                    " ms",
                ),
            );
        },
        None => {},
    }
    let ghost two = warning_texts(vecWarnings@);
    if vecPendingOffsets[0] > timing.m_u32P2ServerMaxMs {
        AddWarning(
            vecWarnings,
            TextWithNumbers(
                "the first ResponsePending starts at ",
                vecPendingOffsets[0] as u64,
                " ms, exceeding P2Server_max of ",
                timing.m_u32P2ServerMaxMs as u64,
                " ms",
            ),
        );
    }
    assert(offsets[0] == vecPendingOffsets@[0]);
    assert(warning_texts(vecWarnings@) =~= before + gap_warnings(
        *timing,
        offsets,
        u32FinalAtMs as int,
    ));
}

} // verus!
