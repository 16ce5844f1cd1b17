//! Merging the answers of several ECUs into one timeline.
//!
//! All offsets are measured from the same instant, the completion of request reception, so the
//! steps of several ECUs answering one broadcast go out in the order a real bus would carry them.

use vstd::prelude::*;

use crate::bytes::CopyAll;
use crate::ecu::schedule::ScheduledResponse;
use crate::simulation::RoutedResponse;
use crate::simulation::RoutingOutcome;

verus! {

/// One step of one answer, on the common timeline.
#[derive(Debug, Clone, Copy, PartialEq, Eq, Structural)]
pub struct TimelineStep {
    /// Which answer.
    pub m_uResponse: usize,
    /// Which step of its plan.
    pub m_uStep: usize,
    /// When it is due.
    pub m_u32AtMs: u32,
}

/// The steps of one answer's plan.
pub open spec fn steps_of(responses: Seq<RoutedResponse>, response: int) -> Seq<ScheduledResponse> {
    responses[response].m_plan.m_vecSteps@
}

/// A step that is one of the plans'.
pub open spec fn is_step(responses: Seq<RoutedResponse>, step: TimelineStep) -> bool {
    &&& step.m_uResponse < responses.len()
    &&& step.m_uStep < steps_of(responses, step.m_uResponse as int).len()
    &&& step.m_u32AtMs == steps_of(responses, step.m_uResponse as int)[step.m_uStep as int].m_u32AtMs
}

/// One step goes out before another: it is due earlier, or it is due at the same time and comes
/// from an earlier answer or an earlier place in the same plan.
pub open spec fn goes_before(a: TimelineStep, b: TimelineStep) -> bool {
    ||| a.m_u32AtMs < b.m_u32AtMs
    ||| a.m_u32AtMs == b.m_u32AtMs && a.m_uResponse < b.m_uResponse
    ||| a.m_u32AtMs == b.m_u32AtMs && a.m_uResponse == b.m_uResponse && a.m_uStep < b.m_uStep
}

/// A step is on a timeline.
pub open spec fn is_on(timeline: Seq<TimelineStep>, response: int, step: int) -> bool {
    exists|i: int|
        0 <= i < timeline.len() && (#[trigger] timeline[i]).m_uResponse == response
            && timeline[i].m_uStep == step
}

/// The steps on a timeline are steps of the plans, each once, in the order they go out.
pub open spec fn is_in_order(timeline: Seq<TimelineStep>, responses: Seq<RoutedResponse>) -> bool {
    &&& forall|i: int| 0 <= i < timeline.len() ==> is_step(responses, #[trigger] timeline[i])
    &&& forall|i: int, j: int|
        0 <= i < j < timeline.len() ==> goes_before(#[trigger] timeline[i], #[trigger] timeline[j])
}

/// A timeline: every step of every plan, each once, in the order they go out.
pub open spec fn is_timeline(timeline: Seq<TimelineStep>, responses: Seq<RoutedResponse>) -> bool {
    &&& is_in_order(timeline, responses)
    &&& forall|response: int, step: int|
        0 <= response < responses.len() && 0 <= step < steps_of(responses, response).len()
            ==> #[trigger] is_on(timeline, response, step)
}

proof fn lemma_insertion(
    timeline: Seq<TimelineStep>,
    responses: Seq<RoutedResponse>,
    at: int,
    new: TimelineStep,
)
    requires
        is_in_order(timeline, responses),
        is_step(responses, new),
        0 <= at <= timeline.len(),
        forall|i: int| 0 <= i < at ==> goes_before(#[trigger] timeline[i], new),
        forall|i: int| at <= i < timeline.len() ==> goes_before(new, #[trigger] timeline[i]),
    ensures
        is_in_order(timeline.insert(at, new), responses),
        is_on(timeline.insert(at, new), new.m_uResponse as int, new.m_uStep as int),
        forall|response: int, step: int| #[trigger]
            is_on(timeline, response, step) ==> is_on(timeline.insert(at, new), response, step),
{
    let longer = timeline.insert(at, new);
    assert(longer[at] == new);
    assert forall|i: int| 0 <= i < longer.len() implies is_step(responses, #[trigger] longer[i]) by {
        if i < at {
            assert(longer[i] == timeline[i]);
        } else if i > at {
            assert(longer[i] == timeline[i - 1]);
        }
    }
    assert forall|i: int, j: int| 0 <= i < j < longer.len() implies goes_before(
        #[trigger] longer[i],
        #[trigger] longer[j],
    ) by {
        if i < at {
            assert(longer[i] == timeline[i]);
        } else if i > at {
            assert(longer[i] == timeline[i - 1]);
        }
        if j < at {
            assert(longer[j] == timeline[j]);
        } else if j > at {
            assert(longer[j] == timeline[j - 1]);
        }
    }
    assert forall|response: int, step: int| #[trigger]
        is_on(timeline, response, step) implies is_on(longer, response, step) by {
        let i = choose|i: int|
            0 <= i < timeline.len() && (#[trigger] timeline[i]).m_uResponse == response
                && timeline[i].m_uStep == step;
        if i < at {
            assert(longer[i] == timeline[i]);
        } else {
            assert(longer[i + 1] == timeline[i]);
        }
    }
}

/// Put a step of a later answer, or of a later place in the same plan, where it goes out.
fn InsertStep(vecTimeline: &mut Vec<TimelineStep>, vecResponses: &[RoutedResponse], step: TimelineStep)
    requires
        is_in_order(old(vecTimeline)@, vecResponses@),
        is_step(vecResponses@, step),
        forall|i: int|
            0 <= i < old(vecTimeline)@.len() ==> (#[trigger] old(vecTimeline)@[i]).m_uResponse
                < step.m_uResponse || old(vecTimeline)@[i].m_uResponse == step.m_uResponse && old(
                vecTimeline,
            )@[i].m_uStep < step.m_uStep,
    ensures
        is_in_order(final(vecTimeline)@, vecResponses@),
        forall|i: int|
            0 <= i < final(vecTimeline)@.len() ==> (#[trigger] final(vecTimeline)@[i]) == step
                || old(vecTimeline)@.contains(final(vecTimeline)@[i]),
        is_on(final(vecTimeline)@, step.m_uResponse as int, step.m_uStep as int),
        forall|r: int, s: int| #[trigger]
            is_on(old(vecTimeline)@, r, s) ==> is_on(final(vecTimeline)@, r, s),
{
    let ghost before = vecTimeline@;
    let mut uAt: usize = vecTimeline.len();
    while uAt > 0 && vecTimeline[uAt - 1].m_u32AtMs > step.m_u32AtMs
        invariant
            vecTimeline@ == before,
            uAt <= before.len(),
            forall|i: int| uAt <= i < before.len() ==> (#[trigger] before[i]).m_u32AtMs > step.m_u32AtMs,
        decreases uAt,
    {
        uAt = uAt - 1;
    }
    assert forall|i: int| 0 <= i < uAt implies goes_before(#[trigger] before[i], step) by {
        if i < uAt - 1 {
            assert(goes_before(before[i], before[uAt - 1]));
        }
    }
    proof {
        lemma_insertion(before, vecResponses@, uAt as int, step);
    }
    vecTimeline.insert(uAt, step);
    assert forall|i: int| 0 <= i < vecTimeline@.len() implies (#[trigger] vecTimeline@[i]) == step
        || before.contains(vecTimeline@[i]) by {
        if i < uAt {
            assert(vecTimeline@[i] == before[i]);
        } else if i > uAt {
            assert(vecTimeline@[i] == before[i - 1]);
        }
    }
}

/// Merge every answer's plan into a single timeline.
pub fn BuildTimeline(vecResponses: &[RoutedResponse]) -> (vecTimeline: Vec<TimelineStep>)
    ensures
        is_timeline(vecTimeline@, vecResponses@),
{
    let mut vecTimeline: Vec<TimelineStep> = Vec::new();
    let mut uResponse: usize = 0;
    while uResponse < vecResponses.len()
        invariant
            uResponse <= vecResponses@.len(),
            is_in_order(vecTimeline@, vecResponses@),
            forall|i: int|
                0 <= i < vecTimeline@.len() ==> (#[trigger] vecTimeline@[i]).m_uResponse < uResponse,
            forall|r: int, s: int|
                0 <= r < uResponse && 0 <= s < steps_of(vecResponses@, r).len() ==> #[trigger] is_on(
                    vecTimeline@,
                    r,
                    s,
                ),
        decreases vecResponses@.len() - uResponse,
    {
        let vecSteps = &vecResponses[uResponse].m_plan.m_vecSteps;
        let mut uStep: usize = 0;
        while uStep < vecSteps.len()
            invariant
                uResponse < vecResponses@.len(),
                vecSteps@ == steps_of(vecResponses@, uResponse as int),
                uStep <= vecSteps@.len(),
                is_in_order(vecTimeline@, vecResponses@),
                forall|i: int|
                    0 <= i < vecTimeline@.len() ==> (#[trigger] vecTimeline@[i]).m_uResponse
                        < uResponse || vecTimeline@[i].m_uResponse == uResponse
                        && vecTimeline@[i].m_uStep < uStep,
                forall|r: int, s: int|
                    0 <= r < uResponse && 0 <= s < steps_of(vecResponses@, r).len()
                        ==> #[trigger] is_on(vecTimeline@, r, s),
                forall|s: int|
                    0 <= s < uStep ==> #[trigger] is_on(vecTimeline@, uResponse as int, s),
            decreases vecSteps@.len() - uStep,
        {
            let ghost before = vecTimeline@;
            InsertStep(
                &mut vecTimeline,
                vecResponses,
                TimelineStep {
                    m_uResponse: uResponse,
                    m_uStep: uStep,
                    m_u32AtMs: vecSteps[uStep].m_u32AtMs,
                },
            );
            assert forall|i: int| 0 <= i < vecTimeline@.len() implies (
            #[trigger] vecTimeline@[i]).m_uResponse < uResponse || vecTimeline@[i].m_uResponse
                == uResponse && vecTimeline@[i].m_uStep < uStep + 1 by {
                if before.contains(vecTimeline@[i]) {
                    let k = choose|k: int| 0 <= k < before.len() && before[k] == vecTimeline@[i];
                    assert(before[k].m_uResponse <= uResponse);
                }
            }
            assert forall|r: int, s: int|
                0 <= r < uResponse && 0 <= s < steps_of(vecResponses@, r).len() implies #[trigger] is_on(
                vecTimeline@,
                r,
                s,
            ) by {
                assert(is_on(before, r, s));
            }
            assert forall|s: int| 0 <= s < uStep + 1 implies #[trigger] is_on(
                vecTimeline@,
                uResponse as int,
                s,
            ) by {
                if s < uStep {
                    assert(is_on(before, uResponse as int, s));
                }
            }
            uStep += 1;
        }
        uResponse += 1;
    }
    vecTimeline
}

/// One message to put on the bus, and when.
#[derive(Debug, Clone, PartialEq, Eq)]
pub struct DueMessage {
    /// When it is due, in milliseconds from the completion of request reception.
    pub m_u32AtMs: u32,
    /// The identifier the ECU answers on.
    pub m_u32ResponseCanId: u32,
    /// The UDS bytes.
    pub m_vecBytes: Vec<u8>,
}

/// The message a step of the timeline stands for.
pub open spec fn is_due(
    message: DueMessage,
    step: TimelineStep,
    responses: Seq<RoutedResponse>,
) -> bool {
    &&& message.m_u32AtMs == step.m_u32AtMs
    &&& message.m_u32ResponseCanId == responses[step.m_uResponse as int].m_u32ResponseCanId
    &&& message.m_vecBytes@ == steps_of(
        responses,
        step.m_uResponse as int,
    )[step.m_uStep as int].m_vecBytes@
}

/// The messages of a timeline, in the order they go out.
pub open spec fn are_due(
    messages: Seq<DueMessage>,
    timeline: Seq<TimelineStep>,
    responses: Seq<RoutedResponse>,
) -> bool {
    &&& messages.len() == timeline.len()
    &&& forall|i: int|
        0 <= i < messages.len() ==> is_due(#[trigger] messages[i], timeline[i], responses)
}

/// What goes on the bus because of a routed request. A request that no ECU took draws silence,
/// whatever the reason.
pub fn DueMessages(outcome: &RoutingOutcome) -> (vecDue: Vec<DueMessage>)
    ensures
        match *outcome {
            RoutingOutcome::Handled(responses) => exists|timeline: Seq<TimelineStep>|
                is_timeline(timeline, responses@) && #[trigger] are_due(
                    vecDue@,
                    timeline,
                    responses@,
                ),
            _ => vecDue@.len() == 0,
        },
{
    let mut vecDue: Vec<DueMessage> = Vec::new();
    match outcome {
        RoutingOutcome::Handled(vecResponses) => {
            let vecTimeline = BuildTimeline(vecResponses.as_slice());
            let mut uAt: usize = 0;
            while uAt < vecTimeline.len()
                invariant
                    uAt <= vecTimeline@.len(),
                    is_timeline(vecTimeline@, vecResponses@),
                    vecDue@.len() == uAt,
                    forall|i: int|
                        0 <= i < uAt ==> is_due(
                            #[trigger] vecDue@[i],
                            vecTimeline@[i],
                            vecResponses@,
                        ),
                decreases vecTimeline@.len() - uAt,
            {
                let step = vecTimeline[uAt];
                assert(is_step(vecResponses@, vecTimeline@[uAt as int]));
                let response = &vecResponses[step.m_uResponse];
                vecDue.push(
                    DueMessage {
                        m_u32AtMs: step.m_u32AtMs,
                        m_u32ResponseCanId: response.m_u32ResponseCanId,
                        m_vecBytes: CopyAll(
                            response.m_plan.m_vecSteps[step.m_uStep].m_vecBytes.as_slice(),
                        ),
                    },
                );
                uAt += 1;
            }
            assert(are_due(vecDue@, vecTimeline@, vecResponses@));
        },
        _ => {},
    }
    vecDue
}

/// A broadcast's answers go out merged: of any two steps on a timeline the one that is due earlier
/// goes out first, whichever ECU it comes from.
pub proof fn law_earlier_steps_go_out_first(
    timeline: Seq<TimelineStep>,
    responses: Seq<RoutedResponse>,
    i: int,
    j: int,
)
    requires
        is_timeline(timeline, responses),
        0 <= i < timeline.len(),
        0 <= j < timeline.len(),
        timeline[i].m_u32AtMs < timeline[j].m_u32AtMs,
    ensures
        i < j,
{
    if j < i {
        assert(goes_before(timeline[j], timeline[i]));
    }
}

} // verus!
