//! What goes on the bus for a request, and in which order.

use vstd::prelude::*;

use crate::simulation::timeline::are_due;
use crate::simulation::timeline::goes_before;
use crate::simulation::timeline::is_due;
use crate::simulation::timeline::is_on;
use crate::simulation::timeline::is_step;
use crate::simulation::timeline::is_timeline;
use crate::simulation::timeline::DueMessage;
use crate::simulation::timeline::TimelineStep;
use crate::simulation::RoutedResponse;

verus! {

/// Every step of every plan is put on the bus, at its time, with its bytes, on the identifier its
/// ECU answers on.
pub proof fn law_every_step_is_put_on_the_bus(
    messages: Seq<DueMessage>,
    timeline: Seq<TimelineStep>,
    responses: Seq<RoutedResponse>,
    response: int,
    step: int,
) -> (at: int)
    requires
        is_timeline(timeline, responses),
        are_due(messages, timeline, responses),
        0 <= response < responses.len(),
        0 <= step < responses[response].m_plan.m_vecSteps@.len(),
    ensures
        0 <= at < messages.len(),
        timeline[at].m_uResponse == response,
        timeline[at].m_uStep == step,
        messages[at].m_u32AtMs == responses[response].m_plan.m_vecSteps@[step].m_u32AtMs,
        messages[at].m_u32ResponseCanId == responses[response].m_u32ResponseCanId,
        messages[at].m_vecBytes@ == responses[response].m_plan.m_vecSteps@[step].m_vecBytes@,
{
    assert(is_on(timeline, response, step));
    let at = choose|i: int|
        0 <= i < timeline.len() && (#[trigger] timeline[i]).m_uResponse == response
            && timeline[i].m_uStep == step;
    assert(is_step(responses, timeline[at]));
    assert(is_due(messages[at], timeline[at], responses));
    at
}

/// Nothing else is put on the bus, and nothing twice: each message stands for a step of a plan, and
/// two messages never stand for the same one.
pub proof fn law_only_the_steps_are_put_on_the_bus(
    messages: Seq<DueMessage>,
    timeline: Seq<TimelineStep>,
    responses: Seq<RoutedResponse>,
    i: int,
    j: int,
)
    requires
        is_timeline(timeline, responses),
        are_due(messages, timeline, responses),
        0 <= i < messages.len(),
        0 <= j < messages.len(),
    ensures
        timeline[i].m_uResponse < responses.len(),
        timeline[i].m_uStep < responses[timeline[i].m_uResponse as int].m_plan.m_vecSteps@.len(),
        timeline[i].m_uResponse == timeline[j].m_uResponse && timeline[i].m_uStep
            == timeline[j].m_uStep ==> i == j,
{
    assert(is_step(responses, timeline[i]));
    assert(is_step(responses, timeline[j]));
    if i < j {
        assert(goes_before(timeline[i], timeline[j]));
    }
    if j < i {
        assert(goes_before(timeline[j], timeline[i]));
    }
}

/// Messages go on the bus in the order they are due. Where two are due at once, the answer that
/// comes first in the list of answers goes first, and of one answer the earlier step.
pub proof fn law_messages_go_out_when_due(
    messages: Seq<DueMessage>,
    timeline: Seq<TimelineStep>,
    responses: Seq<RoutedResponse>,
    i: int,
    j: int,
)
    requires
        is_timeline(timeline, responses),
        are_due(messages, timeline, responses),
        0 <= i < j < messages.len(),
    ensures
        messages[i].m_u32AtMs <= messages[j].m_u32AtMs,
        messages[i].m_u32AtMs == messages[j].m_u32AtMs ==> timeline[i].m_uResponse
            <= timeline[j].m_uResponse,
        messages[i].m_u32AtMs == messages[j].m_u32AtMs && timeline[i].m_uResponse
            == timeline[j].m_uResponse ==> timeline[i].m_uStep < timeline[j].m_uStep,
{
    assert(goes_before(timeline[i], timeline[j]));
    assert(is_due(messages[i], timeline[i], responses));
    assert(is_due(messages[j], timeline[j], responses));
}

} // verus!
