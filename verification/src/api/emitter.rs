//! Carrying out a merged timeline of answers, and keeping the record of what went out.

use vstd::prelude::*;

use crate::api::diagnostics::session_name;
use crate::api::diagnostics::FormatHex;
use crate::api::diagnostics::SessionName;
use crate::ecu::schedule::final_step;
use crate::ecu::schedule::warning_texts;
use crate::ecu::schedule::ScheduledResponse;
use crate::simulation::timeline::goes_before;
use crate::simulation::timeline::is_on;
use crate::simulation::timeline::is_step;
use crate::simulation::timeline::is_timeline;
use crate::simulation::timeline::steps_of;
use crate::simulation::timeline::BuildTimeline;
use crate::simulation::timeline::TimelineStep;
use crate::simulation::RoutedResponse;
use crate::text::can_id_text;
use crate::text::hex_bytes;
use crate::text::FormatCanId;

verus! {

/// One message an ECU put on the wire, with both when it was scheduled and when it actually went
/// out.
#[derive(Debug, Clone, PartialEq, Eq)]
pub struct SimulationFrameDto {
    pub at_ms: u32,
    pub actual_ms: u64,
    pub hex: String,
    /// `"responsePending"` for a NRC 0x78, `"final"` for the final response.
    pub kind: String,
}

/// One message an ECU put on the wire, as text.
pub ghost struct FrameView {
    pub at_ms: u32,
    pub actual_ms: u64,
    pub hex: Seq<char>,
    pub kind: Seq<char>,
}

impl View for SimulationFrameDto {
    type V = FrameView;

    open spec fn view(&self) -> FrameView {
        FrameView {
            at_ms: self.at_ms,
            actual_ms: self.actual_ms,
            hex: self.hex@,
            kind: self.kind@,
        }
    }
}

/// The record of a scheduled message that went out.
pub open spec fn frame_of(step: ScheduledResponse, actual_ms: u64) -> FrameView {
    FrameView {
        at_ms: step.m_u32AtMs,
        actual_ms,
        hex: hex_bytes(step.m_vecBytes@),
        kind: if step.m_bIsResponsePending {
            "responsePending"@
        } else {
            "final"@
        },
    }
}

/// Record a scheduled message that went out.
fn BuildFrameDto(step: &ScheduledResponse, u64ActualMs: u64) -> (dto: SimulationFrameDto)
    ensures
        dto@ == frame_of(*step, u64ActualMs),
{
    SimulationFrameDto {
        at_ms: step.m_u32AtMs,
        actual_ms: u64ActualMs,
        hex: FormatHex(step.m_vecBytes.as_slice()),
        kind: if step.m_bIsResponsePending {
            "responsePending".to_string()
        } else {
            "final".to_string()
        },
    }
}

/// One ECU's answer to a routed request.
#[derive(Debug, Clone, PartialEq, Eq)]
pub struct SimulationResponseDto {
    pub ecu_name: String,
    pub request_can_id_hex: String,
    pub response_can_id_hex: String,
    pub response_hex: String,
    /// True when nothing went on the wire: either the positive response was suppressed, or fault
    /// injection withheld it, which `final_response_dropped` says.
    pub suppressed: bool,
    pub session: u8,
    pub session_name: String,
    pub security_unlocked: bool,
    /// Every message this ECU sent, in order.
    pub frames: Vec<SimulationFrameDto>,
    pub final_at_ms: Option<u32>,
    pub response_pending_count: u8,
    pub final_response_dropped: bool,
    /// False when the schedule knowingly breaks a timing rule; the messages are still sent.
    pub iso_conformant: bool,
    pub conformance_warnings: Vec<String>,
}

/// The records of a list of messages.
pub open spec fn frame_views(frames: Seq<SimulationFrameDto>) -> Seq<FrameView> {
    Seq::new(frames.len(), |i: int| frames[i]@)
}

/// A description of one ECU's answer, whatever frames it records.
pub open spec fn describes_response(dto: SimulationResponseDto, response: RoutedResponse) -> bool {
    &&& dto.ecu_name@ == response.m_strEcuName@
    &&& dto.request_can_id_hex@ == can_id_text(response.m_u32RequestCanId)
    &&& dto.response_can_id_hex@ == can_id_text(response.m_u32ResponseCanId)
    &&& dto.response_hex@ == hex_bytes(response.m_vecResponse@)
    &&& dto.suppressed == response.is_suppressed()
    &&& dto.session == response.m_bySession
    &&& dto.session_name@ == session_name(response.m_bySession)
    &&& dto.security_unlocked == response.m_bIsSecurityUnlocked
    &&& dto.final_at_ms == match final_step(response.m_plan.m_vecSteps@) {
        Some(i) => Some(response.m_plan.m_vecSteps@[i].m_u32AtMs),
        None => None,
    }
    &&& dto.response_pending_count == response.m_plan.m_u8ResponsePendingCount
    &&& dto.final_response_dropped == response.m_plan.m_bIsFinalResponseDropped
    &&& dto.iso_conformant == response.m_plan.m_bIsIsoConformant
    &&& warning_texts(dto.conformance_warnings@) == warning_texts(
        response.m_plan.m_vecConformanceWarnings@,
    )
}

/// A copy of a list of texts.
pub(crate) fn CopyTexts(vecTexts: &Vec<String>) -> (vecCopy: Vec<String>)
    ensures
        warning_texts(vecCopy@) == warning_texts(vecTexts@),
{
    let mut vecCopy: Vec<String> = Vec::new();
    let mut uAt: usize = 0;
    while uAt < vecTexts.len()
        invariant
            uAt <= vecTexts@.len(),
            vecCopy@.len() == uAt,
            forall|i: int| 0 <= i < uAt ==> (#[trigger] vecCopy@[i])@ == vecTexts@[i]@,
        decreases vecTexts@.len() - uAt,
    {
        vecCopy.push(vecTexts[uAt].clone());
        uAt += 1;
    }
    assert(warning_texts(vecCopy@) =~= warning_texts(vecTexts@));
    vecCopy
}

/// Describe one ECU's answer, before its plan has been executed.
pub fn BuildResponseDto(response: &RoutedResponse) -> (dto: SimulationResponseDto)
    ensures
        describes_response(dto, *response),
        dto.frames@ == Seq::<SimulationFrameDto>::empty(),
{
    SimulationResponseDto {
        ecu_name: response.m_strEcuName.clone(),
        request_can_id_hex: FormatCanId(response.m_u32RequestCanId),
        response_can_id_hex: FormatCanId(response.m_u32ResponseCanId),
        response_hex: FormatHex(response.m_vecResponse.as_slice()),
        suppressed: response.IsSuppressed(),
        session: response.m_bySession,
        session_name: SessionName(response.m_bySession),
        security_unlocked: response.m_bIsSecurityUnlocked,
        frames: Vec::new(),
        final_at_ms: response.m_plan.FinalAtMs(),
        response_pending_count: response.m_plan.m_u8ResponsePendingCount,
        final_response_dropped: response.m_plan.m_bIsFinalResponseDropped,
        iso_conformant: response.m_plan.m_bIsIsoConformant,
        conformance_warnings: CopyTexts(&response.m_plan.m_vecConformanceWarnings),
    }
}

/// The messages of one answer among those that went out so far, with when each did.
pub open spec fn frames_of(
    timeline: Seq<TimelineStep>,
    responses: Seq<RoutedResponse>,
    actual: Seq<u64>,
    response: int,
) -> Seq<FrameView>
    decreases actual.len(),
{
    if actual.len() == 0 {
        seq![]
    } else {
        let before = frames_of(timeline, responses, actual.drop_last(), response);
        let step = timeline[actual.len() - 1];
        if step.m_uResponse == response {
            before.push(frame_of(steps_of(responses, response)[step.m_uStep as int], actual.last()))
        } else {
            before
        }
    }
}

/// Carries out the merged timeline of several answers: says when the next message is due, and
/// records each one as it goes out.
pub struct PlanEmitter {
    m_vecResponses: Vec<RoutedResponse>,
    m_vecTimeline: Vec<TimelineStep>,
    m_uNext: usize,
    m_vecDtos: Vec<SimulationResponseDto>,
    m_actual: Ghost<Seq<u64>>,
}

impl PlanEmitter {
    /// The answers carried out.
    pub closed spec fn responses(&self) -> Seq<RoutedResponse> {
        self.m_vecResponses@
    }

    /// Their merged timeline.
    pub closed spec fn timeline(&self) -> Seq<TimelineStep> {
        self.m_vecTimeline@
    }

    /// When each message that went out so far did, in the order of the timeline.
    pub closed spec fn actual(&self) -> Seq<u64> {
        self.m_actual@
    }

    /// What is recorded so far.
    closed spec fn records(&self) -> bool {
        &&& self.m_uNext == self.m_actual@.len()
        &&& self.m_uNext <= self.m_vecTimeline@.len()
        &&& self.m_vecDtos@.len() == self.m_vecResponses@.len()
        &&& forall|r: int|
            0 <= r < self.m_vecDtos@.len() ==> {
                &&& describes_response(#[trigger] self.m_vecDtos@[r], self.m_vecResponses@[r])
                &&& frame_views(self.m_vecDtos@[r].frames@) == frames_of(
                    self.m_vecTimeline@,
                    self.m_vecResponses@,
                    self.m_actual@,
                    r,
                )
            }
    }

    /// The timeline is that of the answers, and the records are those of what went out.
    pub closed spec fn wf(&self) -> bool {
        is_timeline(self.timeline(), self.responses()) && self.records()
    }

    /// Begin to carry out the plans of these answers.
    pub fn New(vecResponses: Vec<RoutedResponse>) -> (emitter: Self)
        ensures
            emitter.wf(),
            emitter.responses() == vecResponses@,
            is_timeline(emitter.timeline(), vecResponses@),
            emitter.actual() == Seq::<u64>::empty(),
    {
        let vecTimeline = BuildTimeline(vecResponses.as_slice());
        let mut vecDtos: Vec<SimulationResponseDto> = Vec::new();
        let mut uAt: usize = 0;
        while uAt < vecResponses.len()
            invariant
                uAt <= vecResponses@.len(),
                vecDtos@.len() == uAt,
                forall|r: int|
                    0 <= r < uAt ==> describes_response(
                        #[trigger] vecDtos@[r],
                        vecResponses@[r],
                    ) && vecDtos@[r].frames@ == Seq::<SimulationFrameDto>::empty(),
            decreases vecResponses@.len() - uAt,
        {
            vecDtos.push(BuildResponseDto(&vecResponses[uAt]));
            uAt += 1;
        }
        assert forall|r: int| 0 <= r < vecDtos@.len() implies frame_views(
            (#[trigger] vecDtos@[r]).frames@,
        ) == frames_of(vecTimeline@, vecResponses@, Seq::<u64>::empty(), r) by {
            assert(frame_views(vecDtos@[r].frames@) =~= seq![]);
        }
        PlanEmitter {
            m_vecResponses: vecResponses,
            m_vecTimeline: vecTimeline,
            m_uNext: 0,
            m_vecDtos: vecDtos,
            m_actual: Ghost(Seq::empty()),
        }
    }

    /// When the next message is due, in milliseconds from the completion of request reception.
    /// `None` when everything went out.
    pub fn NextAtMs(&self) -> (optU32AtMs: Option<u32>)
        requires
            self.wf(),
        ensures
            optU32AtMs == (if self.actual().len() < self.timeline().len() {
                Some(self.timeline()[self.actual().len() as int].m_u32AtMs)
            } else {
                None
            }),
    {
        if self.m_uNext < self.m_vecTimeline.len() {
            Some(self.m_vecTimeline[self.m_uNext].m_u32AtMs)
        } else {
            None
        }
    }

    /// Record that the next message went out, at this many milliseconds from the completion of
    /// request reception. Nothing is recorded once everything went out.
    pub fn Emit(&mut self, u64ActualMs: u64)
        requires
            old(self).wf(),
        ensures
            final(self).wf(),
            final(self).responses() == old(self).responses(),
            final(self).timeline() == old(self).timeline(),
            final(self).actual() == (if old(self).actual().len() < old(self).timeline().len() {
                old(self).actual().push(u64ActualMs)
            } else {
                old(self).actual()
            }),
    {
        if self.m_uNext >= self.m_vecTimeline.len() {
            return;
        }
        let ghost dtos = self.m_vecDtos@;
        let ghost past = self.m_actual@;
        let step = self.m_vecTimeline[self.m_uNext];
        assert(is_step(self.m_vecResponses@, self.m_vecTimeline@[self.m_uNext as int]));
        let uResponse: usize = step.m_uResponse;
        let frame = BuildFrameDto(
            &self.m_vecResponses[uResponse].m_plan.m_vecSteps[step.m_uStep],
            u64ActualMs,
        );
        self.m_vecDtos[uResponse].frames.push(frame);
        self.m_uNext = self.m_uNext + 1;
        self.m_actual = Ghost(past.push(u64ActualMs));
        proof {
            let now = self.m_actual@;
            assert(now.drop_last() =~= past);
            assert forall|r: int| 0 <= r < self.m_vecDtos@.len() implies describes_response(
                #[trigger] self.m_vecDtos@[r],
                self.m_vecResponses@[r],
            ) && frame_views(self.m_vecDtos@[r].frames@) == frames_of(
                self.m_vecTimeline@,
                self.m_vecResponses@,
                now,
                r,
            ) by {
                assert(describes_response(dtos[r], self.m_vecResponses@[r]));
                if r == uResponse {
                    assert(self.m_vecDtos@[r].frames@ == dtos[r].frames@.push(frame));
                    assert(frame_views(self.m_vecDtos@[r].frames@) =~= frame_views(
                        dtos[r].frames@,
                    ).push(frame@));
                } else {
                    assert(self.m_vecDtos@[r] == dtos[r]);
                }
            }
        }
    }

    /// What went out, one description per answer.
    pub fn Finish(self) -> (vecDtos: Vec<SimulationResponseDto>)
        requires
            self.wf(),
        ensures
            vecDtos@.len() == self.responses().len(),
            forall|r: int|
                0 <= r < vecDtos@.len() ==> describes_response(
                    #[trigger] vecDtos@[r],
                    self.responses()[r],
                ) && frame_views(vecDtos@[r].frames@) == frames_of(
                    self.timeline(),
                    self.responses(),
                    self.actual(),
                    r,
                ),
    {
        self.m_vecDtos
    }
}

/// The due times of a plan never go back.
pub open spec fn is_ascending_plan(steps: Seq<ScheduledResponse>) -> bool {
    forall|a: int, b: int|
        0 <= a <= b < steps.len() ==> (#[trigger] steps[a]).m_u32AtMs <= (
        #[trigger] steps[b]).m_u32AtMs
}

proof fn lemma_frames_are_a_prefix(
    timeline: Seq<TimelineStep>,
    responses: Seq<RoutedResponse>,
    actual: Seq<u64>,
    response: int,
)
    requires
        is_timeline(timeline, responses),
        actual.len() <= timeline.len(),
        0 <= response < responses.len(),
        is_ascending_plan(steps_of(responses, response)),
    ensures
        ({
            let frames = frames_of(timeline, responses, actual, response);
            let steps = steps_of(responses, response);
            &&& frames.len() <= steps.len()
            &&& forall|k: int|
                0 <= k < frames.len() ==> {
                    &&& (#[trigger] frames[k]).at_ms == steps[k].m_u32AtMs
                    &&& frames[k].hex == hex_bytes(steps[k].m_vecBytes@)
                    &&& frames[k] == frame_of(steps[k], frames[k].actual_ms)
                }
            &&& forall|i: int|
                0 <= i < actual.len() && (#[trigger] timeline[i]).m_uResponse == response
                    ==> timeline[i].m_uStep < frames.len()
            &&& forall|i: int|
                actual.len() <= i < timeline.len() && (#[trigger] timeline[i]).m_uResponse
                    == response ==> timeline[i].m_uStep >= frames.len()
        }),
    decreases actual.len(),
{
    let steps = steps_of(responses, response);
    let frames = frames_of(timeline, responses, actual, response);
    if actual.len() > 0 {
        let past = actual.drop_last();
        lemma_frames_are_a_prefix(timeline, responses, past, response);
        let before = frames_of(timeline, responses, past, response);
        let last = actual.len() - 1;
        let step = timeline[last];
        assert(is_step(responses, timeline[last]));
        if step.m_uResponse == response {
            // Every earlier step of this plan is earlier on the timeline, and so already out.
            if step.m_uStep > before.len() {
                let missing = before.len() as int;
                assert(is_on(timeline, response, missing));
                let i = choose|i: int|
                    0 <= i < timeline.len() && (#[trigger] timeline[i]).m_uResponse == response
                        && timeline[i].m_uStep == missing;
                assert(is_step(responses, timeline[i]));
                assert(steps[missing].m_u32AtMs <= steps[step.m_uStep as int].m_u32AtMs);
                assert(goes_before(timeline[i], timeline[last]));
                if i > last {
                    assert(goes_before(timeline[last], timeline[i]));
                }
                assert(i < last);
                assert(false);
            }
            assert(step.m_uStep == before.len());
            assert(frames == before.push(frame_of(steps[step.m_uStep as int], actual.last())));
            assert forall|i: int|
                actual.len() <= i < timeline.len() && (#[trigger] timeline[i]).m_uResponse
                    == response implies timeline[i].m_uStep >= frames.len() by {
                assert(timeline[i].m_uStep >= before.len());
                assert(goes_before(timeline[last], timeline[i]));
            }
        }
    } else {
        assert forall|i: int|
            0 <= i < timeline.len() && (#[trigger] timeline[i]).m_uResponse
                == response implies timeline[i].m_uStep >= frames.len() by {}
    }
}

/// Every message of a plan goes out, in the order of the plan: once the whole timeline is out, an
/// answer whose plan is ascending has exactly its plan's messages on record.
pub proof fn law_every_plan_is_carried_out_in_order(
    timeline: Seq<TimelineStep>,
    responses: Seq<RoutedResponse>,
    actual: Seq<u64>,
    response: int,
)
    requires
        is_timeline(timeline, responses),
        actual.len() == timeline.len(),
        0 <= response < responses.len(),
        is_ascending_plan(steps_of(responses, response)),
    ensures
        ({
            let frames = frames_of(timeline, responses, actual, response);
            let steps = steps_of(responses, response);
            &&& frames.len() == steps.len()
            &&& forall|k: int|
                0 <= k < frames.len() ==> #[trigger] frames[k] == frame_of(
                    steps[k],
                    frames[k].actual_ms,
                )
        }),
{
    let frames = frames_of(timeline, responses, actual, response);
    let steps = steps_of(responses, response);
    lemma_frames_are_a_prefix(timeline, responses, actual, response);
    if frames.len() < steps.len() {
        let missing = frames.len() as int;
        assert(is_on(timeline, response, missing));
        let i = choose|i: int|
            0 <= i < timeline.len() && (#[trigger] timeline[i]).m_uResponse == response
                && timeline[i].m_uStep == missing;
        assert(timeline[i].m_uStep < frames.len());
    }
}

} // verus!
