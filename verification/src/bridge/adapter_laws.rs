//! What is made of what an adapter says.

use vstd::prelude::*;

use crate::bridge::capacity::LinkCapacity;
use crate::bridge::probe::candidate_baud_rate;
use crate::bridge::probe::first_identity;
use crate::bridge::probe::split_lines;
use crate::bridge::probe::CommandEvent;
use crate::bridge::probe::CommandPhase;
use crate::bridge::probe::CommandStep;
use crate::bridge::probe::LineSpeedChange;
use crate::bridge::probe::LineSpeedCommander;

verus! {

/// Lines put together again, with a carriage return between each two.
pub open spec fn joined(lines: Seq<Seq<u8>>) -> Seq<u8>
    decreases lines.len(),
{
    if lines.len() == 0 {
        seq![]
    } else if lines.len() == 1 {
        lines[0]
    } else {
        joined(lines.drop_last()) + seq![0x0Du8] + lines.last()
    }
}

proof fn lemma_joined_longer_last(lines: Seq<Seq<u8>>, b: u8)
    requires
        lines.len() > 0,
    ensures
        joined(lines.drop_last().push(lines.last().push(b))) == joined(lines).push(b),
{
    let longer = lines.drop_last().push(lines.last().push(b));
    assert(longer.drop_last() =~= lines.drop_last());
    if lines.len() > 1 {
        assert(joined(longer) =~= joined(lines).push(b));
    }
}

/// Cutting what an adapter sent into lines loses nothing: put together again with a carriage
/// return between them, the lines are what was sent, and no line holds a carriage return.
pub proof fn law_lines_are_what_was_sent(received: Seq<u8>)
    ensures
        split_lines(received).len() > 0,
        joined(split_lines(received)) == received,
        forall|i: int, k: int|
            0 <= i < split_lines(received).len() && 0 <= k < split_lines(received)[i].len() ==> (
            #[trigger] split_lines(received)[i][k]) != 0x0D,
    decreases received.len(),
{
    let lines = split_lines(received);
    if received.len() == 0 {
        assert(joined(lines) =~= received);
    } else {
        let before = split_lines(received.drop_last());
        law_lines_are_what_was_sent(received.drop_last());
        assert(received =~= received.drop_last().push(received.last()));
        if received.last() == 0x0D {
            assert(lines.drop_last() =~= before);
            assert(joined(lines) =~= received);
            assert forall|i: int, k: int|
                0 <= i < lines.len() && 0 <= k < lines[i].len() implies (#[trigger] lines[i][k])
                != 0x0D by {
                assert(i < before.len());
                assert(lines[i] == before[i]);
                assert(before[i][k] != 0x0D);
            }
        } else {
            lemma_joined_longer_last(before, received.last());
            assert forall|i: int, k: int|
                0 <= i < lines.len() && 0 <= k < lines[i].len() implies (#[trigger] lines[i][k])
                != 0x0D by {
                if i < before.len() - 1 {
                    assert(lines[i] == before[i]);
                    assert(before[i][k] != 0x0D);
                } else if k < before.last().len() {
                    assert(before[before.len() - 1][k] != 0x0D);
                }
            }
        }
    }
}

/// Of several lines that could name the adapter the first does; where none could, none does.
pub proof fn law_the_first_identity_counts(verdicts: Seq<bool>)
    ensures
        match first_identity(verdicts) {
            Some(i) => 0 <= i < verdicts.len() && verdicts[i] && forall|j: int|
                0 <= j < i ==> !#[trigger] verdicts[j],
            None => forall|j: int| 0 <= j < verdicts.len() ==> !#[trigger] verdicts[j],
        },
    decreases verdicts.len(),
{
    if verdicts.len() > 0 {
        let front = verdicts.drop_last();
        law_the_first_identity_counts(front);
        assert(forall|j: int| 0 <= j < front.len() ==> #[trigger] verdicts[j] == front[j]);
    }
}

/// Line speeds are tried from the fastest down, seven of them, and the slowest is the one that is
/// fallen back to.
pub proof fn law_the_fastest_is_tried_first(i: int, j: int)
    requires
        0 <= i < j < 7,
    ensures
        candidate_baud_rate(i) > candidate_baud_rate(j),
        candidate_baud_rate(0) == 1_000_000,
        candidate_baud_rate(6) == 115_200,
{
}

/// A change is confirmed only by an adapter that names itself at the new speed, and then gives its
/// name; it is refused only by an adapter that says so; without a UART there is none.
pub proof fn law_only_the_adapter_confirms(
    commander: LineSpeedCommander,
    event: CommandEvent,
    phase: CommandPhase,
    step: CommandStep,
)
    requires
        commander.follows(event, phase, step),
    ensures
        step matches CommandStep::Done(LineSpeedChange::Confirmed {
            u32BaudRate,
            strAdapterVersion,
        }) ==> commander.m_phase is Identifying && event == CommandEvent::Identified(
            Some(strAdapterVersion),
        ) && u32BaudRate == commander.m_speed.bits_per_second(),
        step matches CommandStep::Done(LineSpeedChange::Refused { u32BaudRate })
            ==> commander.m_phase is Commanding && event == CommandEvent::Answered(Some(false))
            && u32BaudRate == commander.m_speed.bits_per_second(),
        step matches CommandStep::Done(LineSpeedChange::NoRealSerialLine) ==> commander.m_phase
            is Opening && event is OpenedWithoutUart,
{
}

/// A change is asked for once the port is open, the port is opened anew at the new speed unless the
/// adapter refused, the adapter is then asked who it is, and the link goes back where it says
/// nothing.
pub proof fn law_a_change_is_asked_for_step_by_step(
    commander: LineSpeedCommander,
    event: CommandEvent,
    phase: CommandPhase,
    step: CommandStep,
)
    requires
        commander.follows(event, phase, step),
    ensures
        commander.m_phase is Opening && event is Opened ==> step is Command && phase is Commanding,
        commander.m_phase is Commanding && event is Answered && event != CommandEvent::Answered(
            Some(false),
        ) ==> step == (CommandStep::Reopen { u32BaudRate: commander.m_speed.bits_per_second() })
            && phase is Reopening,
        commander.m_phase is Commanding && event == CommandEvent::Answered(Some(false))
            ==> step is Done && phase is Done,
        commander.m_phase is Reopening && event is Opened ==> step is Identify && phase
            is Identifying,
        commander.m_phase is Identifying && event == CommandEvent::Identified(None) ==> (step
            matches CommandStep::Revert { u32FirstBaudRate, u32SecondBaudRate, .. }
            && u32FirstBaudRate == commander.m_speed.bits_per_second() && u32SecondBaudRate
            == commander.m_u32CurrentBaudRate),
        event is OpenFailed || event is WriteFailed ==> phase is Done && step == CommandStep::Done(
            LineSpeedChange::NotConfirmed {
                u32BaudRate: commander.m_speed.bits_per_second(),
                u32RevertedToBaudRate: commander.m_u32CurrentBaudRate,
            },
        ),
{
}

/// The speed a link is left at: the new one where the adapter confirmed it, the one it was put back
/// to where it did not, and otherwise the one it had.
pub proof fn law_the_speed_a_link_is_left_at(change: LineSpeedChange, current: u32)
    ensures
        change matches LineSpeedChange::Confirmed { u32BaudRate, .. } ==> change.effective(current)
            == u32BaudRate,
        change matches LineSpeedChange::NotConfirmed { u32RevertedToBaudRate, .. }
            ==> change.effective(current) == u32RevertedToBaudRate,
        change is Refused || change is NoRealSerialLine ==> change.effective(current) == current,
{
}

/// A sender is slowed down exactly where the link to the adapter carries fewer frames than the bus,
/// and then by no more than it takes: a separation two milliseconds shorter would let through more
/// than the link carries.
pub proof fn law_a_sender_is_slowed_no_more_than_needed(capacity: LinkCapacity)
    ensures
        capacity.safe_separation() is Some <==> 0 < capacity.m_uLinkFramesPerSecond
            < capacity.m_uBusFramesPerSecond,
        capacity.safe_separation() matches Some(needed) ==> (needed - 2)
            * capacity.m_uLinkFramesPerSecond < 1000,
        capacity.safe_separation() matches Some(needed) ==> (needed == 0x7F || (needed - 1)
            * capacity.m_uLinkFramesPerSecond >= 1000),
{
    if let Some(needed) = capacity.safe_separation() {
        let rate = capacity.m_uLinkFramesPerSecond as int;
        let exact = crate::bridge::capacity::milliseconds_per_frame(rate);
        vstd::arithmetic::div_mod::lemma_fundamental_div_mod(1000, rate);
        let quotient = 1000int / rate;
        assert(exact >= 0 && exact * rate >= 1000 && (exact - 1) * rate < 1000)
            by (nonlinear_arith)
            requires
                1000 == rate * quotient + 1000int % rate,
                0 <= 1000int % rate < rate,
                rate >= 1,
                1000int % rate == 0 ==> exact == quotient,
                1000int % rate != 0 ==> exact == quotient + 1,
        ;
        if exact + 1 < 0x7F {
            assert(needed == exact + 1);
            assert(needed - 2 == exact - 1 && needed - 1 == exact);
        } else {
            assert(needed == 0x7F);
            assert((needed - 2) * rate < 1000) by (nonlinear_arith)
                requires
                    needed - 2 <= exact - 1,
                    (exact - 1) * rate < 1000,
                    rate >= 1,
            ;
        }
    }
}

} // verus!
