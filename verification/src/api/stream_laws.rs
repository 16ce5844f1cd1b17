//! What a subscriber to the event stream is sent.

use vstd::prelude::*;

use crate::api::events::EventView;
use crate::api::traffic::batch;
use crate::api::traffic::batch_count;
use crate::api::traffic::live_event;
use crate::api::traffic::most_recent;
use crate::api::traffic::prelude;
use crate::api::traffic::replayed;
use crate::api::traffic::wanted;
use crate::api::traffic::EventsQuery;
use crate::api::traffic::LiveItem;

verus! {

/// The most recent events are the last ones, in their order: as many as were asked for, or all
/// where there are fewer.
pub proof fn law_the_most_recent_are_the_last(events: Seq<EventView>, count: nat)
    ensures
        most_recent(events, count).len() <= count,
        most_recent(events, count).len() == count || most_recent(events, count) == events,
        most_recent(events, count).is_suffix_of(events),
{
    if count >= events.len() {
        assert(events.skip(0) =~= events);
    }
}

/// Every event is in exactly one batch, in order, and a batch holds at most sixty-four: the k-th
/// event is number k modulo 64 of batch k / 64, and only the last batch may hold fewer.
pub proof fn law_batches_hold_every_event_once(events: Seq<EventView>, k: int)
    requires
        0 <= k < events.len(),
    ensures
        0 <= k / 64 < batch_count(events),
        k % 64 < batch(events, k / 64).len() <= 64,
        batch(events, k / 64)[k % 64] == events[k],
        k / 64 < batch_count(events) - 1 ==> batch(events, k / 64).len() == 64,
        64 * (batch_count(events) - 1) < events.len() <= 64 * batch_count(events),
{
}

/// No events make no batch.
pub proof fn law_nothing_makes_no_batch()
    ensures
        batch_count(Seq::<EventView>::empty()) == 0,
{
}

proof fn lemma_wanted(events: Seq<EventView>, frames: bool, event: EventView)
    ensures
        wanted(events, frames).contains(event) <==> events.contains(event) && (frames || !(
        event is Frame || event is DoIp)),
        frames ==> wanted(events, frames) == events,
    decreases events.len(),
{
    reveal(Seq::filter);
    if events.len() > 0 {
        let front = events.drop_last();
        lemma_wanted(front, frames, event);
        let rest = wanted(front, frames);
        let shown = wanted(events, frames);
        assert(events =~= front.push(events.last()));
        if frames || !(events.last() is Frame || events.last() is DoIp) {
            assert(shown == rest.push(events.last()));
            if shown.contains(event) && event != events.last() {
                let i = choose|i: int| 0 <= i < shown.len() && shown[i] == event;
                assert(rest[i] == event);
                let j = choose|j: int| 0 <= j < front.len() && front[j] == event;
                assert(events[j] == event);
            }
            if shown.contains(event) && event == events.last() {
                assert(events[events.len() - 1] == event);
            }
            if events.contains(event) && (frames || !(event is Frame || event is DoIp)) {
                if event == events.last() {
                    assert(shown[shown.len() - 1] == event);
                } else {
                    let j = choose|j: int| 0 <= j < events.len() && events[j] == event;
                    assert(front[j] == event);
                    let i = choose|i: int| 0 <= i < rest.len() && rest[i] == event;
                    assert(shown[i] == event);
                }
            }
        } else {
            assert(shown == rest);
            if events.contains(event) && (frames || !(event is Frame || event is DoIp)) {
                let j = choose|j: int| 0 <= j < events.len() && events[j] == event;
                assert(front[j] == event);
            }
            if rest.contains(event) {
                let j = choose|j: int| 0 <= j < front.len() && front[j] == event;
                assert(events[j] == event);
            }
        }
    } else {
        assert(wanted(events, frames) =~= events);
    }
}

/// A subscriber who wants frames is sent everything; one who does not is sent everything but CAN
/// frames and DoIP messages.
pub proof fn law_frames_are_left_out_on_request(events: Seq<EventView>, event: EventView)
    ensures
        wanted(events, true) == events,
        wanted(events, false).contains(event) <==> events.contains(event) && !(event is Frame)
            && !(event is DoIp),
{
    lemma_wanted(events, true, event);
    lemma_wanted(events, false, event);
}

/// A new subscriber is first told how much past follows and how much is lost, and is then sent that
/// past: all of what it wants, or the most recent part of it where it named a number. Frames are
/// wanted unless declined.
pub proof fn law_a_subscriber_is_told_the_past(
    history: Seq<EventView>,
    dropped: u64,
    query: EventsQuery,
    now_ms: u64,
)
    requires
        history.len() <= 20_000,
    ensures
        ({
            let sent = prelude(history, dropped, query, now_ms);
            let shown = if query.frames == Some(false) {
                wanted(history, false)
            } else {
                history
            };
            &&& sent.len() >= 1
            &&& sent[0] == EventView::Replayed {
                at_ms: now_ms,
                count: (sent.len() - 1) as usize,
                dropped_before: dropped,
            }
            &&& query.history is None ==> sent.skip(1) == shown
            &&& query.history matches Some(count) ==> sent.skip(1) == most_recent(
                shown,
                count as nat,
            )
        }),
{
    let past = replayed(history, query);
    if history.len() > 0 {
        lemma_wanted(history, true, history[0]);
    } else {
        reveal(Seq::filter);
        assert(wanted(history, true) =~= history);
    }
    assert(prelude(history, dropped, query, now_ms).skip(1) =~= past);
}

/// Live, a subscriber is sent what happens as it happens, save the frames it declined, and is told
/// how many events it missed.
pub proof fn law_the_live_feed_hides_only_declined_frames(
    item: LiveItem,
    frames: bool,
    now_ms: u64,
)
    ensures
        item matches LiveItem::Event(event) ==> (live_event(item, frames, now_ms) == if !frames && (
        event@ is Frame || event@ is DoIp) {
            None
        } else {
            Some(event@)
        }),
        item matches LiveItem::Lagged(missed) ==> live_event(item, frames, now_ms) == Some(
            EventView::Lagged { at_ms: now_ms, missed },
        ),
{
}

} // verus!
