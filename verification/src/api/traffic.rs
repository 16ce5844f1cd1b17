//! The live traffic feed: everything crossing the simulator, told to whoever is watching.
//!
//! The feed is bounded. A monitor that cannot keep up must not be allowed to make the simulator
//! slow or make it allocate without limit, so a slow receiver is told that it fell behind. The
//! recent past is kept too, because a monitor is opened after something looked wrong.

use std::collections::VecDeque;
use vstd::prelude::*;

use tokio::sync::broadcast::Receiver;
use tokio::sync::broadcast::Sender;

use crate::api::events::doip_event;
use crate::api::events::exchange_event;
use crate::api::events::frame_event;
use crate::api::events::is_frame_event;
use crate::api::events::BuildDoIpEvent;
use crate::api::events::BuildExchangeEvent;
use crate::api::events::BuildFrameEvent;
use crate::api::events::EventView;
use crate::api::events::IsFrameEvent;
use crate::api::events::TrafficEvent;
use crate::bridge::observer::FrameDirection;
use crate::bytes::min_int;
use crate::can::CanFrame;
use crate::clock::wall_clock_ms;
use crate::clock::NowMs;
use crate::doip_server::observer::DoIpDirection;
use crate::simulation::RoutingOutcome;

verus! {

/// How many events the channel holds before the slowest receiver starts losing them.
pub const c_uChannelCapacity: usize = 2048;

/// How many past events are kept so a monitor opened later can be shown what it missed.
pub const c_uHistoryCapacity: usize = 20_000;

/// How many events one message to a monitor may carry.
pub const c_uMaxEventsPerBatch: usize = 64;

/// `tokio::sync::broadcast::Sender`: the sending half of a broadcast channel.
#[verifier::external_type_specification]
#[verifier::external_body]
#[verifier::reject_recursive_types(T)]
pub struct ExBroadcastSender<T>(tokio::sync::broadcast::Sender<T>);

/// `tokio::sync::broadcast::Receiver`: the receiving half of a broadcast channel.
#[verifier::external_type_specification]
#[verifier::external_body]
#[verifier::reject_recursive_types(T)]
pub struct ExBroadcastReceiver<T>(tokio::sync::broadcast::Receiver<T>);

/// The events handed to a channel since it was opened, oldest first.
pub uninterp spec fn announced(sender: tokio::sync::broadcast::Sender<TrafficEvent>) -> Seq<EventView>;

/// How many events a channel holds for receivers that have not taken them yet.
pub uninterp spec fn slots(sender: tokio::sync::broadcast::Sender<TrafficEvent>) -> nat;

/// The place, among the events handed to its channel, of the next one a receiver can be given.
pub uninterp spec fn next_live_event(receiver: tokio::sync::broadcast::Receiver<TrafficEvent>) -> nat;

/// A receiver is subscribed to the channel of a sender.
pub uninterp spec fn feeds(
    sender: tokio::sync::broadcast::Sender<TrafficEvent>,
    receiver: tokio::sync::broadcast::Receiver<TrafficEvent>,
) -> bool;

/// `tokio::sync::broadcast::channel` opens a channel that holds at least the given number of
/// events; nothing has been handed to it yet. It panics for a capacity of zero or one above half
/// of `usize::MAX`. The receiver that comes with it is dropped.
#[verifier::external_body]
fn OpenChannel(uCapacity: usize) -> (sender: Sender<TrafficEvent>)
    requires
        0 < uCapacity <= usize::MAX / 2,
    ensures
        announced(sender) == Seq::<EventView>::empty(),
        slots(sender) >= uCapacity,
{
    tokio::sync::broadcast::channel(uCapacity).0
}

/// `Sender::send` hands one event to every receiver there is. Having none is an error of the
/// call, and none here. The channel keeps its receivers and its size.
#[verifier::external_body]
fn Announce(sender: &mut Sender<TrafficEvent>, event: TrafficEvent)
    ensures
        announced(*final(sender)) == announced(*old(sender)).push(event@),
        slots(*final(sender)) == slots(*old(sender)),
        forall|receiver: Receiver<TrafficEvent>|
            feeds(*old(sender), receiver) ==> #[trigger] feeds(*final(sender), receiver),
{
    let _ = sender.send(event);
}

/// `Sender::subscribe` makes a receiver of the channel, for the events handed to it after the call.
#[verifier::external_body]
fn Attach(sender: &Sender<TrafficEvent>) -> (receiver: Receiver<TrafficEvent>)
    ensures
        feeds(*sender, receiver),
        next_live_event(receiver) == announced(*sender).len(),
{
    sender.subscribe()
}

/// What a subscription hands over.
pub enum LiveItem {
    /// An event.
    Event(TrafficEvent),
    /// The monitor fell behind by so many events.
    Lagged(u64),
}

/// What a subscription hands over, as a mathematical value.
pub ghost enum LiveView {
    Event { event: EventView },
    Lagged { missed: nat },
}

impl View for LiveItem {
    type V = LiveView;

    open spec fn view(&self) -> LiveView {
        match self {
            LiveItem::Event(event) => LiveView::Event { event: event@ },
            LiveItem::Lagged(u64Missed) => LiveView::Lagged { missed: *u64Missed as nat },
        }
    }
}

/// What a receiver is handed of everything a channel was given, and the place it stands at after
/// that: nothing when it has been given everything; the next event while the channel still holds
/// it; otherwise how many it missed, after which it stands at the oldest one still held.
pub open spec fn taken(events: Seq<EventView>, next: nat, held: nat) -> (Option<LiveView>, nat) {
    if next >= events.len() {
        (None, next)
    } else if events.len() - next <= held {
        (Some(LiveView::Event { event: events[next as int] }), next + 1)
    } else {
        let oldest = (events.len() - held) as nat;
        (Some(LiveView::Lagged { missed: (oldest - next) as nat }), oldest)
    }
}

/// `Receiver::try_recv` hands over what a receiver has waiting, without waiting for it. Borrowing
/// the sender keeps the channel open and anything from being sent meanwhile. Claimed only of a
/// receiver of that sender's channel, which is at most so far behind that a 64-bit number counts
/// the events it missed.
#[verifier::external_body]
fn TakeWaiting(_sender: &Sender<TrafficEvent>, receiver: &mut Receiver<TrafficEvent>) -> (optItem:
    Option<LiveItem>)
    ensures
        feeds(*_sender, *old(receiver)) && announced(*_sender).len() <= next_live_event(
            *old(receiver),
        ) + u64::MAX ==> {
            &&& feeds(*_sender, *final(receiver))
            &&& taken(announced(*_sender), next_live_event(*old(receiver)), slots(*_sender)) == (
                match optItem {
                    Some(item) => Some(item@),
                    None => None,
                },
                next_live_event(*final(receiver)),
            )
        },
{
    match receiver.try_recv() {
        Ok(event) => Some(LiveItem::Event(event)),
        Err(tokio::sync::broadcast::error::TryRecvError::Lagged(u64Missed)) => Some(
            LiveItem::Lagged(u64Missed),
        ),
        Err(tokio::sync::broadcast::error::TryRecvError::Empty) => None,
        Err(tokio::sync::broadcast::error::TryRecvError::Closed) => None,
    }
}

/// `Sender::receiver_count` counts the receivers that have not been dropped. Nothing is claimed of
/// the number, which changes as their holders come and go.
#[verifier::external_body]
fn CountReceivers(sender: &Sender<TrafficEvent>) -> usize {
    sender.receiver_count()
}

/// The events of a list.
pub open spec fn event_views(events: Seq<TrafficEvent>) -> Seq<EventView> {
    Seq::new(events.len(), |i: int| events[i]@)
}

/// The most recent events, at most so many.
pub open spec fn most_recent(events: Seq<EventView>, count: nat) -> Seq<EventView> {
    events.skip(events.len() - min_int(events.len() as int, count as int))
}

/// The publisher every part of the engine hands events to, with the recent past beside it.
pub struct TrafficChannel {
    m_sender: Sender<TrafficEvent>,
    m_queueHistory: VecDeque<TrafficEvent>,
    m_u64DroppedFromHistory: u64,
}

impl TrafficChannel {
    /// Everything published so far, oldest first.
    pub closed spec fn published(&self) -> Seq<EventView> {
        announced(self.m_sender)
    }

    /// The recent past that is kept.
    pub closed spec fn history(&self) -> Seq<EventView> {
        event_views(self.m_queueHistory@)
    }

    /// How many events the live feed holds for a receiver that has not taken them yet.
    pub closed spec fn held_live(&self) -> nat {
        slots(self.m_sender)
    }

    /// A receiver is subscribed to this channel.
    pub closed spec fn feeds(&self, receiver: Receiver<TrafficEvent>) -> bool {
        feeds(self.m_sender, receiver)
    }

    /// The receivers of a channel, and how much it holds for them, are those of another.
    pub open spec fn keeps_receivers(&self, before: &TrafficChannel) -> bool {
        &&& self.held_live() == before.held_live()
        &&& forall|receiver: Receiver<TrafficEvent>|
            before.feeds(receiver) ==> #[trigger] self.feeds(receiver)
    }

    /// How many events the history is reported to have pushed out.
    pub closed spec fn dropped(&self) -> u64 {
        self.m_u64DroppedFromHistory
    }

    /// The history is the most recent part of what was published, and what it pushed out is
    /// counted.
    pub open spec fn wf(&self) -> bool {
        &&& self.history() == most_recent(self.published(), c_uHistoryCapacity as nat)
        &&& self.dropped() == (self.published().len() - self.history().len()) % 0x1_0000_0000_0000_0000
        &&& self.held_live() >= c_uChannelCapacity
    }

    /// A channel nothing has been published on.
    pub fn New() -> (channel: Self)
        ensures
            channel.wf(),
            channel.published() == Seq::<EventView>::empty(),
    {
        let channel = TrafficChannel {
            m_sender: OpenChannel(c_uChannelCapacity),
            m_queueHistory: VecDeque::with_capacity(c_uHistoryCapacity),
            m_u64DroppedFromHistory: 0,
        };
        assert(channel.history() =~= most_recent(channel.published(), c_uHistoryCapacity as nat));
        channel
    }

    /// Publish one event: into the history, and to everyone listening. Does nothing more when
    /// nobody is.
    ///
    /// One step for both is what lets a subscriber take a snapshot and a receiver with no gap and
    /// no duplicate between them.
    pub fn Publish(&mut self, event: TrafficEvent)
        requires
            old(self).wf(),
        ensures
            final(self).wf(),
            final(self).published() == old(self).published().push(event@),
            final(self).keeps_receivers(old(self)),
    {
        let ghost before = self.history();
        let ghost past = self.published();
        if self.m_queueHistory.len() == c_uHistoryCapacity {
            self.m_queueHistory.pop_front();
            self.m_u64DroppedFromHistory = self.m_u64DroppedFromHistory.wrapping_add(1);
        }
        let ghost kept = self.history();
        let ghost latest = event@;
        assert(kept =~= if before.len() == c_uHistoryCapacity {
            before.skip(1)
        } else {
            before
        });
        self.m_queueHistory.push_back(event.clone());
        Announce(&mut self.m_sender, event);
        assert(self.history() =~= kept.push(latest));
        assert(self.published() == past.push(latest));
        assert(before == past.skip(past.len() - before.len()));
        assert(self.history() =~= most_recent(self.published(), c_uHistoryCapacity as nat));
    }

    /// Start listening, and take everything that is remembered from before now: the past events,
    /// how many older ones were dropped, and the receiver of what comes next.
    pub fn SubscribeWithHistory(&self) -> (subscription: (
        Vec<TrafficEvent>,
        u64,
        Receiver<TrafficEvent>,
    ))
        requires
            self.wf(),
        ensures
            event_views(subscription.0@) == most_recent(
                self.published(),
                c_uHistoryCapacity as nat,
            ),
            subscription.1 == (self.published().len() - subscription.0@.len())
                % 0x1_0000_0000_0000_0000,
            self.feeds(subscription.2),
            next_live_event(subscription.2) == self.published().len(),
    {
        let receiver = Attach(&self.m_sender);
        let mut vecHistory: Vec<TrafficEvent> = Vec::new();
        let mut uAt: usize = 0;
        while uAt < self.m_queueHistory.len()
            invariant
                uAt <= self.m_queueHistory@.len(),
                vecHistory@.len() == uAt,
                forall|i: int|
                    0 <= i < uAt ==> (#[trigger] vecHistory@[i])@ == self.m_queueHistory@[i]@,
            decreases self.m_queueHistory@.len() - uAt,
        {
            vecHistory.push(self.m_queueHistory[uAt].clone());
            uAt += 1;
        }
        assert(event_views(vecHistory@) =~= self.history());
        assert(vecHistory@.len() == self.history().len());
        (vecHistory, self.m_u64DroppedFromHistory, receiver)
    }

    /// Start listening from now, without the history.
    pub fn Subscribe(&self) -> (receiver: Receiver<TrafficEvent>)
        ensures
            self.feeds(receiver),
            next_live_event(receiver) == self.published().len(),
    {
        Attach(&self.m_sender)
    }

    /// What a receiver of this channel has waiting, without waiting for it: the next event
    /// published since it subscribed, or how many it missed by falling behind. It is then ready
    /// for the one after that.
    pub fn TakeLive(&self, receiver: &mut Receiver<TrafficEvent>) -> (optItem: Option<LiveItem>)
        ensures
            self.feeds(*old(receiver)) && self.published().len() <= next_live_event(*old(receiver))
                + u64::MAX ==> {
                &&& self.feeds(*final(receiver))
                &&& taken(
                    self.published(),
                    next_live_event(*old(receiver)),
                    self.held_live(),
                ) == (
                    match optItem {
                        Some(item) => Some(item@),
                        None => None,
                    },
                    next_live_event(*final(receiver)),
                )
            },
    {
        TakeWaiting(&self.m_sender, receiver)
    }

    /// How many past events are held.
    pub fn HistoryLength(&self) -> (uLength: usize)
        ensures
            uLength == self.history().len(),
    {
        self.m_queueHistory.len()
    }

    /// A count of the receivers of this channel gave this number. Monitors come and go on their
    /// own, so two counts may differ.
    pub closed spec fn counts(&self, count: usize) -> bool {
        call_ensures(CountReceivers, (&self.m_sender,), count)
    }

    /// How many monitors are attached, for the status display: what counting the receivers of this
    /// channel gives now.
    pub fn SubscriberCount(&self) -> (uCount: usize)
        ensures
            self.counts(uCount),
    {
        CountReceivers(&self.m_sender)
    }

    /// Publish one CAN frame that crossed the bridge, stamped with the present time.
    pub fn OnFrame(&mut self, direction: FrameDirection, frame: &CanFrame)
        requires
            old(self).wf(),
        ensures
            final(self).wf(),
            exists|reading: std::time::SystemTime|
                call_ensures(std::time::SystemTime::now, (), reading) && final(self).published()
                    == old(self).published().push(
                    frame_event(#[trigger] wall_clock_ms(reading) as u64, direction, *frame),
                ),
            final(self).keeps_receivers(old(self)),
    {
        let u64AtMs: u64 = NowMs();
        self.Publish(BuildFrameEvent(u64AtMs, direction, frame));
    }

    /// Publish one request routed through the simulation, stamped with the present time.
    pub fn OnExchange(&mut self, u32RequestCanId: u32, vecRequest: &[u8], outcome: &RoutingOutcome)
        requires
            old(self).wf(),
        ensures
            final(self).wf(),
            exists|reading: std::time::SystemTime|
                call_ensures(std::time::SystemTime::now, (), reading) && final(self).published()
                    == old(self).published().push(
                    exchange_event(
                        #[trigger] wall_clock_ms(reading) as u64,
                        u32RequestCanId,
                        vecRequest@,
                        *outcome,
                    ),
                ),
            final(self).keeps_receivers(old(self)),
    {
        let u64AtMs: u64 = NowMs();
        self.Publish(BuildExchangeEvent(u64AtMs, u32RequestCanId, vecRequest, outcome));
    }

    /// Publish one DoIP message that crossed the wire, stamped with the present time.
    pub fn OnDoIpMessage(
        &mut self,
        direction: DoIpDirection,
        strPeer: &str,
        bIsUdp: bool,
        arrMessage: &[u8],
    )
        requires
            old(self).wf(),
        ensures
            final(self).wf(),
            exists|reading: std::time::SystemTime|
                call_ensures(std::time::SystemTime::now, (), reading) && final(self).published()
                    == old(self).published().push(
                    doip_event(
                        #[trigger] wall_clock_ms(reading) as u64,
                        direction,
                        strPeer@,
                        bIsUdp,
                        arrMessage@,
                    ),
                ),
            final(self).keeps_receivers(old(self)),
    {
        let u64AtMs: u64 = NowMs();
        self.Publish(BuildDoIpEvent(u64AtMs, direction, strPeer, bIsUdp, arrMessage));
    }
}

impl Default for TrafficChannel {
    fn default() -> (channel: Self)
        ensures
            channel.wf(),
            channel.published() == Seq::<EventView>::empty(),
    {
        TrafficChannel::New()
    }
}

/// The history never outgrows its capacity.
pub proof fn law_history_is_bounded(published: Seq<EventView>)
    ensures
        most_recent(published, c_uHistoryCapacity as nat).len() <= c_uHistoryCapacity,
        published.len() <= c_uHistoryCapacity ==> most_recent(published, c_uHistoryCapacity as nat)
            == published,
{
}

/// What a receiver is handed over a number of calls in a row, and the place it stands at then.
pub open spec fn taken_all(events: Seq<EventView>, next: nat, held: nat, calls: nat) -> (
    Seq<Option<LiveView>>,
    nat,
)
    decreases calls,
{
    if calls == 0 {
        (seq![], next)
    } else {
        let before = taken_all(events, next, held, (calls - 1) as nat);
        let step = taken(events, before.1, held);
        (before.0.push(step.0), step.1)
    }
}

/// Events as a receiver is handed them.
pub open spec fn as_live(events: Seq<EventView>) -> Seq<Option<LiveView>> {
    Seq::new(events.len(), |i: int| Some(LiveView::Event { event: events[i] }))
}

/// A receiver is handed everything from its place on, in order and each once, as long as the
/// channel holds that much.
proof fn lemma_taken_in_order(events: Seq<EventView>, next: nat, held: nat, calls: nat)
    requires
        next + calls <= events.len() <= next + held,
    ensures
        taken_all(events, next, held, calls) == (
            as_live(events.subrange(next as int, (next + calls) as int)),
            next + calls,
        ),
    decreases calls,
{
    let part = events.subrange(next as int, (next + calls) as int);
    if calls > 0 {
        lemma_taken_in_order(events, next, held, (calls - 1) as nat);
    }
    assert(taken_all(events, next, held, calls).0 =~= as_live(part));
}

/// The replay and the live feed neither overlap nor leave a gap. A monitor that attaches is
/// replayed the most recent of what was published before. Its receiver, asked as often as events
/// were published after that, is handed exactly those, in order, as long as they fit the channel;
/// asked once more, it has nothing. The two together are everything published but what the history
/// had already pushed out.
pub proof fn law_replay_and_live_feed_are_one_sequence(
    before: Seq<EventView>,
    after: Seq<EventView>,
    held: nat,
)
    requires
        after.len() <= held,
    ensures
        ({
            let replayed = most_recent(before, c_uHistoryCapacity as nat);
            let everything = before + after;
            let live = taken_all(everything, before.len(), held, after.len());
            &&& live == (as_live(after), everything.len())
            &&& taken(everything, live.1, held).0 is None
            &&& replayed + after == everything.skip(before.len() - replayed.len())
        }),
{
    let replayed = most_recent(before, c_uHistoryCapacity as nat);
    let everything = before + after;
    lemma_taken_in_order(everything, before.len(), held, after.len());
    assert(everything.subrange(before.len() as int, everything.len() as int) =~= after);
    assert(replayed + after =~= everything.skip(before.len() - replayed.len()));
}

/// A receiver that fell behind is told how many events it missed, and is then handed every event
/// the channel still holds, oldest first.
pub proof fn law_a_receiver_that_fell_behind_catches_up(
    events: Seq<EventView>,
    next: nat,
    held: nat,
)
    requires
        next + held < events.len(),
    ensures
        taken(events, next, held) == (
            Some(LiveView::Lagged { missed: (events.len() - held - next) as nat }),
            (events.len() - held) as nat,
        ),
        taken_all(events, (events.len() - held) as nat, held, held) == (
            as_live(events.skip(events.len() - held)),
            events.len(),
        ),
{
    let oldest = (events.len() - held) as nat;
    lemma_taken_in_order(events, oldest, held, held);
    assert(events.subrange(oldest as int, events.len() as int) =~= events.skip(oldest as int));
}

/// What a monitor asks for when it attaches.
#[derive(Debug, Clone, Copy, PartialEq, Eq, Structural)]
pub struct EventsQuery {
    /// How many past events to replay on attach. Left out, everything held is replayed.
    pub history: Option<usize>,
    /// Send raw wire traffic as well as decoded exchanges. Left out, it is sent.
    pub frames: Option<bool>,
}

impl EventsQuery {
    /// Raw wire traffic is wanted.
    pub open spec fn wants_frames(&self) -> bool {
        self.frames != Some(false)
    }

    /// True when raw wire traffic is wanted.
    pub fn WantsFrames(&self) -> (bWantsFrames: bool)
        ensures
            bWantsFrames == self.wants_frames(),
    {
        match self.frames {
            Some(bWantsFrames) => bWantsFrames,
            None => true,
        }
    }
}

/// The events a monitor wants to see.
pub open spec fn wanted(events: Seq<EventView>, frames: bool) -> Seq<EventView> {
    events.filter(|event: EventView| frames || !is_frame_event(event))
}

/// What a monitor is replayed: of the history, the events it wants, and of those the most recent.
pub open spec fn replayed(history: Seq<EventView>, query: EventsQuery) -> Seq<EventView> {
    let shown = wanted(history, query.wants_frames());
    match query.history {
        Some(count) => most_recent(shown, count as nat),
        None => shown,
    }
}

/// What a monitor is sent on attaching: a summary first, so that a partial replay says so before
/// the reader forms an impression of completeness, then the replay.
pub open spec fn prelude(
    history: Seq<EventView>,
    dropped: u64,
    query: EventsQuery,
    now_ms: u64,
) -> Seq<EventView> {
    let past = replayed(history, query);
    seq![
        EventView::Replayed {
            at_ms: now_ms,
            count: past.len() as usize,
            dropped_before: dropped,
        },
    ] + past
}

/// Build what a monitor is sent on attaching.
pub fn BuildPrelude(
    vecHistory: &Vec<TrafficEvent>,
    u64DroppedBefore: u64,
    query: &EventsQuery,
    u64NowMs: u64,
) -> (vecPrelude: Vec<TrafficEvent>)
    ensures
        event_views(vecPrelude@) == prelude(
            event_views(vecHistory@),
            u64DroppedBefore,
            *query,
            u64NowMs,
        ),
{
    let bWantsFrames = query.WantsFrames();
    let ghost history = event_views(vecHistory@);
    let ghost keep = |event: EventView| query.wants_frames() || !is_frame_event(event);
    let mut vecShown: Vec<TrafficEvent> = Vec::new();
    let mut uAt: usize = 0;
    assert(history.take(0) =~= seq![]);
    assert(event_views(vecShown@) =~= history.take(0).filter(keep)) by {
        reveal(Seq::filter);
    }
    while uAt < vecHistory.len()
        invariant
            uAt <= vecHistory@.len(),
            history == event_views(vecHistory@),
            bWantsFrames == query.wants_frames(),
            keep == (|event: EventView| query.wants_frames() || !is_frame_event(event)),
            event_views(vecShown@) == history.take(uAt as int).filter(keep),
        decreases vecHistory@.len() - uAt,
    {
        let ghost shown = event_views(vecShown@);
        let ghost event = vecHistory@[uAt as int]@;
        proof {
            assert(history.take(uAt + 1) =~= history.take(uAt as int).push(event));
            history.take(uAt as int).lemma_filter_push(event, keep);
        }
        if bWantsFrames || !IsFrameEvent(&vecHistory[uAt]) {
            vecShown.push(vecHistory[uAt].clone());
            assert(event_views(vecShown@) =~= shown.push(event));
        }
        uAt += 1;
    }
    assert(history.take(uAt as int) =~= history);
    let ghost shown = event_views(vecShown@);
    let uStart: usize = match query.history {
        Some(uWanted) => if vecShown.len() > uWanted {
            vecShown.len() - uWanted
        } else {
            0
        },
        None => 0,
    };
    let ghost past = replayed(history, *query);
    assert(past =~= shown.skip(uStart as int));
    let mut vecPrelude: Vec<TrafficEvent> = Vec::new();
    vecPrelude.push(
        TrafficEvent::Replayed {
            at_ms: u64NowMs,
            count: vecShown.len() - uStart,
            dropped_before: u64DroppedBefore,
        },
    );
    let ghost summary = EventView::Replayed {
        at_ms: u64NowMs,
        count: past.len() as usize,
        dropped_before: u64DroppedBefore,
    };
    let mut uNext: usize = uStart;
    assert(event_views(vecPrelude@) =~= seq![summary] + past.take(0));
    while uNext < vecShown.len()
        invariant
            uStart <= uNext <= vecShown@.len(),
            shown == event_views(vecShown@),
            past == shown.skip(uStart as int),
            event_views(vecPrelude@) == seq![summary] + past.take(uNext - uStart),
        decreases vecShown@.len() - uNext,
    {
        let ghost sent = event_views(vecPrelude@);
        let ghost event = vecShown@[uNext as int]@;
        vecPrelude.push(vecShown[uNext].clone());
        uNext += 1;
        assert(event_views(vecPrelude@) =~= sent.push(event));
        assert(past.take(uNext - uStart) =~= past.take(uNext - uStart - 1).push(event));
        assert(event_views(vecPrelude@) =~= seq![summary] + past.take(uNext - uStart));
    }
    assert(past.take(uNext - uStart) =~= past);
    vecPrelude
}

/// One batch of a list: up to the largest batch, the last one what is left.
pub open spec fn batch(events: Seq<EventView>, i: int) -> Seq<EventView> {
    events.subrange(
        i * c_uMaxEventsPerBatch,
        min_int((i + 1) * c_uMaxEventsPerBatch, events.len() as int),
    )
}

/// How many batches a list takes.
pub open spec fn batch_count(events: Seq<EventView>) -> int {
    (events.len() as int + c_uMaxEventsPerBatch - 1) / (c_uMaxEventsPerBatch as int)
}

/// Cut a list of events into batches, so a reader has one shape to deal with.
pub fn BuildBatches(vecEvents: &Vec<TrafficEvent>) -> (vecBatches: Vec<Vec<TrafficEvent>>)
    ensures
        ({
            let events = event_views(vecEvents@);
            &&& vecBatches@.len() == batch_count(events)
            &&& forall|i: int|
                0 <= i < vecBatches@.len() ==> event_views((#[trigger] vecBatches@[i])@) == batch(
                    events,
                    i,
                )
        }),
{
    let ghost events = event_views(vecEvents@);
    let mut vecBatches: Vec<Vec<TrafficEvent>> = Vec::new();
    let mut uStart: usize = 0;
    while uStart < vecEvents.len()
        invariant
            uStart <= vecEvents@.len(),
            events == event_views(vecEvents@),
            uStart == min_int(vecBatches@.len() * c_uMaxEventsPerBatch, events.len() as int),
            vecBatches@.len() > 0 ==> (vecBatches@.len() - 1) * c_uMaxEventsPerBatch < events.len(),
            forall|i: int|
                0 <= i < vecBatches@.len() ==> event_views((#[trigger] vecBatches@[i])@) == batch(
                    events,
                    i,
                ),
        decreases vecEvents@.len() - uStart,
    {
        let uEnd: usize = if vecEvents.len() - uStart > c_uMaxEventsPerBatch {
            uStart + c_uMaxEventsPerBatch
        } else {
            vecEvents.len()
        };
        let mut vecBatch: Vec<TrafficEvent> = Vec::new();
        let mut uAt: usize = uStart;
        while uAt < uEnd
            invariant
                uStart <= uAt <= uEnd <= vecEvents@.len(),
                vecBatch@.len() == uAt - uStart,
                forall|i: int|
                    0 <= i < uAt - uStart ==> (#[trigger] vecBatch@[i])@ == vecEvents@[uStart + i]@,
            decreases uEnd - uAt,
        {
            vecBatch.push(vecEvents[uAt].clone());
            uAt += 1;
        }
        assert(event_views(vecBatch@) =~= batch(events, vecBatches@.len() as int));
        vecBatches.push(vecBatch);
        uStart = uEnd;
    }
    vecBatches
}

/// What a monitor is told of something its subscription handed over, if it wants it.
pub open spec fn live_event(item: LiveItem, frames: bool, now_ms: u64) -> Option<EventView> {
    match item {
        LiveItem::Event(event) => if !frames && is_frame_event(event@) {
            None
        } else {
            Some(event@)
        },
        LiveItem::Lagged(missed) => Some(EventView::Lagged { at_ms: now_ms, missed }),
    }
}

/// Decide what a monitor is told of something its subscription handed over. Falling behind is
/// reported with the count rather than ending the feed, and a monitor that does not want frames
/// is not sent them.
pub fn FilterLive(item: LiveItem, bWantsFrames: bool, u64NowMs: u64) -> (optEvent: Option<
    TrafficEvent,
>)
    ensures
        match optEvent {
            Some(event) => live_event(item, bWantsFrames, u64NowMs) == Some(event@),
            None => live_event(item, bWantsFrames, u64NowMs) is None,
        },
{
    match item {
        LiveItem::Event(event) => {
            if !bWantsFrames && IsFrameEvent(&event) {
                return None;
            }
            Some(event)
        },
        LiveItem::Lagged(u64Missed) => Some(
            TrafficEvent::Lagged { at_ms: u64NowMs, missed: u64Missed },
        ),
    }
}

} // verus!
