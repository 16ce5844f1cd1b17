//! The live traffic feed carries what a monitor needs, including the parts that are silence.

#![allow(non_snake_case, non_upper_case_globals)]

use vehicle_sim::api::events::IsFrameEvent;
use vehicle_sim::api::events::TrafficEvent;
use vehicle_sim::api::traffic::BuildBatches;
use vehicle_sim::api::traffic::BuildPrelude;
use vehicle_sim::api::traffic::EventsQuery;
use vehicle_sim::api::traffic::FilterLive;
use vehicle_sim::api::traffic::LiveItem;
use vehicle_sim::api::traffic::TrafficChannel;
use vehicle_sim::bridge::observer::FrameDirection;
use vehicle_sim::can::CanFrame;
use vehicle_sim::doip_server::observer::DoIpDirection;
use vehicle_sim::simulation::RoutedResponse;
use vehicle_sim::simulation::RoutingOutcome;

#[test]
fn a_frame_crossing_the_bridge_reaches_a_monitor() {
    let mut channel = TrafficChannel::New();
    let mut receiver = channel.Subscribe();

    let frame = CanFrame::NewClassic(0, 0x7E0, vec![0x02, 0x10, 0x03]);
    channel.OnFrame(FrameDirection::Received, &frame);

    match receiver.try_recv().expect("an event should be waiting") {
        TrafficEvent::Frame {
            direction,
            can_id_hex,
            data_hex,
            length,
            is_flow_control,
            ..
        } => {
            assert_eq!(direction, "rx");
            assert_eq!(can_id_hex, "7E0");
            assert_eq!(data_hex, "02 10 03");
            assert_eq!(length, 3);
            assert!(!is_flow_control);
        }
        other => panic!("expected a frame event, got {other:?}"),
    }
}

#[test]
fn a_flow_control_frame_is_marked_as_one() {
    let mut channel = TrafficChannel::New();
    let mut receiver = channel.Subscribe();

    let frame = CanFrame::NewClassic(0, 0x7E0, vec![0x30, 0x00, 0x00]);
    channel.OnFrame(FrameDirection::Sent, &frame);

    match receiver.try_recv().expect("an event should be waiting") {
        TrafficEvent::Frame {
            direction,
            is_flow_control,
            ..
        } => {
            assert_eq!(direction, "tx");
            assert!(is_flow_control);
        }
        other => panic!("expected a frame event, got {other:?}"),
    }
}

#[test]
fn a_29_bit_identifier_is_not_squashed_into_three_digits() {
    let mut channel = TrafficChannel::New();
    let mut receiver = channel.Subscribe();

    let frame = CanFrame::NewClassic(0, 0x18DAF110, vec![0x30]);
    channel.OnFrame(FrameDirection::Received, &frame);

    match receiver.try_recv().expect("an event should be waiting") {
        TrafficEvent::Frame { can_id_hex, .. } => assert_eq!(can_id_hex, "18DAF110"),
        other => panic!("expected a frame event, got {other:?}"),
    }
}

#[test]
fn publishing_with_nobody_listening_is_not_an_error() {
    let mut channel = TrafficChannel::New();
    assert_eq!(channel.SubscriberCount(), 0);

    channel.OnFrame(
        FrameDirection::Sent,
        &CanFrame::NewClassic(0, 0x7E8, vec![0x02, 0x50, 0x03]),
    );
}

#[test]
fn a_hardware_exchange_carries_the_decoded_request_not_only_the_frames() {
    let mut channel = TrafficChannel::New();
    let mut receiver = channel.Subscribe();

    let outcome = RoutingOutcome::Handled(vec![RoutedResponse {
        m_strEcuName: "Engine".to_string(),
        m_u32RequestCanId: 0x7E0,
        m_u32ResponseCanId: 0x7E8,
        m_vecResponse: vec![0x50, 0x03],
        m_bySession: 0x03,
        m_bIsSecurityUnlocked: false,
        m_plan: Default::default(),
    }]);
    channel.OnExchange(0x7E0, &[0x10, 0x03], &outcome);

    match receiver.try_recv().expect("an event should be waiting") {
        TrafficEvent::Exchange {
            can_id_hex,
            request_hex,
            addressing,
            routed,
            responses,
            ..
        } => {
            assert_eq!(can_id_hex, "7E0");
            assert_eq!(request_hex, "10 03");
            assert_eq!(addressing, "physical");
            assert!(routed);
            assert_eq!(responses.len(), 1);
            assert_eq!(responses[0].ecu_name, "Engine");
            assert_eq!(responses[0].response_hex, "50 03");
        }
        other => panic!("expected an exchange event, got {other:?}"),
    }
}

#[test]
fn silence_on_the_wire_is_reported_with_its_reason() {
    let mut channel = TrafficChannel::New();
    let mut receiver = channel.Subscribe();

    let arrCases = [
        (RoutingOutcome::Stopped, "stopped"),
        (RoutingOutcome::NoTarget, "unrouted"),
        (
            RoutingOutcome::Silenced {
                strEcuName: "Engine".to_string(),
                strReason: "'Engine' is switched off".to_string(),
            },
            "silenced",
        ),
    ];

    for (outcome, strExpected) in arrCases {
        channel.OnExchange(0x7E0, &[0x22, 0xF1, 0x90], &outcome);

        match receiver.try_recv().expect("an event should be waiting") {
            TrafficEvent::Exchange {
                addressing,
                routed,
                reason,
                ..
            } => {
                assert_eq!(addressing, strExpected);
                assert!(!routed);
                assert!(
                    reason.is_some_and(|strReason| !strReason.is_empty()),
                    "{strExpected} must explain itself"
                );
            }
            other => panic!("expected an exchange event, got {other:?}"),
        }
    }
}


#[test]
fn a_monitor_attaching_later_is_given_what_it_missed() {
    let mut channel = TrafficChannel::New();

    for u32CanId in [0x7E0u32, 0x7E1, 0x7E2] {
        channel.OnFrame(
            FrameDirection::Received,
            &CanFrame::NewClassic(0, u32CanId, vec![0x02, 0x10, 0x03]),
        );
    }

    let (vecHistory, u64Dropped, _receiver) = channel.SubscribeWithHistory();

    assert_eq!(vecHistory.len(), 3);
    assert_eq!(u64Dropped, 0);
    match &vecHistory[0] {
        TrafficEvent::Frame { can_id_hex, .. } => assert_eq!(can_id_hex, "7E0"),
        other => panic!("history should be in order, got {other:?}"),
    }
}

#[test]
fn the_replay_and_the_live_feed_neither_overlap_nor_leave_a_gap() {
    let mut channel = TrafficChannel::New();

    channel.OnFrame(
        FrameDirection::Received,
        &CanFrame::NewClassic(0, 0x111, vec![0x01]),
    );

    let (vecHistory, _dropped, mut receiver) = channel.SubscribeWithHistory();

    channel.OnFrame(
        FrameDirection::Received,
        &CanFrame::NewClassic(0, 0x222, vec![0x02]),
    );

    assert_eq!(vecHistory.len(), 1, "only what happened before attaching");
    match &vecHistory[0] {
        TrafficEvent::Frame { can_id_hex, .. } => assert_eq!(can_id_hex, "111"),
        other => panic!("expected a frame, got {other:?}"),
    }

    match receiver.try_recv().expect("the later event should be live") {
        TrafficEvent::Frame { can_id_hex, .. } => assert_eq!(can_id_hex, "222"),
        other => panic!("expected a frame, got {other:?}"),
    }
    assert!(
        receiver.try_recv().is_err(),
        "the replayed event must not also arrive live"
    );
}

#[test]
fn the_history_is_a_ring_that_reports_what_it_dropped() {
    let mut channel = TrafficChannel::New();

    for uIndex in 0..20_001u32 {
        channel.OnFrame(
            FrameDirection::Received,
            &CanFrame::NewClassic(0, uIndex % 0x7FF, vec![0x01]),
        );
    }

    let (vecHistory, u64Dropped, _receiver) = channel.SubscribeWithHistory();
    assert_eq!(vecHistory.len(), 20_000, "the ring holds its capacity");
    assert_eq!(u64Dropped, 1, "and says what it pushed out");
    assert_eq!(channel.HistoryLength(), 20_000);
}

#[test]
fn a_doip_message_is_named_and_shown_with_its_payload() {
    let mut channel = TrafficChannel::New();
    let mut receiver = channel.Subscribe();
    let arrMessage = [
        0x02, 0xFD, 0x00, 0x08, 0x00, 0x00, 0x00, 0x02, 0x0E, 0x80,
    ];
    channel.OnDoIpMessage(
        DoIpDirection::Received,
        "10.0.0.7:50000",
        false,
        &arrMessage,
    );
    match receiver.try_recv().expect("an event should be waiting") {
        TrafficEvent::DoIp {
            direction,
            peer,
            payload_hex,
            ..
        } => {
            assert_eq!(direction, "rx");
            assert_eq!(peer, "10.0.0.7:50000");
            assert_eq!(payload_hex, "0E 80");
        }
        other => panic!("expected a DoIP event, got {other:?}"),
    }
}

#[test]
fn a_subscriber_is_counted_while_it_listens() {
    let channel = TrafficChannel::New();
    let first = channel.Subscribe();
    let second = channel.Subscribe();
    assert_eq!(channel.SubscriberCount(), 2);
    drop(first);
    assert_eq!(channel.SubscriberCount(), 1);
    drop(second);
    assert_eq!(channel.SubscriberCount(), 0);
}

fn FrameEvent(u32CanId: u32) -> TrafficEvent {
    let mut channel = TrafficChannel::New();
    let mut receiver = channel.Subscribe();
    channel.OnFrame(
        FrameDirection::Received,
        &CanFrame::NewClassic(0, u32CanId, vec![0x01]),
    );
    receiver.try_recv().expect("an event should be waiting")
}

fn Notice() -> TrafficEvent {
    TrafficEvent::Lagged {
        at_ms: 1,
        missed: 2,
    }
}

#[test]
fn a_replay_opens_with_what_it_holds_and_what_it_lost() {
    let vecHistory = vec![FrameEvent(0x111), FrameEvent(0x222), Notice()];
    let query = EventsQuery {
        history: Some(2),
        frames: None,
    };
    let vecPrelude = BuildPrelude(&vecHistory, 5, &query, 99);
    assert_eq!(vecPrelude.len(), 3);
    match &vecPrelude[0] {
        TrafficEvent::Replayed {
            at_ms,
            count,
            dropped_before,
        } => {
            assert_eq!(*at_ms, 99);
            assert_eq!(*count, 2);
            assert_eq!(*dropped_before, 5);
        }
        other => panic!("expected a summary, got {other:?}"),
    }
}

#[test]
fn a_monitor_may_ask_for_no_frames() {
    let vecHistory = vec![FrameEvent(0x111), Notice(), FrameEvent(0x222)];
    let query = EventsQuery {
        history: None,
        frames: Some(false),
    };
    assert!(!query.WantsFrames());
    let vecPrelude = BuildPrelude(&vecHistory, 0, &query, 0);
    assert!(vecPrelude.iter().all(|event| !IsFrameEvent(event)));

    assert!(FilterLive(LiveItem::Event(FrameEvent(0x111)), false, 0).is_none());
    assert!(FilterLive(LiveItem::Event(FrameEvent(0x111)), true, 0).is_some());
    match FilterLive(LiveItem::Lagged(412), false, 7) {
        Some(TrafficEvent::Lagged { at_ms, missed }) => {
            assert_eq!(at_ms, 7);
            assert_eq!(missed, 412);
        }
        other => panic!("a lag is always told, got {other:?}"),
    }
}

#[test]
fn a_long_replay_is_sent_in_batches_of_sixty_four() {
    let vecEvents: Vec<TrafficEvent> = (0..130).map(|_| Notice()).collect();
    let vecSizes: Vec<usize> = BuildBatches(&vecEvents).iter().map(Vec::len).collect();
    assert_eq!(vecSizes, vec![64, 64, 2]);
    assert!(BuildBatches(&Vec::new()).is_empty());
}

#[test]
fn a_request_too_large_for_its_subnetwork_is_reported_as_refused() {
    let mut channel = TrafficChannel::New();
    let mut receiver = channel.Subscribe();
    let outcome = RoutingOutcome::TooLargeForSubnetwork {
        uRequestBytes: 5000,
        uMaxBytes: 4095,
        strEcuName: "Engine".to_string(),
    };
    channel.OnExchange(0x7E0, &[0x36, 0x01], &outcome);
    match receiver.try_recv().expect("an event should be waiting") {
        TrafficEvent::Exchange {
            addressing,
            routed,
            reason,
            ..
        } => {
            assert_eq!(addressing, "refused");
            assert!(!routed);
            let strReason = reason.expect("a reason");
            assert!(strReason.contains("5000") && strReason.contains("4095"));
        }
        other => panic!("expected an exchange event, got {other:?}"),
    }
}

fn Lifecycle(strWhat: &str) -> TrafficEvent {
    TrafficEvent::Lifecycle {
        at_ms: 0,
        what: strWhat.to_string(),
    }
}

/// Everything a receiver has waiting: what happened, or how many it missed.
fn TakeAll(
    channel: &TrafficChannel,
    receiver: &mut tokio::sync::broadcast::Receiver<TrafficEvent>,
) -> Vec<Result<String, u64>> {
    let mut vecTaken = Vec::new();
    while let Some(item) = channel.TakeLive(receiver) {
        vecTaken.push(match item {
            LiveItem::Event(TrafficEvent::Lifecycle { what, .. }) => Ok(what),
            LiveItem::Event(other) => panic!("expected a lifecycle event, got {other:?}"),
            LiveItem::Lagged(u64Missed) => Err(u64Missed),
        });
    }
    vecTaken
}

#[test]
fn a_receiver_yields_what_was_published_after_it_subscribed() {
    let mut channel = TrafficChannel::New();
    channel.Publish(Lifecycle("e1"));
    channel.Publish(Lifecycle("e2"));
    let (vecHistory, u64Dropped, mut receiver) = channel.SubscribeWithHistory();
    assert_eq!(vecHistory.len(), 2);
    assert_eq!(u64Dropped, 0);
    assert!(TakeAll(&channel, &mut receiver).is_empty());
    channel.Publish(Lifecycle("f1"));
    channel.Publish(Lifecycle("f2"));
    assert_eq!(
        TakeAll(&channel, &mut receiver),
        vec![Ok("f1".to_string()), Ok("f2".to_string())]
    );
    channel.Publish(Lifecycle("f3"));
    assert_eq!(
        TakeAll(&channel, &mut receiver),
        vec![Ok("f3".to_string())]
    );
}

#[test]
fn a_full_channel_loses_nothing_and_one_more_event_is_reported_as_missed() {
    let mut channel = TrafficChannel::New();
    let mut receiver = channel.Subscribe();
    for uIndex in 0..2048 {
        channel.Publish(Lifecycle(&format!("{uIndex}")));
    }
    let vecTaken = TakeAll(&channel, &mut receiver);
    assert_eq!(vecTaken.len(), 2048);
    assert_eq!(vecTaken[0], Ok("0".to_string()));
    assert_eq!(vecTaken[2047], Ok("2047".to_string()));

    for uIndex in 0..2051 {
        channel.Publish(Lifecycle(&format!("{uIndex}")));
    }
    let vecTaken = TakeAll(&channel, &mut receiver);
    assert_eq!(vecTaken.len(), 2049);
    assert_eq!(vecTaken[0], Err(3));
    assert_eq!(vecTaken[1], Ok("3".to_string()));
    assert_eq!(vecTaken[2048], Ok("2050".to_string()));
}
