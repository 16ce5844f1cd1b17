//! What a frame costs the bus, and what errors cost a node.

use vstd::prelude::*;

use crate::can::busload::recorded;
use crate::can::busload::samples;
use crate::can::busload::BucketView;
use crate::can::busload::MeterView;
use crate::can::confinement::after_event;
use crate::can::confinement::after_events;
use crate::can::confinement::fresh_node;
use crate::can::confinement::FaultConfinement;
use crate::can::confinement::NodeEvent;
use crate::can::CanFrame;

verus! {

/// What a frame takes on the wire: 47 bits for an 11-bit identifier and 67 for a 29-bit one, eight
/// more for each byte it carries, and none for the bytes a remote frame only asks for. Stuffing
/// adds at most one bit for every four, the last thirteen aside.
pub proof fn law_what_a_frame_takes_on_the_wire(frame: CanFrame)
    ensures
        ({
            let bits = frame.bits_on_wire();
            let stuffed = frame.max_stuff_bits();
            &&& !frame.m_bIsExtended && !frame.m_bIsRemote ==> bits == 47 + 8
                * frame.m_vecData@.len()
            &&& frame.m_bIsExtended && !frame.m_bIsRemote ==> bits == 67 + 8
                * frame.m_vecData@.len()
            &&& !frame.m_bIsExtended && frame.m_bIsRemote ==> bits == 47
            &&& frame.m_bIsExtended && frame.m_bIsRemote ==> bits == 67
            &&& 4 * stuffed <= bits - 13 < 4 * stuffed + 4
        }),
{
}

/// Counting a frame adds it once: to the second being filled where it is not of a later one, and
/// to a new second otherwise, which is the one it is stamped in. It adds one frame, the bits the
/// frame takes, and in the worst case the bits it could be stuffed with. Of the seconds before
/// that one nothing changes, and the most recent 119 of them stay.
pub proof fn law_a_frame_is_counted_once(buckets: Seq<BucketView>, frame: CanFrame)
    requires
        buckets.len() <= 120,
    ensures
        ({
            let after = recorded(buckets, frame);
            let second = frame.m_u64TimestampUs as int / 1_000_000;
            let bits = frame.bits_on_wire() as int;
            let worst = bits + (bits - 13) / 4;
            let joins = buckets.len() > 0 && second <= buckets.last().second;
            let kept = if joins {
                buckets.drop_last()
            } else {
                buckets
            };
            &&& after.len() > 0
            &&& joins ==> after.last() == (BucketView {
                second: buckets.last().second,
                frames: buckets.last().frames + 1,
                nominal: buckets.last().nominal + bits,
                worst_case: buckets.last().worst_case + worst,
            })
            &&& !joins ==> after.last() == (BucketView {
                second,
                frames: 1,
                nominal: bits,
                worst_case: worst,
            })
            &&& kept.len() <= 119 ==> after.drop_last() == kept
            &&& kept.len() > 119 ==> after.drop_last() == kept.skip(kept.len() - 119)
        }),
{
    let after = recorded(buckets, frame);
    let second = frame.m_u64TimestampUs as int / 1_000_000;
    let joins = buckets.len() > 0 && second <= buckets.last().second;
    if joins {
        assert(after.drop_last() =~= buckets.drop_last());
    } else if buckets.len() <= 119 {
        assert(after.drop_last() =~= buckets);
    } else {
        assert(after.drop_last() =~= buckets.skip(buckets.len() - 119));
    }
}

/// A second is reported as it was counted, against what the bus carries in a second: the load is
/// the bits counted, and a full bus where more were.
pub proof fn law_a_second_is_reported_as_counted(m: MeterView, i: int)
    requires
        0 <= i < m.buckets.len(),
        0 <= m.bitrate <= u32::MAX,
        0 <= m.buckets[i].second <= u64::MAX,
        0 <= m.buckets[i].frames <= u64::MAX,
        0 <= m.buckets[i].nominal <= u64::MAX,
        0 <= m.buckets[i].worst_case <= u64::MAX,
    ensures
        ({
            let bucket = m.buckets[i];
            let sample = samples(m)[i];
            &&& samples(m).len() == m.buckets.len()
            &&& sample.m_u64AtSec == bucket.second
            &&& sample.m_u64Frames == bucket.frames
            &&& sample.m_u64CapacityBits == m.bitrate
            &&& bucket.nominal <= m.bitrate ==> sample.m_u64LoadNominalBits == bucket.nominal
            &&& bucket.nominal > m.bitrate ==> sample.m_u64LoadNominalBits == m.bitrate
            &&& bucket.worst_case <= m.bitrate ==> sample.m_u64LoadWorstCaseBits
                == bucket.worst_case
            &&& bucket.worst_case > m.bitrate ==> sample.m_u64LoadWorstCaseBits == m.bitrate
        }),
{
}

/// What each event costs a node on the bus: a transmit error eight counts and a receive error one,
/// a success earns one back, and no event touches the other counter. The receive counter stops at
/// 255, and a transmit counter past 255 takes the node off the bus.
pub proof fn law_what_errors_cost(c: FaultConfinement)
    requires
        !c.m_bIsBusOff,
        c.m_u16TransmitErrorCount <= 255,
        c.m_u16ReceiveErrorCount <= 255,
    ensures
        ({
            let sent = after_event(c, NodeEvent::TransmitError);
            let heard = after_event(c, NodeEvent::ReceiveError);
            let good = after_event(c, NodeEvent::TransmitSuccess);
            let fine = after_event(c, NodeEvent::ReceiveSuccess);
            &&& sent.m_u16TransmitErrorCount == c.m_u16TransmitErrorCount + 8
            &&& sent.m_u16ReceiveErrorCount == c.m_u16ReceiveErrorCount
            &&& sent.m_bIsBusOff == (c.m_u16TransmitErrorCount + 8 > 255)
            &&& c.m_u16ReceiveErrorCount < 255 ==> heard.m_u16ReceiveErrorCount
                == c.m_u16ReceiveErrorCount + 1
            &&& c.m_u16ReceiveErrorCount == 255 ==> heard == c
            &&& heard.m_u16TransmitErrorCount == c.m_u16TransmitErrorCount && !heard.m_bIsBusOff
            &&& c.m_u16TransmitErrorCount > 0 ==> good.m_u16TransmitErrorCount
                == c.m_u16TransmitErrorCount - 1
            &&& c.m_u16TransmitErrorCount == 0 ==> good == c
            &&& good.m_u16ReceiveErrorCount == c.m_u16ReceiveErrorCount && !good.m_bIsBusOff
            &&& c.m_u16ReceiveErrorCount > 0 ==> fine.m_u16ReceiveErrorCount
                == c.m_u16ReceiveErrorCount - 1
            &&& c.m_u16ReceiveErrorCount == 0 ==> fine == c
            &&& fine.m_u16TransmitErrorCount == c.m_u16TransmitErrorCount && !fine.m_bIsBusOff
        }),
{
}

/// The state of a node: off the bus once it has been driven off; passive with either counter past
/// 127; active otherwise. A node that has made no errors is active.
pub proof fn law_counters_decide_the_state(c: FaultConfinement)
    ensures
        c.state() is BusOff <==> c.m_bIsBusOff,
        c.state() is ErrorPassive <==> !c.m_bIsBusOff && (c.m_u16TransmitErrorCount >= 128
            || c.m_u16ReceiveErrorCount >= 128),
        fresh_node().state() is ErrorActive,
        fresh_node().m_u16TransmitErrorCount == 0,
        fresh_node().m_u16ReceiveErrorCount == 0,
{
}

/// Eight good transmissions make up for one bad one.
pub proof fn law_eight_successes_undo_an_error(c: FaultConfinement)
    requires
        !c.m_bIsBusOff,
        c.m_u16TransmitErrorCount <= 247,
    ensures
        after_events(
            after_event(c, NodeEvent::TransmitError),
            Seq::new(8, |i: int| NodeEvent::TransmitSuccess),
        ) == c,
{
    let bad = after_event(c, NodeEvent::TransmitError);
    lemma_successes_count_down(bad, 8);
}

proof fn lemma_successes_count_down(c: FaultConfinement, n: nat)
    requires
        !c.m_bIsBusOff,
        n <= c.m_u16TransmitErrorCount,
    ensures
        after_events(c, Seq::new(n, |i: int| NodeEvent::TransmitSuccess)) == (FaultConfinement {
            m_u16TransmitErrorCount: (c.m_u16TransmitErrorCount - n) as u16,
            ..c
        }),
    decreases n,
{
    let events = Seq::new(n, |i: int| NodeEvent::TransmitSuccess);
    if n > 0 {
        let fewer = (n - 1) as nat;
        lemma_successes_count_down(c, fewer);
        assert(events.drop_last() =~= Seq::new(fewer, |i: int| NodeEvent::TransmitSuccess));
    }
}

} // verus!
