//! Bus load: how much of a CAN bus's capacity the traffic on it is using.
//!
//! Load is the share of wire time frames occupy, so it is computed from bits, not from a frame
//! count. Frame lengths are nominal: bit stuffing adds bits that depend on the payload's bit
//! pattern and on a CRC, so a measured load is a floor. The worst-case stuffing is tracked
//! alongside it, which makes the answer a range that contains the truth.
//!
//! A load is kept as a number of bits out of the bits the bus can carry in one bucket, both of
//! them integers; their quotient is the load.

use std::collections::VecDeque;

use vstd::prelude::*;

use crate::bytes::min_int;
use crate::can::CanFrame;

verus! {

/// How long each bucket of the series covers, in microseconds.
pub const c_u64BucketUs: u64 = 1_000_000;

/// How many buckets to keep: two minutes at one second each.
pub const c_uMaxBuckets: usize = 120;

/// One second of bus activity.
#[derive(Debug, Clone, Copy, PartialEq, Eq, Structural)]
pub struct BusLoadSample {
    /// When this bucket began, in whole seconds of the clock the frames are stamped with.
    pub m_u64AtSec: u64,
    /// Frames counted in it.
    pub m_u64Frames: u64,
    /// Bits the traffic occupied at minimum, stuffing excluded, capped at the capacity.
    pub m_u64LoadNominalBits: u64,
    /// The same with every frame stuffed as heavily as the standard allows.
    pub m_u64LoadWorstCaseBits: u64,
    /// Bits the bus can carry in one bucket.
    pub m_u64CapacityBits: u64,
}

#[derive(Debug, Clone, Copy)]
struct Bucket {
    m_u64StartedAtSec: u64,
    m_u64Frames: u64,
    m_u64BitsNominal: u64,
    m_u64BitsWorstCase: u64,
}

/// What one bucket has counted.
pub ghost struct BucketView {
    pub second: int,
    pub frames: int,
    pub nominal: int,
    pub worst_case: int,
}

impl Bucket {
    spec fn view(&self) -> BucketView {
        BucketView {
            second: self.m_u64StartedAtSec as int,
            frames: self.m_u64Frames as int,
            nominal: self.m_u64BitsNominal as int,
            worst_case: self.m_u64BitsWorstCase as int,
        }
    }
}

/// Accumulates frames into per-second buckets and reports the recent history.
#[derive(Debug)]
pub struct BusLoadMeter {
    m_u32BitrateBps: u32,
    m_dequeBuckets: VecDeque<Bucket>,
}

/// The bitrate a meter measures against and its buckets, oldest first.
pub ghost struct MeterView {
    pub bitrate: int,
    pub buckets: Seq<BucketView>,
}

impl View for BusLoadMeter {
    type V = MeterView;

    closed spec fn view(&self) -> MeterView {
        MeterView {
            bitrate: self.m_u32BitrateBps as int,
            buckets: Seq::new(self.m_dequeBuckets@.len(), |i: int| self.m_dequeBuckets@[i]@),
        }
    }
}

/// The last entries of a history, at most 120 of them.
pub open spec fn recent(buckets: Seq<BucketView>) -> Seq<BucketView> {
    if buckets.len() <= 120 {
        buckets
    } else {
        buckets.skip(buckets.len() - 120)
    }
}

/// Bits a frame takes with every stuff bit it could attract.
pub open spec fn worst_case_bits(frame: CanFrame) -> int {
    frame.bits_on_wire() as int + frame.max_stuff_bits()
}

/// A bucket with one more frame counted.
pub open spec fn counted(bucket: BucketView, frame: CanFrame) -> BucketView {
    BucketView {
        second: bucket.second,
        frames: bucket.frames + 1,
        nominal: bucket.nominal + frame.bits_on_wire(),
        worst_case: bucket.worst_case + worst_case_bits(frame),
    }
}

/// A frame goes into the bucket being filled: it is not of a later second than that.
pub open spec fn joins_last(buckets: Seq<BucketView>, frame: CanFrame) -> bool {
    buckets.len() > 0 && buckets.last().second >= frame.m_u64TimestampUs as int / 1_000_000
}

/// The history after a frame. A frame stamped earlier than the bucket being filled is counted into
/// that bucket rather than reopening a closed one.
pub open spec fn recorded(buckets: Seq<BucketView>, frame: CanFrame) -> Seq<BucketView> {
    if joins_last(buckets, frame) {
        buckets.update(buckets.len() - 1, counted(buckets.last(), frame))
    } else {
        recent(
            buckets.push(
                counted(
                    BucketView {
                        second: frame.m_u64TimestampUs as int / 1_000_000,
                        frames: 0,
                        nominal: 0,
                        worst_case: 0,
                    },
                    frame,
                ),
            ),
        )
    }
}

/// The counts of a frame's bucket, with the frame, fit the counters.
pub open spec fn has_room(buckets: Seq<BucketView>, frame: CanFrame) -> bool {
    &&& 8 * frame.m_vecData@.len() + 67 <= usize::MAX
    &&& worst_case_bits(frame) <= u64::MAX
    &&& joins_last(buckets, frame) ==> {
        let after = counted(buckets.last(), frame);
        after.frames <= u64::MAX && after.nominal <= u64::MAX && after.worst_case <= u64::MAX
    }
}

/// The sample a bucket is reported as.
pub open spec fn sample_of(bucket: BucketView, bitrate: int) -> BusLoadSample {
    BusLoadSample {
        m_u64AtSec: bucket.second as u64,
        m_u64Frames: bucket.frames as u64,
        m_u64LoadNominalBits: min_int(bucket.nominal, bitrate) as u64,
        m_u64LoadWorstCaseBits: min_int(bucket.worst_case, bitrate) as u64,
        m_u64CapacityBits: bitrate as u64,
    }
}

/// The samples of a history.
pub open spec fn samples(m: MeterView) -> Seq<BusLoadSample> {
    Seq::new(m.buckets.len(), |i: int| sample_of(m.buckets[i], m.bitrate))
}

/// The position of the highest nominal load; the latest of several.
pub open spec fn highest(list: Seq<BusLoadSample>) -> int
    decreases list.len(),
{
    if list.len() <= 1 {
        0
    } else {
        let before = highest(list.drop_last());
        if list.last().m_u64LoadNominalBits >= list[before].m_u64LoadNominalBits {
            list.len() - 1
        } else {
            before
        }
    }
}

impl BusLoadMeter {
    /// A meter for a bus running at this bitrate.
    pub fn New(u32BitrateBps: u32) -> (meter: Self)
        ensures
            meter@ == (MeterView { bitrate: u32BitrateBps as int, buckets: seq![] }),
    {
        let meter = BusLoadMeter {
            m_u32BitrateBps: u32BitrateBps,
            m_dequeBuckets: VecDeque::with_capacity(c_uMaxBuckets),
        };
        assert(meter@.buckets =~= seq![]);
        meter
    }

    /// The bitrate load is measured against.
    pub fn BitrateBps(&self) -> (u32BitrateBps: u32)
        ensures
            u32BitrateBps == self@.bitrate,
    {
        self.m_u32BitrateBps
    }

    /// Count one frame at the time it crossed the bus.
    pub fn Record(&mut self, frame: &CanFrame)
        requires
            has_room(old(self)@.buckets, *frame),
        ensures
            final(self)@ == (MeterView {
                buckets: recorded(old(self)@.buckets, *frame),
                ..old(self)@
            }),
    {
        let u64Nominal: u64 = frame.BitsOnWire() as u64;
        let u64WorstCase: u64 = u64Nominal + frame.MaxStuffBits() as u64;
        let u64BucketStart: u64 = frame.m_u64TimestampUs / c_u64BucketUs;
        let uCount: usize = self.m_dequeBuckets.len();
        if uCount > 0 {
            let last: Bucket = self.m_dequeBuckets[uCount - 1];
            assert(self@.buckets.last() == last@);
            if last.m_u64StartedAtSec >= u64BucketStart {
                let bucket = Bucket {
                    m_u64StartedAtSec: last.m_u64StartedAtSec,
                    m_u64Frames: last.m_u64Frames + 1,
                    m_u64BitsNominal: last.m_u64BitsNominal + u64Nominal,
                    m_u64BitsWorstCase: last.m_u64BitsWorstCase + u64WorstCase,
                };
                let _ = self.m_dequeBuckets.pop_back();
                self.m_dequeBuckets.push_back(bucket);
                assert(self@.buckets =~= recorded(old(self)@.buckets, *frame));
                return;
            }
        }
        self.m_dequeBuckets.push_back(
            Bucket {
                m_u64StartedAtSec: u64BucketStart,
                m_u64Frames: 1,
                m_u64BitsNominal: u64Nominal,
                m_u64BitsWorstCase: u64WorstCase,
            },
        );
        let ghost all = self@.buckets;
        assert(recorded(old(self)@.buckets, *frame) == recent(all)) by {
            assert(all =~= old(self)@.buckets.push(all.last()));
        }
        while self.m_dequeBuckets.len() > c_uMaxBuckets
            invariant
                self@.bitrate == old(self)@.bitrate,
                recent(self@.buckets) == recent(all),
            decreases self.m_dequeBuckets@.len(),
        {
            let ghost before = self@.buckets;
            let _ = self.m_dequeBuckets.pop_front();
            assert(self@.buckets =~= before.skip(1));
            assert(recent(self@.buckets) =~= recent(before));
        }
    }

    /// The recent history, oldest first.
    pub fn Samples(&self) -> (vecSamples: Vec<BusLoadSample>)
        ensures
            vecSamples@ == samples(self@),
    {
        let mut vecSamples: Vec<BusLoadSample> = Vec::new();
        let mut uAt: usize = 0;
        while uAt < self.m_dequeBuckets.len()
            invariant
                uAt <= self.m_dequeBuckets@.len(),
                vecSamples@ == samples(self@).take(uAt as int),
            decreases self.m_dequeBuckets@.len() - uAt,
        {
            vecSamples.push(self.SampleOf(&self.m_dequeBuckets[uAt]));
            uAt += 1;
            assert(vecSamples@ =~= samples(self@).take(uAt as int));
        }
        assert(vecSamples@ =~= samples(self@));
        vecSamples
    }

    /// The bucket currently being filled, or `None` when nothing has crossed the bus yet.
    ///
    /// Reported separately because it is incomplete by definition: a bucket a tenth of a second
    /// old reads as a tenth of the load it will finish at.
    pub fn Current(&self) -> (optSample: Option<BusLoadSample>)
        ensures
            optSample == (if self@.buckets.len() == 0 {
                None
            } else {
                Some(samples(self@).last())
            }),
    {
        let uCount: usize = self.m_dequeBuckets.len();
        if uCount == 0 {
            return None;
        }
        Some(self.SampleOf(&self.m_dequeBuckets[uCount - 1]))
    }

    /// The highest finished bucket in the history, which is what a sizing question asks about.
    pub fn Peak(&self) -> (optSample: Option<BusLoadSample>)
        ensures
            optSample == (if self@.buckets.len() <= 1 {
                None
            } else {
                let finished = samples(self@).drop_last();
                Some(finished[highest(finished)])
            }),
    {
        let uCount: usize = self.m_dequeBuckets.len();
        if uCount <= 1 {
            return None;
        }
        let ghost finished = samples(self@).drop_last();
        let mut peak: BusLoadSample = self.SampleOf(&self.m_dequeBuckets[0]);
        let mut uAt: usize = 1;
        while uAt < uCount - 1
            invariant
                1 <= uAt <= uCount - 1,
                uCount == self.m_dequeBuckets@.len(),
                finished == samples(self@).drop_last(),
                0 <= highest(finished.take(uAt as int)) < uAt,
                peak == finished[highest(finished.take(uAt as int))],
            decreases uCount - uAt,
        {
            let sample: BusLoadSample = self.SampleOf(&self.m_dequeBuckets[uAt]);
            assert(finished.take(uAt + 1).drop_last() =~= finished.take(uAt as int));
            assert(sample == finished[uAt as int]);
            if sample.m_u64LoadNominalBits >= peak.m_u64LoadNominalBits {
                peak = sample;
            }
            uAt += 1;
        }
        assert(finished.take(uAt as int) =~= finished);
        Some(peak)
    }

    fn SampleOf(&self, bucket: &Bucket) -> (sample: BusLoadSample)
        ensures
            sample == sample_of(bucket@, self@.bitrate),
    {
        let u64Capacity: u64 = self.m_u32BitrateBps as u64;
        BusLoadSample {
            m_u64AtSec: bucket.m_u64StartedAtSec,
            m_u64Frames: bucket.m_u64Frames,
            m_u64LoadNominalBits: if bucket.m_u64BitsNominal < u64Capacity {
                bucket.m_u64BitsNominal
            } else {
                u64Capacity
            },
            m_u64LoadWorstCaseBits: if bucket.m_u64BitsWorstCase < u64Capacity {
                bucket.m_u64BitsWorstCase
            } else {
                u64Capacity
            },
            m_u64CapacityBits: u64Capacity,
        }
    }
}

/// A history is bounded, its seconds ascend, and each bucket's worst case is at least its nominal
/// count.
pub open spec fn is_history(buckets: Seq<BucketView>) -> bool {
    &&& buckets.len() <= 120
    &&& forall|i: int, j: int|
        0 <= i < j < buckets.len() ==> (#[trigger] buckets[i]).second < (
        #[trigger] buckets[j]).second
    &&& forall|i: int|
        0 <= i < buckets.len() ==> 0 <= (#[trigger] buckets[i]).nominal <= buckets[i].worst_case
}

/// Recording keeps the history bounded and in order, whatever the frames' clock does, and never
/// leaves it empty.
pub proof fn law_recording_keeps_the_history(buckets: Seq<BucketView>, frame: CanFrame)
    requires
        is_history(buckets),
    ensures
        is_history(recorded(buckets, frame)),
        is_history(Seq::<BucketView>::empty()),
        recorded(buckets, frame).len() > 0,
{
}

/// The load range contains the truth: no sample's nominal load is above its worst case, and
/// neither is above the bus's capacity.
pub proof fn law_load_is_a_range_within_capacity(m: MeterView, i: int)
    requires
        is_history(m.buckets),
        0 <= m.bitrate <= u32::MAX,
        0 <= i < m.buckets.len(),
    ensures
        samples(m)[i].m_u64LoadNominalBits <= samples(m)[i].m_u64LoadWorstCaseBits,
        samples(m)[i].m_u64LoadWorstCaseBits <= samples(m)[i].m_u64CapacityBits,
{
}

/// The peak is a finished bucket, and no finished bucket has a higher nominal load.
pub proof fn law_peak_is_the_maximum(list: Seq<BusLoadSample>, i: int)
    requires
        0 <= i < list.len(),
    ensures
        0 <= highest(list) < list.len(),
        list[i].m_u64LoadNominalBits <= list[highest(list)].m_u64LoadNominalBits,
    decreases list.len(),
{
    if list.len() > 1 {
        if i < list.len() - 1 {
            law_peak_is_the_maximum(list.drop_last(), i);
        } else {
            law_peak_is_the_maximum(list.drop_last(), 0);
        }
    }
}

} // verus!
