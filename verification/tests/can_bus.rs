//! CAN frames, bus load and fault confinement.

#![allow(non_snake_case, non_upper_case_globals)]

use vehicle_sim::can::busload::c_uMaxBuckets;
use vehicle_sim::can::busload::BusLoadMeter;
use vehicle_sim::can::busload::BusLoadSample;
use vehicle_sim::can::confinement::c_u16ErrorPassiveThreshold;
use vehicle_sim::can::confinement::BusState;
use vehicle_sim::can::confinement::FaultConfinement;
use vehicle_sim::can::CanFrame;

#[test]
fn classic_frame_infers_extended_from_id() {
    let frame = CanFrame::NewClassic(0, 0x7E0, vec![0x02, 0x10, 0x03]);
    assert!(!frame.m_bIsExtended);
    assert_eq!(frame.DataLength(), 3);

    let extended = CanFrame::NewClassic(0, 0x18DA10F1, vec![]);
    assert!(extended.m_bIsExtended);
}

fn DataFrame(u64AtUs: u64, u32CanId: u32, uBytes: usize) -> CanFrame {
    CanFrame::NewClassic(u64AtUs, u32CanId, vec![0xAA; uBytes])
}

fn LoadNominal(sample: &BusLoadSample) -> f64 {
    sample.m_u64LoadNominalBits as f64 / sample.m_u64CapacityBits as f64
}

fn LoadWorstCase(sample: &BusLoadSample) -> f64 {
    sample.m_u64LoadWorstCaseBits as f64 / sample.m_u64CapacityBits as f64
}

#[test]
fn a_standard_eight_byte_frame_is_one_hundred_and_eleven_bits() {
    let frame = DataFrame(0, 0x7E0, 8);
    assert_eq!(frame.BitsOnWire(), 111);

    let extended = DataFrame(0, 0x18DAF110, 8);
    assert_eq!(extended.BitsOnWire(), 131);
}

#[test]
fn a_remote_frame_carries_a_length_but_no_data_bits() {
    let remote = CanFrame::NewRemote(0, 0x7E0, 8);
    assert_eq!(
        remote.BitsOnWire(),
        47,
        "a remote frame asks for eight bytes and carries none of them"
    );
    assert_eq!(
        remote.DataLengthCode(),
        8,
        "the length it asks for survives"
    );
    assert!(remote.m_vecData.is_empty());
}

#[test]
fn load_is_the_share_of_wire_time_not_the_frame_count() {
    let mut meterData = BusLoadMeter::New(500_000);
    let mut meterRemote = BusLoadMeter::New(500_000);
    for u64Index in 0..100u64 {
        let u64AtUs = u64Index * 1_000;
        meterData.Record(&DataFrame(u64AtUs, 0x7E0, 8));
        meterRemote.Record(&CanFrame::NewRemote(u64AtUs, 0x7E0, 8));
    }

    let data = meterData.Current().expect("a bucket");
    let remote = meterRemote.Current().expect("a bucket");
    assert_eq!(data.m_u64Frames, remote.m_u64Frames, "same number of frames");
    assert!(
        LoadNominal(&data) > LoadNominal(&remote) * 2.0,
        "and very different load: {:.4} against {:.4}",
        LoadNominal(&data),
        LoadNominal(&remote)
    );
    assert!((LoadNominal(&data) - 0.0222).abs() < 0.0005);
    assert_eq!(data.m_u64LoadNominalBits, 11_100);
}

#[test]
fn the_worst_case_bounds_the_nominal_rather_than_replacing_it() {
    let mut meter = BusLoadMeter::New(500_000);
    for u64Index in 0..1000u64 {
        meter.Record(&DataFrame(u64Index * 100, 0x18DAF110, 8));
    }

    let sample = meter.Current().expect("a bucket");
    assert!(LoadWorstCase(&sample) > LoadNominal(&sample));
    assert!(
        LoadWorstCase(&sample) <= 1.0,
        "load can never exceed the bus"
    );
}

#[test]
fn buckets_are_one_second_and_the_history_is_bounded() {
    let mut meter = BusLoadMeter::New(500_000);
    for u64Second in 0..300u64 {
        meter.Record(&DataFrame(u64Second * 1_000_000 + 500_000, 0x7E0, 8));
    }

    let vecSamples = meter.Samples();
    assert_eq!(vecSamples.len(), c_uMaxBuckets, "the oldest are dropped");
    assert_eq!(
        vecSamples.last().expect("a sample").m_u64AtSec,
        299,
        "and the newest is kept"
    );
    assert!(vecSamples
        .windows(2)
        .all(|pair| pair[0].m_u64AtSec < pair[1].m_u64AtSec));
}

#[test]
fn an_idle_bus_reads_as_idle_rather_than_as_nothing() {
    let meter = BusLoadMeter::New(500_000);
    assert!(meter.Samples().is_empty());
    assert_eq!(meter.Current(), None);
    assert_eq!(meter.Peak(), None);
}

#[test]
fn the_peak_is_the_busiest_finished_second() {
    let mut meter = BusLoadMeter::New(500_000);
    for (u64Second, uFrames) in [(0u64, 3usize), (1, 7), (2, 5), (3, 100)] {
        for _ in 0..uFrames {
            meter.Record(&DataFrame(u64Second * 1_000_000, 0x7E0, 8));
        }
    }
    let peak = meter.Peak().expect("three finished seconds");
    assert_eq!(peak.m_u64AtSec, 1);
    assert_eq!(peak.m_u64LoadNominalBits, 7 * 111);
    assert_eq!(meter.Current().expect("a bucket").m_u64Frames, 100);
    assert_eq!(meter.BitrateBps(), 500_000);
}

#[test]
fn a_late_frame_is_counted_into_the_second_being_filled() {
    let mut meter = BusLoadMeter::New(500_000);
    meter.Record(&DataFrame(5_000_000, 0x7E0, 8));
    meter.Record(&DataFrame(4_000_000, 0x7E0, 8));
    assert_eq!(meter.Samples().len(), 1);
    assert_eq!(meter.Current().expect("a bucket").m_u64Frames, 2);
}

#[test]
fn stuffing_is_bounded_by_one_bit_in_four() {
    assert_eq!(DataFrame(0, 0x7E0, 8).MaxStuffBits(), (111 - 13) / 4);
}

#[test]
fn a_fresh_node_is_error_active() {
    let confinement = FaultConfinement::default();
    assert_eq!(confinement.State(), BusState::ErrorActive);
    assert!(confinement.State().CanTransmit());
}

#[test]
fn transmit_errors_walk_a_node_through_every_state() {
    let mut confinement = FaultConfinement::default();
    for _ in 0..16 {
        confinement.OnTransmitError();
    }
    assert_eq!(confinement.m_u16TransmitErrorCount, 128);
    assert_eq!(confinement.State(), BusState::ErrorPassive);
    assert!(
        confinement.State().CanTransmit(),
        "error-passive still answers; that is what separates it from bus-off"
    );

    for _ in 0..16 {
        confinement.OnTransmitError();
    }
    assert_eq!(confinement.State(), BusState::BusOff);
    assert!(!confinement.State().CanTransmit());
}

#[test]
fn receive_errors_can_reach_passive_but_never_bus_off() {
    let mut confinement = FaultConfinement::default();
    for _ in 0..1000 {
        confinement.OnReceiveError();
    }
    assert_eq!(confinement.State(), BusState::ErrorPassive);
    assert!(confinement.State().CanTransmit());
    assert!(!confinement.m_bIsBusOff);
}

#[test]
fn a_bus_off_node_stays_off_until_it_is_recovered() {
    let mut confinement = FaultConfinement::default();
    confinement.ForceState(BusState::BusOff);

    for _ in 0..500 {
        confinement.OnTransmitSuccess();
        confinement.OnReceiveSuccess();
    }
    assert_eq!(
        confinement.State(),
        BusState::BusOff,
        "success does not undo it"
    );

    confinement.Recover();
    assert_eq!(confinement.State(), BusState::ErrorActive);
    assert_eq!(confinement.m_u16TransmitErrorCount, 0);
}

#[test]
fn forcing_a_state_leaves_counters_that_state_could_have_reached() {
    let mut confinement = FaultConfinement::default();
    confinement.ForceState(BusState::ErrorPassive);
    assert!(confinement.m_u16TransmitErrorCount > c_u16ErrorPassiveThreshold);

    for _ in 0..16 {
        confinement.OnTransmitError();
    }
    assert_eq!(
        confinement.State(),
        BusState::BusOff,
        "a forced-passive node reaches bus-off in the same number of errors as a counted one"
    );
}

#[test]
fn success_earns_back_one_count_at_a_time() {
    let mut confinement = FaultConfinement::default();
    confinement.OnTransmitError();
    assert_eq!(confinement.m_u16TransmitErrorCount, 8);

    for _ in 0..8 {
        confinement.OnTransmitSuccess();
    }
    assert_eq!(confinement.m_u16TransmitErrorCount, 0);

    confinement.OnTransmitSuccess();
    assert_eq!(confinement.m_u16TransmitErrorCount, 0);
}

#[test]
fn every_state_is_described_in_words() {
    for state in [BusState::ErrorActive, BusState::ErrorPassive, BusState::BusOff] {
        assert!(!state.Describe().is_empty());
    }
    assert_eq!(BusState::default(), BusState::ErrorActive);
}
