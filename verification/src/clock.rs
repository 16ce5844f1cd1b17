//! Reading the wall clock.
//!
//! What the clock says depends on the machine and the moment, so nothing is claimed of a reading;
//! what is made of one is stated.

use vstd::prelude::*;

verus! {

/// `std::time::SystemTime`: a reading of the system clock.
#[verifier::external_type_specification]
#[verifier::external_body]
pub struct ExSystemTime(std::time::SystemTime);

/// `std::time::SystemTimeError`: the clock reads earlier than the instant it is compared with.
#[verifier::external_type_specification]
#[verifier::external_body]
pub struct ExSystemTimeError(std::time::SystemTimeError);

/// How long a span is, in nanoseconds.
pub uninterp spec fn span_nanos(duration: std::time::Duration) -> nat;

/// How long after the Unix epoch a reading of the clock is, in nanoseconds; `None` when it is
/// before it.
pub uninterp spec fn nanos_since_epoch(reading: std::time::SystemTime) -> Option<nat>;

/// `SystemTime::now` reads the system clock. Nothing is claimed of the reading.
pub assume_specification[ std::time::SystemTime::now ]() -> std::time::SystemTime;

/// `Duration::subsec_nanos` gives the fractional part of a span in nanoseconds: what is left of it
/// beyond whole seconds.
pub assume_specification[ std::time::Duration::subsec_nanos ](duration: &std::time::Duration) -> (
    u32Nanos: u32)
    ensures
        u32Nanos == span_nanos(*duration) % 1_000_000_000,
;

/// `Duration::as_millis` gives the whole milliseconds of a span.
pub assume_specification[ std::time::Duration::as_millis ](duration: &std::time::Duration) -> (
    u128Milliseconds: u128)
    ensures
        u128Milliseconds == span_nanos(*duration) / 1_000_000,
;

/// `SystemTime::duration_since`, from the Unix epoch: how long after it a reading is, or an error
/// when it is before it.
#[verifier::external_body]
fn SinceEpoch(time: std::time::SystemTime) -> (result: Result<
    std::time::Duration,
    std::time::SystemTimeError,
>)
    ensures
        match result {
            Ok(elapsed) => nanos_since_epoch(time) == Some(span_nanos(elapsed)),
            Err(_) => nanos_since_epoch(time) is None,
        },
{
    time.duration_since(std::time::UNIX_EPOCH)
}

/// Milliseconds as they are reported: the low 64 bits of the count, or zero when the clock is
/// before the epoch.
pub open spec fn reported_ms(milliseconds: Option<int>) -> int {
    match milliseconds {
        Some(ms) => ms % 0x1_0000_0000_0000_0000,
        None => 0,
    }
}

/// The wall-clock milliseconds a reading of the clock is reported as.
pub open spec fn wall_clock_ms(reading: std::time::SystemTime) -> int {
    reported_ms(
        match nanos_since_epoch(reading) {
            Some(nanos) => Some(nanos as int / 1_000_000),
            None => None,
        },
    )
}

/// The fractional second of a reading of the clock, in nanoseconds; zero when it is before the
/// epoch.
pub open spec fn fraction_nanos(reading: std::time::SystemTime) -> int {
    match nanos_since_epoch(reading) {
        Some(nanos) => nanos as int % 1_000_000_000,
        None => 0,
    }
}

/// Milliseconds since the Unix epoch as they are reported: the low 64 bits of the count, or zero
/// when the clock is before the epoch.
pub fn ReportedMs(optU128Milliseconds: Option<u128>) -> (u64Ms: u64)
    ensures
        u64Ms == reported_ms(
            match optU128Milliseconds {
                Some(ms) => Some(ms as int),
                None => None,
            },
        ),
{
    match optU128Milliseconds {
        Some(u128Milliseconds) => (u128Milliseconds % 0x1_0000_0000_0000_0000) as u64,
        None => 0,
    }
}

/// Wall-clock milliseconds: those of a reading taken now. Falls back to zero if the clock is before
/// the epoch, which is a broken machine rather than something to take the engine down for.
pub fn NowMs() -> (u64Ms: u64)
    ensures
        exists|reading: std::time::SystemTime|
            call_ensures(std::time::SystemTime::now, (), reading) && u64Ms
                == #[trigger] wall_clock_ms(reading),
{
    let reading = std::time::SystemTime::now();
    let ghost taken = reading;
    let u64Ms: u64 = match SinceEpoch(reading) {
        Ok(elapsed) => ReportedMs(Some(elapsed.as_millis())),
        Err(_) => ReportedMs(None),
    };
    assert(u64Ms == wall_clock_ms(taken));
    u64Ms
}

/// The fractional second of a reading taken now, in nanoseconds; zero when the clock is before the
/// epoch.
pub(crate) fn ClockNanos() -> (u32Nanos: u32)
    ensures
        u32Nanos < 1_000_000_000,
        exists|reading: std::time::SystemTime|
            call_ensures(std::time::SystemTime::now, (), reading) && u32Nanos
                == #[trigger] fraction_nanos(reading),
{
    let reading = std::time::SystemTime::now();
    let ghost taken = reading;
    let u32Nanos: u32 = match SinceEpoch(reading) {
        Ok(elapsed) => elapsed.subsec_nanos(),
        Err(_) => 0,
    };
    assert(u32Nanos == fraction_nanos(taken));
    u32Nanos
}

} // verus!
