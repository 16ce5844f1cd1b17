//! What is told of the time.

use vstd::prelude::*;

use crate::clock::fraction_nanos;
use crate::clock::nanos_since_epoch;
use crate::clock::wall_clock_ms;

verus! {

/// A reading of the clock is told in whole milliseconds since the epoch, rounded down, as long as
/// those fit in 64 bits; one from before the epoch is told as zero.
pub proof fn law_a_reading_is_told_in_milliseconds(reading: std::time::SystemTime)
    ensures
        nanos_since_epoch(reading) matches Some(nanos) ==> (nanos
            < 1_000_000 * 0x1_0000_0000_0000_0000 ==> wall_clock_ms(reading) * 1_000_000 <= nanos
            && nanos < (wall_clock_ms(reading) + 1) * 1_000_000),
        nanos_since_epoch(reading) is None ==> wall_clock_ms(reading) == 0,
        0 <= wall_clock_ms(reading) < 0x1_0000_0000_0000_0000,
{
}

/// The fraction of a reading is what is left of it beyond whole seconds.
pub proof fn law_a_fraction_is_less_than_a_second(reading: std::time::SystemTime)
    ensures
        0 <= fraction_nanos(reading) < 1_000_000_000,
        nanos_since_epoch(reading) matches Some(nanos) ==> (nanos - fraction_nanos(reading))
            % 1_000_000_000 == 0,
        nanos_since_epoch(reading) is None ==> fraction_nanos(reading) == 0,
{
}

} // verus!
