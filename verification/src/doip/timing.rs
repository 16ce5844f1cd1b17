//! The DoIP timing parameters, in milliseconds.

use vstd::prelude::*;

use crate::clock::fraction_nanos;
use crate::clock::ClockNanos;

verus! {

/// `A_DoIP_Ctrl`: the deadline for answering a UDP request.
pub const c_u64CtrlTimeoutMs: u64 = 2_000;

/// `A_DoIP_Announce_Wait` maximum: the random delay before announcing, and before answering a
/// vehicle identification request. Randomised per entity so that many entities answering one
/// broadcast do not burst.
pub const c_u32AnnounceWaitMaxMs: u32 = 500;

/// `A_DoIP_Announce_Interval`: the gap between the announcements sent at power-up.
pub const c_u64AnnounceIntervalMs: u64 = 500;

/// `A_DoIP_Announce_Num`: how many announcements go out after an address is configured.
pub const c_uAnnounceCount: usize = 3;

/// `A_DoIP_Diagnostic_Message` performance target.
pub const c_u64DiagnosticAckTargetMs: u64 = 50;

/// `T_TCP_General_Inactivity`: how long a socket may sit with nothing sent or received on it
/// before the entity closes it.
pub const c_u64GeneralInactivityMs: u64 = 300_000;

/// `T_TCP_Initial_Inactivity`: how long a freshly established socket has to produce a valid
/// routing activation request.
pub const c_u64InitialInactivityMs: u64 = 2_000;

/// `T_TCP_Alive_Check`: how long to wait for an alive check response.
pub const c_u64AliveCheckTimeoutMs: u64 = 500;

/// The announce wait a fractional second of the clock stands for: its nanoseconds, folded into
/// 0..=500 ms.
pub fn AnnounceWaitFor(u32Nanos: u32) -> (u32WaitMs: u32)
    ensures
        u32WaitMs == u32Nanos as int % 501,
{
    u32Nanos % (c_u32AnnounceWaitMaxMs + 1)
}

/// Draw one `A_DoIP_Announce_Wait` delay, in milliseconds.
///
/// Not a cryptographic draw: what is required is spread, and the nanoseconds of the system clock
/// differ between two entities and between two requests to one entity.
pub fn DrawAnnounceWaitMs() -> (u32WaitMs: u32)
    ensures
        u32WaitMs <= 500,
        exists|reading: std::time::SystemTime|
            call_ensures(std::time::SystemTime::now, (), reading) && u32WaitMs == (
            #[trigger] fraction_nanos(reading)) % 501,
{
    AnnounceWaitFor(ClockNanos())
}

} // verus!
