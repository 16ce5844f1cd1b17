//! What the link to an adapter can carry, and the pacing an ECU may advertise over it.

use vstd::prelude::*;

use crate::core_domain::timing::EcuTiming;
use crate::isotp::params::IsoTpParameters;
use vstd::arithmetic::div_mod::lemma_fundamental_div_mod;

verus! {

/// How fast frames can cross each side of the bridge.
///
/// The two numbers that matter are frames per second, not bits: a CAN frame and the SLCAN line
/// that carries it are wildly different sizes, and it is the mismatch between the rates that
/// loses frames.
#[derive(Debug, Clone, Copy, PartialEq, Eq, Structural)]
pub struct LinkCapacity {
    /// Frames per second the host-to-adapter link can carry.
    pub m_uLinkFramesPerSecond: usize,
    /// Frames per second the CAN bus can deliver, back to back.
    pub m_uBusFramesPerSecond: usize,
}

/// Bytes in the SLCAN line for a 29-bit frame with eight data bytes: `T`, eight identifier
/// characters, one length digit, sixteen data characters and the terminator.
const c_uSlcanLineBytes: usize = 27;

/// Bits per serial byte: the start and stop bits are why a byte costs ten, not eight.
const c_uSerialBitsPerByte: usize = 10;

/// Bits on the wire for a 29-bit CAN frame carrying eight data bytes, stuffing included.
const c_uCanBitsPerFrame: usize = 135;

/// How many milliseconds each of `rate` frames a second takes, rounded up.
pub open spec fn milliseconds_per_frame(rate: int) -> int {
    if 1000int % rate == 0 {
        1000int / rate
    } else {
        1000int / rate + 1
    }
}

impl LinkCapacity {
    /// The separation time a sender must leave for a link to keep up: one millisecond more than
    /// each frame takes, up to the largest that can be expressed. `None` when the link keeps up
    /// with the bus, or carries nothing at all.
    pub open spec fn safe_separation(self) -> Option<u8> {
        if self.m_uLinkFramesPerSecond == 0 || self.m_uLinkFramesPerSecond
            >= self.m_uBusFramesPerSecond {
            None
        } else {
            let needed = milliseconds_per_frame(self.m_uLinkFramesPerSecond as int) + 1;
            Some(
                (if needed < 0x7F {
                    needed
                } else {
                    0x7F
                }) as u8,
            )
        }
    }

    /// Work out both rates from the two speeds.
    pub fn New(u32SerialBaud: u32, u32CanBitrateBps: u32) -> (capacity: Self)
        ensures
            capacity.m_uLinkFramesPerSecond == u32SerialBaud as int / 270,
            capacity.m_uBusFramesPerSecond == u32CanBitrateBps as int / 135,
    {
        LinkCapacity {
            m_uLinkFramesPerSecond: u32SerialBaud as usize / (c_uSerialBitsPerByte
                * c_uSlcanLineBytes),
            m_uBusFramesPerSecond: u32CanBitrateBps as usize / c_uCanBitsPerFrame,
        }
    }

    /// The separation time a sender must leave for this link to keep up, or `None` when the link
    /// is fast enough that no pacing is needed.
    ///
    /// Rounded up to whole milliseconds, and then given one millisecond of headroom: landing
    /// exactly on the limit leaves nothing for a busy host.
    pub fn SafeSeparationTime(self) -> (optByNeeded: Option<u8>)
        ensures
            optByNeeded == self.safe_separation(),
    {
        if self.m_uLinkFramesPerSecond == 0 || self.m_uLinkFramesPerSecond
            >= self.m_uBusFramesPerSecond {
            return None;
        }
        let uRate: usize = self.m_uLinkFramesPerSecond;
        let uQuotient: usize = 1000 / uRate;
        assert(uQuotient <= 1000) by (nonlinear_arith)
            requires
                uRate >= 1,
                uQuotient == 1000usize / uRate,
        ;
        let uMillisecondsPerFrame: usize = if 1000 % uRate == 0 {
            uQuotient
        } else {
            uQuotient + 1
        };
        let uNeeded: usize = uMillisecondsPerFrame + 1;
        Some(
            if uNeeded < 0x7F {
                uNeeded as u8
            } else {
                0x7F
            },
        )
    }
}

/// A link's parameters with one ECU's flow control applied. The padding byte belongs to the link;
/// block size and separation time belong to the ECU.
pub open spec fn parameters_for(link: IsoTpParameters, timing: EcuTiming) -> IsoTpParameters {
    IsoTpParameters {
        m_u8BlockSize: timing.m_u8IsoTpBlockSize,
        m_bySeparationTimeMin: timing.m_byIsoTpSeparationTimeMin,
        m_optByPaddingByte: link.m_optByPaddingByte,
    }
}

/// One ECU's flow control, with the link's own limit applied when it has one. Only "no pacing at
/// all" is overridden.
pub open spec fn paced_for_link(
    link: IsoTpParameters,
    capacity: Option<LinkCapacity>,
    timing: EcuTiming,
) -> IsoTpParameters {
    let params = parameters_for(link, timing);
    if timing.m_u8IsoTpBlockSize != 0 || timing.m_byIsoTpSeparationTimeMin != 0 {
        params
    } else {
        match capacity {
            None => params,
            Some(capacity) => match capacity.safe_separation() {
                None => params,
                Some(needed) => IsoTpParameters { m_bySeparationTimeMin: needed, ..params },
            },
        }
    }
}

/// This link's ISO-TP parameters with one ECU's flow control applied.
pub fn ParametersFor(link: IsoTpParameters, timing: EcuTiming) -> (params: IsoTpParameters)
    ensures
        params == parameters_for(link, timing),
{
    IsoTpParameters {
        m_u8BlockSize: timing.m_u8IsoTpBlockSize,
        m_bySeparationTimeMin: timing.m_byIsoTpSeparationTimeMin,
        m_optByPaddingByte: link.m_optByPaddingByte,
    }
}

/// One ECU's flow control, with the link's own limit applied when it has one.
///
/// An operator who set a block size or a separation time has stated a rate and is obeyed; `0/0`
/// is the absence of one, and over a link that cannot carry the bus it means the middle of every
/// long request is lost.
pub fn PacedForLink(
    link: IsoTpParameters,
    optCapacity: Option<LinkCapacity>,
    timing: EcuTiming,
) -> (params: IsoTpParameters)
    ensures
        params == paced_for_link(link, optCapacity, timing),
{
    let params = ParametersFor(link, timing);
    let bAsksForNoPacing = params.m_u8BlockSize == 0 && params.m_bySeparationTimeMin == 0;
    if !bAsksForNoPacing {
        return params;
    }
    let capacity = match optCapacity {
        Some(capacity) => capacity,
        None => {
            return params;
        },
    };
    match capacity.SafeSeparationTime() {
        Some(byNeeded) => IsoTpParameters {
            m_u8BlockSize: params.m_u8BlockSize,
            m_bySeparationTimeMin: byNeeded,
            m_optByPaddingByte: params.m_optByPaddingByte,
        },
        None => params,
    }
}

/// A stated rate is obeyed: an ECU that asks for a block size or a separation time is advertised
/// with exactly that, whatever the link carries.
pub proof fn law_stated_rate_is_obeyed(
    link: IsoTpParameters,
    capacity: Option<LinkCapacity>,
    timing: EcuTiming,
)
    requires
        timing.m_u8IsoTpBlockSize != 0 || timing.m_byIsoTpSeparationTimeMin != 0,
    ensures
        paced_for_link(link, capacity, timing) == parameters_for(link, timing),
{
}

/// A separation time below the cap keeps a sender under what the link carries: with it between
/// frames, no more than the link's frames a second are sent.
pub proof fn law_safe_separation_keeps_under_the_link(capacity: LinkCapacity)
    ensures
        capacity.safe_separation() matches Some(needed) ==> (needed < 0x7F ==> needed
            * capacity.m_uLinkFramesPerSecond >= 1000),
        capacity.safe_separation() matches Some(needed) ==> 1 <= needed <= 0x7F,
{
    if let Some(needed) = capacity.safe_separation() {
        let rate = capacity.m_uLinkFramesPerSecond as int;
        let quotient = 1000int / rate;
        lemma_fundamental_div_mod(1000, rate);
        let exact = milliseconds_per_frame(rate);
        assert(quotient >= 0) by (nonlinear_arith)
            requires
                quotient == 1000int / rate,
                rate >= 1,
        ;
        assert(exact * rate >= 1000) by (nonlinear_arith)
            requires
                1000 == rate * quotient + 1000int % rate,
                0 <= 1000int % rate < rate,
                rate >= 1,
                exact == quotient || exact == quotient + 1,
                1000int % rate != 0 ==> exact == quotient + 1,
        ;
        if needed < 0x7F {
            assert(needed * rate >= 1000) by (nonlinear_arith)
                requires
                    needed == exact + 1,
                    exact * rate >= 1000,
                    rate >= 1,
            ;
        }
    }
}

} // verus!
