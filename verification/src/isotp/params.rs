//! ISO-TP link parameters and the timings that govern a transfer.

use vstd::prelude::*;

verus! {

/// The padding byte this engine uses unless told otherwise. `0xAA` alternates its bits, so it
/// attracts no bit stuffing.
pub const c_byDefaultPaddingByte: u8 = 0xAA;

/// Payload bytes in a classic CAN frame.
pub const c_uClassicFrameLength: usize = 8;

/// Largest PDU a SingleFrame can carry with normal addressing.
pub const c_uMaxSingleFrameLength: usize = 7;

/// Payload bytes a FirstFrame carries after its two PCI bytes.
pub const c_uFirstFramePayload: usize = 6;

/// Payload bytes a ConsecutiveFrame carries after its one PCI byte.
pub const c_uConsecutiveFramePayload: usize = 7;

/// Largest PDU a classic FirstFrame can announce: its length field is 12 bits.
pub const c_uMaxClassicPduLength: usize = 4095;

/// Timeout waiting for a FlowControl after a FirstFrame or the last frame of a block, in
/// milliseconds.
pub const c_u64TimeoutFlowControlMs: u64 = 1000;

/// Timeout waiting for the next ConsecutiveFrame of an inbound message, in milliseconds.
pub const c_u64TimeoutConsecutiveFrameMs: u64 = 1000;

/// How many consecutive "wait" flow-control frames to accept before giving up.
pub const c_u8MaxWaitFrames: u8 = 10;

/// Separation time to use when a tester sends a reserved value: the most conservative one, not
/// the fastest.
pub const c_bySeparationTimeOnReserved: u8 = 0x7F;

/// What one end of a link says about how it wants to be spoken to.
#[derive(Debug, Clone, Copy, PartialEq, Eq, Structural)]
pub struct IsoTpParameters {
    /// How many consecutive frames may be sent before another flow control is required. Zero
    /// means "send them all".
    pub m_u8BlockSize: u8,
    /// The raw separation-time byte, kept exactly as it travels on the wire.
    pub m_bySeparationTimeMin: u8,
    /// Byte to pad short frames with, or `None` to send them short.
    pub m_optByPaddingByte: Option<u8>,
}

impl Default for IsoTpParameters {
    /// What this engine advertises when receiving: no block limit, no separation time.
    fn default() -> (params: Self)
        ensures
            params.m_u8BlockSize == 0,
            params.m_bySeparationTimeMin == 0,
            params.m_optByPaddingByte == Some(0xAAu8),
    {
        IsoTpParameters {
            m_u8BlockSize: 0,
            m_bySeparationTimeMin: 0,
            m_optByPaddingByte: Some(c_byDefaultPaddingByte),
        }
    }
}

/// The separation time a byte stands for, in microseconds: `0x00`–`0x7F` are milliseconds,
/// `0xF1`–`0xF9` are 100–900 microseconds, and everything reserved is 127 ms.
pub open spec fn separation_time_us(b: u8) -> int {
    if b <= 0x7F {
        b * 1000
    } else if 0xF1 <= b <= 0xF9 {
        (b - 0xF0) * 100
    } else {
        127000
    }
}

/// Decode a separation-time byte into microseconds.
pub fn DecodeSeparationTime(bySeparationTime: u8) -> (u64Microseconds: u64)
    ensures
        u64Microseconds == separation_time_us(bySeparationTime),
{
    if bySeparationTime <= 0x7F {
        return bySeparationTime as u64 * 1000;
    }
    if bySeparationTime >= 0xF1 && bySeparationTime <= 0xF9 {
        return (bySeparationTime - 0xF0) as u64 * 100;
    }
    c_bySeparationTimeOnReserved as u64 * 1000
}

/// A frame after padding: filled to eight bytes, or left as it is when no padding is configured
/// or the frame is already long enough.
pub open spec fn padded(frame: Seq<u8>, padding: Option<u8>) -> Seq<u8> {
    match padding {
        Some(b) if frame.len() < 8 => frame + Seq::new((8 - frame.len()) as nat, |i: int| b),
        _ => frame,
    }
}

/// Pad a frame out to the classic 8-byte length, if padding is configured.
pub fn ApplyPadding(vecFrame: &mut Vec<u8>, optByPaddingByte: Option<u8>)
    ensures
        final(vecFrame)@ == padded(old(vecFrame)@, optByPaddingByte),
{
    let byPaddingByte: u8 = match optByPaddingByte {
        Some(byPaddingByte) => byPaddingByte,
        None => {
            return ;
        },
    };
    let ghost original = vecFrame@;
    while vecFrame.len() < c_uClassicFrameLength
        invariant
            original.len() <= vecFrame@.len(),
            vecFrame@.len() <= 8 || vecFrame@ == original,
            vecFrame@ == original + Seq::new(
                (vecFrame@.len() - original.len()) as nat,
                |i: int| byPaddingByte,
            ),
        decreases 8 - vecFrame@.len(),
    {
        vecFrame.push(byPaddingByte);
    }
    assert(vecFrame@ =~= padded(original, optByPaddingByte));
}

} // verus!
