//! CAN / CAN-FD frame types: the data-link building block shared by the transport layer, the
//! traffic monitor and the bus-load meter.

pub mod bus_laws;
pub mod busload;
pub mod confinement;

use vstd::prelude::*;

verus! {

/// Largest payload a classic CAN frame carries.
pub const c_uMaxClassicPayload: usize = 8;

/// Fixed bits in a standard (11-bit) frame with no payload: start of frame, the 11-bit
/// identifier, RTR, IDE, r0, the four-bit DLC, a 15-bit CRC and delimiter, the acknowledge slot
/// and delimiter, seven end-of-frame bits and three of interframe space.
pub const c_uStandardFrameOverheadBits: usize = 47;

/// The same for an extended (29-bit) frame, which adds SRR, IDE, the 18-bit identifier
/// extension and a second reserved bit.
pub const c_uExtendedFrameOverheadBits: usize = 67;

/// Bits at the end of every frame that bit stuffing never touches: CRC delimiter, the
/// acknowledge slot and delimiter, end of frame, and the interframe space.
pub const c_uUnstuffedTrailerBits: usize = 13;

/// Largest identifier an 11-bit frame can carry.
pub const c_u32MaxStandardCanId: u32 = 0x7FF;

/// A single CAN or CAN-FD frame as observed on a bus or read from a log.
#[derive(Debug, Clone, PartialEq, Eq)]
pub struct CanFrame {
    /// Capture time in microseconds (relative to the log start or an absolute clock).
    pub m_u64TimestampUs: u64,
    /// CAN identifier (11-bit or 29-bit; extended-ness is tracked separately).
    pub m_u32CanId: u32,
    /// True for a 29-bit extended identifier.
    pub m_bIsExtended: bool,
    /// True for a CAN-FD frame (payload may exceed 8 bytes).
    pub m_bIsFd: bool,
    /// Payload bytes (0..=8 for classic CAN, up to 64 for CAN-FD). Always empty for a remote
    /// frame, which asks for data rather than carrying it.
    pub m_vecData: Vec<u8>,
    /// True for a remote transmission request: a frame that asks another node to send the data
    /// for this identifier.
    pub m_bIsRemote: bool,
    /// The data length a remote frame asks for. Zero for every data frame, which carries its
    /// length in the payload instead.
    pub m_uRemoteLength: usize,
    /// Whether this frame travelled from the tester to an ECU, when the source said so.
    pub m_optBIsRequest: Option<bool>,
}

impl CanFrame {
    /// Bits of payload on the wire: none for a remote frame.
    pub open spec fn data_bits(&self) -> nat {
        if self.m_bIsRemote {
            0
        } else {
            8 * self.m_vecData@.len()
        }
    }

    /// Bits of the whole frame before stuffing.
    pub open spec fn bits_on_wire(&self) -> nat {
        (if self.m_bIsExtended {
            67nat
        } else {
            47nat
        }) + self.data_bits()
    }

    /// The most stuff bits the frame can attract: one per four stuffable bits.
    pub open spec fn max_stuff_bits(&self) -> nat {
        ((self.bits_on_wire() - 13) / 4) as nat
    }

    /// Construct a classic (non-FD) CAN frame; the identifier's size decides whether it is
    /// extended.
    pub fn NewClassic(u64TimestampUs: u64, u32CanId: u32, vecData: Vec<u8>) -> (frame: Self)
        ensures
            frame == (CanFrame {
                m_u64TimestampUs: u64TimestampUs,
                m_u32CanId: u32CanId,
                m_bIsExtended: u32CanId > 0x7FF,
                m_bIsFd: false,
                m_vecData: vecData,
                m_bIsRemote: false,
                m_uRemoteLength: 0,
                m_optBIsRequest: None,
            }),
    {
        CanFrame {
            m_u64TimestampUs: u64TimestampUs,
            m_u32CanId: u32CanId,
            m_bIsExtended: u32CanId > c_u32MaxStandardCanId,
            m_bIsFd: false,
            m_vecData: vecData,
            m_bIsRemote: false,
            m_uRemoteLength: 0,
            m_optBIsRequest: None,
        }
    }

    /// Construct a remote transmission request, which carries a length but no data.
    pub fn NewRemote(u64TimestampUs: u64, u32CanId: u32, uRequestedLength: usize) -> (frame: Self)
        ensures
            frame.m_u64TimestampUs == u64TimestampUs,
            frame.m_u32CanId == u32CanId,
            frame.m_bIsExtended == (u32CanId > 0x7FF),
            !frame.m_bIsFd,
            frame.m_vecData@ == Seq::<u8>::empty(),
            frame.m_bIsRemote,
            frame.m_uRemoteLength == (if uRequestedLength < 8 {
                uRequestedLength
            } else {
                8
            }),
            frame.m_optBIsRequest is None,
    {
        let uLength: usize = if uRequestedLength < c_uMaxClassicPayload {
            uRequestedLength
        } else {
            c_uMaxClassicPayload
        };
        let mut frame = CanFrame::NewClassic(u64TimestampUs, u32CanId, Vec::new());
        frame.m_uRemoteLength = uLength;
        frame.m_bIsRemote = true;
        frame
    }

    /// Construct a classic frame whose source recorded which way it travelled.
    pub fn NewDirected(
        u64TimestampUs: u64,
        u32CanId: u32,
        vecData: Vec<u8>,
        bIsRequest: bool,
    ) -> (frame: Self)
        ensures
            frame == (CanFrame {
                m_u64TimestampUs: u64TimestampUs,
                m_u32CanId: u32CanId,
                m_bIsExtended: u32CanId > 0x7FF,
                m_bIsFd: false,
                m_vecData: vecData,
                m_bIsRemote: false,
                m_uRemoteLength: 0,
                m_optBIsRequest: Some(bIsRequest),
            }),
    {
        let mut frame = CanFrame::NewClassic(u64TimestampUs, u32CanId, vecData);
        frame.m_optBIsRequest = Some(bIsRequest);
        frame
    }

    /// Payload length in bytes.
    pub fn DataLength(&self) -> (uLength: usize)
        ensures
            uLength == self.m_vecData@.len(),
    {
        self.m_vecData.len()
    }

    /// The data-length code this frame carries, which for a remote frame is the length being
    /// asked for rather than any length present.
    pub fn DataLengthCode(&self) -> (uLength: usize)
        ensures
            uLength == (if self.m_bIsRemote {
                self.m_uRemoteLength as int
            } else {
                self.m_vecData@.len() as int
            }),
    {
        if self.m_bIsRemote {
            self.m_uRemoteLength
        } else {
            self.m_vecData.len()
        }
    }

    /// Bits this frame occupies on the wire, before bit stuffing.
    ///
    /// Stuffing is not counted: a stuff bit depends on the payload's bit pattern and on a CRC
    /// this type does not carry, so bus load computed from this is a floor. See
    /// [`CanFrame::MaxStuffBits`] for the other end of the range.
    pub fn BitsOnWire(&self) -> (uBits: usize)
        requires
            8 * self.m_vecData@.len() + 67 <= usize::MAX,
        ensures
            uBits == self.bits_on_wire(),
    {
        let uOverhead: usize = if self.m_bIsExtended {
            c_uExtendedFrameOverheadBits
        } else {
            c_uStandardFrameOverheadBits
        };
        let uDataBits: usize = if self.m_bIsRemote {
            0
        } else {
            self.m_vecData.len() * 8
        };
        uOverhead + uDataBits
    }

    /// The most stuff bits this frame could attract.
    ///
    /// Stuffing covers everything from the start of frame through the CRC, and adds at worst one
    /// bit per four stuffable bits.
    pub fn MaxStuffBits(&self) -> (uBits: usize)
        requires
            8 * self.m_vecData@.len() + 67 <= usize::MAX,
        ensures
            uBits == self.max_stuff_bits(),
    {
        (self.BitsOnWire() - c_uUnstuffedTrailerBits) / 4
    }
}

} // verus!
