//! The DoIP generic header: eight bytes in front of every message, big-endian.

use vstd::prelude::*;
use vstd::string::StringExecFns;

use crate::bytes::be16;
use crate::bytes::be16_at;
use crate::bytes::be32;
use crate::bytes::be32_at;
use crate::bytes::AppendBytes;
use crate::bytes::AppendU16;
use crate::bytes::AppendU32;
use crate::bytes::ReadBe16;
use crate::bytes::ReadBe32;
use crate::doip::payload::is_unknown_code;
use crate::doip::payload::law_codes_are_distinct;
use crate::doip::payload::PayloadType;
use crate::text::decimal;
use crate::text::hex;
use crate::text::AppendDecimal;
use crate::text::AppendHex;
use crate::text::TextWithNumber;

verus! {

/// Length of the generic header. The header's own length field excludes these bytes.
pub const c_uHeaderLength: usize = 8;

/// The version this implementation speaks.
pub const c_byProtocolVersion2019: u8 = 0x03;

/// The version before it.
pub const c_byProtocolVersion2012: u8 = 0x02;

/// The first version.
pub const c_byProtocolVersion2010: u8 = 0x01;

/// The version a tester may use in a vehicle identification request before it knows what the
/// vehicle speaks.
pub const c_byProtocolVersionDefault: u8 = 0xFF;

/// The generic header of one DoIP message.
#[derive(Debug, Clone, Copy, PartialEq, Eq, Structural)]
pub struct GenericHeader {
    /// Protocol version byte as it arrived.
    pub m_byProtocolVersion: u8,
    /// The payload type, decoded.
    pub m_payloadType: PayloadType,
    /// Length of the payload that follows, in bytes. Excludes the header itself.
    pub m_u32PayloadLength: u32,
}

/// Why a generic header was rejected: exactly the NACK codes, because the point of this type is
/// to carry the byte that goes back on the wire.
#[derive(Debug, Clone, Copy, PartialEq, Eq, Structural)]
pub enum HeaderNack {
    /// `0x00`: the version and its inverse do not form the synchronisation pattern.
    IncorrectPatternFormat { byVersion: u8, byInverse: u8 },
    /// `0x01`: this entity does not implement that payload type.
    UnknownPayloadType { u16PayloadType: u16 },
    /// `0x02`: the payload is longer than this entity's maximum data size.
    MessageTooLarge { u32Length: u32, u32MaxDataSize: u32 },
    /// `0x03`: the payload will not fit in the memory currently available.
    OutOfMemory { u32Length: u32 },
    /// `0x04`: the payload length is not one this payload type can have.
    InvalidPayloadLength { u16PayloadType: u16, u32Length: u32 },
}

impl HeaderNack {
    /// The byte that goes in the NACK payload.
    pub open spec fn code(self) -> u8 {
        match self {
            HeaderNack::IncorrectPatternFormat { .. } => 0x00,
            HeaderNack::UnknownPayloadType { .. } => 0x01,
            HeaderNack::MessageTooLarge { .. } => 0x02,
            HeaderNack::OutOfMemory { .. } => 0x03,
            HeaderNack::InvalidPayloadLength { .. } => 0x04,
        }
    }

    /// The socket is closed after the NACK: for codes `0x00` and `0x04` only.
    pub open spec fn closes(self) -> bool {
        self is IncorrectPatternFormat || self is InvalidPayloadLength
    }

    /// The byte that goes in the NACK payload.
    pub fn Code(self) -> (byCode: u8)
        ensures
            byCode == self.code(),
    {
        match self {
            HeaderNack::IncorrectPatternFormat { .. } => 0x00,
            HeaderNack::UnknownPayloadType { .. } => 0x01,
            HeaderNack::MessageTooLarge { .. } => 0x02,
            HeaderNack::OutOfMemory { .. } => 0x03,
            HeaderNack::InvalidPayloadLength { .. } => 0x04,
        }
    }

    /// Whether the socket must be closed after sending this NACK. Only `0x00` and `0x04` close;
    /// the other three discard the message and keep the connection.
    pub fn ClosesSocket(self) -> (bCloses: bool)
        ensures
            bCloses == self.closes(),
    {
        matches!(
            self,
            HeaderNack::IncorrectPatternFormat { .. } | HeaderNack::InvalidPayloadLength { .. }
        )
    }

    /// What the rejection says.
    pub open spec fn message(&self) -> Seq<char> {
        match self {
            HeaderNack::IncorrectPatternFormat { byVersion, byInverse } =>
                "incorrect pattern format: version 0x"@ + hex(*byVersion as nat, 2)
                + " with inverse 0x"@ + hex(*byInverse as nat, 2),
            HeaderNack::UnknownPayloadType { u16PayloadType } => "unknown payload type 0x"@ + hex(
                *u16PayloadType as nat,
                4,
            ),
            HeaderNack::MessageTooLarge { u32Length, u32MaxDataSize } => "payload length "@
                + decimal(*u32Length as nat) + " exceeds the maximum data size "@ + decimal(
                *u32MaxDataSize as nat,
            ),
            HeaderNack::OutOfMemory { u32Length } => "payload length "@ + decimal(*u32Length as nat)
                + " exceeds the memory currently available"@,
            HeaderNack::InvalidPayloadLength { u16PayloadType, u32Length } => "payload type 0x"@
                + hex(*u16PayloadType as nat, 4) + " cannot have a payload of "@ + decimal(
                *u32Length as nat,
            ) + " bytes"@,
        }
    }

    /// What the rejection says, for the log.
    pub fn Message(&self) -> (strMessage: String)
        ensures
            strMessage@ == self.message(),
    {
        match self {
            HeaderNack::IncorrectPatternFormat { byVersion, byInverse } => {
                let mut strMessage = "incorrect pattern format: version 0x".to_string();
                AppendHex(&mut strMessage, *byVersion as u64, 2);
                strMessage.append(" with inverse 0x");
                AppendHex(&mut strMessage, *byInverse as u64, 2);
                strMessage
            },
            HeaderNack::UnknownPayloadType { u16PayloadType } => {
                let mut strMessage = "unknown payload type 0x".to_string();
                AppendHex(&mut strMessage, *u16PayloadType as u64, 4);
                strMessage
            },
            HeaderNack::MessageTooLarge { u32Length, u32MaxDataSize } => {
                let mut strMessage = TextWithNumber(
                    "payload length ",
                    *u32Length as u64,
                    " exceeds the maximum data size ",
                );
                AppendDecimal(&mut strMessage, *u32MaxDataSize as u64);
                strMessage
            },
            HeaderNack::OutOfMemory { u32Length } => TextWithNumber(
                "payload length ",
                *u32Length as u64,
                " exceeds the memory currently available",
            ),
            HeaderNack::InvalidPayloadLength { u16PayloadType, u32Length } => {
                let mut strMessage = "payload type 0x".to_string();
                AppendHex(&mut strMessage, *u16PayloadType as u64, 4);
                strMessage.append(" cannot have a payload of ");
                AppendDecimal(&mut strMessage, *u32Length as u64);
                strMessage.append(" bytes");
                strMessage
            },
        }
    }
}

/// What limits this entity places on an incoming message.
#[derive(Debug, Clone, Copy, PartialEq, Eq, Structural)]
pub struct HeaderLimits {
    /// The entity's maximum data size: a fixed capability.
    pub m_u32MaxDataSize: u32,
    /// How much the handler can actually accept right now.
    pub m_u32AvailableMemory: u32,
}

impl Default for HeaderLimits {
    /// 4 kB is above any UDS message that fits ISO-TP's 4095-byte limit, so a request that could
    /// be routed onto CAN is never refused by this check.
    fn default() -> (limits: Self)
        ensures
            limits == (HeaderLimits { m_u32MaxDataSize: 4096, m_u32AvailableMemory: 4096 }),
    {
        HeaderLimits { m_u32MaxDataSize: 4096, m_u32AvailableMemory: 4096 }
    }
}

/// The byte at a position, or zero past the end.
pub open spec fn byte_or_zero(data: Seq<u8>, i: int) -> u8 {
    if i < data.len() {
        data[i]
    } else {
        0
    }
}

/// Why the header of some bytes is rejected under the given limits, if it is: in order, a broken
/// synchronisation pattern, an unknown payload type, a length above the maximum data size, one
/// above the memory available, and one the payload type cannot have.
pub open spec fn header_error(data: Seq<u8>, limits: HeaderLimits) -> Option<HeaderNack> {
    if data.len() < 8 || data[1] != 255 - data[0] {
        Some(
            HeaderNack::IncorrectPatternFormat {
                byVersion: byte_or_zero(data, 0),
                byInverse: byte_or_zero(data, 1),
            },
        )
    } else {
        let code = be16_at(data, 2) as u16;
        let length = be32_at(data, 4) as u32;
        if is_unknown_code(code) {
            Some(HeaderNack::UnknownPayloadType { u16PayloadType: code })
        } else if length > limits.m_u32MaxDataSize {
            Some(
                HeaderNack::MessageTooLarge {
                    u32Length: length,
                    u32MaxDataSize: limits.m_u32MaxDataSize,
                },
            )
        } else if length > limits.m_u32AvailableMemory {
            Some(HeaderNack::OutOfMemory { u32Length: length })
        } else if exists|t: PayloadType| (#[trigger] t.code()) == code && !t.accepts(length as int) {
            Some(HeaderNack::InvalidPayloadLength { u16PayloadType: code, u32Length: length })
        } else {
            None
        }
    }
}

/// A header is what the first eight bytes say.
pub open spec fn is_header_of(header: GenericHeader, data: Seq<u8>) -> bool {
    &&& header.m_byProtocolVersion == data[0]
    &&& header.m_payloadType.code() == be16_at(data, 2)
    &&& header.m_u32PayloadLength == be32_at(data, 4)
}

/// Read and validate a generic header.
///
/// The length-versus-capacity check is decidable from these eight bytes alone: a header claiming
/// four gigabytes is refused before anything tries to hold the body.
pub fn ReadHeader(arrBytes: &[u8], limits: HeaderLimits) -> (result: Result<
    GenericHeader,
    HeaderNack,
>)
    ensures
        match result {
            Ok(header) => header_error(arrBytes@, limits) is None && is_header_of(
                header,
                arrBytes@,
            ),
            Err(nack) => header_error(arrBytes@, limits) == Some(nack),
        },
{
    if arrBytes.len() < c_uHeaderLength {
        // Too short to be a header; report what there is of the version pair.
        return Err(
            HeaderNack::IncorrectPatternFormat {
                byVersion: if arrBytes.len() > 0 {
                    arrBytes[0]
                } else {
                    0
                },
                byInverse: if arrBytes.len() > 1 {
                    arrBytes[1]
                } else {
                    0
                },
            },
        );
    }
    let byVersion: u8 = arrBytes[0];
    let byInverse: u8 = arrBytes[1];
    if byInverse != 255 - byVersion {
        return Err(HeaderNack::IncorrectPatternFormat { byVersion, byInverse });
    }
    let u16PayloadType: u16 = ReadBe16(arrBytes, 2);
    let u32PayloadLength: u32 = ReadBe32(arrBytes, 4);
    let payloadType = match PayloadType::FromCode(u16PayloadType) {
        Some(payloadType) => payloadType,
        None => {
            return Err(HeaderNack::UnknownPayloadType { u16PayloadType });
        },
    };
    assert(payloadType.code() == u16PayloadType);
    if u32PayloadLength > limits.m_u32MaxDataSize {
        return Err(
            HeaderNack::MessageTooLarge {
                u32Length: u32PayloadLength,
                u32MaxDataSize: limits.m_u32MaxDataSize,
            },
        );
    }
    if u32PayloadLength > limits.m_u32AvailableMemory {
        return Err(HeaderNack::OutOfMemory { u32Length: u32PayloadLength });
    }
    if !payloadType.AcceptsPayloadLength(u32PayloadLength) {
        return Err(
            HeaderNack::InvalidPayloadLength { u16PayloadType, u32Length: u32PayloadLength },
        );
    }
    proof {
        assert forall|t: PayloadType| (#[trigger] t.code()) == u16PayloadType implies t.accepts(
            u32PayloadLength as int,
        ) by {
            law_codes_are_distinct(t, payloadType);
        }
    }
    Ok(
        GenericHeader {
            m_byProtocolVersion: byVersion,
            m_payloadType: payloadType,
            m_u32PayloadLength: u32PayloadLength,
        },
    )
}

/// A message: the version and its inverse, the payload type, the payload length in four bytes,
/// then the payload.
pub open spec fn message_bytes(version: u8, payload_type: PayloadType, payload: Seq<u8>) -> Seq<
    u8,
> {
    seq![version, (255 - version) as u8] + be16(payload_type.code() as int) + be32(
        payload.len() as int % 0x1_0000_0000,
    ) + payload
}

/// Build a message: the generic header followed by its payload.
pub fn WriteMessage(byProtocolVersion: u8, payloadType: PayloadType, vecPayload: &[u8]) -> (
    vecMessage: Vec<u8>)
    ensures
        vecMessage@ == message_bytes(byProtocolVersion, payloadType, vecPayload@),
{
    let mut vecMessage: Vec<u8> = Vec::new();
    vecMessage.push(byProtocolVersion);
    vecMessage.push(255 - byProtocolVersion);
    assert(vecMessage@ =~= seq![byProtocolVersion, (255 - byProtocolVersion) as u8]);
    AppendU16(&mut vecMessage, payloadType.Code());
    let u32Length: u32 = (vecPayload.len() as u64 % 0x1_0000_0000) as u32;
    AppendU32(&mut vecMessage, u32Length);
    AppendBytes(&mut vecMessage, vecPayload);
    vecMessage
}

/// The version to answer a peer in: its own if it is one this entity knows, otherwise 0x03.
pub open spec fn reply_version(version: u8) -> u8 {
    if 0x01 <= version <= 0x03 {
        version
    } else {
        0x03
    }
}

/// The version to answer a peer in.
///
/// Answering in the version received is what keeps an older tester working. The placeholder
/// `0xFF` is never echoed; the answer to that is this entity's real version.
pub fn ReplyVersionFor(byRequestVersion: u8) -> (byVersion: u8)
    ensures
        byVersion == reply_version(byRequestVersion),
{
    if byRequestVersion == c_byProtocolVersion2010 || byRequestVersion == c_byProtocolVersion2012
        || byRequestVersion == c_byProtocolVersion2019 {
        byRequestVersion
    } else {
        c_byProtocolVersion2019
    }
}

/// A written message reads back: within the limits and with a length its type can carry, the
/// header of any message is accepted, names that type, and announces exactly the payload that
/// follows it.
pub proof fn law_message_reads_back(
    version: u8,
    payload_type: PayloadType,
    payload: Seq<u8>,
    limits: HeaderLimits,
    header: GenericHeader,
)
    requires
        payload_type.accepts(payload.len() as int),
        payload.len() <= limits.m_u32MaxDataSize,
        payload.len() <= limits.m_u32AvailableMemory,
    ensures
        header_error(message_bytes(version, payload_type, payload), limits) is None,
        message_bytes(version, payload_type, payload).skip(8) == payload,
        is_header_of(header, message_bytes(version, payload_type, payload)) ==> header == (
        GenericHeader {
            m_byProtocolVersion: version,
            m_payloadType: payload_type,
            m_u32PayloadLength: payload.len() as u32,
        }),
{
    let message = message_bytes(version, payload_type, payload);
    let n = payload.len() as int;
    assert(message.skip(8) =~= payload);
    assert(be16_at(message, 2) == payload_type.code());
    assert(be32_at(message, 4) == n);
    assert forall|t: PayloadType| (#[trigger] t.code()) == payload_type.code() implies t
        == payload_type by {
        law_codes_are_distinct(t, payload_type);
    }
}

/// A message refused from its header alone says nothing of its body: two byte strings with the
/// same first eight bytes are judged alike.
pub proof fn law_header_alone_decides(a: Seq<u8>, b: Seq<u8>, limits: HeaderLimits)
    requires
        a.len() >= 8,
        b.len() >= 8,
        a.take(8) == b.take(8),
    ensures
        header_error(a, limits) == header_error(b, limits),
{
    assert forall|i: int| 0 <= i < 8 implies a[i] == b[i] by {
        assert(a[i] == a.take(8)[i]);
        assert(b[i] == b.take(8)[i]);
    }
}

} // verus!
