//! Finding DoIP messages in a TCP byte stream, and deciding whom to answer on UDP.
//!
//! TCP is a stream: the generic header's length field is the only framing there is, so messages
//! can arrive split across segments or several at once.

use vstd::prelude::*;

use crate::bytes::be32;
use crate::bytes::be32_at;
use crate::bytes::law_be32_round_trip;
use crate::bytes::CopyRange;
use crate::bytes::ReadBe32;
use crate::doip::header::c_uHeaderLength;
use crate::doip::header::message_bytes;
use crate::doip::header::HeaderLimits;
use crate::doip::header::ReadHeader;
use crate::doip::payload::PayloadType;

verus! {

/// How many bytes the next complete message occupies, if its header has arrived. A header that
/// announces more than the maximum data size stands alone: its body is not waited for.
pub open spec fn next_length(pending: Seq<u8>, max_data_size: int) -> Option<int> {
    if pending.len() < 8 {
        None
    } else if be32_at(pending, 4) > max_data_size {
        Some(8)
    } else {
        Some(8 + be32_at(pending, 4))
    }
}

/// How many bytes the next complete message occupies, if its header has arrived.
///
/// The length is taken from the bytes rather than from a successful parse: a header this entity
/// would reject still has a readable length field, and the message has to be consumed before the
/// next one can be found. The limits are the entity's configured ones; framing against a
/// different maximum from the one the entity enforces would desynchronise the stream.
pub fn NextMessageLength(vecPending: &[u8], limits: HeaderLimits) -> (optLength: Option<usize>)
    requires
        limits.m_u32MaxDataSize + 8 <= usize::MAX,
    ensures
        match optLength {
            Some(length) => next_length(vecPending@, limits.m_u32MaxDataSize as int) == Some(
                length as int,
            ),
            None => next_length(vecPending@, limits.m_u32MaxDataSize as int) is None,
        },
{
    if vecPending.len() < c_uHeaderLength {
        return None;
    }
    let u32PayloadLength: u32 = ReadBe32(vecPending, 4);
    // Refuse to wait for a body larger than anything this entity accepts; the header handler
    // will reject it.
    if u32PayloadLength > limits.m_u32MaxDataSize && ReadHeader(vecPending, limits).is_err() {
        return Some(c_uHeaderLength);
    }
    Some(c_uHeaderLength + u32PayloadLength as usize)
}

/// Take the next message off the front of a stream, if all of it has arrived.
pub fn TakeMessage(vecPending: &mut Vec<u8>, limits: HeaderLimits) -> (optMessage: Option<Vec<u8>>)
    requires
        limits.m_u32MaxDataSize + 8 <= usize::MAX,
    ensures
        match next_length(old(vecPending)@, limits.m_u32MaxDataSize as int) {
            Some(length) if length <= old(vecPending)@.len() => optMessage is Some && optMessage->0@
                == old(vecPending)@.take(length) && final(vecPending)@ == old(vecPending)@.skip(
                length,
            ),
            _ => optMessage is None && final(vecPending)@ == old(vecPending)@,
        },
{
    let uLength: usize = match NextMessageLength(vecPending.as_slice(), limits) {
        Some(uLength) => uLength,
        None => {
            return None;
        },
    };
    if vecPending.len() < uLength {
        return None;
    }
    let vecMessage = CopyRange(vecPending.as_slice(), 0, uLength);
    let vecRest = CopyRange(vecPending.as_slice(), uLength, vecPending.len());
    assert(vecMessage@ =~= old(vecPending)@.take(uLength as int));
    assert(vecRest@ =~= old(vecPending)@.skip(uLength as int));
    *vecPending = vecRest;
    Some(vecMessage)
}

/// Messages written back to back are found one at a time: of a message within the maximum data
/// size and whatever follows it, the message comes first and what follows is left.
pub proof fn law_stream_splits_into_messages(
    version: u8,
    payload_type: PayloadType,
    payload: Seq<u8>,
    rest: Seq<u8>,
    max_data_size: u32,
)
    requires
        payload.len() <= max_data_size,
    ensures
        ({
            let message = message_bytes(version, payload_type, payload);
            &&& next_length(message + rest, max_data_size as int) == Some(message.len() as int)
            &&& (message + rest).take(message.len() as int) == message
            &&& (message + rest).skip(message.len() as int) == rest
        }),
{
    let message = message_bytes(version, payload_type, payload);
    let stream = message + rest;
    let length = be32(payload.len() as int);
    law_be32_round_trip(payload.len() as u32);
    assert(stream[4] == length[0] && stream[5] == length[1] && stream[6] == length[2] && stream[7]
        == length[3]);
    assert(stream.take(message.len() as int) =~= message);
    assert(stream.skip(message.len() as int) =~= rest);
}

/// A message that has arrived only in part is waited for: no proper prefix of a message within
/// the maximum data size is taken for a message.
pub proof fn law_partial_message_is_waited_for(
    version: u8,
    payload_type: PayloadType,
    payload: Seq<u8>,
    arrived: int,
    max_data_size: u32,
)
    requires
        payload.len() <= max_data_size,
        0 <= arrived < message_bytes(version, payload_type, payload).len(),
    ensures
        match next_length(
            message_bytes(version, payload_type, payload).take(arrived),
            max_data_size as int,
        ) {
            Some(length) => length > arrived,
            None => true,
        },
{
    let message = message_bytes(version, payload_type, payload);
    let part = message.take(arrived);
    if arrived >= 8 {
        let length = be32(payload.len() as int);
        law_be32_round_trip(payload.len() as u32);
        assert(part[4] == length[0] && part[5] == length[1] && part[6] == length[2] && part[7]
            == length[3]);
    }
}

/// Where a datagram came from.
#[derive(Debug, Clone, Copy, PartialEq, Eq)]
pub enum HostAddress {
    /// The four bytes of an IPv4 address.
    V4([u8; 4]),
    /// The sixteen bytes of an IPv6 address.
    V6([u8; 16]),
}

/// True when a packet's source address is one no host legitimately sends from: the IPv4 broadcast
/// address, or a multicast address. Such a packet is ignored outright.
pub fn IsBroadcastOrMulticast(address: &HostAddress) -> (bIsShared: bool)
    ensures
        bIsShared == (match address {
            HostAddress::V4(octets) => octets@ == seq![255u8, 255u8, 255u8, 255u8] || 224
                <= octets@[0] <= 239,
            HostAddress::V6(octets) => octets@[0] == 0xFF,
        }),
{
    match address {
        HostAddress::V4(arrOctets) => {
            let bIsBroadcast = arrOctets[0] == 255 && arrOctets[1] == 255 && arrOctets[2] == 255
                && arrOctets[3] == 255;
            assert(bIsBroadcast == (arrOctets@ =~= seq![255u8, 255u8, 255u8, 255u8]));
            bIsBroadcast || (224 <= arrOctets[0] && arrOctets[0] <= 239)
        },
        HostAddress::V6(arrOctets) => arrOctets[0] == 0xFF,
    }
}

} // verus!
