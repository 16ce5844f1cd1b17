//! DoIP (diagnostics over IP): the message codec and the connection state machine.
//!
//! No sockets and no clock: this module turns bytes into messages and back, and decides what a
//! connection does next.

pub mod connection;
pub mod header;
pub mod messages;
pub mod payload;
pub mod timing;

use vstd::prelude::*;

use crate::doip::header::message_bytes;
use crate::doip::header::reply_version;
use crate::doip::header::HeaderNack;
use crate::doip::header::ReplyVersionFor;
use crate::doip::header::WriteMessage;
use crate::doip::payload::PayloadType;

verus! {

/// The unsecured TCP data port and the UDP discovery port.
pub const c_u16PortDoIp: u16 = 13400;

/// The TLS-secured TCP data port. Not served; named so the number is not invented twice.
pub const c_u16PortDoIpTls: u16 = 3496;

/// Build a generic header negative acknowledge message.
pub fn BuildHeaderNack(byProtocolVersion: u8, nack: HeaderNack) -> (vecMessage: Vec<u8>)
    ensures
        vecMessage@ == message_bytes(
            reply_version(byProtocolVersion),
            PayloadType::GenericHeaderNack,
            seq![nack.code()],
        ),
{
    let mut vecPayload: Vec<u8> = Vec::new();
    vecPayload.push(nack.Code());
    assert(vecPayload@ =~= seq![nack.code()]);
    WriteMessage(
        ReplyVersionFor(byProtocolVersion),
        PayloadType::GenericHeaderNack,
        vecPayload.as_slice(),
    )
}

} // verus!
