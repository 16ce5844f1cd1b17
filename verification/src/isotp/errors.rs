//! What ISO-TP failures say.

use vstd::prelude::*;
use vstd::string::StringExecFns;

use crate::isotp::rx::IsoTpReceiveError;
use crate::isotp::tx::IsoTpTransportError;
use crate::text::decimal;
use crate::text::hex;
use crate::text::AppendDecimal;
use crate::text::AppendHex;
use crate::text::TextWithNumber;

verus! {

impl IsoTpReceiveError {
    /// What the error says.
    pub open spec fn message(&self) -> Seq<char> {
        match self {
            IsoTpReceiveError::WrongSequenceNumber { u8Expected, u8Received } =>
                "consecutive frame sequence number "@ + decimal(*u8Received as nat)
                + " arrived where "@ + decimal(*u8Expected as nat)
                + " was expected; the message is incomplete and was abandoned"@,
            IsoTpReceiveError::UnexpectedConsecutiveFrame =>
                "a consecutive frame arrived with no message in progress"@,
        }
    }

    /// What the error says.
    pub fn Message(&self) -> (strMessage: String)
        ensures
            strMessage@ == self.message(),
    {
        match self {
            IsoTpReceiveError::WrongSequenceNumber { u8Expected, u8Received } => {
                let mut strMessage = TextWithNumber(
                    "consecutive frame sequence number ",
                    *u8Received as u64,
                    " arrived where ",
                );
                AppendDecimal(&mut strMessage, *u8Expected as u64);
                strMessage.append(" was expected; the message is incomplete and was abandoned");
                strMessage
            },
            IsoTpReceiveError::UnexpectedConsecutiveFrame =>
                "a consecutive frame arrived with no message in progress".to_string(),
        }
    }
}

impl IsoTpTransportError {
    /// What the error says.
    pub open spec fn message(&self) -> Seq<char> {
        match self {
            IsoTpTransportError::PduTooLong { uLength } => "a "@ + decimal(*uLength as nat)
                + "-byte PDU exceeds the 4095 bytes a classic ISO-TP first frame can announce"@,
            IsoTpTransportError::EmptyPdu => "an empty PDU cannot be transmitted"@,
            IsoTpTransportError::FlowControlTimeout { uFramesSent } =>
                "no flow control arrived within the timeout after "@ + decimal(
                *uFramesSent as nat,
            ) + " frame(s); the transfer was abandoned"@,
            IsoTpTransportError::TooManyWaitFrames { u8WaitCount } =>
                "the receiver asked to wait "@ + decimal(*u8WaitCount as nat)
                + " times in a row, more than the 10 allowed"@,
            IsoTpTransportError::ReceiverOverflow =>
                "the receiver reported its buffer would overflow, so the transfer was abandoned"@,
            IsoTpTransportError::InvalidFlowStatus { byFlowStatus } =>
                "the receiver sent flow status 0x"@ + hex(*byFlowStatus as nat, 1)
                + ", which is reserved"@,
        }
    }

    /// What the error says.
    pub fn Message(&self) -> (strMessage: String)
        ensures
            strMessage@ == self.message(),
    {
        match self {
            IsoTpTransportError::PduTooLong { uLength } => TextWithNumber(
                "a ",
                *uLength as u64,
                "-byte PDU exceeds the 4095 bytes a classic ISO-TP first frame can announce",
            ),
            IsoTpTransportError::EmptyPdu => "an empty PDU cannot be transmitted".to_string(),
            IsoTpTransportError::FlowControlTimeout { uFramesSent } => TextWithNumber(
                "no flow control arrived within the timeout after ",
                *uFramesSent as u64,
                " frame(s); the transfer was abandoned",
            ),
            IsoTpTransportError::TooManyWaitFrames { u8WaitCount } => TextWithNumber(
                "the receiver asked to wait ",
                *u8WaitCount as u64,
                " times in a row, more than the 10 allowed",
            ),
            IsoTpTransportError::ReceiverOverflow =>
                "the receiver reported its buffer would overflow, so the transfer was abandoned".to_string(),
            IsoTpTransportError::InvalidFlowStatus { byFlowStatus } => {
                let mut strMessage = "the receiver sent flow status 0x".to_string();
                AppendHex(&mut strMessage, *byFlowStatus as u64, 1);
                strMessage.append(", which is reserved");
                strMessage
            },
        }
    }
}

} // verus!
