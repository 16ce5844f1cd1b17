//! What a traffic monitor is told: one event per thing that crossed the simulator.

use vstd::prelude::*;
use vstd::string::StringExecFns;

use crate::bridge::observer::FrameDirection;
use crate::bridge::is_flow_control;
use crate::bridge::IsFlowControlFrame;
use crate::bytes::be16_at;
use crate::bytes::CopyAll;
use crate::bytes::CopyRange;
use crate::bytes::ReadBe16;
use crate::can::CanFrame;
use crate::doip::header::c_uHeaderLength;
use crate::doip::payload::is_unknown_code;
use crate::doip::payload::PayloadType;
use crate::doip_server::observer::DoIpDirection;
use crate::simulation::RoutedResponse;
use crate::simulation::RoutingOutcome;
use crate::text::can_id_text;
use crate::text::decimal;
use crate::text::hex;
use crate::text::hex_bytes;
use crate::text::AppendDecimal;
use crate::text::AppendHex;
use crate::text::FormatCanId;
use crate::text::FormatHexBytes;

verus! {

/// One ECU's answer inside an exchange event.
#[derive(Debug, PartialEq, Eq)]
pub struct ExchangeResponse {
    pub ecu_name: String,
    pub response_can_id_hex: String,
    pub response_hex: String,
    pub suppressed: bool,
    /// True when a user-defined override produced this answer.
    pub overridden: bool,
}

/// One ECU's answer inside an exchange event, as text.
pub ghost struct ExchangeResponseView {
    pub ecu_name: Seq<char>,
    pub response_can_id_hex: Seq<char>,
    pub response_hex: Seq<char>,
    pub suppressed: bool,
    pub overridden: bool,
}

impl View for ExchangeResponse {
    type V = ExchangeResponseView;

    open spec fn view(&self) -> ExchangeResponseView {
        ExchangeResponseView {
            ecu_name: self.ecu_name@,
            response_can_id_hex: self.response_can_id_hex@,
            response_hex: self.response_hex@,
            suppressed: self.suppressed,
            overridden: self.overridden,
        }
    }
}

impl Clone for ExchangeResponse {
    fn clone(&self) -> (response: Self)
        ensures
            response@ == self@,
    {
        ExchangeResponse {
            ecu_name: self.ecu_name.clone(),
            response_can_id_hex: self.response_can_id_hex.clone(),
            response_hex: self.response_hex.clone(),
            suppressed: self.suppressed,
            overridden: self.overridden,
        }
    }
}

/// One thing that happened, as the monitor sees it.
///
/// Every variant carries wall-clock milliseconds, because the reader is a person comparing this
/// against their own tester's log.
#[derive(Debug, PartialEq, Eq)]
pub enum TrafficEvent {
    /// One CAN frame crossing the hardware bridge.
    Frame {
        at_ms: u64,
        /// "rx" for a frame from the far end, "tx" for one the simulator sent.
        direction: String,
        can_id_hex: String,
        data_hex: String,
        /// Payload length. Sent explicitly so a reader need not count the digits.
        length: usize,
        /// True for a frame the simulator would treat as ISO-TP flow control.
        is_flow_control: bool,
    },
    /// One request routed through the simulation, with what answered it.
    Exchange {
        at_ms: u64,
        can_id_hex: String,
        request_hex: String,
        /// "physical", "functional", "unrouted", "stopped", "silenced" or "refused".
        addressing: String,
        routed: bool,
        /// One entry per ECU that answered.
        responses: Vec<ExchangeResponse>,
        /// Why nothing answered, when that is the interesting part.
        reason: Option<String>,
    },
    /// One DoIP message crossing the Ethernet wire.
    DoIp {
        at_ms: u64,
        /// "rx" for a message the entity received, "tx" for one it sent.
        direction: String,
        /// The other end's address and port, so this reads against a packet capture.
        peer: String,
        /// "UDP" for discovery, "TCP" for the diagnostic connection.
        transport: String,
        /// The payload type, in hexadecimal.
        payload_type_hex: String,
        /// What that payload type is called.
        payload_name: String,
        /// The payload after the eight-byte header.
        payload_hex: String,
        /// Payload length, sent explicitly so a reader need not count the digits.
        length: usize,
    },
    /// The simulation was loaded, started, stopped or cleared.
    Lifecycle { at_ms: u64, what: String },
    /// The history a monitor received on attaching, summarised.
    Replayed {
        at_ms: u64,
        /// How many past events follow this one.
        count: usize,
        /// How many older ones were already dropped before this monitor attached.
        dropped_before: u64,
    },
    /// This monitor fell behind and missed events.
    Lagged { at_ms: u64, missed: u64 },
}

/// One thing that happened, as text.
pub ghost enum EventView {
    Frame {
        at_ms: u64,
        direction: Seq<char>,
        can_id_hex: Seq<char>,
        data_hex: Seq<char>,
        length: usize,
        is_flow_control: bool,
    },
    Exchange {
        at_ms: u64,
        can_id_hex: Seq<char>,
        request_hex: Seq<char>,
        addressing: Seq<char>,
        routed: bool,
        responses: Seq<ExchangeResponseView>,
        reason: Option<Seq<char>>,
    },
    DoIp {
        at_ms: u64,
        direction: Seq<char>,
        peer: Seq<char>,
        transport: Seq<char>,
        payload_type_hex: Seq<char>,
        payload_name: Seq<char>,
        payload_hex: Seq<char>,
        length: usize,
    },
    Lifecycle { at_ms: u64, what: Seq<char> },
    Replayed { at_ms: u64, count: usize, dropped_before: u64 },
    Lagged { at_ms: u64, missed: u64 },
}

/// Optional text as a sequence of characters.
pub open spec fn text_of(text: Option<String>) -> Option<Seq<char>> {
    match text {
        Some(text) => Some(text@),
        None => None,
    }
}

/// The answers of an exchange as text.
pub open spec fn response_views(responses: Seq<ExchangeResponse>) -> Seq<ExchangeResponseView> {
    Seq::new(responses.len(), |i: int| responses[i]@)
}

impl View for TrafficEvent {
    type V = EventView;

    open spec fn view(&self) -> EventView {
        match *self {
            TrafficEvent::Frame {
                at_ms,
                direction,
                can_id_hex,
                data_hex,
                length,
                is_flow_control,
            } => EventView::Frame {
                at_ms,
                direction: direction@,
                can_id_hex: can_id_hex@,
                data_hex: data_hex@,
                length,
                is_flow_control,
            },
            TrafficEvent::Exchange {
                at_ms,
                can_id_hex,
                request_hex,
                addressing,
                routed,
                responses,
                reason,
            } => EventView::Exchange {
                at_ms,
                can_id_hex: can_id_hex@,
                request_hex: request_hex@,
                addressing: addressing@,
                routed,
                responses: response_views(responses@),
                reason: text_of(reason),
            },
            TrafficEvent::DoIp {
                at_ms,
                direction,
                peer,
                transport,
                payload_type_hex,
                payload_name,
                payload_hex,
                length,
            } => EventView::DoIp {
                at_ms,
                direction: direction@,
                peer: peer@,
                transport: transport@,
                payload_type_hex: payload_type_hex@,
                payload_name: payload_name@,
                payload_hex: payload_hex@,
                length,
            },
            TrafficEvent::Lifecycle { at_ms, what } => EventView::Lifecycle { at_ms, what: what@ },
            TrafficEvent::Replayed { at_ms, count, dropped_before } => EventView::Replayed {
                at_ms,
                count,
                dropped_before,
            },
            TrafficEvent::Lagged { at_ms, missed } => EventView::Lagged { at_ms, missed },
        }
    }
}

/// A copy of the answers of an exchange.
fn CopyResponses(vecResponses: &Vec<ExchangeResponse>) -> (vecCopy: Vec<ExchangeResponse>)
    ensures
        response_views(vecCopy@) == response_views(vecResponses@),
{
    let mut vecCopy: Vec<ExchangeResponse> = Vec::new();
    let mut uAt: usize = 0;
    while uAt < vecResponses.len()
        invariant
            uAt <= vecResponses@.len(),
            vecCopy@.len() == uAt,
            forall|i: int| 0 <= i < uAt ==> (#[trigger] vecCopy@[i])@ == vecResponses@[i]@,
        decreases vecResponses@.len() - uAt,
    {
        vecCopy.push(vecResponses[uAt].clone());
        uAt += 1;
    }
    assert(response_views(vecCopy@) =~= response_views(vecResponses@));
    vecCopy
}

/// A copy of optional text.
pub(crate) fn CopyText(optStrText: &Option<String>) -> (optStrCopy: Option<String>)
    ensures
        optStrCopy == *optStrText,
{
    match optStrText {
        Some(strText) => Some(strText.clone()),
        None => None,
    }
}

impl Clone for TrafficEvent {
    fn clone(&self) -> (event: Self)
        ensures
            event@ == self@,
    {
        match self {
            TrafficEvent::Frame {
                at_ms,
                direction,
                can_id_hex,
                data_hex,
                length,
                is_flow_control,
            } => TrafficEvent::Frame {
                at_ms: *at_ms,
                direction: direction.clone(),
                can_id_hex: can_id_hex.clone(),
                data_hex: data_hex.clone(),
                length: *length,
                is_flow_control: *is_flow_control,
            },
            TrafficEvent::Exchange {
                at_ms,
                can_id_hex,
                request_hex,
                addressing,
                routed,
                responses,
                reason,
            } => TrafficEvent::Exchange {
                at_ms: *at_ms,
                can_id_hex: can_id_hex.clone(),
                request_hex: request_hex.clone(),
                addressing: addressing.clone(),
                routed: *routed,
                responses: CopyResponses(responses),
                reason: CopyText(reason),
            },
            TrafficEvent::DoIp {
                at_ms,
                direction,
                peer,
                transport,
                payload_type_hex,
                payload_name,
                payload_hex,
                length,
            } => TrafficEvent::DoIp {
                at_ms: *at_ms,
                direction: direction.clone(),
                peer: peer.clone(),
                transport: transport.clone(),
                payload_type_hex: payload_type_hex.clone(),
                payload_name: payload_name.clone(),
                payload_hex: payload_hex.clone(),
                length: *length,
            },
            TrafficEvent::Lifecycle { at_ms, what } => TrafficEvent::Lifecycle {
                at_ms: *at_ms,
                what: what.clone(),
            },
            TrafficEvent::Replayed { at_ms, count, dropped_before } => TrafficEvent::Replayed {
                at_ms: *at_ms,
                count: *count,
                dropped_before: *dropped_before,
            },
            TrafficEvent::Lagged { at_ms, missed } => TrafficEvent::Lagged {
                at_ms: *at_ms,
                missed: *missed,
            },
        }
    }
}

/// An event describing one message on a wire rather than a decoded exchange.
pub open spec fn is_frame_event(event: EventView) -> bool {
    event is Frame || event is DoIp
}

/// True for an event describing one message on a wire rather than a decoded exchange. DoIP
/// messages count too: they come at the rate of a transfer, as frames do.
pub fn IsFrameEvent(event: &TrafficEvent) -> (bIsFrame: bool)
    ensures
        bIsFrame == is_frame_event(event@),
{
    match event {
        TrafficEvent::Frame { .. } => true,
        TrafficEvent::DoIp { .. } => true,
        _ => false,
    }
}

/// The event for one CAN frame.
pub open spec fn frame_event(at_ms: u64, direction: FrameDirection, frame: CanFrame) -> EventView {
    EventView::Frame {
        at_ms,
        direction: direction.name(),
        can_id_hex: can_id_text(frame.m_u32CanId),
        data_hex: hex_bytes(frame.m_vecData@),
        length: frame.m_vecData@.len() as usize,
        is_flow_control: is_flow_control(frame),
    }
}

/// Describe one CAN frame that crossed the bridge.
pub fn BuildFrameEvent(u64AtMs: u64, direction: FrameDirection, frame: &CanFrame) -> (event:
    TrafficEvent)
    ensures
        event@ == frame_event(u64AtMs, direction, *frame),
{
    TrafficEvent::Frame {
        at_ms: u64AtMs,
        direction: direction.Name().to_string(),
        can_id_hex: FormatCanId(frame.m_u32CanId),
        data_hex: FormatHexBytes(frame.m_vecData.as_slice()),
        length: frame.m_vecData.len(),
        is_flow_control: IsFlowControlFrame(frame),
    }
}

/// What a payload type is called.
pub open spec fn payload_name(code: u16) -> Seq<char> {
    match code {
        0x0000 => "GenericHeaderNack"@,
        0x0001 => "VehicleIdentificationRequest"@,
        0x0002 => "VehicleIdentificationRequestByEid"@,
        0x0003 => "VehicleIdentificationRequestByVin"@,
        0x0004 => "VehicleAnnouncement"@,
        0x0005 => "RoutingActivationRequest"@,
        0x0006 => "RoutingActivationResponse"@,
        0x0007 => "AliveCheckRequest"@,
        0x0008 => "AliveCheckResponse"@,
        0x4001 => "EntityStatusRequest"@,
        0x4002 => "EntityStatusResponse"@,
        0x4003 => "PowerModeRequest"@,
        0x4004 => "PowerModeResponse"@,
        0x8001 => "DiagnosticMessage"@,
        0x8002 => "DiagnosticMessageAck"@,
        0x8003 => "DiagnosticMessageNack"@,
        _ => "unknown payload type"@,
    }
}

proof fn lemma_unknown_codes(code: u16)
    ensures
        is_unknown_code(code) ==> payload_name(code) == "unknown payload type"@,
{
    if is_unknown_code(code) {
        assert(PayloadType::GenericHeaderNack.code() != code);
        assert(PayloadType::VehicleIdentificationRequest.code() != code);
        assert(PayloadType::VehicleIdentificationRequestByEid.code() != code);
        assert(PayloadType::VehicleIdentificationRequestByVin.code() != code);
        assert(PayloadType::VehicleAnnouncement.code() != code);
        assert(PayloadType::RoutingActivationRequest.code() != code);
        assert(PayloadType::RoutingActivationResponse.code() != code);
        assert(PayloadType::AliveCheckRequest.code() != code);
        assert(PayloadType::AliveCheckResponse.code() != code);
        assert(PayloadType::EntityStatusRequest.code() != code);
        assert(PayloadType::EntityStatusResponse.code() != code);
        assert(PayloadType::PowerModeRequest.code() != code);
        assert(PayloadType::PowerModeResponse.code() != code);
        assert(PayloadType::DiagnosticMessage.code() != code);
        assert(PayloadType::DiagnosticMessageAck.code() != code);
        assert(PayloadType::DiagnosticMessageNack.code() != code);
    }
}

/// Name a payload type.
fn PayloadName(u16Code: u16) -> (strName: String)
    ensures
        strName@ == payload_name(u16Code),
{
    let optPayloadType = PayloadType::FromCode(u16Code);
    proof {
        lemma_unknown_codes(u16Code);
    }
    let strName = match optPayloadType {
        None => "unknown payload type",
        Some(payloadType) => match payloadType {
            PayloadType::GenericHeaderNack => "GenericHeaderNack",
            PayloadType::VehicleIdentificationRequest => "VehicleIdentificationRequest",
            PayloadType::VehicleIdentificationRequestByEid => "VehicleIdentificationRequestByEid",
            PayloadType::VehicleIdentificationRequestByVin => "VehicleIdentificationRequestByVin",
            PayloadType::VehicleAnnouncement => "VehicleAnnouncement",
            PayloadType::RoutingActivationRequest => "RoutingActivationRequest",
            PayloadType::RoutingActivationResponse => "RoutingActivationResponse",
            PayloadType::AliveCheckRequest => "AliveCheckRequest",
            PayloadType::AliveCheckResponse => "AliveCheckResponse",
            PayloadType::EntityStatusRequest => "EntityStatusRequest",
            PayloadType::EntityStatusResponse => "EntityStatusResponse",
            PayloadType::PowerModeRequest => "PowerModeRequest",
            PayloadType::PowerModeResponse => "PowerModeResponse",
            PayloadType::DiagnosticMessage => "DiagnosticMessage",
            PayloadType::DiagnosticMessageAck => "DiagnosticMessageAck",
            PayloadType::DiagnosticMessageNack => "DiagnosticMessageNack",
        },
    };
    strName.to_string()
}

/// The payload type, its name and the payload of whatever crossed the wire.
pub open spec fn doip_parts(message: Seq<u8>) -> (Seq<char>, Seq<char>, Seq<u8>) {
    if message.len() < 8 {
        ("----"@, "truncated (shorter than a header)"@, message)
    } else {
        (
            hex(be16_at(message, 2) as nat, 4),
            payload_name(be16_at(message, 2) as u16),
            message.skip(8),
        )
    }
}

/// Pick a payload type, a name for it, and the body out of an encoded DoIP message.
///
/// Deliberately tolerant. This runs on whatever crossed the wire, including the malformed things
/// a monitor most needs to show, so a message too short to hold a header is reported as exactly
/// that rather than skipped.
pub fn DescribeDoIpMessage(arrMessage: &[u8]) -> (described: (String, String, Vec<u8>))
    ensures
        (described.0@, described.1@, described.2@) == doip_parts(arrMessage@),
{
    if arrMessage.len() < c_uHeaderLength {
        return (
            "----".to_string(),
            "truncated (shorter than a header)".to_string(),
            CopyAll(arrMessage),
        );
    }
    let u16PayloadType: u16 = ReadBe16(arrMessage, 2);
    let mut strTypeHex = String::new();
    AppendHex(&mut strTypeHex, u16PayloadType as u64, 4);
    let vecPayload = CopyRange(arrMessage, c_uHeaderLength, arrMessage.len());
    assert(strTypeHex@ =~= hex(u16PayloadType as nat, 4));
    assert(vecPayload@ =~= arrMessage@.skip(8));
    (strTypeHex, PayloadName(u16PayloadType), vecPayload)
}

/// The event for one DoIP message.
pub open spec fn doip_event(
    at_ms: u64,
    direction: DoIpDirection,
    peer: Seq<char>,
    is_udp: bool,
    message: Seq<u8>,
) -> EventView {
    let (type_hex, name, payload) = doip_parts(message);
    EventView::DoIp {
        at_ms,
        direction: direction.name(),
        peer,
        transport: if is_udp {
            "UDP"@
        } else {
            "TCP"@
        },
        payload_type_hex: type_hex,
        payload_name: name,
        payload_hex: hex_bytes(payload),
        length: payload.len() as usize,
    }
}

/// Describe one DoIP message that crossed the wire.
pub fn BuildDoIpEvent(
    u64AtMs: u64,
    direction: DoIpDirection,
    strPeer: &str,
    bIsUdp: bool,
    arrMessage: &[u8],
) -> (event: TrafficEvent)
    ensures
        event@ == doip_event(u64AtMs, direction, strPeer@, bIsUdp, arrMessage@),
{
    let (strTypeHex, strTypeName, vecPayload) = DescribeDoIpMessage(arrMessage);
    TrafficEvent::DoIp {
        at_ms: u64AtMs,
        direction: direction.Name().to_string(),
        peer: strPeer.to_string(),
        transport: if bIsUdp {
            "UDP".to_string()
        } else {
            "TCP".to_string()
        },
        payload_type_hex: strTypeHex,
        payload_name: strTypeName,
        payload_hex: FormatHexBytes(vecPayload.as_slice()),
        length: vecPayload.len(),
    }
}

/// One ECU's answer, as a monitor is told.
pub open spec fn exchange_response(routed: RoutedResponse) -> ExchangeResponseView {
    ExchangeResponseView {
        ecu_name: routed.m_strEcuName@,
        response_can_id_hex: can_id_text(routed.m_u32ResponseCanId),
        response_hex: hex_bytes(routed.m_vecResponse@),
        suppressed: routed.is_suppressed(),
        overridden: routed.m_plan.m_bIsOverridden,
    }
}

/// The four things a monitor is told about an outcome.
pub ghost struct OutcomeView {
    pub addressing: Seq<char>,
    pub routed: bool,
    pub responses: Seq<ExchangeResponseView>,
    pub reason: Option<Seq<char>>,
}

/// The four things a monitor is told about an outcome. Silence is described rather than left
/// blank: its causes look alike on a wire and are entirely different problems.
pub open spec fn outcome_description(outcome: RoutingOutcome) -> OutcomeView {
    match outcome {
        RoutingOutcome::Stopped => OutcomeView {
            addressing: "stopped"@,
            routed: false,
            responses: seq![],
            reason: Some("the simulation is stopped; every ECU is off the bus"@),
        },
        RoutingOutcome::NoTarget => OutcomeView {
            addressing: "unrouted"@,
            routed: false,
            responses: seq![],
            reason: Some("no ECU listens on that identifier"@),
        },
        RoutingOutcome::TooLargeForSubnetwork { uRequestBytes, uMaxBytes, strEcuName } =>
            OutcomeView {
                addressing: "refused"@,
                routed: false,
                responses: seq![],
                reason: Some(
                    "a functional request of "@ + decimal(uRequestBytes as nat)
                        + " bytes is longer than the "@ + decimal(uMaxBytes as nat)
                        + " a CAN sub-network can carry, and '"@ + strEcuName@ + "' is on one"@,
                ),
            },
        RoutingOutcome::Silenced { strEcuName, strReason } => OutcomeView {
            addressing: "silenced"@,
            routed: false,
            responses: seq![],
            reason: Some(strEcuName@ + ": "@ + strReason@),
        },
        RoutingOutcome::Handled(routed) => OutcomeView {
            addressing: if routed@.len() > 1 {
                "functional"@
            } else {
                "physical"@
            },
            routed: true,
            responses: Seq::new(routed@.len(), |i: int| exchange_response(routed@[i])),
            reason: None,
        },
    }
}

/// What a monitor shows about an outcome.
pub struct OutcomeDescription {
    pub m_strAddressing: String,
    pub m_bRouted: bool,
    pub m_vecResponses: Vec<ExchangeResponse>,
    pub m_optStrReason: Option<String>,
}

impl View for OutcomeDescription {
    type V = OutcomeView;

    open spec fn view(&self) -> OutcomeView {
        OutcomeView {
            addressing: self.m_strAddressing@,
            routed: self.m_bRouted,
            responses: response_views(self.m_vecResponses@),
            reason: text_of(self.m_optStrReason),
        }
    }
}

/// An outcome nothing answered.
fn Silence(strAddressing: &str, strReason: String) -> (description: OutcomeDescription)
    ensures
        description@ == (OutcomeView {
            addressing: strAddressing@,
            routed: false,
            responses: seq![],
            reason: Some(strReason@),
        }),
{
    let description = OutcomeDescription {
        m_strAddressing: strAddressing.to_string(),
        m_bRouted: false,
        m_vecResponses: Vec::new(),
        m_optStrReason: Some(strReason),
    };
    assert(response_views(description.m_vecResponses@) =~= seq![]);
    description
}

/// Turn a routing outcome into the four things the monitor shows about it.
pub fn DescribeOutcome(outcome: &RoutingOutcome) -> (description: OutcomeDescription)
    ensures
        description@ == outcome_description(*outcome),
{
    match outcome {
        RoutingOutcome::Stopped => Silence(
            "stopped",
            "the simulation is stopped; every ECU is off the bus".to_string(),
        ),
        RoutingOutcome::NoTarget => Silence(
            "unrouted",
            "no ECU listens on that identifier".to_string(),
        ),
        RoutingOutcome::TooLargeForSubnetwork { uRequestBytes, uMaxBytes, strEcuName } => {
            let mut strReason = "a functional request of ".to_string();
            AppendDecimal(&mut strReason, *uRequestBytes as u64);
            strReason.append(" bytes is longer than the ");
            AppendDecimal(&mut strReason, *uMaxBytes as u64);
            strReason.append(" a CAN sub-network can carry, and '");
            strReason.append(strEcuName.as_str());
            strReason.append("' is on one");
            Silence("refused", strReason)
        },
        RoutingOutcome::Silenced { strEcuName, strReason } => {
            let mut strText = strEcuName.clone();
            strText.append(": ");
            strText.append(strReason.as_str());
            Silence("silenced", strText)
        },
        RoutingOutcome::Handled(vecRouted) => {
            let mut vecResponses: Vec<ExchangeResponse> = Vec::new();
            let mut uAt: usize = 0;
            while uAt < vecRouted.len()
                invariant
                    uAt <= vecRouted@.len(),
                    vecResponses@.len() == uAt,
                    forall|i: int|
                        0 <= i < uAt ==> (#[trigger] vecResponses@[i])@ == exchange_response(
                            vecRouted@[i],
                        ),
                decreases vecRouted@.len() - uAt,
            {
                let routed = &vecRouted[uAt];
                vecResponses.push(
                    ExchangeResponse {
                        ecu_name: routed.m_strEcuName.clone(),
                        response_can_id_hex: FormatCanId(routed.m_u32ResponseCanId),
                        response_hex: FormatHexBytes(routed.m_vecResponse.as_slice()),
                        suppressed: routed.IsSuppressed(),
                        overridden: routed.m_plan.m_bIsOverridden,
                    },
                );
                uAt += 1;
            }
            assert(response_views(vecResponses@) =~= Seq::new(
                vecRouted@.len(),
                |i: int| exchange_response(vecRouted@[i]),
            ));
            // More than one answer means the request was addressed to the broadcast identifier
            // and several ECUs replied.
            let strAddressing = if vecRouted.len() > 1 {
                "functional"
            } else {
                "physical"
            };
            OutcomeDescription {
                m_strAddressing: strAddressing.to_string(),
                m_bRouted: true,
                m_vecResponses: vecResponses,
                m_optStrReason: None,
            }
        },
    }
}

/// The event for one routed request.
pub open spec fn exchange_event(
    at_ms: u64,
    request_id: u32,
    request: Seq<u8>,
    outcome: RoutingOutcome,
) -> EventView {
    let description = outcome_description(outcome);
    EventView::Exchange {
        at_ms,
        can_id_hex: can_id_text(request_id),
        request_hex: hex_bytes(request),
        addressing: description.addressing,
        routed: description.routed,
        responses: description.responses,
        reason: description.reason,
    }
}

/// Describe one request routed through the simulation.
pub fn BuildExchangeEvent(
    u64AtMs: u64,
    u32RequestCanId: u32,
    vecRequest: &[u8],
    outcome: &RoutingOutcome,
) -> (event: TrafficEvent)
    ensures
        event@ == exchange_event(u64AtMs, u32RequestCanId, vecRequest@, *outcome),
{
    let description = DescribeOutcome(outcome);
    TrafficEvent::Exchange {
        at_ms: u64AtMs,
        can_id_hex: FormatCanId(u32RequestCanId),
        request_hex: FormatHexBytes(vecRequest),
        addressing: description.m_strAddressing,
        routed: description.m_bRouted,
        responses: description.m_vecResponses,
        reason: description.m_optStrReason,
    }
}

/// Every silence has a reason and every answer has none.
pub proof fn law_silence_is_explained(outcome: RoutingOutcome)
    ensures
        outcome_description(outcome).routed <==> outcome is Handled,
        outcome_description(outcome).reason is None <==> outcome is Handled,
        outcome_description(outcome).responses.len() > 0 ==> outcome is Handled,
{
}

} // verus!
