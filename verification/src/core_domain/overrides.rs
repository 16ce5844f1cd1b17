//! User-defined answers to particular requests.
//!
//! An override changes what the ECU says, not what it does: the protocol still runs, and the
//! session and security state machines still behave normally.

use vstd::prelude::*;
use vstd::string::StringExecFns;

use crate::bytes::CopyAll;
use crate::text::decimal;
use crate::text::hex;
use crate::text::AppendDecimal;
use crate::text::AppendHex;
use crate::text::TextWithNumber;
use crate::text::TextWithNumbers;

verus! {

/// Offset between a request service identifier and its positive response.
pub const c_byPositiveResponseOffset: u8 = 0x40;

/// First byte of a negative response.
pub const c_byNegativeResponseSid: u8 = 0x7F;

/// NRC 0x78 requestCorrectlyReceived-ResponsePending.
pub const c_byNrcResponsePending: u8 = 0x78;

/// Copy a run of bytes out of the request into the response, so one override can answer a whole
/// family of requests without lying about which one it answered.
#[derive(Debug, Clone, Copy, PartialEq, Eq, Structural)]
pub struct EchoSpan {
    /// Where the run starts in the request.
    pub m_uRequestOffset: usize,
    /// How many bytes to copy.
    pub m_uLength: usize,
    /// Where the run lands in the response.
    pub m_uResponseOffset: usize,
}

impl EchoSpan {
    /// One past the last request byte the span reads.
    pub open spec fn request_end(&self) -> int {
        self.m_uRequestOffset + self.m_uLength
    }

    /// One past the last response byte the span writes.
    pub open spec fn response_end(&self) -> int {
        self.m_uResponseOffset + self.m_uLength
    }

    /// Both ends are addressable offsets.
    pub open spec fn is_addressable(&self) -> bool {
        self.request_end() <= usize::MAX && self.response_end() <= usize::MAX
    }
}

/// What an override does when it matches.
#[derive(Debug, Clone, PartialEq, Eq)]
pub enum OverrideAction {
    /// Send these bytes instead of whatever the protocol produced.
    Substitute {
        /// The response bytes, before any echo spans are applied.
        m_vecResponse: Vec<u8>,
        /// Runs of the request to copy into the response.
        m_vecEchoSpans: Vec<EchoSpan>,
    },
    /// Send nothing at all: present but silent for this one request.
    Suppress,
}

impl OverrideAction {
    /// Every echo span of the action is addressable.
    pub open spec fn is_addressable(&self) -> bool {
        match self {
            OverrideAction::Suppress => true,
            OverrideAction::Substitute { m_vecEchoSpans, .. } => forall|i: int|
                0 <= i < m_vecEchoSpans@.len() ==> (
                #[trigger] m_vecEchoSpans@[i]).is_addressable(),
        }
    }
}

/// A user-defined answer to a particular request.
#[derive(Debug, Clone, PartialEq, Eq)]
pub struct ResponseOverride {
    /// The request bytes to match. Bytes where the mask is zero are ignored.
    pub m_vecRequestPattern: Vec<u8>,
    /// One mask byte per pattern byte: 0xFF means "must match", 0x00 means "any value".
    pub m_vecRequestMask: Vec<u8>,
    /// When true the pattern is a prefix and a longer request still matches.
    pub m_bMatchTrailingBytes: bool,
    /// What to send when it matches.
    pub m_action: OverrideAction,
    /// Off keeps the override in the model without applying it.
    pub m_bIsEnabled: bool,
    /// Apply even when the protocol suppressed its response because the tester asked for that.
    pub m_bRespondEvenIfSuppressed: bool,
    /// Why this override exists, for whoever reads the model next.
    pub m_strNote: String,
}

/// How many mask bytes fix something.
pub open spec fn fixed_bytes(mask: Seq<u8>) -> nat
    decreases mask.len(),
{
    if mask.len() == 0 {
        0
    } else {
        fixed_bytes(mask.drop_last()) + if mask.last() != 0 {
            1nat
        } else {
            0nat
        }
    }
}

/// A response with one run of request bytes copied into it; unchanged when the run does not fit
/// either buffer.
pub open spec fn echoed(span: EchoSpan, request: Seq<u8>, response: Seq<u8>) -> Seq<u8> {
    if span.request_end() > request.len() || span.response_end() > response.len() {
        response
    } else {
        Seq::new(
            response.len(),
            |i: int|
                if span.m_uResponseOffset <= i < span.response_end() {
                    request[span.m_uRequestOffset + i - span.m_uResponseOffset]
                } else {
                    response[i]
                },
        )
    }
}

/// A response with every span applied, in order.
pub open spec fn echoed_all(spans: Seq<EchoSpan>, request: Seq<u8>, response: Seq<u8>) -> Seq<u8>
    decreases spans.len(),
{
    if spans.len() == 0 {
        response
    } else {
        echoed(spans.last(), request, echoed_all(spans.drop_last(), request, response))
    }
}

impl ResponseOverride {
    /// The override applies to a request: it is enabled and well-shaped, the lengths agree (or
    /// the request is longer and the pattern is a prefix), and every byte agrees with the
    /// pattern wherever the mask fixes bits.
    pub open spec fn matches(&self, request: Seq<u8>) -> bool {
        let pattern = self.m_vecRequestPattern@;
        let mask = self.m_vecRequestMask@;
        &&& self.m_bIsEnabled
        &&& pattern.len() > 0
        &&& mask.len() == pattern.len()
        &&& request.len() == pattern.len() || (self.m_bMatchTrailingBytes && request.len()
            > pattern.len())
        &&& forall|i: int|
            0 <= i < pattern.len() ==> (#[trigger] request[i]) & mask[i] == pattern[i] & mask[i]
    }

    /// How specific the override is: fixed bytes, then pattern length, then anchored.
    pub open spec fn specificity(&self) -> (nat, nat, bool) {
        (
            fixed_bytes(self.m_vecRequestMask@),
            self.m_vecRequestPattern@.len(),
            !self.m_bMatchTrailingBytes,
        )
    }

    /// The response an override produces for a request; `None` when it suppresses it.
    pub open spec fn response_to(&self, request: Seq<u8>) -> Option<Seq<u8>> {
        match self.m_action {
            OverrideAction::Suppress => None,
            OverrideAction::Substitute { m_vecResponse, m_vecEchoSpans } => Some(
                echoed_all(m_vecEchoSpans@, request, m_vecResponse@),
            ),
        }
    }

    /// Build an override that matches one exact request.
    pub fn NewExact(vecRequest: &[u8], action: OverrideAction) -> (rule: Self)
        ensures
            rule.m_vecRequestPattern@ == vecRequest@,
            rule.m_vecRequestMask@ == Seq::new(vecRequest@.len(), |i: int| 0xFFu8),
            !rule.m_bMatchTrailingBytes,
            rule.m_action == action,
            rule.m_bIsEnabled,
            !rule.m_bRespondEvenIfSuppressed,
            rule.m_strNote@ == Seq::<char>::empty(),
    {
        let mut vecMask: Vec<u8> = Vec::new();
        let mut uIndex: usize = 0;
        while uIndex < vecRequest.len()
            invariant
                uIndex <= vecRequest@.len(),
                vecMask@ == Seq::new(uIndex as nat, |i: int| 0xFFu8),
            decreases vecRequest@.len() - uIndex,
        {
            vecMask.push(0xFF);
            uIndex = uIndex + 1;
            assert(vecMask@ =~= Seq::new(uIndex as nat, |i: int| 0xFFu8));
        }
        ResponseOverride {
            m_vecRequestPattern: CopyAll(vecRequest),
            m_vecRequestMask: vecMask,
            m_bMatchTrailingBytes: false,
            m_action: action,
            m_bIsEnabled: true,
            m_bRespondEvenIfSuppressed: false,
            m_strNote: String::new(),
        }
    }

    /// True when this override applies to the given request.
    pub fn Matches(&self, vecRequest: &[u8]) -> (bMatches: bool)
        ensures
            bMatches == self.matches(vecRequest@),
    {
        if !self.m_bIsEnabled || self.m_vecRequestPattern.len() == 0 {
            return false;
        }
        if self.m_vecRequestMask.len() != self.m_vecRequestPattern.len() {
            return false;
        }
        let bIsLengthAcceptable = if self.m_bMatchTrailingBytes {
            vecRequest.len() >= self.m_vecRequestPattern.len()
        } else {
            vecRequest.len() == self.m_vecRequestPattern.len()
        };
        if !bIsLengthAcceptable {
            return false;
        }
        let mut uIndex: usize = 0;
        while uIndex < self.m_vecRequestPattern.len()
            invariant
                uIndex <= self.m_vecRequestPattern@.len(),
                self.m_vecRequestMask@.len() == self.m_vecRequestPattern@.len(),
                vecRequest@.len() >= self.m_vecRequestPattern@.len(),
                forall|i: int|
                    0 <= i < uIndex ==> (#[trigger] vecRequest@[i]) & self.m_vecRequestMask@[i]
                        == self.m_vecRequestPattern@[i] & self.m_vecRequestMask@[i],
            decreases self.m_vecRequestPattern@.len() - uIndex,
        {
            let byMask: u8 = self.m_vecRequestMask[uIndex];
            if vecRequest[uIndex] & byMask != self.m_vecRequestPattern[uIndex] & byMask {
                assert(vecRequest@[uIndex as int] & self.m_vecRequestMask@[uIndex as int]
                    != self.m_vecRequestPattern@[uIndex as int]
                    & self.m_vecRequestMask@[uIndex as int]);
                return false;
            }
            uIndex = uIndex + 1;
        }
        true
    }

    /// How specific this override is, most specific first when sorted descending.
    ///
    /// More fixed bytes beats fewer, then a longer pattern, then an anchored pattern beats a
    /// prefix. Deliberately not "last one wins": reordering a list must never change behaviour
    /// silently.
    pub fn Specificity(&self) -> (specificity: (usize, usize, bool))
        ensures
            self.specificity() == (
                specificity.0 as nat,
                specificity.1 as nat,
                specificity.2,
            ),
    {
        let mut uFixedBytes: usize = 0;
        let mut uIndex: usize = 0;
        while uIndex < self.m_vecRequestMask.len()
            invariant
                uIndex <= self.m_vecRequestMask@.len(),
                uFixedBytes == fixed_bytes(self.m_vecRequestMask@.take(uIndex as int)),
                uFixedBytes <= uIndex,
            decreases self.m_vecRequestMask@.len() - uIndex,
        {
            assert(self.m_vecRequestMask@.take(uIndex + 1).drop_last()
                =~= self.m_vecRequestMask@.take(uIndex as int));
            if self.m_vecRequestMask[uIndex] != 0x00 {
                uFixedBytes = uFixedBytes + 1;
            }
            uIndex = uIndex + 1;
        }
        assert(self.m_vecRequestMask@.take(uIndex as int) =~= self.m_vecRequestMask@);
        (uFixedBytes, self.m_vecRequestPattern.len(), !self.m_bMatchTrailingBytes)
    }

    /// The response bytes this override produces for a request, with echo spans applied. `None`
    /// when the override suppresses the response instead.
    pub fn BuildResponse(&self, vecRequest: &[u8]) -> (optResponse: Option<Vec<u8>>)
        requires
            self.m_action.is_addressable(),
        ensures
            match optResponse {
                Some(vecResponse) => self.response_to(vecRequest@) == Some(vecResponse@),
                None => self.response_to(vecRequest@) is None,
            },
    {
        match &self.m_action {
            OverrideAction::Suppress => None,
            OverrideAction::Substitute { m_vecResponse, m_vecEchoSpans } => {
                let mut vecResponse: Vec<u8> = CopyAll(m_vecResponse.as_slice());
                let mut uIndex: usize = 0;
                while uIndex < m_vecEchoSpans.len()
                    invariant
                        uIndex <= m_vecEchoSpans@.len(),
                        forall|i: int|
                            0 <= i < m_vecEchoSpans@.len() ==> (
                            #[trigger] m_vecEchoSpans@[i]).is_addressable(),
                        vecResponse@ == echoed_all(
                            m_vecEchoSpans@.take(uIndex as int),
                            vecRequest@,
                            m_vecResponse@,
                        ),
                    decreases m_vecEchoSpans@.len() - uIndex,
                {
                    assert(m_vecEchoSpans@.take(uIndex + 1).drop_last() =~= m_vecEchoSpans@.take(
                        uIndex as int,
                    ));
                    ApplyEchoSpan(&m_vecEchoSpans[uIndex], vecRequest, &mut vecResponse);
                    uIndex = uIndex + 1;
                }
                assert(m_vecEchoSpans@.take(uIndex as int) =~= m_vecEchoSpans@);
                Some(vecResponse)
            },
        }
    }

    /// The request service identifier this override answers, if the pattern states one.
    pub fn RequestServiceId(&self) -> (optByServiceId: Option<u8>)
        ensures
            optByServiceId == (if self.m_vecRequestMask@.len() > 0 && self.m_vecRequestMask@[0]
                == 0xFF && self.m_vecRequestPattern@.len() > 0 {
                Some(self.m_vecRequestPattern@[0])
            } else {
                None
            }),
    {
        if self.m_vecRequestMask.len() == 0 || self.m_vecRequestMask[0] != 0xFF {
            return None;
        }
        if self.m_vecRequestPattern.len() == 0 {
            return None;
        }
        Some(self.m_vecRequestPattern[0])
    }
}

/// Copy one run of request bytes into the response, ignoring a span that would not fit rather
/// than growing the response.
fn ApplyEchoSpan(span: &EchoSpan, vecRequest: &[u8], vecResponse: &mut Vec<u8>)
    requires
        span.is_addressable(),
    ensures
        final(vecResponse)@ == echoed(*span, vecRequest@, old(vecResponse)@),
{
    let uRequestEnd: usize = span.m_uRequestOffset + span.m_uLength;
    let uResponseEnd: usize = span.m_uResponseOffset + span.m_uLength;
    if uRequestEnd > vecRequest.len() || uResponseEnd > vecResponse.len() {
        return ;
    }
    let ghost before = vecResponse@;
    let mut uIndex: usize = 0;
    while uIndex < span.m_uLength
        invariant
            uIndex <= span.m_uLength,
            uRequestEnd == span.m_uRequestOffset + span.m_uLength,
            uResponseEnd == span.m_uResponseOffset + span.m_uLength,
            uRequestEnd <= vecRequest@.len(),
            uResponseEnd <= vecResponse@.len(),
            vecResponse@.len() == before.len(),
            forall|i: int|
                0 <= i < before.len() ==> #[trigger] vecResponse@[i] == (
                if span.m_uResponseOffset <= i < span.m_uResponseOffset + uIndex {
                    vecRequest@[span.m_uRequestOffset + i - span.m_uResponseOffset]
                } else {
                    before[i]
                }),
        decreases span.m_uLength - uIndex,
    {
        let byCopied: u8 = vecRequest[span.m_uRequestOffset + uIndex];
        vecResponse.set(span.m_uResponseOffset + uIndex, byCopied);
        uIndex = uIndex + 1;
    }
    assert(vecResponse@ =~= echoed(*span, vecRequest@, before));
}

/// Why a response override was refused.
#[derive(Debug, Clone, Copy, PartialEq, Eq, Structural)]
pub enum OverrideValidationError {
    /// Nothing to match on.
    EmptyRequestPattern,
    /// One mask byte per pattern byte, or the match is undefined.
    MaskLengthMismatch { uPatternLength: usize, uMaskLength: usize },
    /// A pattern that fixes nothing answers everything.
    EverythingWildcarded,
    /// The service identifier has to be fixed.
    ServiceIdWildcarded,
    /// Requests live in two ranges; anything else is a response or not UDS at all.
    NotARequestServiceId { byServiceId: u8 },
    /// Silence is its own action.
    EmptySubstituteResponse,
    /// The response has to answer the request it replaces.
    ResponseSidMismatch { byResponseSid: u8, byRequestSid: u8, byExpected: u8 },
    /// A negative response is exactly three bytes.
    MalformedNegativeResponse { uLength: usize },
    /// The echoed service identifier has to be the one that was requested.
    NegativeResponseSidMismatch { byEchoedSid: u8, byRequestSid: u8 },
    /// ResponsePending is the session layer's to send, and it obliges a final response.
    ResponsePendingAsOverride,
    /// An echo span that reaches past either buffer is a configuration mistake.
    EchoSpanOutsideRequest { uRequestOffset: usize, uRequestEnd: usize },
    /// Same, on the response side.
    EchoSpanOutsideResponse {
        uResponseOffset: usize,
        uResponseEnd: usize,
        uResponseLength: usize,
    },
}

/// A UDS request service identifier: 0x10..=0x3E or 0x83..=0x88.
pub open spec fn is_request_sid(sid: u8) -> bool {
    0x10 <= sid <= 0x3E || 0x83 <= sid <= 0x88
}

/// True for a UDS request service identifier.
pub fn IsRequestServiceId(byServiceId: u8) -> (bIsRequest: bool)
    ensures
        bIsRequest == is_request_sid(byServiceId),
{
    (0x10 <= byServiceId && byServiceId <= 0x3E) || (0x83 <= byServiceId && byServiceId <= 0x88)
}

/// The positive response identifier of a request.
pub open spec fn positive_sid(sid: u8) -> u8 {
    ((sid + 0x40) % 256) as u8
}

/// What is wrong with a negative response to a request, if anything.
pub open spec fn negative_error(response: Seq<u8>, sid: u8) -> Option<OverrideValidationError> {
    if response.len() != 3 {
        Some(OverrideValidationError::MalformedNegativeResponse { uLength: response.len() as usize })
    } else if response[1] != sid {
        Some(
            OverrideValidationError::NegativeResponseSidMismatch {
                byEchoedSid: response[1],
                byRequestSid: sid,
            },
        )
    } else if response[2] == 0x78 {
        Some(OverrideValidationError::ResponsePendingAsOverride)
    } else {
        None
    }
}

/// What is wrong with an echo span, if anything.
pub open spec fn span_error(span: EchoSpan, pattern: Seq<u8>, response: Seq<u8>) -> Option<
    OverrideValidationError,
> {
    if span.request_end() > pattern.len() {
        Some(
            OverrideValidationError::EchoSpanOutsideRequest {
                uRequestOffset: span.m_uRequestOffset,
                uRequestEnd: span.request_end() as usize,
            },
        )
    } else if span.response_end() > response.len() {
        Some(
            OverrideValidationError::EchoSpanOutsideResponse {
                uResponseOffset: span.m_uResponseOffset,
                uResponseEnd: span.response_end() as usize,
                uResponseLength: response.len() as usize,
            },
        )
    } else {
        None
    }
}

/// What is wrong with the first faulty echo span, if any is.
pub open spec fn spans_error(
    spans: Seq<EchoSpan>,
    pattern: Seq<u8>,
    response: Seq<u8>,
) -> Option<OverrideValidationError>
    decreases spans.len(),
{
    if spans.len() == 0 {
        None
    } else {
        match spans_error(spans.drop_last(), pattern, response) {
            Some(error) => Some(error),
            None => span_error(spans.last(), pattern, response),
        }
    }
}

impl ResponseOverride {
    /// What is wrong with what the override sends, if anything.
    pub open spec fn action_error(&self, sid: u8) -> Option<OverrideValidationError> {
        match self.m_action {
            OverrideAction::Suppress => None,
            OverrideAction::Substitute { m_vecResponse, m_vecEchoSpans } => {
                let response = m_vecResponse@;
                if response.len() == 0 {
                    Some(OverrideValidationError::EmptySubstituteResponse)
                } else if response[0] == 0x7F && negative_error(response, sid) is Some {
                    negative_error(response, sid)
                } else if response[0] != 0x7F && response[0] != positive_sid(sid) {
                    Some(
                        OverrideValidationError::ResponseSidMismatch {
                            byResponseSid: response[0],
                            byRequestSid: sid,
                            byExpected: positive_sid(sid),
                        },
                    )
                } else {
                    spans_error(m_vecEchoSpans@, self.m_vecRequestPattern@, response)
                }
            },
        }
    }

    /// The first rule the override breaks, if it breaks one.
    pub open spec fn first_error(&self) -> Option<OverrideValidationError> {
        let pattern = self.m_vecRequestPattern@;
        let mask = self.m_vecRequestMask@;
        if pattern.len() == 0 {
            Some(OverrideValidationError::EmptyRequestPattern)
        } else if mask.len() != pattern.len() {
            Some(
                OverrideValidationError::MaskLengthMismatch {
                    uPatternLength: pattern.len() as usize,
                    uMaskLength: mask.len() as usize,
                },
            )
        } else if forall|i: int| 0 <= i < mask.len() ==> mask[i] == 0 {
            Some(OverrideValidationError::EverythingWildcarded)
        } else if mask[0] != 0xFF {
            Some(OverrideValidationError::ServiceIdWildcarded)
        } else if !is_request_sid(pattern[0]) {
            Some(OverrideValidationError::NotARequestServiceId { byServiceId: pattern[0] })
        } else {
            self.action_error(pattern[0])
        }
    }

    /// Check that this override could be a real exchange on a real bus.
    ///
    /// Rejects what cannot be true: a response that does not answer its request, a negative
    /// response of the wrong shape, an NRC the session layer owns. It does not reject
    /// implausible-but-possible behaviour.
    pub fn Validate(&self) -> (result: Result<(), OverrideValidationError>)
        requires
            self.m_action.is_addressable(),
        ensures
            match result {
                Ok(()) => self.first_error() is None,
                Err(error) => self.first_error() == Some(error),
            },
    {
        if self.m_vecRequestPattern.len() == 0 {
            return Err(OverrideValidationError::EmptyRequestPattern);
        }
        if self.m_vecRequestMask.len() != self.m_vecRequestPattern.len() {
            return Err(
                OverrideValidationError::MaskLengthMismatch {
                    uPatternLength: self.m_vecRequestPattern.len(),
                    uMaskLength: self.m_vecRequestMask.len(),
                },
            );
        }
        let mut bEverythingWildcarded = true;
        let mut uIndex: usize = 0;
        while uIndex < self.m_vecRequestMask.len()
            invariant
                uIndex <= self.m_vecRequestMask@.len(),
                bEverythingWildcarded == (forall|i: int|
                    0 <= i < uIndex ==> self.m_vecRequestMask@[i] == 0),
            decreases self.m_vecRequestMask@.len() - uIndex,
        {
            if self.m_vecRequestMask[uIndex] != 0x00 {
                bEverythingWildcarded = false;
            }
            uIndex = uIndex + 1;
        }
        if bEverythingWildcarded {
            return Err(OverrideValidationError::EverythingWildcarded);
        }
        if self.m_vecRequestMask[0] != 0xFF {
            return Err(OverrideValidationError::ServiceIdWildcarded);
        }
        let byRequestSid: u8 = self.m_vecRequestPattern[0];
        if !IsRequestServiceId(byRequestSid) {
            return Err(OverrideValidationError::NotARequestServiceId { byServiceId: byRequestSid });
        }
        self.ValidateAction(byRequestSid)
    }

    /// The half of validation that depends on what the override sends.
    fn ValidateAction(&self, byRequestSid: u8) -> (result: Result<(), OverrideValidationError>)
        requires
            self.m_action.is_addressable(),
        ensures
            match result {
                Ok(()) => self.action_error(byRequestSid) is None,
                Err(error) => self.action_error(byRequestSid) == Some(error),
            },
    {
        match &self.m_action {
            OverrideAction::Suppress => Ok(()),
            OverrideAction::Substitute { m_vecResponse, m_vecEchoSpans } => {
                if m_vecResponse.len() == 0 {
                    return Err(OverrideValidationError::EmptySubstituteResponse);
                }
                if m_vecResponse[0] == c_byNegativeResponseSid {
                    match ValidateNegativeResponse(m_vecResponse.as_slice(), byRequestSid) {
                        Ok(()) => {},
                        Err(error) => {
                            return Err(error);
                        },
                    }
                } else {
                    let byExpected: u8 = byRequestSid.wrapping_add(c_byPositiveResponseOffset);
                    if m_vecResponse[0] != byExpected {
                        return Err(
                            OverrideValidationError::ResponseSidMismatch {
                                byResponseSid: m_vecResponse[0],
                                byRequestSid,
                                byExpected,
                            },
                        );
                    }
                }
                let mut uIndex: usize = 0;
                while uIndex < m_vecEchoSpans.len()
                    invariant
                        uIndex <= m_vecEchoSpans@.len(),
                        forall|i: int|
                            0 <= i < m_vecEchoSpans@.len() ==> (
                            #[trigger] m_vecEchoSpans@[i]).is_addressable(),
                        spans_error(
                            m_vecEchoSpans@.take(uIndex as int),
                            self.m_vecRequestPattern@,
                            m_vecResponse@,
                        ) is None,
                        self.action_error(byRequestSid) == spans_error(
                            m_vecEchoSpans@,
                            self.m_vecRequestPattern@,
                            m_vecResponse@,
                        ),
                    decreases m_vecEchoSpans@.len() - uIndex,
                {
                    let ghost upto = m_vecEchoSpans@.take(uIndex + 1);
                    assert(upto.drop_last() =~= m_vecEchoSpans@.take(uIndex as int));
                    match ValidateEchoSpan(
                        &m_vecEchoSpans[uIndex],
                        self.m_vecRequestPattern.as_slice(),
                        m_vecResponse.as_slice(),
                    ) {
                        Ok(()) => {},
                        Err(error) => {
                            proof {
                                lemma_first_span_error_stays(
                                    m_vecEchoSpans@,
                                    self.m_vecRequestPattern@,
                                    m_vecResponse@,
                                    uIndex + 1,
                                );
                            }
                            return Err(error);
                        },
                    }
                    uIndex = uIndex + 1;
                }
                assert(m_vecEchoSpans@.take(uIndex as int) =~= m_vecEchoSpans@);
                Ok(())
            },
        }
    }
}

proof fn lemma_first_span_error_stays(
    spans: Seq<EchoSpan>,
    pattern: Seq<u8>,
    response: Seq<u8>,
    k: int,
)
    requires
        0 <= k <= spans.len(),
        spans_error(spans.take(k), pattern, response) is Some,
    ensures
        spans_error(spans, pattern, response) == spans_error(spans.take(k), pattern, response),
    decreases spans.len(),
{
    if k == spans.len() {
        assert(spans.take(k) =~= spans);
    } else {
        assert(spans.drop_last().take(k) =~= spans.take(k));
        lemma_first_span_error_stays(spans.drop_last(), pattern, response, k);
    }
}

/// A negative response is `7F <sid> <nrc>`, echoing the service it refuses.
fn ValidateNegativeResponse(vecResponse: &[u8], byRequestSid: u8) -> (result: Result<
    (),
    OverrideValidationError,
>)
    ensures
        match result {
            Ok(()) => negative_error(vecResponse@, byRequestSid) is None,
            Err(error) => negative_error(vecResponse@, byRequestSid) == Some(error),
        },
{
    if vecResponse.len() != 3 {
        return Err(
            OverrideValidationError::MalformedNegativeResponse { uLength: vecResponse.len() },
        );
    }
    if vecResponse[1] != byRequestSid {
        return Err(
            OverrideValidationError::NegativeResponseSidMismatch {
                byEchoedSid: vecResponse[1],
                byRequestSid,
            },
        );
    }
    if vecResponse[2] == c_byNrcResponsePending {
        return Err(OverrideValidationError::ResponsePendingAsOverride);
    }
    Ok(())
}

/// An echo span must fit both the shortest matching request and the response template.
fn ValidateEchoSpan(span: &EchoSpan, vecRequestPattern: &[u8], vecResponse: &[u8]) -> (result:
    Result<(), OverrideValidationError>)
    requires
        span.is_addressable(),
    ensures
        match result {
            Ok(()) => span_error(*span, vecRequestPattern@, vecResponse@) is None,
            Err(error) => span_error(*span, vecRequestPattern@, vecResponse@) == Some(error),
        },
{
    let uRequestEnd: usize = span.m_uRequestOffset + span.m_uLength;
    if uRequestEnd > vecRequestPattern.len() {
        return Err(
            OverrideValidationError::EchoSpanOutsideRequest {
                uRequestOffset: span.m_uRequestOffset,
                uRequestEnd,
            },
        );
    }
    let uResponseEnd: usize = span.m_uResponseOffset + span.m_uLength;
    if uResponseEnd > vecResponse.len() {
        return Err(
            OverrideValidationError::EchoSpanOutsideResponse {
                uResponseOffset: span.m_uResponseOffset,
                uResponseEnd,
                uResponseLength: vecResponse.len(),
            },
        );
    }
    Ok(())
}

/// An override that validates answers its request: what it sends begins with the positive
/// response identifier of the service it matches, or is a three-byte negative response that
/// names that service and is not ResponsePending.
pub proof fn law_valid_override_answers_its_request(rule: ResponseOverride)
    requires
        rule.first_error() is None,
    ensures
        is_request_sid(rule.m_vecRequestPattern@[0]),
        match rule.m_action {
            OverrideAction::Suppress => true,
            OverrideAction::Substitute { m_vecResponse, .. } => {
                let sid = rule.m_vecRequestPattern@[0];
                ||| m_vecResponse@.len() > 0 && m_vecResponse@[0] == positive_sid(sid)
                    && m_vecResponse@[0] != 0x7F
                ||| m_vecResponse@.len() == 3 && m_vecResponse@[0] == 0x7F && m_vecResponse@[1]
                    == sid && m_vecResponse@[2] != 0x78
            },
        },
{
}

/// Echo spans never change the length of a response.
pub proof fn law_echo_keeps_the_length(spans: Seq<EchoSpan>, request: Seq<u8>, response: Seq<u8>)
    ensures
        echoed_all(spans, request, response).len() == response.len(),
    decreases spans.len(),
{
    if spans.len() > 0 {
        law_echo_keeps_the_length(spans.drop_last(), request, response);
    }
}

/// A request that matches fixed bytes carries them: wherever the mask is 0xFF, the request has
/// the pattern's byte.
pub proof fn law_match_fixes_masked_bytes(rule: ResponseOverride, request: Seq<u8>, i: int)
    requires
        rule.matches(request),
        0 <= i < rule.m_vecRequestPattern@.len(),
        rule.m_vecRequestMask@[i] == 0xFF,
    ensures
        request[i] == rule.m_vecRequestPattern@[i],
{
    let a = request[i];
    let b = rule.m_vecRequestPattern@[i];
    assert(a & 0xFF == a && b & 0xFF == b) by (bit_vector);
}

impl OverrideValidationError {
    /// What the refusal says.
    pub open spec fn message(&self) -> Seq<char> {
        match self {
            OverrideValidationError::EmptyRequestPattern => "the request pattern is empty"@,
            OverrideValidationError::MaskLengthMismatch { uPatternLength, uMaskLength } =>
                "the request pattern is "@ + decimal(*uPatternLength as nat)
                + " bytes but the mask is "@ + decimal(*uMaskLength as nat),
            OverrideValidationError::EverythingWildcarded =>
                "every byte of the request pattern is a wildcard, so it would answer every request"@,
            OverrideValidationError::ServiceIdWildcarded =>
                "the first pattern byte (the service identifier) must be matched exactly, not wildcarded"@,
            OverrideValidationError::NotARequestServiceId { byServiceId } => "0x"@ + hex(
                *byServiceId as nat,
                2,
            )
                + " is not a UDS request service identifier (ISO 14229-1 clause 7.3 defines 0x10..=0x3E and 0x83..=0x88)"@,
            OverrideValidationError::EmptySubstituteResponse =>
                "a substituting override needs response bytes; use the suppress action to send nothing"@,
            OverrideValidationError::ResponseSidMismatch {
                byResponseSid,
                byRequestSid,
                byExpected,
            } => "the response starts with 0x"@ + hex(*byResponseSid as nat, 2)
                + ", which is neither the positive response to 0x"@ + hex(*byRequestSid as nat, 2)
                + " (0x"@ + hex(*byExpected as nat, 2) + ") nor a negative response (0x7F)"@,
            OverrideValidationError::MalformedNegativeResponse { uLength } =>
                "a negative response is exactly 3 bytes (7F <sid> <nrc>), but this one is "@
                + decimal(*uLength as nat),
            OverrideValidationError::NegativeResponseSidMismatch { byEchoedSid, byRequestSid } =>
                "the negative response echoes service 0x"@ + hex(*byEchoedSid as nat, 2)
                + " but the request is 0x"@ + hex(*byRequestSid as nat, 2),
            OverrideValidationError::ResponsePendingAsOverride =>
                "NRC 0x78 cannot be an override: it is a promise to answer later, and the timing layer owns that sequence"@,
            OverrideValidationError::EchoSpanOutsideRequest { uRequestOffset, uRequestEnd } =>
                "an echo span reads request bytes "@ + decimal(*uRequestOffset as nat) + ".."@
                + decimal(*uRequestEnd as nat)
                + ", which a request matching this pattern may not have"@,
            OverrideValidationError::EchoSpanOutsideResponse {
                uResponseOffset,
                uResponseEnd,
                uResponseLength,
            } => "an echo span writes response bytes "@ + decimal(*uResponseOffset as nat) + ".."@
                + decimal(*uResponseEnd as nat) + ", past the end of a "@ + decimal(
                *uResponseLength as nat,
            ) + "-byte response"@,
        }
    }

    /// What the refusal says, for the operator.
    pub fn Message(&self) -> (strMessage: String)
        ensures
            strMessage@ == self.message(),
    {
        match self {
            OverrideValidationError::EmptyRequestPattern => "the request pattern is empty".to_string(),
            OverrideValidationError::MaskLengthMismatch { uPatternLength, uMaskLength } => {
                let mut strMessage = TextWithNumber(
                    "the request pattern is ",
                    *uPatternLength as u64,
                    " bytes but the mask is ",
                );
                AppendDecimal(&mut strMessage, *uMaskLength as u64);
                strMessage
            },
            OverrideValidationError::EverythingWildcarded =>
                "every byte of the request pattern is a wildcard, so it would answer every request".to_string(),
            OverrideValidationError::ServiceIdWildcarded =>
                "the first pattern byte (the service identifier) must be matched exactly, not wildcarded".to_string(),
            OverrideValidationError::NotARequestServiceId { byServiceId } => {
                let mut strMessage = "0x".to_string();
                AppendHex(&mut strMessage, *byServiceId as u64, 2);
                strMessage.append(
                    " is not a UDS request service identifier (ISO 14229-1 clause 7.3 defines 0x10..=0x3E and 0x83..=0x88)",
                );
                strMessage
            },
            OverrideValidationError::EmptySubstituteResponse =>
                "a substituting override needs response bytes; use the suppress action to send nothing".to_string(),
            OverrideValidationError::ResponseSidMismatch {
                byResponseSid,
                byRequestSid,
                byExpected,
            } => {
                let mut strMessage = "the response starts with 0x".to_string();
                AppendHex(&mut strMessage, *byResponseSid as u64, 2);
                strMessage.append(", which is neither the positive response to 0x");
                AppendHex(&mut strMessage, *byRequestSid as u64, 2);
                strMessage.append(" (0x");
                AppendHex(&mut strMessage, *byExpected as u64, 2);
                strMessage.append(") nor a negative response (0x7F)");
                strMessage
            },
            OverrideValidationError::MalformedNegativeResponse { uLength } => {
                let mut strMessage =
                    "a negative response is exactly 3 bytes (7F <sid> <nrc>), but this one is ".to_string();
                AppendDecimal(&mut strMessage, *uLength as u64);
                strMessage
            },
            OverrideValidationError::NegativeResponseSidMismatch { byEchoedSid, byRequestSid } => {
                let mut strMessage = "the negative response echoes service 0x".to_string();
                AppendHex(&mut strMessage, *byEchoedSid as u64, 2);
                strMessage.append(" but the request is 0x");
                AppendHex(&mut strMessage, *byRequestSid as u64, 2);
                strMessage
            },
            OverrideValidationError::ResponsePendingAsOverride =>
                "NRC 0x78 cannot be an override: it is a promise to answer later, and the timing layer owns that sequence".to_string(),
            OverrideValidationError::EchoSpanOutsideRequest { uRequestOffset, uRequestEnd } =>
                TextWithNumbers(
                "an echo span reads request bytes ",
                *uRequestOffset as u64,
                "..",
                *uRequestEnd as u64,
                ", which a request matching this pattern may not have",
            ),
            OverrideValidationError::EchoSpanOutsideResponse {
                uResponseOffset,
                uResponseEnd,
                uResponseLength,
            } => {
                let mut strMessage = TextWithNumbers(
                    "an echo span writes response bytes ",
                    *uResponseOffset as u64,
                    "..",
                    *uResponseEnd as u64,
                    ", past the end of a ",
                );
                AppendDecimal(&mut strMessage, *uResponseLength as u64);
                strMessage.append("-byte response");
                strMessage
            },
        }
    }
}

} // verus!
