//! User-defined answers as a caller reads and writes them.

use vstd::prelude::*;
use vstd::string::StringExecFns;

use crate::api::diagnostics::FormatHex;
use crate::api::error::bad_request;
use crate::api::error::ApiError;
use crate::api::error::ErrorView;
use crate::api::events::text_of;
use crate::api::input::hex_input;
use crate::api::input::pattern_input;
use crate::api::input::pattern_text;
use crate::api::input::tokens_of;
use crate::api::input::without_white_space;
use crate::api::input::FormatHexPattern;
use crate::api::input::ParseHex;
use crate::api::input::ParseHexPattern;
use crate::api::input::Quoted;
use crate::api::input_laws::law_hex_text_reads_back;
use crate::api::input_laws::law_pattern_reads_back;
use crate::core_domain::overrides::EchoSpan;
use crate::core_domain::overrides::OverrideAction;
use crate::core_domain::overrides::OverrideValidationError;
use crate::core_domain::overrides::ResponseOverride;
use crate::core_domain::ranking::action_view;
use crate::core_domain::ranking::override_view;
use crate::core_domain::ranking::ActionView;
use crate::core_domain::ranking::OverrideView;
use crate::text::decimal;
use crate::text::hex_bytes;
use crate::text::AppendDecimal;
use crate::text::SameText;

verus! {

/// A run of request bytes copied into the response.
#[derive(Debug, Clone, Copy, PartialEq, Eq, Structural)]
pub struct EchoSpanDto {
    pub request_offset: usize,
    pub length: usize,
    pub response_offset: usize,
}

/// One user-defined answer, as the user interface reads and writes it. Bytes travel as hexadecimal
/// text.
#[derive(Debug, Clone, PartialEq, Eq)]
pub struct ResponseOverrideDto {
    /// The request bytes to match, e.g. `"22 F1 90"`. A byte written `**` is a wildcard, so
    /// `"22 ** **"` matches a read of any identifier.
    pub request_hex: String,
    /// Treat the pattern as a prefix, for requests with a variable tail.
    pub match_trailing_bytes: bool,
    /// "substitute" or "suppress".
    pub action: String,
    /// The response bytes, for a substituting override.
    pub response_hex: Option<String>,
    /// Runs of the request to copy into the response.
    pub echo_spans: Vec<EchoSpanDto>,
    pub enabled: bool,
    pub respond_even_if_suppressed: bool,
    pub note: String,
}

/// An override with nothing said of whether it is on is on: the caller just created it.
pub fn TrueByDefault() -> (bDefault: bool)
    ensures
        bDefault,
{
    true
}

/// Request body for replacing an ECU's overrides.
#[derive(Debug, Clone, PartialEq, Eq)]
pub struct SetOverridesBody {
    pub overrides: Vec<ResponseOverrideDto>,
}

/// An echo span as a caller sees it.
pub open spec fn span_dto(span: EchoSpan) -> EchoSpanDto {
    EchoSpanDto {
        request_offset: span.m_uRequestOffset,
        length: span.m_uLength,
        response_offset: span.m_uResponseOffset,
    }
}

/// The echo span a caller asked for.
pub open spec fn span_of(dto: EchoSpanDto) -> EchoSpan {
    EchoSpan {
        m_uRequestOffset: dto.request_offset,
        m_uLength: dto.length,
        m_uResponseOffset: dto.response_offset,
    }
}

/// Echo spans as a caller sees them.
pub open spec fn span_dtos(spans: Seq<EchoSpan>) -> Seq<EchoSpanDto> {
    Seq::new(spans.len(), |i: int| span_dto(spans[i]))
}

/// The echo spans a caller asked for.
pub open spec fn spans_of(dtos: Seq<EchoSpanDto>) -> Seq<EchoSpan> {
    Seq::new(dtos.len(), |i: int| span_of(dtos[i]))
}

/// Show echo spans.
fn BuildSpanDtos(vecSpans: &Vec<EchoSpan>) -> (vecDtos: Vec<EchoSpanDto>)
    ensures
        vecDtos@ == span_dtos(vecSpans@),
{
    let mut vecDtos: Vec<EchoSpanDto> = Vec::new();
    let mut uAt: usize = 0;
    while uAt < vecSpans.len()
        invariant
            uAt <= vecSpans@.len(),
            vecDtos@.len() == uAt,
            forall|i: int| 0 <= i < uAt ==> #[trigger] vecDtos@[i] == span_dto(vecSpans@[i]),
        decreases vecSpans@.len() - uAt,
    {
        vecDtos.push(
            EchoSpanDto {
                request_offset: vecSpans[uAt].m_uRequestOffset,
                length: vecSpans[uAt].m_uLength,
                response_offset: vecSpans[uAt].m_uResponseOffset,
            },
        );
        uAt += 1;
    }
    assert(vecDtos@ =~= span_dtos(vecSpans@));
    vecDtos
}

/// Read echo spans.
fn BuildSpans(vecDtos: &Vec<EchoSpanDto>) -> (vecSpans: Vec<EchoSpan>)
    ensures
        vecSpans@ == spans_of(vecDtos@),
{
    let mut vecSpans: Vec<EchoSpan> = Vec::new();
    let mut uAt: usize = 0;
    while uAt < vecDtos.len()
        invariant
            uAt <= vecDtos@.len(),
            vecSpans@.len() == uAt,
            forall|i: int| 0 <= i < uAt ==> #[trigger] vecSpans@[i] == span_of(vecDtos@[i]),
        decreases vecDtos@.len() - uAt,
    {
        vecSpans.push(
            EchoSpan {
                m_uRequestOffset: vecDtos[uAt].request_offset,
                m_uLength: vecDtos[uAt].length,
                m_uResponseOffset: vecDtos[uAt].response_offset,
            },
        );
        uAt += 1;
    }
    assert(vecSpans@ =~= spans_of(vecDtos@));
    vecSpans
}

/// A description that shows an override.
pub open spec fn shows_override(dto: ResponseOverrideDto, rule: ResponseOverride) -> bool {
    &&& dto.request_hex@ == pattern_text(
        rule.m_vecRequestPattern@,
        rule.m_vecRequestMask@,
        rule.m_vecRequestPattern@.len(),
    )
    &&& dto.match_trailing_bytes == rule.m_bMatchTrailingBytes
    &&& match rule.m_action {
        OverrideAction::Suppress => dto.action@ == "suppress"@ && dto.response_hex is None
            && dto.echo_spans@ == Seq::<EchoSpanDto>::empty(),
        OverrideAction::Substitute { m_vecResponse, m_vecEchoSpans } => {
            &&& dto.action@ == "substitute"@
            &&& text_of(dto.response_hex) == Some(hex_bytes(m_vecResponse@))
            &&& dto.echo_spans@ == span_dtos(m_vecEchoSpans@)
        },
    }
    &&& dto.enabled == rule.m_bIsEnabled
    &&& dto.respond_even_if_suppressed == rule.m_bRespondEvenIfSuppressed
    &&& dto.note@ == rule.m_strNote@
}

/// Show one override.
pub fn BuildOverrideDto(overrideRule: &ResponseOverride) -> (dto: ResponseOverrideDto)
    ensures
        shows_override(dto, *overrideRule),
{
    let (strAction, optResponseHex, vecEchoSpans) = match &overrideRule.m_action {
        OverrideAction::Suppress => ("suppress".to_string(), None, Vec::new()),
        OverrideAction::Substitute { m_vecResponse, m_vecEchoSpans } => (
            "substitute".to_string(),
            Some(FormatHex(m_vecResponse.as_slice())),
            BuildSpanDtos(m_vecEchoSpans),
        ),
    };
    ResponseOverrideDto {
        request_hex: FormatHexPattern(
            overrideRule.m_vecRequestPattern.as_slice(),
            overrideRule.m_vecRequestMask.as_slice(),
        ),
        match_trailing_bytes: overrideRule.m_bMatchTrailingBytes,
        action: strAction,
        response_hex: optResponseHex,
        echo_spans: vecEchoSpans,
        enabled: overrideRule.m_bIsEnabled,
        respond_even_if_suppressed: overrideRule.m_bRespondEvenIfSuppressed,
        note: overrideRule.m_strNote.clone(),
    }
}

/// What a caller wants an override to do.
pub open spec fn action_of(dto: ResponseOverrideDto) -> Result<ActionView, Seq<char>> {
    if dto.action@ == "suppress"@ {
        Ok(ActionView::Suppress)
    } else if dto.action@ == "substitute"@ {
        match dto.response_hex {
            None => Err("a substituting override needs responseHex"@),
            Some(text) => match hex_input(without_white_space(text@)) {
                Err(error) => Err(error),
                Ok(response) => Ok(
                    ActionView::Substitute { response, spans: spans_of(dto.echo_spans@) },
                ),
            },
        }
    } else {
        Err("unknown action '"@ + dto.action@ + "'; use substitute or suppress"@)
    }
}

/// The override a caller asked for.
pub open spec fn override_of(dto: ResponseOverrideDto) -> Result<OverrideView, Seq<char>> {
    match pattern_input(tokens_of(dto.request_hex@)) {
        Err(error) => Err(error),
        Ok((pattern, mask)) => match action_of(dto) {
            Err(error) => Err(error),
            Ok(action) => Ok(
                OverrideView {
                    pattern,
                    mask,
                    match_trailing: dto.match_trailing_bytes,
                    action,
                    enabled: dto.enabled,
                    even_if_suppressed: dto.respond_even_if_suppressed,
                    note: dto.note@,
                },
            ),
        },
    }
}

/// Read what an override does.
fn BuildAction(dto: &ResponseOverrideDto) -> (result: Result<OverrideAction, String>)
    ensures
        match result {
            Ok(action) => action_of(*dto) == Ok::<ActionView, Seq<char>>(action_view(action)),
            Err(error) => action_of(*dto) == Err::<ActionView, Seq<char>>(error@),
        },
{
    if SameText(dto.action.as_str(), "suppress") {
        return Ok(OverrideAction::Suppress);
    }
    if SameText(dto.action.as_str(), "substitute") {
        return match &dto.response_hex {
            None => Err("a substituting override needs responseHex".to_string()),
            Some(strResponse) => match ParseHex(strResponse.as_str()) {
                Err(strError) => Err(strError),
                Ok(vecResponse) => Ok(
                    OverrideAction::Substitute {
                        m_vecResponse: vecResponse,
                        m_vecEchoSpans: BuildSpans(&dto.echo_spans),
                    },
                ),
            },
        };
    }
    Err(Quoted("unknown action '", dto.action.as_str(), "'; use substitute or suppress"))
}

/// Read one override from a request body. Shape errors are reported here; whether the override
/// could be a real exchange is decided by its own validation.
pub fn BuildOverride(dto: &ResponseOverrideDto) -> (result: Result<ResponseOverride, String>)
    ensures
        match result {
            Ok(rule) => override_of(*dto) == Ok::<OverrideView, Seq<char>>(override_view(rule)),
            Err(error) => override_of(*dto) == Err::<OverrideView, Seq<char>>(error@),
        },
{
    let (vecPattern, vecMask) = match ParseHexPattern(dto.request_hex.as_str()) {
        Ok(parts) => parts,
        Err(strError) => {
            return Err(strError);
        },
    };
    let action = match BuildAction(dto) {
        Ok(action) => action,
        Err(strError) => {
            return Err(strError);
        },
    };
    Ok(
        ResponseOverride {
            m_vecRequestPattern: vecPattern,
            m_vecRequestMask: vecMask,
            m_bMatchTrailingBytes: dto.match_trailing_bytes,
            m_action: action,
            m_bIsEnabled: dto.enabled,
            m_bRespondEvenIfSuppressed: dto.respond_even_if_suppressed,
            m_strNote: dto.note.clone(),
        },
    )
}

/// Every echo span of an override a caller asks for ends within what a `usize` can count.
pub open spec fn is_addressable(dto: ResponseOverrideDto) -> bool {
    forall|i: int|
        0 <= i < dto.echo_spans@.len() ==> span_of(
            #[trigger] dto.echo_spans@[i],
        ).is_addressable()
}

/// An error about one override of a list.
pub open spec fn numbered_error(i: int, message: Seq<char>) -> ErrorView {
    bad_request("override "@ + decimal(i as nat) + ": "@ + message)
}

/// Report an error about one override of a list.
fn NumberedError(uIndex: usize, strMessage: &str) -> (error: ApiError)
    ensures
        error@ == numbered_error(uIndex as int, strMessage@),
{
    let mut strText = "override ".to_string();
    AppendDecimal(&mut strText, uIndex as u64);
    strText.append(": ");
    strText.append(strMessage);
    ApiError::BadRequest(strText)
}

/// An override reads as a rule, and the rule could be a real exchange.
pub open spec fn is_accepted(dto: ResponseOverrideDto, rule: ResponseOverride) -> bool {
    &&& override_of(dto) == Ok::<OverrideView, Seq<char>>(override_view(rule))
    &&& rule.first_error() is None
}

/// An override does not read as a rule, or the rule could be no real exchange; this is why.
pub open spec fn is_refused(dto: ResponseOverrideDto, message: Seq<char>) -> bool {
    match override_of(dto) {
        Err(error) => message == error,
        Ok(view) => exists|rule: ResponseOverride, error: OverrideValidationError|
            override_view(rule) == view && rule.first_error() == Some(error) && message
                == #[trigger] error.message() && #[trigger] override_view(rule) == view,
    }
}

/// Some rule could be what an override reads as.
pub open spec fn is_acceptable(dto: ResponseOverrideDto) -> bool {
    exists|rule: ResponseOverride| is_accepted(dto, rule)
}

/// The first override of a list that is refused, and why.
pub open spec fn is_first_refused(
    dtos: Seq<ResponseOverrideDto>,
    i: int,
    message: Seq<char>,
) -> bool {
    &&& 0 <= i < dtos.len()
    &&& is_refused(dtos[i], message)
    &&& forall|j: int| 0 <= j < i ==> is_acceptable(#[trigger] dtos[j])
}

proof fn lemma_spans_are_addressable(dto: ResponseOverrideDto, rule: ResponseOverride)
    requires
        is_addressable(dto),
        override_of(dto) == Ok::<OverrideView, Seq<char>>(override_view(rule)),
    ensures
        rule.m_action.is_addressable(),
{
    match rule.m_action {
        OverrideAction::Substitute { m_vecEchoSpans, .. } => {
            assert(m_vecEchoSpans@ == spans_of(dto.echo_spans@));
            assert forall|i: int| 0 <= i < m_vecEchoSpans@.len() implies (
            #[trigger] m_vecEchoSpans@[i]).is_addressable() by {
                assert(m_vecEchoSpans@[i] == span_of(dto.echo_spans@[i]));
            }
        },
        OverrideAction::Suppress => {},
    }
}

/// Read the overrides that replace those of an ECU. The first one that is refused is reported, by
/// its place in the list.
pub fn BuildOverrides(body: &SetOverridesBody) -> (result: Result<Vec<ResponseOverride>, ApiError>)
    requires
        forall|i: int|
            0 <= i < body.overrides@.len() ==> is_addressable(#[trigger] body.overrides@[i]),
    ensures
        match result {
            Ok(rules) => rules@.len() == body.overrides@.len() && forall|i: int|
                0 <= i < rules@.len() ==> is_accepted(body.overrides@[i], #[trigger] rules@[i]),
            Err(error) => exists|i: int, message: Seq<char>| #[trigger]
                is_first_refused(body.overrides@, i, message) && error@ == numbered_error(
                    i,
                    message,
                ),
        },
{
    let mut vecOverrides: Vec<ResponseOverride> = Vec::new();
    let mut uAt: usize = 0;
    while uAt < body.overrides.len()
        invariant
            uAt <= body.overrides@.len(),
            vecOverrides@.len() == uAt,
            forall|i: int|
                0 <= i < body.overrides@.len() ==> is_addressable(#[trigger] body.overrides@[i]),
            forall|i: int|
                0 <= i < uAt ==> is_accepted(body.overrides@[i], #[trigger] vecOverrides@[i]),
        decreases body.overrides@.len() - uAt,
    {
        let ghost dto = body.overrides@[uAt as int];
        assert forall|j: int| 0 <= j < uAt implies is_acceptable(#[trigger] body.overrides@[j]) by {
            assert(is_accepted(body.overrides@[j], vecOverrides@[j]));
        }
        let overrideRule = match BuildOverride(&body.overrides[uAt]) {
            Ok(overrideRule) => overrideRule,
            Err(strError) => {
                assert(is_first_refused(body.overrides@, uAt as int, strError@));
                return Err(NumberedError(uAt, strError.as_str()));
            },
        };
        proof {
            lemma_spans_are_addressable(dto, overrideRule);
        }
        match overrideRule.Validate() {
            Ok(_) => {},
            Err(error) => {
                let strMessage = error.Message();
                proof {
                    assert(override_view(overrideRule) == override_of(dto)->Ok_0);
                    assert(error.message() == strMessage@);
                    assert(is_first_refused(body.overrides@, uAt as int, strMessage@));
                }
                return Err(NumberedError(uAt, strMessage.as_str()));
            },
        }
        vecOverrides.push(overrideRule);
        uAt += 1;
    }
    Ok(vecOverrides)
}

/// Show a list of overrides.
pub fn BuildOverrideDtos(vecOverrides: &[ResponseOverride]) -> (vecDtos: Vec<ResponseOverrideDto>)
    ensures
        vecDtos@.len() == vecOverrides@.len(),
        forall|i: int|
            0 <= i < vecDtos@.len() ==> shows_override(#[trigger] vecDtos@[i], vecOverrides@[i]),
{
    let mut vecDtos: Vec<ResponseOverrideDto> = Vec::new();
    let mut uAt: usize = 0;
    while uAt < vecOverrides.len()
        invariant
            uAt <= vecOverrides@.len(),
            vecDtos@.len() == uAt,
            forall|i: int|
                0 <= i < uAt ==> shows_override(#[trigger] vecDtos@[i], vecOverrides@[i]),
        decreases vecOverrides@.len() - uAt,
    {
        vecDtos.push(BuildOverrideDto(&vecOverrides[uAt]));
        uAt += 1;
    }
    vecDtos
}

/// Whether an override could be a real exchange is decided by what it says alone: two that say the
/// same are both accepted or both refused, for the same reason.
pub proof fn law_same_override_same_verdict(a: ResponseOverride, b: ResponseOverride)
    requires
        override_view(a) == override_view(b),
    ensures
        a.first_error() == b.first_error(),
{
}

/// What a caller is shown and sends back is the same override: nothing is lost on the way.
pub proof fn law_override_round_trips(dto: ResponseOverrideDto, rule: ResponseOverride)
    requires
        shows_override(dto, rule),
        rule.m_vecRequestPattern@.len() > 0,
        rule.m_vecRequestMask@.len() == rule.m_vecRequestPattern@.len(),
        forall|i: int|
            0 <= i < rule.m_vecRequestMask@.len() ==> #[trigger] rule.m_vecRequestMask@[i] == 0xFF
                || rule.m_vecRequestMask@[i] == 0x00 && rule.m_vecRequestPattern@[i] == 0x00,
        rule.m_action matches OverrideAction::Substitute { m_vecResponse, .. } ==> 0
            < m_vecResponse@.len() && 2 * m_vecResponse@.len() <= usize::MAX,
    ensures
        override_of(dto) == Ok::<OverrideView, Seq<char>>(override_view(rule)),
{
    law_pattern_reads_back(rule.m_vecRequestPattern@, rule.m_vecRequestMask@);
    reveal_strlit("suppress");
    reveal_strlit("substitute");
    assert("suppress"@ != "substitute"@) by {
        assert("suppress"@.len() != "substitute"@.len());
    }
    match rule.m_action {
        OverrideAction::Suppress => {},
        OverrideAction::Substitute { m_vecResponse, m_vecEchoSpans } => {
            law_hex_text_reads_back(m_vecResponse@);
            assert(spans_of(dto.echo_spans@) =~= m_vecEchoSpans@);
        },
    }
}

} // verus!
