//! Showing and driving one running virtual ECU.

use vstd::prelude::*;
use vstd::string::StringExecFns;

use crate::api::input::hex_input;
use crate::api::input::without_white_space;
use crate::api::input::ParseHex;
use crate::application::protocol::EcuSnapshot;
use crate::application::protocol::ProtocolHandler;
use crate::application::protocol::ProtocolOutcome;
use crate::bytes::CopyAll;
use crate::core_domain::ecu::is_key_list;
use crate::ecu::changed_all;
use crate::ecu::is_snapshot_of;
use crate::ecu::sample::is_engine_ecu;
use crate::ecu::sample::BuildEngineEcu;
use crate::ecu::LiveState;
use crate::ecu::VirtualEcu;
use crate::text::hex;
use crate::text::hex_bytes;
use crate::text::AppendHex;
use crate::text::FormatHexBytes;

verus! {

/// Snapshot of the ECU's state for display.
#[derive(Debug, Clone, PartialEq, Eq)]
pub struct EcuStateDto {
    pub name: String,
    pub logical_address: u16,
    pub session: u8,
    pub session_name: String,
    pub security_unlocked: bool,
    pub security_level: u8,
    pub supported_services: Vec<u8>,
    pub dids: Vec<u16>,
    pub dtc_count: usize,
    pub protocol_loaded: bool,
}

/// Request body for sending a raw UDS message (hexadecimal, spaces optional).
#[derive(Debug, Clone, PartialEq, Eq)]
pub struct SendRequestBody {
    pub request_hex: String,
}

/// Result of processing one request.
#[derive(Debug, Clone, PartialEq, Eq)]
pub struct RequestResultDto {
    pub request_hex: String,
    pub response_hex: String,
    pub suppressed: bool,
    pub session: u8,
    pub session_name: String,
    pub security_unlocked: bool,
    pub error: Option<String>,
}

/// The name of a session sub-function.
pub open spec fn session_name(session: u8) -> Seq<char> {
    match session {
        0x01 => "Default"@,
        0x02 => "Programming"@,
        0x03 => "Extended"@,
        0x04 => "SafetySystem"@,
        _ => "0x"@ + hex(session as nat, 2),
    }
}

/// Human-readable name for a UDS session sub-function byte.
pub fn SessionName(bySession: u8) -> (strName: String)
    ensures
        strName@ == session_name(bySession),
{
    match bySession {
        0x01 => "Default".to_string(),
        0x02 => "Programming".to_string(),
        0x03 => "Extended".to_string(),
        0x04 => "SafetySystem".to_string(),
        _ => {
            let mut strName = "0x".to_string();
            AppendHex(&mut strName, bySession as u64, 2);
            strName
        },
    }
}

/// Bytes as space-separated upper-case hexadecimal.
pub fn FormatHex(vecBytes: &[u8]) -> (strText: String)
    ensures
        strText@ == hex_bytes(vecBytes@),
{
    FormatHexBytes(vecBytes)
}

/// A display snapshot shows an ECU as it is.
pub open spec fn shows_ecu(dto: EcuStateDto, ecu: VirtualEcu, protocol_loaded: bool) -> bool {
    &&& dto.name@ == ecu.config().m_strName@
    &&& dto.logical_address == ecu.config().m_u16LogicalAddress
    &&& dto.session == ecu.state().session
    &&& dto.session_name@ == session_name(ecu.state().session)
    &&& dto.security_unlocked == (ecu.state().unlocked != 0)
    &&& dto.security_level == ecu.state().unlocked
    &&& dto.supported_services@ == ecu.config().m_vecSupportedServices@
    &&& is_key_list(dto.dids@, ecu.config().m_mapDids@)
    &&& dto.dtc_count == ecu.config().m_vecDtcs@.len()
    &&& dto.protocol_loaded == protocol_loaded
}

/// Describe a running ECU for display.
pub fn BuildStateDto(ecu: &VirtualEcu, bProtocolLoaded: bool) -> (dto: EcuStateDto)
    ensures
        shows_ecu(dto, *ecu, bProtocolLoaded),
{
    let config = ecu.Config();
    EcuStateDto {
        name: config.m_strName.clone(),
        logical_address: config.m_u16LogicalAddress,
        session: ecu.CurrentSession(),
        session_name: SessionName(ecu.CurrentSession()),
        security_unlocked: ecu.IsSecurityUnlocked(),
        security_level: ecu.SecurityUnlockedLevel(),
        supported_services: CopyAll(config.m_vecSupportedServices.as_slice()),
        dids: config.DidIds(),
        dtc_count: config.m_vecDtcs.len(),
        protocol_loaded: bProtocolLoaded,
    }
}

/// A result that says a request could not be processed.
pub open spec fn is_error_result(
    dto: RequestResultDto,
    request_hex: Seq<char>,
    error: Seq<char>,
) -> bool {
    &&& dto.request_hex@ == request_hex
    &&& dto.response_hex@ == Seq::<char>::empty()
    &&& !dto.suppressed
    &&& dto.session == 0
    &&& dto.session_name@ == Seq::<char>::empty()
    &&& !dto.security_unlocked
    &&& dto.error matches Some(text) && text@ == error
}

/// Build an error result. It speaks of no ECU state.
pub fn ErrorResult(strRequestHex: &str, strError: String) -> (dto: RequestResultDto)
    ensures
        is_error_result(dto, strRequestHex@, strError@),
{
    RequestResultDto {
        request_hex: strRequestHex.to_string(),
        response_hex: String::new(),
        suppressed: false,
        session: 0,
        session_name: String::new(),
        security_unlocked: false,
        error: Some(strError),
    }
}

/// A result that shows a response, and the ECU as the request left it.
pub open spec fn is_answer(
    dto: RequestResultDto,
    request: Seq<u8>,
    response: Seq<u8>,
    state: LiveState,
) -> bool {
    &&& dto.request_hex@ == hex_bytes(request)
    &&& dto.response_hex@ == hex_bytes(response)
    &&& dto.suppressed == (response.len() == 0)
    &&& dto.session == state.session
    &&& dto.session_name@ == session_name(state.session)
    &&& dto.security_unlocked == (state.unlocked != 0)
    &&& dto.error is None
}

/// Show a response, and the ECU as the request left it.
pub fn AnswerResult(ecu: &VirtualEcu, vecRequest: &[u8], vecResponse: &[u8]) -> (dto:
    RequestResultDto)
    ensures
        is_answer(dto, vecRequest@, vecResponse@, ecu.state()),
{
    RequestResultDto {
        request_hex: FormatHex(vecRequest),
        response_hex: FormatHex(vecResponse),
        suppressed: vecResponse.len() == 0,
        session: ecu.CurrentSession(),
        session_name: SessionName(ecu.CurrentSession()),
        security_unlocked: ecu.IsSecurityUnlocked(),
        error: None,
    }
}

/// What a caller is told when no UDS protocol is loaded.
pub open spec fn no_protocol_text() -> Seq<char> {
    "UDS protocol plugin is not loaded (place libuds_plugin.* in plugins.d/)"@
}

/// What a caller is told when no UDS protocol is loaded.
pub fn NoProtocolText() -> (strText: String)
    ensures
        strText@ == no_protocol_text(),
{
    "UDS protocol plugin is not loaded (place libuds_plugin.* in plugins.d/)".to_string()
}

/// What an ECU is put back to: the demonstration ECU in the default session, locked.
pub open spec fn is_fresh_engine_ecu(ecu: VirtualEcu) -> bool {
    &&& is_engine_ecu(ecu.config())
    &&& ecu.state() == LiveState { session: 0x01, unlocked: 0, seed: 0 }
}

/// Recreate the demonstration ECU (fresh default session, security locked) and show it.
pub fn PostEcuReset(ecu: &mut VirtualEcu, bProtocolLoaded: bool) -> (dto: EcuStateDto)
    ensures
        is_fresh_engine_ecu(*final(ecu)),
        shows_ecu(dto, *final(ecu), bProtocolLoaded),
{
    *ecu = VirtualEcu::New(BuildEngineEcu());
    BuildStateDto(ecu, bProtocolLoaded)
}

/// Send a raw UDS request to the ECU and show the response plus the new state. A request that
/// cannot be read, or one that no protocol is there to answer, leaves the ECU untouched.
pub fn PostEcuRequest<P: ProtocolHandler>(
    ecu: &mut VirtualEcu,
    optProtocol: Option<&P>,
    body: &SendRequestBody,
) -> (dto: RequestResultDto)
    ensures
        final(ecu).config() == old(ecu).config(),
        match hex_input(without_white_space(body.request_hex@)) {
            Err(error) => is_error_result(dto, body.request_hex@, error) && final(ecu).state()
                == old(ecu).state(),
            Ok(request) => match optProtocol {
                None => is_error_result(dto, body.request_hex@, no_protocol_text())
                    && final(ecu).state() == old(ecu).state(),
                Some(protocol) => exists|
                    asked: Vec<u8>,
                    snapshot: EcuSnapshot,
                    outcome: ProtocolOutcome,
                |
                    {
                        &&& #[trigger] call_ensures(P::Handle, (protocol, asked, snapshot), outcome)
                        &&& asked@ == request
                        &&& is_snapshot_of(snapshot, old(ecu).config(), old(ecu).state())
                        &&& final(ecu).state() == changed_all(
                            old(ecu).state(),
                            outcome.m_vecChanges@,
                        )
                        &&& is_answer(
                            dto,
                            request,
                            outcome.m_vecResponse@,
                            final(ecu).state(),
                        )
                    },
            },
        },
{
    // Parse the request first; a bad one should not touch ECU state.
    let vecRequest = match ParseHex(body.request_hex.as_str()) {
        Ok(vecRequest) => vecRequest,
        Err(strError) => {
            return ErrorResult(body.request_hex.as_str(), strError);
        },
    };
    match optProtocol {
        None => ErrorResult(body.request_hex.as_str(), NoProtocolText()),
        Some(protocol) => {
            let vecResponse = ecu.ProcessRequest(protocol, vecRequest.as_slice());
            AnswerResult(ecu, vecRequest.as_slice(), vecResponse.as_slice())
        },
    }
}

} // verus!
