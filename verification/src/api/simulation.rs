//! Loading a vehicle, building one by hand, and driving its ECUs by CAN identifier.

use vstd::prelude::*;
use vstd::string::StrSliceExecFns;
use vstd::string::StringExecFns;

use crate::api::diagnostics::no_protocol_text;
use crate::api::diagnostics::session_name;
use crate::api::diagnostics::FormatHex;
use crate::api::diagnostics::NoProtocolText;
use crate::api::diagnostics::SessionName;
use crate::api::doip::api_outcome;
use crate::api::error::bad_request;
use crate::api::error::conflict;
use crate::api::error::ApiError;
use crate::api::error::ErrorView;
use crate::api::events::text_of;
use crate::api::input::can_id;
use crate::api::input::hex_input;
use crate::api::input::trimmed;
use crate::api::input::without_white_space;
use crate::api::input::ParseCanId;
use crate::api::input::ParseHex;
use crate::api::input::Quoted;
use crate::api::input::Trim;
use crate::api::emitter::SimulationResponseDto;
use crate::bytes::CopyAll;
use crate::core_domain::address::functional_id;
use crate::core_domain::address::CanAddress;
use crate::core_domain::address::CanAddressingMode;
use crate::core_domain::ecu::is_key_list;
use crate::core_domain::ecu::Ecu;
use crate::core_domain::session::DataIdentifier;
use crate::core_domain::session::DiagnosticTroubleCode;
use crate::core_domain::session::SecurityLevel;
use crate::core_domain::session::SessionType;
use crate::core_domain::timing::default_timing;
use crate::core_domain::timing::EcuTiming;
use crate::core_domain::Confidence;
use crate::ecu::VirtualEcu;
use crate::simulation::RoutingOutcome;
use crate::text::can_id_text;
use crate::text::decimal;
use crate::text::hex_bytes;
use crate::text::FormatCanId;
use crate::text::FromCharacters;
use crate::text::SameText;
use crate::text::TextWithNumber;

verus! {

/// Longest CAN log accepted in one upload, in characters. A log is pasted or uploaded by a
/// person; anything larger is a mistake.
pub const c_uMaxLogTextChars: usize = 8_388_608;

/// Request body for loading a vehicle: the raw text of a CAN log.
#[derive(Debug, Clone, PartialEq, Eq)]
pub struct LoadSimulationBody {
    pub log_text: String,
}

/// Request body for starting an empty vehicle.
#[derive(Debug, Clone, PartialEq, Eq)]
pub struct CreateVehicleBody {
    pub name: String,
}

/// Request body for adding one ECU to the loaded vehicle.
///
/// Only the name and the identifier pair are required. The addressing mode follows from the
/// identifier width unless it is stated, and an ECU created without an explicit capability set
/// gets the default one, so it answers plausibly the moment it exists.
#[derive(Debug, Clone, PartialEq, Eq)]
pub struct CreateEcuBody {
    pub name: String,
    pub request_can_id_hex: String,
    pub response_can_id_hex: String,
    pub addressing_mode: Option<String>,
    pub supported_services: Option<Vec<u8>>,
    pub logical_address: Option<u16>,
}

/// Request body for renaming an ECU.
#[derive(Debug, Clone, PartialEq, Eq)]
pub struct RenameEcuBody {
    pub name: String,
}

/// Request body for sending one request: which CAN identifier to address, and the UDS request bytes
/// as hexadecimal text.
#[derive(Debug, Clone, PartialEq, Eq)]
pub struct SimulationRequestBody {
    pub can_id_hex: String,
    pub request_hex: String,
}

/// One running ECU as the user interface sees it.
#[derive(Debug, Clone, PartialEq, Eq)]
pub struct SimulationEcuDto {
    pub name: String,
    pub logical_address: u16,
    pub request_can_id_hex: String,
    pub response_can_id_hex: String,
    /// The broadcast identifier this ECU also listens on, if any.
    pub functional_can_id_hex: Option<String>,
    /// The ECU's current timing parameters.
    pub timing: EcuTimingDto,
    pub addressing_mode: String,
    pub address_confidence: String,
    pub session: u8,
    pub session_name: String,
    pub security_unlocked: bool,
    pub security_level: u8,
    pub supported_services: Vec<u8>,
    pub dids: Vec<u16>,
    pub dtc_count: usize,
}

/// What is currently loaded and running.
#[derive(Debug, Clone, PartialEq, Eq)]
pub struct SimulationStateDto {
    pub loaded: bool,
    /// False when the simulation is stopped: the vehicle is still loaded and every ECU keeps its
    /// state, but nothing answers.
    pub running: bool,
    pub vehicle_name: Option<String>,
    pub protocol_loaded: bool,
    pub ecus: Vec<SimulationEcuDto>,
}

/// An ECU's timing parameters, as the user interface reads and writes them.
#[derive(Debug, Clone, Copy, PartialEq, Eq, Structural)]
pub struct EcuTimingDto {
    pub p2_server_max_ms: u32,
    pub p2_star_server_max_ms: u32,
    pub p4_server_max_ms: u32,
    pub response_delay_ms: u32,
    pub force_response_pending: bool,
    pub forced_response_pending_count: u8,
    pub drop_final_response: bool,
}

/// The result of a timing update.
#[derive(Debug, Clone, Copy, PartialEq, Eq, Structural)]
pub struct EcuTimingUpdateDto {
    pub timing: EcuTimingDto,
    /// Always true: P2 and P2* are carried only in the DiagnosticSessionControl response, so a
    /// tester does not learn new values until it next requests a session.
    pub advertised_at_next_session_control: bool,
}

/// The outcome of one routed request.
///
/// `responses` holds one entry per ECU that answered, in the order CAN arbitration would put them
/// on the bus. It can be empty even when `routed` is true: every listener was required to stay
/// silent.
#[derive(Debug, Clone, PartialEq, Eq)]
pub struct SimulationRequestResultDto {
    pub can_id_hex: String,
    pub request_hex: String,
    /// How the identifier was interpreted: `"physical"`, `"functional"`, or why nothing answered.
    pub addressing: String,
    /// False when no ECU took the request: nothing was sent, as on a real bus.
    pub routed: bool,
    pub responses: Vec<SimulationResponseDto>,
}

/// What is wrong with the text of a log, before it is read.
pub open spec fn log_error(text: Seq<char>) -> Option<ErrorView> {
    if trimmed(text).len() == 0 {
        Some(bad_request("the log is empty"@))
    } else if text.len() > c_uMaxLogTextChars {
        Some(
            bad_request(
                "log is "@ + decimal(text.len()) + " characters; the limit is 8388608"@,
            ),
        )
    } else {
        None
    }
}

/// Check the text of a log before it is read.
pub fn CheckLogText(body: &LoadSimulationBody) -> (result: Result<(), ApiError>)
    ensures
        match result {
            Ok(_) => log_error(body.log_text@) is None,
            Err(error) => log_error(body.log_text@) == Some(error@),
        },
{
    if Trim(body.log_text.as_str()).len() == 0 {
        return Err(ApiError::BadRequest("the log is empty".to_string()));
    }
    let uLength: usize = body.log_text.as_str().unicode_len();
    if uLength > c_uMaxLogTextChars {
        return Err(
            ApiError::BadRequest(
                TextWithNumber("log is ", uLength as u64, " characters; the limit is 8388608"),
            ),
        );
    }
    Ok(())
}

/// A name without the space around it, if anything is left.
pub open spec fn name_of(text: Seq<char>, missing: Seq<char>) -> Result<Seq<char>, ErrorView> {
    if trimmed(text).len() == 0 {
        Err(bad_request(missing))
    } else {
        Ok(trimmed(text))
    }
}

/// A name without the space around it. A name of nothing but space is refused.
fn ReadName(strName: &str, strMissing: &str) -> (result: Result<String, ApiError>)
    ensures
        match result {
            Ok(name) => name_of(strName@, strMissing@) == Ok::<Seq<char>, ErrorView>(name@),
            Err(error) => name_of(strName@, strMissing@) == Err::<Seq<char>, ErrorView>(error@),
        },
{
    let vecTrimmed = Trim(strName);
    if vecTrimmed.len() == 0 {
        return Err(ApiError::BadRequest(strMissing.to_string()));
    }
    Ok(FromCharacters(&vecTrimmed))
}

/// Read the name of a vehicle to start building.
pub fn ReadVehicleName(body: &CreateVehicleBody) -> (result: Result<String, ApiError>)
    ensures
        match result {
            Ok(name) => name_of(body.name@, "the vehicle needs a name"@) == Ok::<
                Seq<char>,
                ErrorView,
            >(name@),
            Err(error) => name_of(body.name@, "the vehicle needs a name"@) == Err::<
                Seq<char>,
                ErrorView,
            >(error@),
        },
{
    ReadName(body.name.as_str(), "the vehicle needs a name")
}

/// The CAN identifier a caller addressed.
pub open spec fn addressed_id(text: Seq<char>) -> Result<u32, ErrorView> {
    match can_id(text, trimmed(text)) {
        Ok(id) => Ok(id),
        Err(error) => Err(bad_request(error)),
    }
}

/// Read the CAN identifier a caller addressed.
pub fn ReadCanId(strCanIdHex: &str) -> (result: Result<u32, ApiError>)
    ensures
        api_outcome(result) == addressed_id(strCanIdHex@),
{
    match ParseCanId(strCanIdHex) {
        Ok(u32CanId) => Ok(u32CanId),
        Err(strError) => Err(ApiError::BadRequest(strError)),
    }
}

/// What a caller who renames an ECU asked for: which one, and its new name.
pub open spec fn rename_of(id_text: Seq<char>, name: Seq<char>) -> Result<
    (u32, Seq<char>),
    ErrorView,
> {
    match addressed_id(id_text) {
        Err(error) => Err(error),
        Ok(id) => match name_of(name, "the ECU needs a name"@) {
            Err(error) => Err(error),
            Ok(name) => Ok((id, name)),
        },
    }
}

/// Read what a caller who renames an ECU asked for.
pub fn ReadRename(strRequestCanIdHex: &str, body: &RenameEcuBody) -> (result: Result<
    (u32, String),
    ApiError,
>)
    ensures
        match result {
            Ok((id, name)) => rename_of(strRequestCanIdHex@, body.name@) == Ok::<
                (u32, Seq<char>),
                ErrorView,
            >((id, name@)),
            Err(error) => rename_of(strRequestCanIdHex@, body.name@) == Err::<
                (u32, Seq<char>),
                ErrorView,
            >(error@),
        },
{
    let u32RequestCanId: u32 = match ReadCanId(strRequestCanIdHex) {
        Ok(u32RequestCanId) => u32RequestCanId,
        Err(error) => {
            return Err(error);
        },
    };
    match ReadName(body.name.as_str(), "the ECU needs a name") {
        Ok(strName) => Ok((u32RequestCanId, strName)),
        Err(error) => Err(error),
    }
}

/// The request a caller asked for: where to, and which bytes. Both are read before anything else is
/// looked at, so a malformed request cannot leave ECU state half-changed.
pub open spec fn request_of(
    body: SimulationRequestBody,
    protocol_loaded: bool,
    vehicle_loaded: bool,
) -> Result<(u32, Seq<u8>), ErrorView> {
    match addressed_id(body.can_id_hex@) {
        Err(error) => Err(error),
        Ok(id) => match hex_input(without_white_space(body.request_hex@)) {
            Err(error) => Err(bad_request(error)),
            Ok(request) => if !protocol_loaded {
                Err(conflict(no_protocol_text()))
            } else if !vehicle_loaded {
                Err(conflict("no vehicle is loaded; POST a CAN log to /simulation/load first"@))
            } else {
                Ok((id, request))
            },
        },
    }
}

/// Read the request a caller asked for.
pub fn ReadSimulationRequest(
    body: &SimulationRequestBody,
    bProtocolLoaded: bool,
    bVehicleLoaded: bool,
) -> (result: Result<(u32, Vec<u8>), ApiError>)
    ensures
        match result {
            Ok((id, request)) => request_of(*body, bProtocolLoaded, bVehicleLoaded) == Ok::<
                (u32, Seq<u8>),
                ErrorView,
            >((id, request@)),
            Err(error) => request_of(*body, bProtocolLoaded, bVehicleLoaded) == Err::<
                (u32, Seq<u8>),
                ErrorView,
            >(error@),
        },
{
    let u32RequestCanId: u32 = match ReadCanId(body.can_id_hex.as_str()) {
        Ok(u32RequestCanId) => u32RequestCanId,
        Err(error) => {
            return Err(error);
        },
    };
    let vecRequest = match ParseHex(body.request_hex.as_str()) {
        Ok(vecRequest) => vecRequest,
        Err(strError) => {
            return Err(ApiError::BadRequest(strError));
        },
    };
    if !bProtocolLoaded {
        return Err(ApiError::Conflict(NoProtocolText()));
    }
    if !bVehicleLoaded {
        return Err(
            ApiError::Conflict(
                "no vehicle is loaded; POST a CAN log to /simulation/load first".to_string(),
            ),
        );
    }
    Ok((u32RequestCanId, vecRequest))
}

/// How the identifier of a request was interpreted.
pub open spec fn addressing_of(outcome: RoutingOutcome, is_functional: bool) -> Seq<char> {
    match outcome {
        RoutingOutcome::Stopped => "stopped"@,
        RoutingOutcome::NoTarget => "unrouted"@,
        RoutingOutcome::TooLargeForSubnetwork { .. } => "refused"@,
        RoutingOutcome::Silenced { .. } => "silenced"@,
        RoutingOutcome::Handled(_) => if is_functional {
            "functional"@
        } else {
            "physical"@
        },
    }
}

/// Describe what became of a request: of one that ECUs took, with the record of what they sent.
pub fn BuildRequestResult(
    u32RequestCanId: u32,
    vecRequest: &[u8],
    bIsFunctional: bool,
    outcome: &RoutingOutcome,
    vecResponses: Vec<SimulationResponseDto>,
) -> (dto: SimulationRequestResultDto)
    ensures
        dto.can_id_hex@ == can_id_text(u32RequestCanId),
        dto.request_hex@ == hex_bytes(vecRequest@),
        dto.addressing@ == addressing_of(*outcome, bIsFunctional),
        dto.routed == (outcome is Handled),
        dto.responses@ == (if outcome is Handled {
            vecResponses@
        } else {
            Seq::<SimulationResponseDto>::empty()
        }),
{
    let strAddressing = match outcome {
        RoutingOutcome::Stopped => "stopped",
        RoutingOutcome::NoTarget => "unrouted",
        RoutingOutcome::TooLargeForSubnetwork { .. } => "refused",
        RoutingOutcome::Silenced { .. } => "silenced",
        RoutingOutcome::Handled(_) => if bIsFunctional {
            "functional"
        } else {
            "physical"
        },
    };
    let bRouted = match outcome {
        RoutingOutcome::Handled(_) => true,
        _ => false,
    };
    SimulationRequestResultDto {
        can_id_hex: FormatCanId(u32RequestCanId),
        request_hex: FormatHex(vecRequest),
        addressing: strAddressing.to_string(),
        routed: bRouted,
        responses: if bRouted {
            vecResponses
        } else {
            Vec::new()
        },
    }
}

/// The addressing mode of a new ECU: what the caller said, or what the identifiers imply. A 29-bit
/// identifier cannot be an 11-bit address, so the width decides.
pub open spec fn addressing_mode_of(stated: Option<Seq<char>>, request: u32, response: u32) -> Result<
    CanAddressingMode,
    ErrorView,
> {
    match stated {
        None => Ok(
            if request > 0x7FF || response > 0x7FF {
                CanAddressingMode::NormalFixed29Bit
            } else {
                CanAddressingMode::Normal11Bit
            },
        ),
        Some(text) => if text == "Normal11Bit"@ {
            Ok(CanAddressingMode::Normal11Bit)
        } else if text == "NormalFixed29Bit"@ {
            Ok(CanAddressingMode::NormalFixed29Bit)
        } else {
            Err(
                bad_request(
                    "unknown addressing mode '"@ + text
                        + "'; use Normal11Bit or NormalFixed29Bit"@,
                ),
            )
        },
    }
}

/// Decide the addressing mode: what the caller said, or what the identifiers imply.
pub fn ResolveAddressingMode(body: &CreateEcuBody, u32RequestCanId: u32, u32ResponseCanId: u32) -> (
    result: Result<CanAddressingMode, ApiError>)
    ensures
        api_outcome(result) == addressing_mode_of(
            text_of(body.addressing_mode),
            u32RequestCanId,
            u32ResponseCanId,
        ),
{
    match &body.addressing_mode {
        None => {
            if u32RequestCanId > 0x7FF || u32ResponseCanId > 0x7FF {
                Ok(CanAddressingMode::NormalFixed29Bit)
            } else {
                Ok(CanAddressingMode::Normal11Bit)
            }
        },
        Some(strMode) => {
            if SameText(strMode.as_str(), "Normal11Bit") {
                Ok(CanAddressingMode::Normal11Bit)
            } else if SameText(strMode.as_str(), "NormalFixed29Bit") {
                Ok(CanAddressingMode::NormalFixed29Bit)
            } else {
                Err(
                    ApiError::BadRequest(
                        Quoted(
                            "unknown addressing mode '",
                            strMode.as_str(),
                            "'; use Normal11Bit or NormalFixed29Bit",
                        ),
                    ),
                )
            }
        },
    }
}

/// The services a newly created ECU supports unless the caller says otherwise.
pub open spec fn default_services() -> Seq<u8> {
    seq![0x10u8, 0x11u8, 0x19u8, 0x22u8, 0x27u8, 0x31u8, 0x3Eu8]
}

/// The services a newly created ECU supports unless the caller says otherwise: everything the UDS
/// plugin implements, so the ECU answers plausibly the moment it exists.
pub fn DefaultSupportedServices() -> (vecServices: Vec<u8>)
    ensures
        vecServices@ == default_services(),
{
    let vecServices: Vec<u8> = vec![0x10, 0x11, 0x19, 0x22, 0x27, 0x31, 0x3E];
    assert(vecServices@ =~= default_services());
    vecServices
}

/// The sessions a newly created ECU can enter. Default is mandatory (an ECU powers up in it); the
/// other two are what a tester actually asks for.
pub fn DefaultSupportedSessions() -> (vecSessions: Vec<SessionType>)
    ensures
        vecSessions@ == seq![SessionType::Default, SessionType::Extended, SessionType::Programming],
{
    let vecSessions: Vec<SessionType> = vec![
        SessionType::Default,
        SessionType::Extended,
        SessionType::Programming,
    ];
    assert(vecSessions@ =~= seq![
        SessionType::Default,
        SessionType::Extended,
        SessionType::Programming,
    ]);
    vecSessions
}

/// The address of a new ECU, or why it cannot have one.
pub open spec fn new_address(body: CreateEcuBody) -> Result<CanAddress, ErrorView> {
    if trimmed(body.name@).len() == 0 {
        Err(bad_request("the ECU needs a name"@))
    } else {
        match addressed_id(body.request_can_id_hex@) {
            Err(error) => Err(error),
            Ok(request) => match addressed_id(body.response_can_id_hex@) {
                Err(error) => Err(error),
                Ok(response) => if request == response {
                    Err(bad_request("an ECU cannot request and respond on the same CAN id"@))
                } else {
                    match addressing_mode_of(text_of(body.addressing_mode), request, response) {
                        Err(error) => Err(error),
                        Ok(mode) => Ok(
                            CanAddress {
                                m_u32RequestCanId: request,
                                m_u32ResponseCanId: response,
                                m_optU32FunctionalCanId: functional_id(request, mode),
                                m_addressingMode: mode,
                                m_confidence: Confidence::Confirmed,
                            },
                        ),
                    }
                },
            },
        }
    }
}

/// An ECU as a caller asked for it: addressed, with the stated or the default services, and nothing
/// else configured.
pub open spec fn is_new_ecu(ecu: Ecu, body: CreateEcuBody, address: CanAddress) -> bool {
    &&& ecu.m_strName@ == trimmed(body.name@)
    &&& ecu.m_u16LogicalAddress == match body.logical_address {
        Some(logical) => logical,
        None => 0,
    }
    &&& ecu.m_optCanAddress == Some(address)
    &&& ecu.m_vecSupportedServices@ == match body.supported_services {
        Some(services) => services@,
        None => default_services(),
    }
    &&& ecu.m_vecSupportedSessions@ == seq![
        SessionType::Default,
        SessionType::Extended,
        SessionType::Programming,
    ]
    &&& ecu.m_mapDids@ == Map::<u16, DataIdentifier>::empty()
    &&& ecu.m_vecDtcs@ == Seq::<DiagnosticTroubleCode>::empty()
    &&& ecu.m_vecSecurityLevels@ == Seq::<SecurityLevel>::empty()
    &&& ecu.m_timing == default_timing()
    &&& ecu.m_mapSessionServices@ == Map::<u8, Vec<u8>>::empty()
    &&& ecu.m_vecGatewayForNetworkIds@.len() == 0
    &&& ecu.m_optStrNetworkId is None
    &&& !ecu.m_bHasDoIpAddress
    &&& ecu.m_vecResponseOverrides@.len() == 0
}

/// Turn a create-ECU request into an ECU, refusing anything that could not be routed.
pub fn BuildEcuFromBody(body: &CreateEcuBody) -> (result: Result<Ecu, ApiError>)
    ensures
        match result {
            Ok(ecu) => new_address(*body) matches Ok(address) && is_new_ecu(ecu, *body, address),
            Err(error) => new_address(*body) == Err::<CanAddress, ErrorView>(error@),
        },
{
    let strName = match ReadName(body.name.as_str(), "the ECU needs a name") {
        Ok(strName) => strName,
        Err(error) => {
            return Err(error);
        },
    };
    let u32RequestCanId: u32 = match ReadCanId(body.request_can_id_hex.as_str()) {
        Ok(u32CanId) => u32CanId,
        Err(error) => {
            return Err(error);
        },
    };
    let u32ResponseCanId: u32 = match ReadCanId(body.response_can_id_hex.as_str()) {
        Ok(u32CanId) => u32CanId,
        Err(error) => {
            return Err(error);
        },
    };
    if u32RequestCanId == u32ResponseCanId {
        return Err(
            ApiError::BadRequest(
                "an ECU cannot request and respond on the same CAN id".to_string(),
            ),
        );
    }
    let mode = match ResolveAddressingMode(body, u32RequestCanId, u32ResponseCanId) {
        Ok(mode) => mode,
        Err(error) => {
            return Err(error);
        },
    };
    let u16LogicalAddress: u16 = match body.logical_address {
        Some(u16LogicalAddress) => u16LogicalAddress,
        None => 0,
    };
    let mut config = Ecu::New(strName.as_str(), u16LogicalAddress);
    config.m_optCanAddress = Some(
        CanAddress::NewSpecified(u32RequestCanId, u32ResponseCanId, mode),
    );
    config.m_vecSupportedServices = match &body.supported_services {
        Some(vecServices) => CopyAll(vecServices.as_slice()),
        None => DefaultSupportedServices(),
    };
    config.m_vecSupportedSessions = DefaultSupportedSessions();
    Ok(config)
}

/// Timing parameters as a caller sees them.
pub open spec fn timing_dto(timing: EcuTiming) -> EcuTimingDto {
    EcuTimingDto {
        p2_server_max_ms: timing.m_u32P2ServerMaxMs,
        p2_star_server_max_ms: timing.m_u32P2StarServerMaxMs,
        p4_server_max_ms: timing.m_u32P4ServerMaxMs,
        response_delay_ms: timing.m_u32ResponseDelayMs,
        force_response_pending: timing.m_bForceResponsePending,
        forced_response_pending_count: timing.m_u8ForcedResponsePendingCount,
        drop_final_response: timing.m_bDropFinalResponse,
    }
}

/// The timing parameters a caller asked for. What a caller does not see stays as it is: the ISO-TP
/// parameters.
pub open spec fn timing_of(dto: EcuTimingDto, current: EcuTiming) -> EcuTiming {
    EcuTiming {
        m_u32P2ServerMaxMs: dto.p2_server_max_ms,
        m_u32P2StarServerMaxMs: dto.p2_star_server_max_ms,
        m_u32P4ServerMaxMs: dto.p4_server_max_ms,
        m_u32ResponseDelayMs: dto.response_delay_ms,
        m_bForceResponsePending: dto.force_response_pending,
        m_u8ForcedResponsePendingCount: dto.forced_response_pending_count,
        m_bDropFinalResponse: dto.drop_final_response,
        m_u8IsoTpBlockSize: current.m_u8IsoTpBlockSize,
        m_byIsoTpSeparationTimeMin: current.m_byIsoTpSeparationTimeMin,
    }
}

/// Show an ECU's timing parameters.
pub fn BuildTimingDto(timing: &EcuTiming) -> (dto: EcuTimingDto)
    ensures
        dto == timing_dto(*timing),
{
    EcuTimingDto {
        p2_server_max_ms: timing.m_u32P2ServerMaxMs,
        p2_star_server_max_ms: timing.m_u32P2StarServerMaxMs,
        p4_server_max_ms: timing.m_u32P4ServerMaxMs,
        response_delay_ms: timing.m_u32ResponseDelayMs,
        force_response_pending: timing.m_bForceResponsePending,
        forced_response_pending_count: timing.m_u8ForcedResponsePendingCount,
        drop_final_response: timing.m_bDropFinalResponse,
    }
}

/// Read timing parameters from a request body. Validation happens separately, so the same rules
/// apply however the values arrive.
pub fn BuildTiming(dto: &EcuTimingDto, current: &EcuTiming) -> (timing: EcuTiming)
    ensures
        timing == timing_of(*dto, *current),
{
    EcuTiming {
        m_u32P2ServerMaxMs: dto.p2_server_max_ms,
        m_u32P2StarServerMaxMs: dto.p2_star_server_max_ms,
        m_u32P4ServerMaxMs: dto.p4_server_max_ms,
        m_u32ResponseDelayMs: dto.response_delay_ms,
        m_bForceResponsePending: dto.force_response_pending,
        m_u8ForcedResponsePendingCount: dto.forced_response_pending_count,
        m_bDropFinalResponse: dto.drop_final_response,
        m_u8IsoTpBlockSize: current.m_u8IsoTpBlockSize,
        m_byIsoTpSeparationTimeMin: current.m_byIsoTpSeparationTimeMin,
    }
}

/// Change an ECU's timing parameters. Refused values are reported rather than clamped, and change
/// nothing.
pub fn UpdateTiming(timing: &mut EcuTiming, body: &EcuTimingDto) -> (result: Result<
    EcuTimingUpdateDto,
    ApiError,
>)
    ensures
        ({
            let asked = timing_of(*body, *old(timing));
            match result {
                Ok(update) => asked.first_error() is None && *final(timing) == asked
                    && update.timing == *body && update.advertised_at_next_session_control,
                Err(error) => asked.first_error() matches Some(reason) && error@ == bad_request(
                    reason.message(),
                ) && *final(timing) == *old(timing),
            }
        }),
{
    let asked = BuildTiming(body, timing);
    match asked.Validate() {
        Ok(_) => {},
        Err(error) => {
            return Err(ApiError::BadRequest(error.Message()));
        },
    }
    *timing = asked;
    Ok(EcuTimingUpdateDto { timing: BuildTimingDto(timing), advertised_at_next_session_control: true })
}

/// What a caller is shown and sends back is the same timing.
pub proof fn law_timing_round_trips(timing: EcuTiming)
    ensures
        timing_of(timing_dto(timing), timing) == timing,
{
}

/// What an addressing mode is called.
pub open spec fn addressing_mode_name(mode: CanAddressingMode) -> Seq<char> {
    match mode {
        CanAddressingMode::Normal11Bit => "Normal11Bit"@,
        CanAddressingMode::NormalFixed29Bit => "NormalFixed29Bit"@,
    }
}

/// Name an addressing mode for display.
pub fn AddressingModeName(mode: CanAddressingMode) -> (strName: String)
    ensures
        strName@ == addressing_mode_name(mode),
{
    match mode {
        CanAddressingMode::Normal11Bit => "Normal11Bit".to_string(),
        CanAddressingMode::NormalFixed29Bit => "NormalFixed29Bit".to_string(),
    }
}

/// What a confidence state is called.
pub open spec fn confidence_name(confidence: Confidence) -> Seq<char> {
    match confidence {
        Confidence::Confirmed => "Confirmed"@,
        Confidence::Observed => "Observed"@,
        Confidence::Inferred => "Inferred"@,
        Confidence::Unknown => "Unknown"@,
        Confidence::Conflict => "Conflict"@,
    }
}

/// Name a confidence state for display.
pub fn ConfidenceName(confidence: Confidence) -> (strName: String)
    ensures
        strName@ == confidence_name(confidence),
{
    match confidence {
        Confidence::Confirmed => "Confirmed".to_string(),
        Confidence::Observed => "Observed".to_string(),
        Confidence::Inferred => "Inferred".to_string(),
        Confidence::Unknown => "Unknown".to_string(),
        Confidence::Conflict => "Conflict".to_string(),
    }
}

/// An addressing mode that is named is understood again.
pub proof fn law_addressing_mode_name_reads_back(mode: CanAddressingMode, request: u32, response: u32)
    ensures
        addressing_mode_of(Some(addressing_mode_name(mode)), request, response) == Ok::<
            CanAddressingMode,
            ErrorView,
        >(mode),
{
    reveal_strlit("Normal11Bit");
    reveal_strlit("NormalFixed29Bit");
    assert("Normal11Bit"@.len() != "NormalFixed29Bit"@.len());
}

/// A description that shows one running ECU.
pub open spec fn shows_running_ecu(dto: SimulationEcuDto, ecu: VirtualEcu) -> bool {
    &&& ecu.config().m_optCanAddress matches Some(address)
    &&& dto.name@ == ecu.config().m_strName@
    &&& dto.logical_address == ecu.config().m_u16LogicalAddress
    &&& dto.request_can_id_hex@ == can_id_text(address.m_u32RequestCanId)
    &&& dto.response_can_id_hex@ == can_id_text(address.m_u32ResponseCanId)
    &&& text_of(dto.functional_can_id_hex) == match address.m_optU32FunctionalCanId {
        Some(id) => Some(can_id_text(id)),
        None => None,
    }
    &&& dto.timing == timing_dto(ecu.config().m_timing)
    &&& dto.addressing_mode@ == addressing_mode_name(address.m_addressingMode)
    &&& dto.address_confidence@ == confidence_name(address.m_confidence)
    &&& dto.session == ecu.state().session
    &&& dto.session_name@ == session_name(ecu.state().session)
    &&& dto.security_unlocked == (ecu.state().unlocked != 0)
    &&& dto.security_level == ecu.state().unlocked
    &&& dto.supported_services@ == ecu.config().m_vecSupportedServices@
    &&& is_key_list(dto.dids@, ecu.config().m_mapDids@)
    &&& dto.dtc_count == ecu.config().m_vecDtcs@.len()
}

/// Describe one running ECU, including how confidently its CAN addressing is known.
pub fn BuildEcuDto(runningEcu: &VirtualEcu) -> (dto: SimulationEcuDto)
    requires
        runningEcu.config().m_optCanAddress is Some,
    ensures
        shows_running_ecu(dto, *runningEcu),
{
    let config = runningEcu.Config();
    let address = config.m_optCanAddress.unwrap();
    SimulationEcuDto {
        name: config.m_strName.clone(),
        logical_address: config.m_u16LogicalAddress,
        request_can_id_hex: FormatCanId(address.m_u32RequestCanId),
        response_can_id_hex: FormatCanId(address.m_u32ResponseCanId),
        functional_can_id_hex: match address.m_optU32FunctionalCanId {
            Some(u32CanId) => Some(FormatCanId(u32CanId)),
            None => None,
        },
        timing: BuildTimingDto(&config.m_timing),
        addressing_mode: AddressingModeName(address.m_addressingMode),
        address_confidence: ConfidenceName(address.m_confidence),
        session: runningEcu.CurrentSession(),
        session_name: SessionName(runningEcu.CurrentSession()),
        security_unlocked: runningEcu.IsSecurityUnlocked(),
        security_level: runningEcu.SecurityUnlockedLevel(),
        supported_services: CopyAll(config.m_vecSupportedServices.as_slice()),
        dids: config.DidIds(),
        dtc_count: config.m_vecDtcs.len(),
    }
}

/// Describe the running simulation for the user interface: whether a vehicle is loaded and running,
/// its name, and every ECU of it.
pub fn BuildStateDto(
    bIsLoaded: bool,
    bIsRunning: bool,
    optStrVehicleName: Option<&str>,
    vecEcus: &[VirtualEcu],
    bProtocolLoaded: bool,
) -> (dto: SimulationStateDto)
    requires
        forall|i: int|
            0 <= i < vecEcus@.len() ==> (#[trigger] vecEcus@[i]).config().m_optCanAddress is Some,
    ensures
        dto.loaded == bIsLoaded,
        dto.running == bIsRunning,
        text_of(dto.vehicle_name) == (match optStrVehicleName {
            Some(name) => Some(name@),
            None => None,
        }),
        dto.protocol_loaded == bProtocolLoaded,
        dto.ecus@.len() == vecEcus@.len(),
        forall|i: int|
            0 <= i < vecEcus@.len() ==> shows_running_ecu(#[trigger] dto.ecus@[i], vecEcus@[i]),
{
    let mut vecDtos: Vec<SimulationEcuDto> = Vec::new();
    let mut uAt: usize = 0;
    while uAt < vecEcus.len()
        invariant
            uAt <= vecEcus@.len(),
            vecDtos@.len() == uAt,
            forall|i: int|
                0 <= i < vecEcus@.len() ==> (
                #[trigger] vecEcus@[i]).config().m_optCanAddress is Some,
            forall|i: int| 0 <= i < uAt ==> shows_running_ecu(#[trigger] vecDtos@[i], vecEcus@[i]),
        decreases vecEcus@.len() - uAt,
    {
        vecDtos.push(BuildEcuDto(&vecEcus[uAt]));
        uAt += 1;
    }
    SimulationStateDto {
        loaded: bIsLoaded,
        running: bIsRunning,
        vehicle_name: match optStrVehicleName {
            Some(strName) => Some(strName.to_string()),
            None => None,
        },
        protocol_loaded: bProtocolLoaded,
        ecus: vecDtos,
    }
}

} // verus!
