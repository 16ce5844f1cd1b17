//! Putting the simulation on an Ethernet wire: as which entity, and how it behaves there.

use vstd::prelude::*;
use vstd::string::StringExecFns;

use crate::api::error::bad_request;
use crate::api::error::conflict;
use crate::api::error::ApiError;
use crate::api::error::ErrorView;
use crate::api::events::text_of;
use crate::api::input::trimmed;
use crate::api::input::Quoted;
use crate::api::input::SkipCharacters;
use crate::api::input::Trim;
use crate::doip_server::settings::default_settings;
use crate::doip_server::settings::DoIpSettings;
use crate::text::hex;
use crate::text::parsed_hex;
use crate::text::AppendHex;
use crate::text::ParseHexNumber;

verus! {

/// What is currently listening, if anything.
pub struct DoIpState {
    /// Whether the entity is on a wire.
    pub m_bIsListening: bool,
    /// The address it is bound to.
    pub m_strBoundAddress: String,
    /// The logical address it answers as.
    pub m_u16EntityAddress: u16,
    /// What the entity says about itself, and what it has been told to say instead. It outlives
    /// stopping and starting, and can be set before anything listens.
    pub m_settings: DoIpSettings,
}

/// Where to listen, and as which entity.
#[derive(Debug, Clone, PartialEq, Eq)]
pub struct StartDoIpBody {
    /// Address to bind, e.g. `0.0.0.0:13400`. Port 0 lets the operating system choose.
    pub bind: String,
    /// The logical address this entity answers vehicle identification on. Left out, the lowest
    /// logical address the loaded vehicle has is used.
    pub entity_address_hex: Option<String>,
}

/// Whether the entity is on a wire.
#[derive(Debug, Clone, PartialEq, Eq)]
pub struct DoIpStatusDto {
    pub running: bool,
    /// The address actually bound, which differs from the requested one when port 0 was asked
    /// for.
    pub bound_address: Option<String>,
    pub entity_address_hex: Option<String>,
    /// Every logical address the loaded vehicle answers on, so a tester knows what to target.
    pub logical_addresses_hex: Vec<String>,
}

/// A status that says what is listening.
pub open spec fn is_status_of(dto: DoIpStatusDto, state: DoIpState, addresses: Seq<u16>) -> bool {
    &&& dto.running == state.m_bIsListening
    &&& text_of(dto.bound_address) == if state.m_bIsListening {
        Some(state.m_strBoundAddress@)
    } else {
        None
    }
    &&& text_of(dto.entity_address_hex) == if state.m_bIsListening {
        Some(hex(state.m_u16EntityAddress as nat, 4))
    } else {
        None
    }
    &&& dto.logical_addresses_hex@.len() == addresses.len()
    &&& forall|i: int|
        0 <= i < addresses.len() ==> (#[trigger] dto.logical_addresses_hex@[i])@ == hex(
            addresses[i] as nat,
            4,
        )
}

/// A logical address as four hexadecimal digits.
fn AddressText(u16Address: u16) -> (strText: String)
    ensures
        strText@ == hex(u16Address as nat, 4),
{
    let mut strText = String::new();
    AppendHex(&mut strText, u16Address as u64, 4);
    assert(strText@ =~= hex(u16Address as nat, 4));
    strText
}

/// Say whether a tester could reach this simulation over Ethernet.
pub fn GetDoIpStatus(state: &DoIpState, vecLogicalAddresses: &[u16]) -> (dto: DoIpStatusDto)
    ensures
        is_status_of(dto, *state, vecLogicalAddresses@),
{
    let mut vecAddresses: Vec<String> = Vec::new();
    let mut uAt: usize = 0;
    while uAt < vecLogicalAddresses.len()
        invariant
            uAt <= vecLogicalAddresses@.len(),
            vecAddresses@.len() == uAt,
            forall|i: int|
                0 <= i < uAt ==> (#[trigger] vecAddresses@[i])@ == hex(
                    vecLogicalAddresses@[i] as nat,
                    4,
                ),
        decreases vecLogicalAddresses@.len() - uAt,
    {
        vecAddresses.push(AddressText(vecLogicalAddresses[uAt]));
        uAt += 1;
    }
    DoIpStatusDto {
        running: state.m_bIsListening,
        bound_address: if state.m_bIsListening {
            Some(state.m_strBoundAddress.clone())
        } else {
            None
        },
        entity_address_hex: if state.m_bIsListening {
            Some(AddressText(state.m_u16EntityAddress))
        } else {
            None
        },
        logical_addresses_hex: vecAddresses,
    }
}

/// Text without any `0` followed by the given letter in front of it.
pub open spec fn without_prefixes(text: Seq<char>, letter: char) -> Seq<char>
    decreases text.len(),
{
    if text.len() >= 2 && text[0] == '0' && text[1] == letter {
        without_prefixes(text.skip(2), letter)
    } else {
        text
    }
}

/// Text without any `0` followed by the given letter in front of it.
fn RemovePrefixes(vecText: &Vec<char>, cLetter: char) -> (vecRest: Vec<char>)
    ensures
        vecRest@ == without_prefixes(vecText@, cLetter),
{
    let mut uAt: usize = 0;
    assert(vecText@.skip(0) =~= vecText@);
    while vecText.len() - uAt >= 2 && vecText[uAt] == '0' && vecText[uAt + 1] == cLetter
        invariant
            uAt <= vecText@.len(),
            without_prefixes(vecText@.skip(uAt as int), cLetter) == without_prefixes(
                vecText@,
                cLetter,
            ),
        decreases vecText@.len() - uAt,
    {
        assert(vecText@.skip(uAt as int).skip(2) =~= vecText@.skip(uAt + 2));
        uAt += 2;
    }
    SkipCharacters(vecText, uAt)
}

/// The logical address an entity answers as: the one asked for, or the lowest one there is.
pub open spec fn entity_address(asked: Option<Seq<char>>, lowest: Option<u16>) -> Result<
    u16,
    ErrorView,
> {
    match asked {
        Some(text) => {
            let digits = without_prefixes(without_prefixes(trimmed(text), 'x'), 'X');
            match parsed_hex(digits) {
                Some(n) if n <= 0xFFFF => Ok(n as u16),
                _ => Err(bad_request("'"@ + text + "' is not a hex logical address"@)),
            }
        },
        None => match lowest {
            Some(address) => Ok(address),
            None => Err(
                conflict(
                    "no ECU in the loaded vehicle has a DoIP logical address, so there is no entity to be"@,
                ),
            ),
        },
    }
}

/// A result with its error as text.
pub open spec fn api_outcome<T>(result: Result<T, ApiError>) -> Result<T, ErrorView> {
    match result {
        Ok(value) => Ok(value),
        Err(error) => Err(error@),
    }
}

/// Work out which logical address this entity answers as.
///
/// Defaulting to the lowest one the vehicle has is not arbitrary: logical addresses are allocated
/// with gateways low, so it is normally the gateway, which is the entity a tester expects to find.
pub fn ResolveEntityAddress(optStrHex: &Option<String>, optU16Lowest: Option<u16>) -> (result:
    Result<u16, ApiError>)
    ensures
        api_outcome(result) == entity_address(text_of(*optStrHex), optU16Lowest),
{
    match optStrHex {
        Some(strHex) => {
            let vecTrimmed = Trim(strHex.as_str());
            let vecDigits = RemovePrefixes(&RemovePrefixes(&vecTrimmed, 'x'), 'X');
            match ParseHexNumber(&vecDigits, 0xFFFF) {
                Some(u64Address) => Ok(u64Address as u16),
                None => Err(
                    ApiError::BadRequest(
                        Quoted("'", strHex.as_str(), "' is not a hex logical address"),
                    ),
                ),
            }
        },
        None => match optU16Lowest {
            Some(u16Address) => Ok(u16Address),
            None => Err(
                ApiError::Conflict(
                    "no ECU in the loaded vehicle has a DoIP logical address, so there is no entity to be".to_string(),
                ),
            ),
        },
    }
}

/// What starting to listen comes to, before any socket is opened. `bind_reads` says whether the
/// text to bind reads as an address and a port.
pub open spec fn start_decision(
    state: DoIpState,
    protocol_loaded: bool,
    body: StartDoIpBody,
    bind_reads: bool,
    lowest: Option<u16>,
) -> Result<u16, ErrorView> {
    if !protocol_loaded {
        Err(conflict("no UDS protocol plugin is loaded"@))
    } else if !bind_reads {
        Err(bad_request("'"@ + body.bind@ + "' is not an address:port"@))
    } else {
        match entity_address(text_of(body.entity_address_hex), lowest) {
            Err(error) => Err(error),
            Ok(address) => if state.m_bIsListening {
                Err(
                    conflict(
                        "already listening on "@ + state.m_strBoundAddress@ + "; stop it first"@,
                    ),
                )
            } else {
                Ok(address)
            },
        }
    }
}

/// Decide whether the entity may start to listen, and as which logical address.
pub fn CheckDoIpStart(
    state: &DoIpState,
    bProtocolLoaded: bool,
    body: &StartDoIpBody,
    bBindReads: bool,
    optU16Lowest: Option<u16>,
) -> (result: Result<u16, ApiError>)
    ensures
        api_outcome(result) == start_decision(
            *state,
            bProtocolLoaded,
            *body,
            bBindReads,
            optU16Lowest,
        ),
{
    if !bProtocolLoaded {
        return Err(ApiError::Conflict("no UDS protocol plugin is loaded".to_string()));
    }
    if !bBindReads {
        return Err(
            ApiError::BadRequest(Quoted("'", body.bind.as_str(), "' is not an address:port")),
        );
    }
    let u16EntityAddress: u16 = match ResolveEntityAddress(&body.entity_address_hex, optU16Lowest) {
        Ok(u16EntityAddress) => u16EntityAddress,
        Err(error) => {
            return Err(error);
        },
    };
    if state.m_bIsListening {
        return Err(
            ApiError::Conflict(
                Quoted(
                    "already listening on ",
                    state.m_strBoundAddress.as_str(),
                    "; stop it first",
                ),
            ),
        );
    }
    Ok(u16EntityAddress)
}

/// What a monitor is told when the entity starts to listen.
pub open spec fn listening_text(address: u16, bound: Seq<char>) -> Seq<char> {
    "DoIP entity 0x"@ + hex(address as nat, 4) + " listening on "@ + bound
}

/// Note that the entity listens now; gives what a monitor is told.
pub fn NoteListening(state: &mut DoIpState, u16EntityAddress: u16, strBoundAddress: &str) -> (
    strWhat: String)
    ensures
        final(state).m_bIsListening,
        final(state).m_strBoundAddress@ == strBoundAddress@,
        final(state).m_u16EntityAddress == u16EntityAddress,
        final(state).m_settings == old(state).m_settings,
        strWhat@ == listening_text(u16EntityAddress, strBoundAddress@),
{
    state.m_bIsListening = true;
    state.m_strBoundAddress = strBoundAddress.to_string();
    state.m_u16EntityAddress = u16EntityAddress;
    let mut strWhat = "DoIP entity 0x".to_string();
    AppendHex(&mut strWhat, u16EntityAddress as u64, 4);
    strWhat.append(" listening on ");
    strWhat.append(strBoundAddress);
    strWhat
}

/// Note that the entity listens no more; gives what a monitor is told.
pub fn NoteStopped(state: &mut DoIpState) -> (strWhat: String)
    ensures
        !final(state).m_bIsListening,
        final(state).m_strBoundAddress == old(state).m_strBoundAddress,
        final(state).m_u16EntityAddress == old(state).m_u16EntityAddress,
        final(state).m_settings == old(state).m_settings,
        strWhat@ == "DoIP entity stopped"@,
{
    state.m_bIsListening = false;
    "DoIP entity stopped".to_string()
}

/// The entity's parameters and fault injection, as the user interface sees them.
#[derive(Debug, Clone, Copy, PartialEq, Eq)]
pub struct DoIpSettingsDto {
    /// `0x00` not ready, `0x01` ready, `0x02` not supported.
    pub power_mode: u8,
    /// `0x00` gateway, `0x01` node.
    pub node_type: u8,
    /// Concurrent TCP data sockets reported, without the reserve one.
    pub max_sockets: u8,
    /// Reported and enforced: a tester that reads this and sends a message that size expects it
    /// to be accepted.
    pub max_data_size: u32,
    /// Answer nothing to a vehicle identification request.
    pub suppress_identification_response: bool,
    /// Force this routing activation response code instead of deciding.
    pub forced_routing_activation_code: Option<u8>,
    /// Negatively acknowledge every diagnostic message with this code.
    pub forced_diagnostic_nack: Option<u8>,
    /// Refuse every message with this generic header NACK code.
    pub forced_header_nack: Option<u8>,
    /// True when any of the above is making the entity behave as a healthy one would not.
    pub is_injecting_faults: bool,
}

/// Settings as the user interface sees them.
pub open spec fn settings_dto(settings: DoIpSettings) -> DoIpSettingsDto {
    DoIpSettingsDto {
        power_mode: settings.m_byPowerMode,
        node_type: settings.m_byNodeType,
        max_sockets: settings.m_byMaxSockets,
        max_data_size: settings.m_u32MaxDataSize,
        suppress_identification_response: settings.m_bSuppressIdentificationResponse,
        forced_routing_activation_code: settings.m_optByForcedRoutingActivationCode,
        forced_diagnostic_nack: settings.m_optByForcedDiagnosticNack,
        forced_header_nack: settings.m_optByForcedHeaderNack,
        is_injecting_faults: settings.is_injecting(),
    }
}

/// The settings a caller asked for.
pub open spec fn settings_of(dto: DoIpSettingsDto) -> DoIpSettings {
    DoIpSettings {
        m_byPowerMode: dto.power_mode,
        m_byNodeType: dto.node_type,
        m_byMaxSockets: dto.max_sockets,
        m_u32MaxDataSize: dto.max_data_size,
        m_bSuppressIdentificationResponse: dto.suppress_identification_response,
        m_optByForcedRoutingActivationCode: dto.forced_routing_activation_code,
        m_optByForcedDiagnosticNack: dto.forced_diagnostic_nack,
        m_optByForcedHeaderNack: dto.forced_header_nack,
    }
}

/// Show what the entity says about itself.
pub fn BuildSettingsDto(settings: &DoIpSettings) -> (dto: DoIpSettingsDto)
    ensures
        dto == settings_dto(*settings),
{
    DoIpSettingsDto {
        power_mode: settings.m_byPowerMode,
        node_type: settings.m_byNodeType,
        max_sockets: settings.m_byMaxSockets,
        max_data_size: settings.m_u32MaxDataSize,
        suppress_identification_response: settings.m_bSuppressIdentificationResponse,
        forced_routing_activation_code: settings.m_optByForcedRoutingActivationCode,
        forced_diagnostic_nack: settings.m_optByForcedDiagnosticNack,
        forced_header_nack: settings.m_optByForcedHeaderNack,
        is_injecting_faults: settings.IsInjectingFaults(),
    }
}

/// A routing activation response code this entity can send.
pub open spec fn is_routing_code(code: u8) -> bool {
    code <= 0x04 || code == 0x06 || code == 0x10
}

/// The first thing wrong with settings a caller asked for.
pub open spec fn settings_error(dto: DoIpSettingsDto) -> Option<ErrorView> {
    if dto.power_mode > 0x02 {
        Some(
            bad_request(
                "diagnostic power mode 0x"@ + hex(dto.power_mode as nat, 2)
                    + " is not defined; use 00 not ready, 01 ready or 02 not supported"@,
            ),
        )
    } else if dto.node_type > 0x01 {
        Some(
            bad_request(
                "node type 0x"@ + hex(dto.node_type as nat, 2)
                    + " is not defined; use 00 for a gateway or 01 for a node"@,
            ),
        )
    } else if dto.max_sockets == 0 {
        Some(bad_request("an entity that reports zero sockets could never be connected to"@))
    } else if dto.max_data_size < 64 {
        Some(
            bad_request(
                "a maximum data size below 64 bytes would refuse even a routing activation"@,
            ),
        )
    } else if dto.forced_routing_activation_code is Some && !is_routing_code(
        dto.forced_routing_activation_code->0,
    ) {
        Some(
            bad_request(
                "0x"@ + hex(dto.forced_routing_activation_code->0 as nat, 2)
                    + " is not a routing activation response code this entity can send"@,
            ),
        )
    } else if dto.forced_diagnostic_nack is Some && !(0x02 <= dto.forced_diagnostic_nack->0
        <= 0x06) {
        Some(
            bad_request(
                "0x"@ + hex(dto.forced_diagnostic_nack->0 as nat, 2)
                    + " is not a diagnostic message NACK code (02 to 06 are defined)"@,
            ),
        )
    } else if dto.forced_header_nack is Some && dto.forced_header_nack->0 > 0x04 {
        Some(
            bad_request(
                "0x"@ + hex(dto.forced_header_nack->0 as nat, 2)
                    + " is not a generic header NACK code (00 to 04 are defined)"@,
            ),
        )
    } else {
        None
    }
}

/// An error that names a byte.
fn ByteError(strBefore: &str, byValue: u8, strAfter: &str) -> (error: ApiError)
    ensures
        error@ == bad_request(strBefore@ + hex(byValue as nat, 2) + strAfter@),
{
    let mut strMessage = strBefore.to_string();
    AppendHex(&mut strMessage, byValue as u64, 2);
    strMessage.append(strAfter);
    ApiError::BadRequest(strMessage)
}

/// Refuse settings that would put something on the wire no vehicle would ever send.
///
/// Fault injection is for reproducing what a real entity does wrong, not for inventing bytes the
/// standard does not define.
pub fn ValidateSettings(body: &DoIpSettingsDto) -> (result: Result<(), ApiError>)
    ensures
        match result {
            Ok(_) => settings_error(*body) is None,
            Err(error) => settings_error(*body) == Some(error@),
        },
{
    if body.power_mode > 0x02 {
        return Err(
            ByteError(
                "diagnostic power mode 0x",
                body.power_mode,
                " is not defined; use 00 not ready, 01 ready or 02 not supported",
            ),
        );
    }
    if body.node_type > 0x01 {
        return Err(
            ByteError(
                "node type 0x",
                body.node_type,
                " is not defined; use 00 for a gateway or 01 for a node",
            ),
        );
    }
    if body.max_sockets == 0 {
        return Err(
            ApiError::BadRequest(
                "an entity that reports zero sockets could never be connected to".to_string(),
            ),
        );
    }
    if body.max_data_size < 64 {
        return Err(
            ApiError::BadRequest(
                "a maximum data size below 64 bytes would refuse even a routing activation".to_string(),
            ),
        );
    }
    if let Some(byCode) = body.forced_routing_activation_code {
        if !(byCode <= 0x04 || byCode == 0x06 || byCode == 0x10) {
            return Err(
                ByteError(
                    "0x",
                    byCode,
                    " is not a routing activation response code this entity can send",
                ),
            );
        }
    }
    if let Some(byCode) = body.forced_diagnostic_nack {
        if byCode < 0x02 || byCode > 0x06 {
            return Err(
                ByteError(
                    "0x",
                    byCode,
                    " is not a diagnostic message NACK code (02 to 06 are defined)",
                ),
            );
        }
    }
    if let Some(byCode) = body.forced_header_nack {
        if byCode > 0x04 {
            return Err(
                ByteError(
                    "0x",
                    byCode,
                    " is not a generic header NACK code (00 to 04 are defined)",
                ),
            );
        }
    }
    Ok(())
}

/// Change what the entity says, including making it misbehave, and show the result. Refused
/// settings change nothing.
pub fn PutDoIpSettings(settings: &mut DoIpSettings, body: &DoIpSettingsDto) -> (result: Result<
    DoIpSettingsDto,
    ApiError,
>)
    ensures
        match result {
            Ok(dto) => settings_error(*body) is None && *final(settings) == settings_of(*body)
                && dto == settings_dto(*final(settings)),
            Err(error) => settings_error(*body) == Some(error@) && *final(settings) == *old(
                settings,
            ),
        },
{
    match ValidateSettings(body) {
        Ok(_) => {},
        Err(error) => {
            return Err(error);
        },
    }
    settings.m_byPowerMode = body.power_mode;
    settings.m_byNodeType = body.node_type;
    settings.m_byMaxSockets = body.max_sockets;
    settings.m_u32MaxDataSize = body.max_data_size;
    settings.m_bSuppressIdentificationResponse = body.suppress_identification_response;
    settings.m_optByForcedRoutingActivationCode = body.forced_routing_activation_code;
    settings.m_optByForcedDiagnosticNack = body.forced_diagnostic_nack;
    settings.m_optByForcedHeaderNack = body.forced_header_nack;
    Ok(BuildSettingsDto(settings))
}

/// Settings that were accepted force exactly what they name: no forced code is one this entity
/// would quietly ignore.
pub proof fn law_accepted_settings_force_what_they_name(dto: DoIpSettingsDto)
    requires
        settings_error(dto) is None,
    ensures
        settings_of(dto).forced_outcome() is Some
            <==> dto.forced_routing_activation_code is Some,
        settings_of(dto).forced_nack() is Some <==> dto.forced_diagnostic_nack is Some,
        settings_of(dto).forced_header_code() == dto.forced_header_nack,
{
}

/// What is shown is what was asked for: settings shown and put back are the same settings.
pub proof fn law_settings_round_trip(settings: DoIpSettings)
    ensures
        settings_of(settings_dto(settings)) == settings,
{
}

/// The settings of an entity nobody has configured are acceptable ones, and inject nothing.
pub proof fn law_default_settings_are_accepted()
    ensures
        settings_error(settings_dto(default_settings())) is None,
        !settings_dto(default_settings()).is_injecting_faults,
{
}

} // verus!
