//! What a caller is allowed, and why not.

use vstd::prelude::*;

use crate::api::busy::busy_error;
use crate::api::busy::first_busy;
use crate::api::busy::occupying;
use crate::api::doip::entity_address;
use crate::api::doip::listening_text;
use crate::api::doip::settings_error;
use crate::api::doip::settings_of;
use crate::api::doip::start_decision as doip_start_decision;
use crate::api::doip::DoIpSettingsDto;
use crate::api::doip::DoIpState;
use crate::api::doip::StartDoIpBody;
use crate::api::error::ErrorView;
use crate::api::events::text_of;
use crate::api::hardware::change_name;
use crate::api::hardware::is_status_of;
use crate::api::hardware::line_speed_decision;
use crate::api::hardware::on_the_wire_text;
use crate::api::hardware::start_decision;
use crate::api::hardware::CommandLineSpeedBody;
use crate::api::hardware::HardwareState;
use crate::api::hardware::HardwareStatusDto;
use crate::api::hardware::StartHardwareBody;
use crate::api::input::hex_byte;
use crate::api::input::is_wildcard;
use crate::api::input::pattern_input;
use crate::api::input::tokens_of;
use crate::api::input::trimmed;
use crate::api::input_laws::law_a_number_reads_back;
use crate::api::input_laws::law_pattern_carries_its_own_mask;
use crate::api::overrides::is_acceptable;
use crate::api::overrides::is_accepted;
use crate::api::overrides::is_first_refused;
use crate::api::overrides::law_same_override_same_verdict;
use crate::api::overrides::numbered_error;
use crate::api::overrides::override_of;
use crate::api::overrides::shows_override;
use crate::api::overrides::ResponseOverrideDto;
use crate::api::topology::caveats;
use crate::api::topology::is_ecu_node;
use crate::api::topology::is_mixed;
use crate::api::topology::is_topology_of;
use crate::api::topology::TopologyDto;
use crate::bridge::probe::LineSpeedChange;
use crate::bridge::probe::SerialLinkSpeed;
use crate::core_domain::address::CanAddress;
use crate::core_domain::address::CanAddressingMode;
use crate::core_domain::overrides::EchoSpan;
use crate::core_domain::overrides::OverrideAction;
use crate::core_domain::overrides::OverrideValidationError;
use crate::core_domain::overrides::ResponseOverride;
use crate::core_domain::ranking::override_view;
use crate::core_domain::ranking::ActionView;
use crate::ecu::VirtualEcu;
use crate::simulation::RoutedResponse;
use crate::slcan::SlcanLineSpeed;
use crate::text::can_id_text;
use crate::text::decimal;
use crate::text::hex;
use crate::text::parsed_hex;

verus! {

/// The simulation goes on a bus exactly where the bitrate is one of the nine an adapter knows, a
/// protocol is there to answer with, and it is on none yet.
pub proof fn law_when_a_bridge_may_start(
    state: HardwareState,
    body: StartHardwareBody,
    protocol_loaded: bool,
)
    ensures
        start_decision(state, body, protocol_loaded) is Ok <==> seq![
            10_000u32,
            20_000,
            50_000,
            100_000,
            125_000,
            250_000,
            500_000,
            800_000,
            1_000_000,
        ].contains(body.bitrate_bps) && protocol_loaded && !state.m_bIsRunning,
{
    let rates = seq![
        10_000u32,
        20_000,
        50_000,
        100_000,
        125_000,
        250_000,
        500_000,
        800_000,
        1_000_000,
    ];
    assert(rates[0] == 10_000 && rates[1] == 20_000 && rates[2] == 50_000 && rates[3] == 100_000
        && rates[4] == 125_000 && rates[5] == 250_000 && rates[6] == 500_000 && rates[7] == 800_000
        && rates[8] == 1_000_000);
    if rates.contains(body.bitrate_bps) {
        let i = choose|i: int| 0 <= i < rates.len() && rates[i] == body.bitrate_bps;
        assert(0 <= i < 9);
    }
}

/// An adapter's line speed may be changed exactly where the speed is one of the seven the command
/// can name and no bridge is running.
pub proof fn law_when_a_line_speed_may_change(state: HardwareState, body: CommandLineSpeedBody)
    ensures
        line_speed_decision(state, body) is Ok <==> (body.serial_baud_bps == 230_400
            || body.serial_baud_bps == 115_200 || body.serial_baud_bps == 57_600
            || body.serial_baud_bps == 38_400 || body.serial_baud_bps == 19_200
            || body.serial_baud_bps == 9_600 || body.serial_baud_bps == 2_400)
            && !state.m_bIsRunning,
{
    assert(SlcanLineSpeed::Baud230400.bits_per_second() == 230_400);
    assert(SlcanLineSpeed::Baud115200.bits_per_second() == 115_200);
    assert(SlcanLineSpeed::Baud57600.bits_per_second() == 57_600);
    assert(SlcanLineSpeed::Baud38400.bits_per_second() == 38_400);
    assert(SlcanLineSpeed::Baud19200.bits_per_second() == 19_200);
    assert(SlcanLineSpeed::Baud9600.bits_per_second() == 9_600);
    assert(SlcanLineSpeed::Baud2400.bits_per_second() == 2_400);
}

/// The status of a running bridge names its port and rates and counts what crossed the wire; that
/// of a stopped one names none.
pub proof fn law_a_status_shows_the_bridge(
    dto: HardwareStatusDto,
    state: HardwareState,
    received: u64,
    sent: u64,
)
    requires
        is_status_of(dto, state, Some((received, sent))),
    ensures
        dto.running == state.m_bIsRunning,
        dto.frames_received == received,
        dto.frames_sent == sent,
        state.m_bIsRunning ==> text_of(dto.port) == Some(state.m_strPortName@) && dto.bitrate_bps
            == Some(state.m_u32BitrateBps),
        state.m_bIsRunning ==> (state.m_optLinkSpeed matches Some(speed) ==> dto.serial_baud_bps
            == Some(speed.m_u32BaudRate)),
        !state.m_bIsRunning ==> dto.port is None && dto.bitrate_bps is None
            && dto.serial_baud_bps is None,
{
}

/// An entity answers as the address it is given, in hexadecimal with 0x in front or without, and
/// otherwise as the lowest of the vehicle's; it is told so where there is neither.
pub proof fn law_which_entity_answers(text: Seq<char>, digits: Seq<char>, lowest: Option<u16>)
    requires
        digits.len() > 0,
        digits[0] != '0',
        trimmed(text) == digits || trimmed(text) == seq!['0', 'x'] + digits || trimmed(text)
            == seq!['0', 'X'] + digits,
    ensures
        match parsed_hex(digits) {
            Some(n) => if n <= 0xFFFF {
                entity_address(Some(text), lowest) == Ok::<u16, ErrorView>(n as u16)
            } else {
                entity_address(Some(text), lowest) is Err
            },
            None => entity_address(Some(text), lowest) is Err,
        },
        lowest matches Some(address) ==> entity_address(None, lowest) == Ok::<u16, ErrorView>(
            address,
        ),
        lowest is None ==> entity_address(None, lowest) is Err,
{
    reveal_with_fuel(crate::api::doip::without_prefixes, 3);
    assert((seq!['0', 'x'] + digits).skip(2) =~= digits);
    assert((seq!['0', 'X'] + digits).skip(2) =~= digits);
}

/// A DoIP entity goes on a wire exactly where a protocol is there to answer with, the address to
/// bind reads, an entity to be can be told, and it is not listening yet; it is then that entity.
pub proof fn law_when_an_entity_may_listen(
    state: DoIpState,
    protocol_loaded: bool,
    body: StartDoIpBody,
    bind_reads: bool,
    lowest: Option<u16>,
)
    ensures
        ({
            let entity = entity_address(text_of(body.entity_address_hex), lowest);
            let decided = doip_start_decision(state, protocol_loaded, body, bind_reads, lowest);
            &&& decided is Ok <==> protocol_loaded && bind_reads && entity is Ok
                && !state.m_bIsListening
            &&& decided is Ok ==> decided == entity
        }),
{
}

/// Settings are accepted exactly where every code in them is one that is defined, the entity
/// offers a socket, and it takes messages of at least sixty-four bytes.
pub proof fn law_when_settings_are_accepted(dto: DoIpSettingsDto)
    ensures
        settings_error(dto) is None <==> {
            &&& dto.power_mode <= 2
            &&& dto.node_type <= 1
            &&& dto.max_sockets >= 1
            &&& dto.max_data_size >= 64
            &&& (dto.forced_routing_activation_code matches Some(code) ==> code == 0 || code == 1
                || code == 2 || code == 3 || code == 4 || code == 6 || code == 0x10)
            &&& (dto.forced_diagnostic_nack matches Some(code) ==> 2 <= code && code <= 6)
            &&& (dto.forced_header_nack matches Some(code) ==> code <= 4)
        },
        settings_of(dto).m_byPowerMode == dto.power_mode,
        settings_of(dto).m_byNodeType == dto.node_type,
        settings_of(dto).m_byMaxSockets == dto.max_sockets,
        settings_of(dto).m_u32MaxDataSize == dto.max_data_size,
        settings_of(dto).m_bSuppressIdentificationResponse == dto.suppress_identification_response,
        settings_of(dto).m_optByForcedRoutingActivationCode == dto.forced_routing_activation_code,
        settings_of(dto).m_optByForcedDiagnosticNack == dto.forced_diagnostic_nack,
        settings_of(dto).m_optByForcedHeaderNack == dto.forced_header_nack,
{
}

proof fn lemma_occupying(responses: Seq<RoutedResponse>, id: u32)
    ensures
        occupying(responses).contains(id) <==> exists|i: int|
            0 <= i < responses.len() && (#[trigger] responses[i]).m_u32RequestCanId == id
                && responses[i].m_plan.m_vecSteps@.len() >= 2,
    decreases responses.len(),
{
    if responses.len() > 0 {
        let front = responses.drop_last();
        let last = responses.last();
        let before = occupying(front);
        let all = occupying(responses);
        lemma_occupying(front, id);
        if before.contains(id) {
            let k = choose|k: int| 0 <= k < before.len() && before[k] == id;
            assert(all[k] == id);
            let i = choose|i: int|
                0 <= i < front.len() && (#[trigger] front[i]).m_u32RequestCanId == id
                    && front[i].m_plan.m_vecSteps@.len() >= 2;
            assert(responses[i] == front[i]);
        }
        if last.m_plan.m_vecSteps@.len() >= 2 && last.m_u32RequestCanId == id {
            assert(all[all.len() - 1] == id);
            assert(responses[responses.len() - 1] == last);
        }
        if all.contains(id) && !before.contains(id) {
            let k = choose|k: int| 0 <= k < all.len() && all[k] == id;
            if k < before.len() {
                assert(before[k] == id);
            }
        }
        if exists|i: int|
            0 <= i < responses.len() && (#[trigger] responses[i]).m_u32RequestCanId == id
                && responses[i].m_plan.m_vecSteps@.len() >= 2 {
            let i = choose|i: int|
                0 <= i < responses.len() && (#[trigger] responses[i]).m_u32RequestCanId == id
                    && responses[i].m_plan.m_vecSteps@.len() >= 2;
            if i < front.len() {
                assert(front[i] == responses[i]);
            }
        }
    }
}

/// An ECU is occupied by a request exactly where its answer to it takes more than one message.
pub proof fn law_what_occupies_an_ecu(responses: Seq<RoutedResponse>, id: u32)
    ensures
        occupying(responses).contains(id) <==> exists|i: int|
            0 <= i < responses.len() && (#[trigger] responses[i]).m_u32RequestCanId == id
                && responses[i].m_plan.m_vecSteps@.len() >= 2,
{
    lemma_occupying(responses, id);
}

/// A request is turned away exactly where an ECU it is for is busy, and the first such is named.
pub proof fn law_the_first_busy_ecu_is_named(busy: Set<u32>, wanted: Seq<u32>)
    ensures
        first_busy(busy, wanted) is None <==> forall|i: int|
            0 <= i < wanted.len() ==> !busy.contains(#[trigger] wanted[i]),
        first_busy(busy, wanted) matches Some(id) ==> exists|i: int|
            0 <= i < wanted.len() && #[trigger] wanted[i] == id && busy.contains(id) && (forall|
                j: int,
            |
                0 <= j < i ==> !busy.contains(#[trigger] wanted[j])),
    decreases wanted.len(),
{
    if wanted.len() > 0 {
        let front = wanted.drop_last();
        law_the_first_busy_ecu_is_named(busy, front);
        assert(forall|i: int| 0 <= i < front.len() ==> #[trigger] wanted[i] == front[i]);
        match first_busy(busy, front) {
            Some(id) => {
                let i = choose|i: int|
                    0 <= i < front.len() && #[trigger] front[i] == id && busy.contains(id) && (
                    forall|j: int| 0 <= j < i ==> !busy.contains(#[trigger] front[j]));
                assert(wanted[i] == id);
                assert forall|j: int| 0 <= j < i implies !busy.contains(#[trigger] wanted[j]) by {
                    assert(front[j] == wanted[j]);
                }
            },
            None => {
                let last = wanted.len() - 1;
                assert forall|j: int| 0 <= j < last implies !busy.contains(
                    #[trigger] wanted[j],
                ) by {
                    assert(front[j] == wanted[j]);
                }
                assert(wanted[last] == wanted.last());
            },
        }
    }
}

/// An override a caller sends is taken over as sent: one of two fixed words says whether it
/// suppresses or substitutes, each word of its pattern fixes one byte or leaves it open, and
/// everything else stays as it is.
pub proof fn law_an_override_is_taken_as_sent(dto: ResponseOverrideDto)
    requires
        override_of(dto) is Ok,
    ensures
        ({
            let view = override_of(dto)->Ok_0;
            let words = tokens_of(dto.request_hex@);
            &&& view.pattern.len() == words.len()
            &&& view.mask.len() == words.len()
            &&& words.len() > 0
            &&& forall|i: int|
                0 <= i < words.len() ==> {
                    &&& (#[trigger] view.mask[i]) == if is_wildcard(words[i]) {
                        0x00u8
                    } else {
                        0xFFu8
                    }
                    &&& is_wildcard(words[i]) || hex_byte(words[i]) == Some(view.pattern[i])
                }
            &&& view.match_trailing == dto.match_trailing_bytes
            &&& view.enabled == dto.enabled
            &&& view.even_if_suppressed == dto.respond_even_if_suppressed
            &&& view.note == dto.note@
            &&& view.action is Suppress <==> dto.action@ == "suppress"@
            &&& view.action is Substitute ==> dto.action@ == "substitute"@
            &&& view.action matches ActionView::Substitute { response, spans } ==> {
                &&& spans.len() == dto.echo_spans@.len()
                &&& forall|i: int|
                    0 <= i < spans.len() ==> #[trigger] spans[i] == (EchoSpan {
                        m_uRequestOffset: dto.echo_spans@[i].request_offset,
                        m_uLength: dto.echo_spans@[i].length,
                        m_uResponseOffset: dto.echo_spans@[i].response_offset,
                    })
            }
        }),
{
    let words = tokens_of(dto.request_hex@);
    assert(pattern_input(words) is Ok);
    law_pattern_carries_its_own_mask(words, words.len());
    lemma_fixed_bytes(words, words.len());
    let view = override_of(dto)->Ok_0;
    assert forall|i: int| 0 <= i < words.len() implies (#[trigger] view.mask[i])
        == (if is_wildcard(words[i]) {
        0x00u8
    } else {
        0xFFu8
    }) && (is_wildcard(words[i]) || hex_byte(words[i]) == Some(view.pattern[i])) by {}
}

proof fn lemma_fixed_bytes(words: Seq<Seq<char>>, count: nat)
    requires
        crate::api::input::pattern_of(words, count) is Ok,
    ensures
        crate::api::input::pattern_of(words, count)->Ok_0.0.len() == count,
        forall|i: int|
            #![trigger crate::api::input::pattern_of(words, count)->Ok_0.0[i]]
            0 <= i < count ==> is_wildcard(words[i]) || hex_byte(words[i]) == Some(
                crate::api::input::pattern_of(words, count)->Ok_0.0[i],
            ),
    decreases count,
{
    if count > 0 {
        lemma_fixed_bytes(words, (count - 1) as nat);
    }
}

/// An override is shown as it is: with its switches, its note, and one of two fixed words for what
/// it does.
pub proof fn law_an_override_is_shown_as_it_is(dto: ResponseOverrideDto, rule: ResponseOverride)
    requires
        shows_override(dto, rule),
    ensures
        dto.match_trailing_bytes == rule.m_bMatchTrailingBytes,
        dto.enabled == rule.m_bIsEnabled,
        dto.respond_even_if_suppressed == rule.m_bRespondEvenIfSuppressed,
        dto.note@ == rule.m_strNote@,
        rule.m_action is Suppress ==> dto.action@ == "suppress"@ && dto.response_hex is None,
        rule.m_action is Substitute ==> dto.action@ == "substitute"@ && dto.response_hex is Some,
        rule.m_action matches OverrideAction::Substitute { m_vecEchoSpans, .. }
            ==> dto.echo_spans@.len() == m_vecEchoSpans@.len() && forall|i: int|
            0 <= i < m_vecEchoSpans@.len() ==> (#[trigger] dto.echo_spans@[i]).request_offset
                == m_vecEchoSpans@[i].m_uRequestOffset && dto.echo_spans@[i].length
                == m_vecEchoSpans@[i].m_uLength && dto.echo_spans@[i].response_offset
                == m_vecEchoSpans@[i].m_uResponseOffset,
{
}

/// A picture of a vehicle shows the tester first and then each ECU once, in their order, under its
/// name and on its two identifiers, all on one link.
pub proof fn law_every_ecu_is_in_the_picture(
    dto: TopologyDto,
    vehicle_name: Option<Seq<char>>,
    ecus: Seq<VirtualEcu>,
    i: int,
    address: CanAddress,
)
    requires
        is_topology_of(dto, vehicle_name, ecus),
        0 <= i < ecus.len(),
        ecus[i].config().m_optCanAddress == Some(address),
    ensures
        dto.nodes@.len() == ecus.len() + 1,
        dto.nodes@[0].kind@ == "tester"@,
        dto.nodes@[i + 1].kind@ == "ecu"@,
        dto.nodes@[i + 1].label@ == ecus[i].config().m_strName@,
        text_of(dto.nodes@[i + 1].request_can_id_hex) == Some(
            can_id_text(address.m_u32RequestCanId),
        ),
        text_of(dto.nodes@[i + 1].response_can_id_hex) == Some(
            can_id_text(address.m_u32ResponseCanId),
        ),
        text_of(dto.nodes@[i + 1].link_id) == Some(dto.links@[0].id@),
        dto.links@.len() == 1,
{
    assert(is_ecu_node(dto.nodes@[i + 1], ecus[i]));
}

/// Identifiers of both widths in one picture are remarked upon, and only there.
pub proof fn law_mixed_widths_are_remarked_upon(ecus: Seq<VirtualEcu>, i: int, j: int)
    requires
        0 <= i < ecus.len(),
        0 <= j < ecus.len(),
        ecus[i].config().m_optCanAddress is Some,
        ecus[j].config().m_optCanAddress is Some,
        ecus[i].config().m_optCanAddress->0.m_addressingMode == CanAddressingMode::NormalFixed29Bit,
    ensures
        ecus[j].config().m_optCanAddress->0.m_addressingMode == CanAddressingMode::Normal11Bit
            ==> is_mixed(ecus) && caveats(ecus).len() == 3,
        (forall|k: int|
            0 <= k < ecus.len() ==> (#[trigger] ecus[k]).config().m_optCanAddress is Some
                && ecus[k].config().m_optCanAddress->0.m_addressingMode
                == CanAddressingMode::NormalFixed29Bit) ==> !is_mixed(ecus) && caveats(ecus).len()
            == 2,
{
    assert(crate::api::topology::is_extended(ecus[i]));
    if ecus[j].config().m_optCanAddress->0.m_addressingMode == CanAddressingMode::Normal11Bit {
        assert(!crate::api::topology::is_extended(ecus[j]));
    }
}

/// An override that is accepted could be a real exchange: its pattern fixes a service that exists,
/// and what it substitutes is an answer to that service.
pub proof fn law_an_accepted_override_can_answer(dto: ResponseOverrideDto, rule: ResponseOverride)
    requires
        is_accepted(dto, rule),
    ensures
        rule.m_bIsEnabled == dto.enabled,
        rule.m_bMatchTrailingBytes == dto.match_trailing_bytes,
        rule.m_bRespondEvenIfSuppressed == dto.respond_even_if_suppressed,
        rule.m_strNote@ == dto.note@,
        rule.m_vecRequestPattern@.len() > 0,
        rule.m_vecRequestMask@.len() == rule.m_vecRequestPattern@.len(),
        rule.m_vecRequestMask@[0] == 0xFF,
        0x10 <= rule.m_vecRequestPattern@[0] <= 0x3E || 0x83 <= rule.m_vecRequestPattern@[0]
            <= 0x88,
        rule.m_action matches OverrideAction::Substitute { m_vecResponse, .. }
            ==> m_vecResponse@.len() > 0 && (m_vecResponse@[0] == rule.m_vecRequestPattern@[0]
            + 0x40 || m_vecResponse@[0] == 0x7F && m_vecResponse@.len() == 3 && m_vecResponse@[1]
            == rule.m_vecRequestPattern@[0] && m_vecResponse@[2] != 0x78),
{
}

/// A list of overrides is refused for the first of them that cannot be accepted, and for no other.
pub proof fn law_the_first_bad_override_is_named(
    dtos: Seq<ResponseOverrideDto>,
    i: int,
    message: Seq<char>,
    j: int,
    rule: ResponseOverride,
)
    requires
        is_first_refused(dtos, i, message),
        0 <= j <= i,
    ensures
        !is_accepted(dtos[i], rule),
        j < i ==> is_acceptable(dtos[j]),
        j < i ==> !is_first_refused(dtos, j, message),
{
    if is_accepted(dtos[i], rule) {
        let (other, error) = choose|other: ResponseOverride, error: OverrideValidationError|
            override_view(other) == override_view(rule) && other.first_error() == Some(error)
                && message == #[trigger] error.message() && #[trigger] override_view(other)
                == override_view(rule);
        law_same_override_same_verdict(other, rule);
    }
    if j < i && is_first_refused(dtos, j, message) {
        let good = choose|good: ResponseOverride| is_accepted(dtos[j], good);
        let view = override_view(good);
        let (other, error) = choose|other: ResponseOverride, error: OverrideValidationError|
            override_view(other) == view && other.first_error() == Some(error) && message
                == #[trigger] error.message() && #[trigger] override_view(other) == view;
        law_same_override_same_verdict(other, good);
    }
}

/// A caller that is turned away because an ECU is busy is told which.
pub proof fn law_a_busy_ecu_is_named(id: u32)
    ensures
        busy_error(id).status is Conflict,
        busy_error(id).message == "the ECU on CAN id 0x"@ + hex(id as nat, 3)
            + " is completing a ResponsePending sequence and cannot receive another request yet"@,
        parsed_hex(hex(id as nat, 3)) == Some(id as nat),
{
    law_a_number_reads_back(id as nat, 3);
}

/// What became of a change of line speed is called by one of four names, a different one for each.
pub proof fn law_the_outcomes_of_a_change_are_told_apart(change: LineSpeedChange)
    ensures
        change_name(change) == "confirmed"@ <==> change is Confirmed,
        change_name(change) == "refused"@ <==> change is Refused,
        change_name(change) == "notConfirmed"@ <==> change is NotConfirmed,
        change_name(change) == "noRealSerialLine"@ <==> change is NoRealSerialLine,
{
    reveal_strlit("confirmed");
    reveal_strlit("refused");
    reveal_strlit("notConfirmed");
    reveal_strlit("noRealSerialLine");
    assert("confirmed"@.len() == 9 && "refused"@.len() == 7 && "notConfirmed"@.len() == 12
        && "noRealSerialLine"@.len() == 16);
}

/// What is said once a wire is up names the port or address and the rates it is up at, and what is
/// said of a refused override counts which it was.
pub proof fn law_what_a_caller_is_told(
    body: StartHardwareBody,
    speed: SerialLinkSpeed,
    address: u16,
    bound: Seq<char>,
    i: int,
    message: Seq<char>,
)
    ensures
        on_the_wire_text(body, speed) == "on the wire: "@ + body.port@ + " at "@ + decimal(
            body.bitrate_bps as nat,
        ) + " bit/s, host link "@ + decimal(speed.m_u32BaudRate as nat) + " baud ("@
            + speed.m_source.description() + ")"@,
        listening_text(address, bound) == "DoIP entity 0x"@ + hex(address as nat, 4)
            + " listening on "@ + bound,
        numbered_error(i, message).status is BadRequest,
        numbered_error(i, message).message == "override "@ + decimal(i as nat) + ": "@ + message,
{
}

} // verus!
