//! What a caller may write, and what it is read as.

use vstd::prelude::*;

use crate::api::diagnostics::no_protocol_text;
use crate::api::error::bad_request;
use crate::api::error::conflict;
use crate::api::error::ErrorView;
use crate::api::input::can_id;
use crate::api::input::hex_byte;
use crate::api::input::hex_input;
use crate::api::input::hex_pairs;
use crate::api::input::is_white_space;
use crate::api::input::is_wildcard;
use crate::api::input::trimmed;
use crate::api::input::trimmed_end;
use crate::api::input::trimmed_start;
use crate::api::input::without_white_space;
use crate::api::simulation::addressing_mode_of;
use crate::api::simulation::is_new_ecu;
use crate::api::simulation::log_error;
use crate::api::simulation::name_of;
use crate::api::simulation::new_address;
use crate::api::simulation::request_of;
use crate::api::simulation::timing_dto;
use crate::api::simulation::timing_of;
use crate::api::simulation::CreateEcuBody;
use crate::api::simulation::EcuTimingDto;
use crate::api::simulation::SimulationRequestBody;
use crate::core_domain::address::CanAddress;
use crate::core_domain::address::CanAddressingMode;
use crate::core_domain::ecu::Ecu;
use crate::core_domain::session::DataIdentifier;
use crate::core_domain::timing::EcuTiming;
use crate::text::decimal;
use crate::text::hex_number;
use crate::text::hex_value;
use crate::text::parsed_hex;

verus! {

/// White space only.
pub open spec fn is_blank(text: Seq<char>) -> bool {
    forall|i: int| 0 <= i < text.len() ==> is_white_space(#[trigger] text[i])
}

proof fn lemma_trimmed_start(text: Seq<char>) -> (cut: int)
    ensures
        0 <= cut <= text.len(),
        trimmed_start(text) == text.skip(cut),
        is_blank(text.take(cut)),
        cut < text.len() ==> !is_white_space(text[cut]),
    decreases text.len(),
{
    if text.len() > 0 && is_white_space(text[0]) {
        let rest = text.drop_first();
        let cut = lemma_trimmed_start(rest);
        assert(rest.skip(cut) =~= text.skip(cut + 1));
        assert forall|i: int| 0 <= i < cut + 1 implies is_white_space(
            #[trigger] text.take(cut + 1)[i],
        ) by {
            if i > 0 {
                assert(rest.take(cut)[i - 1] == text[i]);
            }
        }
        if cut < rest.len() {
            assert(rest[cut] == text[cut + 1]);
        }
        cut + 1
    } else {
        assert(text.skip(0) =~= text);
        0
    }
}

proof fn lemma_trimmed_end(text: Seq<char>) -> (kept: int)
    ensures
        0 <= kept <= text.len(),
        trimmed_end(text) == text.take(kept),
        is_blank(text.skip(kept)),
        kept > 0 ==> !is_white_space(text[kept - 1]),
    decreases text.len(),
{
    if text.len() > 0 && is_white_space(text.last()) {
        let rest = text.drop_last();
        let kept = lemma_trimmed_end(rest);
        assert(rest.take(kept) =~= text.take(kept));
        assert forall|i: int| 0 <= i < text.len() - kept implies is_white_space(
            #[trigger] text.skip(kept)[i],
        ) by {
            if i < rest.len() - kept {
                assert(rest.skip(kept)[i] == text[kept + i]);
            }
        }
        kept
    } else {
        assert(text.take(text.len() as int) =~= text);
        text.len() as int
    }
}

/// Trimming cuts off white space at both ends and nothing else: what is left begins and ends with
/// something, and only blanks are gone.
pub proof fn law_trimming_cuts_only_blanks(text: Seq<char>) -> (ends: (int, int))
    ensures
        0 <= ends.0 <= ends.1 <= text.len(),
        trimmed(text) == text.subrange(ends.0, ends.1),
        is_blank(text.take(ends.0)),
        is_blank(text.skip(ends.1)),
        ends.0 < ends.1 ==> !is_white_space(text[ends.0]) && !is_white_space(text[ends.1 - 1]),
{
    let cut = lemma_trimmed_start(text);
    let front = text.skip(cut);
    let kept = lemma_trimmed_end(front);
    assert(front.take(kept) =~= text.subrange(cut, cut + kept));
    assert(front.skip(kept) =~= text.skip(cut + kept));
    if kept > 0 {
        assert(front[kept - 1] == text[cut + kept - 1]);
    }
    (cut, cut + kept)
}

/// A digit counts the same in either case, and nothing else is a digit.
pub proof fn law_hex_digits(c: char)
    ensures
        '0' <= c && c <= '9' ==> hex_value(c) == Some((c as nat - '0' as nat) as nat),
        'a' <= c && c <= 'f' ==> hex_value(c) == Some((10 + (c as nat - 'a' as nat)) as nat),
        'A' <= c && c <= 'F' ==> hex_value(c) == Some((10 + (c as nat - 'A' as nat)) as nat),
        !('0' <= c && c <= '9') && !('a' <= c && c <= 'f') && !('A' <= c && c <= 'F')
            ==> hex_value(c) is None,
{
}

proof fn lemma_pairs(clean: Seq<char>, pairs: nat)
    requires
        2 * pairs <= clean.len(),
    ensures
        hex_pairs(clean, pairs) matches Ok(bytes) ==> bytes.len() == pairs && forall|i: int|
            0 <= i < pairs ==> hex_byte(clean.subrange(2 * i, 2 * i + 2)) == Some(
                #[trigger] bytes[i],
            ),
        (forall|i: int|
            0 <= i < pairs ==> hex_byte(#[trigger] clean.subrange(2 * i, 2 * i + 2)) is Some)
            ==> hex_pairs(clean, pairs) is Ok,
    decreases pairs,
{
    if pairs > 0 {
        lemma_pairs(clean, (pairs - 1) as nat);
        let last = pairs - 1;
        if forall|i: int|
            0 <= i < pairs ==> hex_byte(#[trigger] clean.subrange(2 * i, 2 * i + 2)) is Some {
            assert(hex_byte(clean.subrange(2 * last, 2 * last + 2)) is Some);
        }
    }
}

proof fn lemma_two_digits(token: Seq<char>)
    requires
        token.len() == 2,
        token[0] != '+',
    ensures
        hex_byte(token) is Some <==> hex_value(token[0]) is Some && hex_value(token[1]) is Some,
        hex_byte(token) matches Some(b) ==> b == 16 * hex_value(token[0])->0 + hex_value(
            token[1],
        )->0,
{
    assert(parsed_hex(token) == hex_number(token));
    let one = token.drop_last();
    let none = one.drop_last();
    assert(none.len() == 0);
    assert(hex_number(none) == Some(0nat));
    assert(one.last() == token[0]);
    assert(hex_number(one) == match hex_value(token[0]) {
        Some(low) => Some((0 * 16 + low) as nat),
        None => None::<nat>,
    });
    assert(token.last() == token[1]);
}

/// Bytes in hexadecimal are read two digits at a time, the first counting sixteenfold; white space
/// is passed over. There is at least one byte, and no digit is left over.
pub proof fn law_hex_is_read_two_digits_at_a_time(text: Seq<char>)
    requires
        forall|i: int| 0 <= i < without_white_space(text).len() ==> (#[trigger] without_white_space(
            text,
        )[i]) != '+',
    ensures
        ({
            let clean = without_white_space(text);
            &&& hex_input(clean) matches Ok(bytes) ==> 2 * bytes.len() == clean.len()
                && bytes.len() > 0 && forall|i: int|
                0 <= i < bytes.len() ==> (#[trigger] bytes[i]) == 16 * hex_value(clean[2 * i])->0
                    + hex_value(clean[2 * i + 1])->0 && hex_value(clean[2 * i]) is Some
                    && hex_value(clean[2 * i + 1]) is Some
        }),
{
    let clean = without_white_space(text);
    lemma_pairs(clean, clean.len() / 2);
    if let Ok(bytes) = hex_input(clean) {
        assert(clean.len() > 0 && clean.len() % 2 == 0);
        assert(2 * bytes.len() == clean.len());
        assert forall|i: int| 0 <= i < bytes.len() implies (#[trigger] bytes[i]) == 16 * hex_value(
            clean[2 * i],
        )->0 + hex_value(clean[2 * i + 1])->0 && hex_value(clean[2 * i]) is Some && hex_value(
            clean[2 * i + 1],
        ) is Some by {
            let token = clean.subrange(2 * i, 2 * i + 2);
            assert(token[0] == clean[2 * i] && token[1] == clean[2 * i + 1]);
            assert(clean[2 * i] != '+');
            assert(hex_byte(token) == Some(bytes[i]));
            lemma_two_digits(token);
        }
    }
}

/// An identifier may be written with 0x in front or without, and reads the same; up to 29 bits it
/// is accepted, and beyond that or where it is no number it is refused.
pub proof fn law_an_identifier_is_read_with_or_without_prefix(input: Seq<char>, digits: Seq<char>)
    requires
        digits.len() > 0,
        !(digits.len() >= 2 && digits[0] == '0' && (digits[1] == 'x' || digits[1] == 'X')),
    ensures
        ({
            let read = hex_number(
                if digits.len() > 1 && digits[0] == '+' {
                    digits.skip(1)
                } else {
                    digits
                },
            );
            &&& can_id(input, digits) is Ok <==> read is Some && read->0 <= 0x1FFF_FFFF
            &&& can_id(input, digits) matches Ok(id) ==> read == Some(id as nat)
            &&& can_id(input, seq!['0', 'x'] + digits) == can_id(input, digits)
            &&& can_id(input, seq!['0', 'X'] + digits) == can_id(input, digits)
        }),
{
    assert((seq!['0', 'x'] + digits).skip(2) =~= digits);
    assert((seq!['0', 'X'] + digits).skip(2) =~= digits);
}

/// A name is what is left between the blanks around it, and a blank one is refused.
pub proof fn law_a_name_is_not_blank(text: Seq<char>, missing: Seq<char>)
    ensures
        name_of(text, missing) is Err <==> is_blank(text),
        name_of(text, missing) matches Ok(name) ==> name == trimmed(text) && name.len() > 0,
        name_of(text, missing) matches Err(error) ==> error == bad_request(missing),
{
    let (from, to) = law_trimming_cuts_only_blanks(text);
    if trimmed(text).len() == 0 {
        assert(from == to);
        assert forall|i: int| 0 <= i < text.len() implies is_white_space(#[trigger] text[i]) by {
            if i < from {
                assert(text.take(from)[i] == text[i]);
            } else {
                assert(text.skip(to)[i - to] == text[i]);
            }
        }
    }
}

/// A log is refused where it is blank, and where it is longer than eight mebi-characters.
pub proof fn law_a_log_has_a_size(text: Seq<char>)
    ensures
        log_error(text) is None <==> !is_blank(text) && text.len() <= 8 * 1024 * 1024,
        !is_blank(text) && text.len() > 8 * 1024 * 1024 ==> log_error(text) == Some(
            bad_request(
                "log is "@ + decimal(text.len()) + " characters; the limit is 8388608"@,
            ),
        ),
{
    law_a_name_is_not_blank(text, "the log is empty"@);
}

/// A request is read whole or not at all: it needs an identifier, bytes, a protocol and a vehicle,
/// and what is missing first in that order is what the caller is told.
pub proof fn law_a_request_is_read_whole(
    body: SimulationRequestBody,
    protocol_loaded: bool,
    vehicle_loaded: bool,
)
    ensures
        ({
            let id = can_id(body.can_id_hex@, trimmed(body.can_id_hex@));
            let bytes = hex_input(without_white_space(body.request_hex@));
            let read = request_of(body, protocol_loaded, vehicle_loaded);
            &&& read is Ok <==> id is Ok && bytes is Ok && protocol_loaded && vehicle_loaded
            &&& read matches Ok(request) ==> request.0 == id->Ok_0 && request.1 == bytes->Ok_0
            &&& id is Err ==> read == Err::<(u32, Seq<u8>), ErrorView>(bad_request(id->Err_0))
            &&& id is Ok && bytes is Err ==> read == Err::<(u32, Seq<u8>), ErrorView>(
                bad_request(bytes->Err_0),
            )
            &&& id is Ok && bytes is Ok && !protocol_loaded ==> read == Err::<
                (u32, Seq<u8>),
                ErrorView,
            >(conflict(no_protocol_text()))
            &&& id is Ok && bytes is Ok && protocol_loaded && !vehicle_loaded ==> read == Err::<
                (u32, Seq<u8>),
                ErrorView,
            >(conflict("no vehicle is loaded; POST a CAN log to /simulation/load first"@))
        }),
{
}

/// Without a stated mode the identifiers decide: one that needs more than eleven bits makes the
/// address a 29-bit one.
pub proof fn law_the_width_decides_the_mode(request: u32, response: u32)
    ensures
        addressing_mode_of(None, request, response) == Ok::<CanAddressingMode, ErrorView>(
            if request >= 0x800 || response >= 0x800 {
                CanAddressingMode::NormalFixed29Bit
            } else {
                CanAddressingMode::Normal11Bit
            },
        ),
{
}

/// A new ECU is on the two identifiers the caller gave, which must differ, under the name the
/// caller gave; it offers the services the caller listed, or those every new ECU has, can enter
/// three sessions, and has nothing else yet.
pub proof fn law_a_new_ecu_is_as_asked(ecu: Ecu, body: CreateEcuBody, address: CanAddress)
    requires
        new_address(body) == Ok::<CanAddress, ErrorView>(address),
        is_new_ecu(ecu, body, address),
    ensures
        !is_blank(body.name@),
        can_id(body.request_can_id_hex@, trimmed(body.request_can_id_hex@)) == Ok::<u32, Seq<char>>(
            address.m_u32RequestCanId,
        ),
        can_id(body.response_can_id_hex@, trimmed(body.response_can_id_hex@)) == Ok::<
            u32,
            Seq<char>,
        >(address.m_u32ResponseCanId),
        address.m_u32RequestCanId != address.m_u32ResponseCanId,
        ecu.m_strName@ == trimmed(body.name@),
        ecu.m_optCanAddress == Some(address),
        body.supported_services matches Some(services) ==> ecu.m_vecSupportedServices@ == services@,
        body.supported_services is None ==> ecu.m_vecSupportedServices@ == seq![
            0x10u8,
            0x11,
            0x19,
            0x22,
            0x27,
            0x31,
            0x3E,
        ],
        body.logical_address matches Some(logical) ==> ecu.m_u16LogicalAddress == logical,
        ecu.m_vecSupportedSessions@.len() == 3,
        ecu.m_timing.m_u32ResponseDelayMs == 0,
        ecu.m_mapDids@ == Map::<u16, DataIdentifier>::empty(),
        ecu.m_vecDtcs@.len() == 0,
        ecu.m_vecSecurityLevels@.len() == 0,
        ecu.m_vecResponseOverrides@.len() == 0,
        !ecu.m_bHasDoIpAddress,
{
    law_a_name_is_not_blank(body.name@, "the ECU needs a name"@);
}

/// Timing a caller sends is taken over field by field and shown again as it was sent; what a caller
/// does not see stays as it is.
pub proof fn law_timing_is_taken_as_sent(dto: EcuTimingDto, current: EcuTiming)
    ensures
        ({
            let after = timing_of(dto, current);
            &&& timing_dto(after) == dto
            &&& after.m_u32P2ServerMaxMs == dto.p2_server_max_ms
            &&& after.m_u32P2StarServerMaxMs == dto.p2_star_server_max_ms
            &&& after.m_u32P4ServerMaxMs == dto.p4_server_max_ms
            &&& after.m_u32ResponseDelayMs == dto.response_delay_ms
            &&& after.m_bForceResponsePending == dto.force_response_pending
            &&& after.m_u8ForcedResponsePendingCount == dto.forced_response_pending_count
            &&& after.m_bDropFinalResponse == dto.drop_final_response
            &&& after.m_u8IsoTpBlockSize == current.m_u8IsoTpBlockSize
            &&& after.m_byIsoTpSeparationTimeMin == current.m_byIsoTpSeparationTimeMin
        }),
{
}

/// The number decimal digits stand for.
pub open spec fn decimal_value(digits: Seq<char>) -> int
    decreases digits.len(),
{
    if digits.len() == 0 {
        0
    } else {
        decimal_value(digits.drop_last()) * 10 + (digits.last() as int - '0' as int)
    }
}

/// A number in a message is the number that is meant.
pub proof fn law_decimal_says_the_number(n: nat)
    ensures
        decimal_value(decimal(n)) == n,
        decimal(n).len() > 0,
        forall|i: int| 0 <= i < decimal(n).len() ==> '0' <= (#[trigger] decimal(n)[i]) <= '9',
    decreases n,
{
    if n < 10 {
        assert(decimal(n).drop_last() =~= seq![]);
        assert(decimal_value(seq![]) == 0);
    } else {
        law_decimal_says_the_number(n / 10);
        assert(decimal(n).drop_last() =~= decimal(n / 10));
    }
}

/// A byte is left open by two stars, question marks, dots or crosses in either case, and by nothing
/// else.
pub proof fn law_which_words_leave_a_byte_open(word: Seq<char>)
    ensures
        is_wildcard(word) <==> word == "**"@ || word == "??"@ || word == ".."@ || word == "xx"@
            || word == "XX"@,
{
    reveal_strlit("**");
    reveal_strlit("??");
    reveal_strlit("..");
    reveal_strlit("xx");
    reveal_strlit("XX");
    assert("**"@ =~= seq!['*', '*']);
    assert("??"@ =~= seq!['?', '?']);
    assert(".."@ =~= seq!['.', '.']);
    assert("xx"@ =~= seq!['x', 'x']);
    assert("XX"@ =~= seq!['X', 'X']);
}

} // verus!
