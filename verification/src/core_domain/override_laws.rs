//! What a user-defined answer answers, and with what.

use vstd::prelude::*;

use crate::core_domain::ecu::is_chosen_override;
use crate::core_domain::overrides::echoed_all;
use crate::core_domain::overrides::fixed_bytes;
use crate::core_domain::overrides::EchoSpan;
use crate::core_domain::overrides::OverrideAction;
use crate::core_domain::overrides::ResponseOverride;

verus! {

/// A prefix answers every continuation: where an override with trailing bytes allowed matches a
/// request, it matches that request followed by any bytes.
pub proof fn law_a_prefix_matches_every_continuation(
    rule: ResponseOverride,
    request: Seq<u8>,
    more: Seq<u8>,
)
    requires
        rule.m_bMatchTrailingBytes,
        rule.matches(request),
    ensures
        rule.matches(request + more),
{
    let longer = request + more;
    assert forall|i: int| 0 <= i < rule.m_vecRequestPattern@.len() implies (#[trigger] longer[i])
        & rule.m_vecRequestMask@[i] == rule.m_vecRequestPattern@[i] & rule.m_vecRequestMask@[i] by {
        assert(longer[i] == request[i]);
    }
}

/// An override that is on matches the very request it was written for.
pub proof fn law_an_override_matches_its_own_pattern(rule: ResponseOverride)
    requires
        rule.m_bIsEnabled,
        rule.m_vecRequestPattern@.len() > 0,
        rule.m_vecRequestMask@.len() == rule.m_vecRequestPattern@.len(),
    ensures
        rule.matches(rule.m_vecRequestPattern@),
{
}

/// The mask alone says which bits count: of two requests of one length that differ only in bits no
/// mask byte fixes, an override matches both or neither. A byte with mask zero may be anything.
pub proof fn law_only_masked_bits_count(rule: ResponseOverride, a: Seq<u8>, b: Seq<u8>)
    requires
        a.len() == b.len(),
        forall|i: int|
            0 <= i < rule.m_vecRequestMask@.len() && i < a.len() ==> (#[trigger] a[i])
                & rule.m_vecRequestMask@[i] == b[i] & rule.m_vecRequestMask@[i],
    ensures
        rule.matches(a) == rule.matches(b),
{
    let pattern = rule.m_vecRequestPattern@;
    let mask = rule.m_vecRequestMask@;
    if rule.matches(a) {
        assert forall|i: int| 0 <= i < pattern.len() implies (#[trigger] b[i]) & mask[i]
            == pattern[i] & mask[i] by {
            assert(a[i] & mask[i] == b[i] & mask[i]);
        }
    }
    if rule.matches(b) {
        assert forall|i: int| 0 <= i < pattern.len() implies (#[trigger] a[i]) & mask[i]
            == pattern[i] & mask[i] by {
            assert(b[i] & mask[i] == pattern[i] & mask[i]);
        }
    }
}

/// What an override never matches: anything while it is off, with no pattern, or with a mask of
/// another length; a request shorter than its pattern; a longer one unless it is a prefix; and a
/// request that differs from the pattern in a bit the mask fixes.
pub proof fn law_what_an_override_never_matches(rule: ResponseOverride, request: Seq<u8>, i: int)
    requires
        ({
            let pattern = rule.m_vecRequestPattern@;
            let mask = rule.m_vecRequestMask@;
            ||| !rule.m_bIsEnabled
            ||| pattern.len() == 0
            ||| mask.len() != pattern.len()
            ||| request.len() < pattern.len()
            ||| !rule.m_bMatchTrailingBytes && request.len() != pattern.len()
            ||| 0 <= i < pattern.len() && request[i] & mask[i] != pattern[i] & mask[i]
        }),
    ensures
        !rule.matches(request),
{
}

/// An override that is more specific answers: it fixes more bytes, or as many with a longer
/// pattern, or as many of as long a pattern and is no prefix.
pub proof fn law_the_more_specific_override_answers(
    rules: Seq<ResponseOverride>,
    request: Seq<u8>,
    other: int,
    chosen: int,
)
    requires
        is_chosen_override(rules, request, chosen),
        0 <= other < rules.len(),
        rules[other].matches(request),
    ensures
        ({
            let a = rules[chosen];
            let b = rules[other];
            let more = fixed_bytes(a.m_vecRequestMask@) as int - fixed_bytes(b.m_vecRequestMask@);
            let longer = a.m_vecRequestPattern@.len() - b.m_vecRequestPattern@.len();
            &&& more >= 0
            &&& more == 0 ==> longer >= 0
            &&& more == 0 && longer == 0 && !b.m_bMatchTrailingBytes ==> !a.m_bMatchTrailingBytes
        }),
{
}

/// Fixed bytes are counted one by one: fixing one more byte of a mask adds one, and a mask of
/// zeros fixes none.
pub proof fn law_fixing_a_byte_adds_one(mask: Seq<u8>, i: int, fixed: u8)
    requires
        0 <= i < mask.len(),
        mask[i] == 0,
        fixed != 0,
    ensures
        fixed_bytes(mask.update(i, fixed)) == fixed_bytes(mask) + 1,
        (forall|j: int| 0 <= j < mask.len() ==> mask[j] == 0) ==> fixed_bytes(mask) == 0,
    decreases mask.len(),
{
    let more = mask.update(i, fixed);
    let last = mask.len() - 1;
    if i < last {
        law_fixing_a_byte_adds_one(mask.drop_last(), i, fixed);
        assert(more.drop_last() =~= mask.drop_last().update(i, fixed));
        assert(forall|j: int| 0 <= j < last ==> mask.drop_last()[j] == mask[j]);
    } else {
        assert(more.drop_last() =~= mask.drop_last());
        lemma_zeros_fix_nothing(mask.drop_last());
        assert(forall|j: int| 0 <= j < last ==> mask.drop_last()[j] == mask[j]);
    }
}

proof fn lemma_zeros_fix_nothing(mask: Seq<u8>)
    ensures
        (forall|j: int| 0 <= j < mask.len() ==> mask[j] == 0) ==> fixed_bytes(mask) == 0,
    decreases mask.len(),
{
    if mask.len() > 0 {
        lemma_zeros_fix_nothing(mask.drop_last());
        assert(forall|j: int| 0 <= j < mask.len() - 1 ==> mask.drop_last()[j] == mask[j]);
    }
}

/// A substituting override sends its bytes; each echo span in turn copies its run of the request
/// over them where it fits both, leaves every other byte alone, and does nothing where it does
/// not fit. A suppressing override sends nothing.
pub proof fn law_an_override_sends_its_template(
    rule: ResponseOverride,
    request: Seq<u8>,
    earlier: Seq<EchoSpan>,
    span: EchoSpan,
    template: Seq<u8>,
    i: int,
)
    requires
        0 <= i < template.len(),
    ensures
        echoed_all(seq![], request, template) == template,
        ({
            let before = echoed_all(earlier, request, template);
            let after = echoed_all(earlier.push(span), request, template);
            let fits = span.m_uRequestOffset + span.m_uLength <= request.len()
                && span.m_uResponseOffset + span.m_uLength <= template.len();
            let covered = span.m_uResponseOffset <= i < span.m_uResponseOffset + span.m_uLength;
            &&& after.len() == template.len()
            &&& fits && covered ==> after[i] == request[span.m_uRequestOffset + (i
                - span.m_uResponseOffset)]
            &&& !fits || !covered ==> after[i] == before[i]
        }),
        match rule.m_action {
            OverrideAction::Suppress => rule.response_to(request) is None,
            OverrideAction::Substitute { m_vecResponse, m_vecEchoSpans } => rule.response_to(request)
                == Some(echoed_all(m_vecEchoSpans@, request, m_vecResponse@)),
        },
{
    crate::core_domain::overrides::law_echo_keeps_the_length(earlier, request, template);
    assert(earlier.push(span).drop_last() =~= earlier);
}

/// What could be a real exchange is accepted: an override that fixes the service it answers, and is
/// silent, answers positively with that service's own identifier, or refuses it with anything but
/// ResponsePending, and whose echo spans stay inside the pattern and the response.
pub proof fn law_a_real_exchange_is_accepted(rule: ResponseOverride)
    requires
        rule.m_vecRequestPattern@.len() > 0,
        rule.m_vecRequestMask@.len() == rule.m_vecRequestPattern@.len(),
        rule.m_vecRequestMask@[0] == 0xFF,
        ({
            let sid = rule.m_vecRequestPattern@[0];
            &&& 0x10 <= sid <= 0x3E || 0x83 <= sid <= 0x88
            &&& match rule.m_action {
                OverrideAction::Suppress => true,
                OverrideAction::Substitute { m_vecResponse, m_vecEchoSpans } => {
                    let response = m_vecResponse@;
                    &&& response.len() > 0
                    &&& {
                        ||| response[0] == sid + 0x40 && response[0] != 0x7F
                        ||| response[0] == 0x7F && response.len() == 3 && response[1] == sid
                            && response[2] != 0x78
                    }
                    &&& forall|k: int|
                        0 <= k < m_vecEchoSpans@.len() ==> {
                            let span = #[trigger] m_vecEchoSpans@[k];
                            &&& span.m_uRequestOffset + span.m_uLength
                                <= rule.m_vecRequestPattern@.len()
                            &&& span.m_uResponseOffset + span.m_uLength <= response.len()
                        }
                },
            }
        }),
    ensures
        rule.first_error() is None,
{
    if let OverrideAction::Substitute { m_vecResponse, m_vecEchoSpans } = rule.m_action {
        lemma_spans_are_inside(m_vecEchoSpans@, rule.m_vecRequestPattern@, m_vecResponse@);
    }
}

proof fn lemma_spans_are_inside(spans: Seq<EchoSpan>, pattern: Seq<u8>, response: Seq<u8>)
    requires
        forall|k: int|
            0 <= k < spans.len() ==> {
                let span = #[trigger] spans[k];
                &&& span.m_uRequestOffset + span.m_uLength <= pattern.len()
                &&& span.m_uResponseOffset + span.m_uLength <= response.len()
            },
    ensures
        crate::core_domain::overrides::spans_error(spans, pattern, response) is None,
    decreases spans.len(),
{
    if spans.len() > 0 {
        let head = spans.drop_last();
        assert forall|k: int| 0 <= k < head.len() implies {
            let span = #[trigger] head[k];
            &&& span.m_uRequestOffset + span.m_uLength <= pattern.len()
            &&& span.m_uResponseOffset + span.m_uLength <= response.len()
        } by {
            assert(head[k] == spans[k]);
        }
        lemma_spans_are_inside(head, pattern, response);
        assert(spans[spans.len() - 1] == spans.last());
    }
}

} // verus!
