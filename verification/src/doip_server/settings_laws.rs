//! What an entity says about itself, and when it does not behave as it should.

use vstd::prelude::*;

use crate::doip_server::framing::next_length;
use crate::doip_server::settings::default_settings;
use crate::doip_server::settings::DoIpSettings;

verus! {

/// An entity misbehaves on purpose exactly where it was told to: to keep its identity to itself, or
/// to answer with one of the three codes it can be made to give.
pub proof fn law_misbehaviour_is_declared(settings: DoIpSettings)
    ensures
        !settings.is_injecting() <==> !settings.m_bSuppressIdentificationResponse
            && settings.m_optByForcedRoutingActivationCode is None
            && settings.m_optByForcedDiagnosticNack is None
            && settings.m_optByForcedHeaderNack is None,
{
}

/// An entity left alone is a gateway that is ready, offers four sockets, takes messages of up to
/// 4096 bytes and misbehaves in no way.
pub proof fn law_an_entity_left_alone()
    ensures
        default_settings().m_byPowerMode == 1,
        default_settings().m_byNodeType == 0,
        default_settings().m_byMaxSockets == 4,
        default_settings().m_u32MaxDataSize == 4096,
        !default_settings().is_injecting(),
{
}

/// Messages are judged against the size the entity says it takes, and only codes that exist can be
/// forced.
pub proof fn law_limits_are_those_announced(settings: DoIpSettings)
    ensures
        settings.limits().m_u32MaxDataSize == settings.m_u32MaxDataSize,
        settings.limits().m_u32AvailableMemory == settings.m_u32MaxDataSize,
        settings.forced_header_code() is Some ==> settings.m_optByForcedHeaderNack
            == settings.forced_header_code() && settings.forced_header_code()->0 <= 4,
        settings.forced_outcome() matches Some(outcome)
            ==> settings.m_optByForcedRoutingActivationCode == Some(outcome.code()),
        settings.forced_nack() matches Some(nack) ==> settings.m_optByForcedDiagnosticNack == Some(
            nack.code(),
        ),
{
}

/// Of a message larger than the entity takes only the header is read, so that it can be refused
/// without waiting for it; one of exactly that size is read whole.
pub proof fn law_an_oversized_message_is_not_waited_for(pending: Seq<u8>, max_data_size: int)
    requires
        pending.len() >= 8,
    ensures
        ({
            let length = pending[4] * 0x100_0000 + pending[5] * 0x1_0000 + pending[6] * 0x100
                + pending[7];
            &&& length > max_data_size ==> next_length(pending, max_data_size) == Some(8int)
            &&& length <= max_data_size ==> next_length(pending, max_data_size) == Some(
                8 + length,
            )
        }),
        next_length(pending.take(7), max_data_size) is None,
{
}

} // verus!
