//! Who listens on which identifier of the link.

use std::collections::BTreeMap;

use vstd::prelude::*;

use crate::bridge::capacity::paced_for_link;
use crate::bridge::capacity::LinkCapacity;
use crate::bridge::capacity::PacedForLink;
use crate::core_domain::address::CanAddress;
use crate::core_domain::timing::EcuTiming;
use crate::isotp::params::IsoTpParameters;
use crate::isotp::rx::received;
use crate::isotp::rx::IsoTpReceiver;
use crate::isotp::rx::ReceiveOutcome;
use crate::isotp::rx::ReceiverView;

verus! {

/// What the bridge needs to know of a running ECU.
#[derive(Debug, Clone, Copy, PartialEq, Eq)]
pub struct LinkedEcu {
    /// The CAN identifier the ECU runs under, or `None` for one reachable only over DoIP.
    pub m_optU32RequestCanId: Option<u32>,
    /// Its CAN address, when it has one.
    pub m_optCanAddress: Option<CanAddress>,
    /// Its timing, which says how fast it is willing to be sent a multi-frame request.
    pub m_timing: EcuTiming,
}

/// One ECU's view of the link: what it is reassembling, and on which identifier it answers.
struct Endpoint {
    m_u32RequestCanId: u32,
    m_u32ResponseCanId: u32,
    m_receiver: IsoTpReceiver,
}

/// An endpoint as a mathematical value.
pub ghost struct EndpointView {
    pub request: u32,
    pub response: u32,
    pub receiver: ReceiverView,
}

impl Endpoint {
    spec fn view(&self) -> EndpointView {
        EndpointView {
            request: self.m_u32RequestCanId,
            response: self.m_u32ResponseCanId,
            receiver: self.m_receiver@,
        }
    }
}

/// The endpoints of a link, by the identifier frames arrive on.
pub struct EndpointTable {
    m_mapEndpoints: BTreeMap<u32, Endpoint>,
}

impl View for EndpointTable {
    type V = Map<u32, EndpointView>;

    closed spec fn view(&self) -> Map<u32, EndpointView> {
        self.m_mapEndpoints@.map_values(|endpoint: Endpoint| endpoint@)
    }
}

/// A receiver with nothing in progress that takes messages of any classic length.
pub open spec fn fresh_receiver(params: IsoTpParameters, functional: bool) -> ReceiverView {
    ReceiverView { params, max_pdu: 4095, functional, pending: None, block_left: None }
}

/// The endpoint of an ECU on its own identifier.
pub open spec fn physical_endpoint(
    id: u32,
    address: CanAddress,
    params: IsoTpParameters,
) -> EndpointView {
    EndpointView {
        request: id,
        response: address.m_u32ResponseCanId,
        receiver: fresh_receiver(params, false),
    }
}

/// The endpoint of a broadcast identifier, which accepts single frames only.
pub open spec fn functional_endpoint(id: u32, params: IsoTpParameters) -> EndpointView {
    EndpointView { request: id, response: 0, receiver: fresh_receiver(params, true) }
}

/// A table with one more ECU. An ECU that is not on this wire changes nothing. A broadcast
/// identifier that something already listens on is left as it is.
pub open spec fn with_ecu(
    table: Map<u32, EndpointView>,
    ecu: LinkedEcu,
    params: IsoTpParameters,
    capacity: Option<LinkCapacity>,
) -> Map<u32, EndpointView> {
    match (ecu.m_optU32RequestCanId, ecu.m_optCanAddress) {
        (Some(id), Some(address)) => {
            let own = table.insert(
                id,
                physical_endpoint(id, address, paced_for_link(params, capacity, ecu.m_timing)),
            );
            match address.m_optU32FunctionalCanId {
                Some(broadcast) if !own.contains_key(broadcast) => own.insert(
                    broadcast,
                    functional_endpoint(broadcast, params),
                ),
                _ => own,
            }
        },
        _ => table,
    }
}

/// The endpoints of a list of ECUs.
pub open spec fn endpoints_of(
    ecus: Seq<LinkedEcu>,
    params: IsoTpParameters,
    capacity: Option<LinkCapacity>,
) -> Map<u32, EndpointView>
    decreases ecus.len(),
{
    if ecus.len() == 0 {
        Map::empty()
    } else {
        with_ecu(endpoints_of(ecus.drop_last(), params, capacity), ecus.last(), params, capacity)
    }
}

impl EndpointTable {
    /// A table nothing listens in.
    pub fn New() -> (table: Self)
        ensures
            table@ == Map::<u32, EndpointView>::empty(),
    {
        let table = EndpointTable { m_mapEndpoints: BTreeMap::new() };
        assert(table@ =~= Map::<u32, EndpointView>::empty());
        table
    }

    /// Whether something listens on an identifier.
    pub fn Listens(&self, u32CanId: u32) -> (bListens: bool)
        ensures
            bListens == self@.contains_key(u32CanId),
    {
        broadcast use vstd::std_specs::btree::group_btree_axioms;

        assert(vstd::laws_cmp::obeys_cmp::<u32>());
        self.m_mapEndpoints.contains_key(&u32CanId)
    }

    /// How many identifiers something listens on.
    pub fn Count(&self) -> (uCount: usize)
        ensures
            uCount == self@.len(),
    {
        broadcast use vstd::std_specs::btree::group_btree_axioms;

        assert(self@.dom() =~= self.m_mapEndpoints@.dom());
        self.m_mapEndpoints.len()
    }

    fn Put(&mut self, u32CanId: u32, endpoint: Endpoint)
        ensures
            final(self)@ == old(self)@.insert(u32CanId, endpoint@),
    {
        broadcast use vstd::std_specs::btree::group_btree_axioms;

        assert(vstd::laws_cmp::obeys_cmp::<u32>());
        self.m_mapEndpoints.insert(u32CanId, endpoint);
        assert(self@ =~= old(self)@.insert(u32CanId, endpoint@));
    }

    fn Take(&mut self, u32CanId: u32) -> (optEndpoint: Option<Endpoint>)
        ensures
            final(self)@ == old(self)@.remove(u32CanId),
            match optEndpoint {
                Some(endpoint) => old(self)@.contains_key(u32CanId) && endpoint@
                    == old(self)@[u32CanId],
                None => !old(self)@.contains_key(u32CanId),
            },
    {
        broadcast use vstd::std_specs::btree::group_btree_axioms;

        assert(vstd::laws_cmp::obeys_cmp::<u32>());
        let optEndpoint = self.m_mapEndpoints.remove(&u32CanId);
        assert(self@ =~= old(self)@.remove(u32CanId));
        optEndpoint
    }

    /// Build the endpoints of a list of ECUs.
    pub fn Build(
        vecEcus: &[LinkedEcu],
        params: IsoTpParameters,
        optCapacity: Option<LinkCapacity>,
    ) -> (table: Self)
        ensures
            table@ == endpoints_of(vecEcus@, params, optCapacity),
    {
        let mut table = EndpointTable::New();
        let mut uAt: usize = 0;
        assert(vecEcus@.take(0) =~= seq![]);
        while uAt < vecEcus.len()
            invariant
                uAt <= vecEcus@.len(),
                table@ == endpoints_of(vecEcus@.take(uAt as int), params, optCapacity),
            decreases vecEcus@.len() - uAt,
        {
            assert(vecEcus@.take(uAt + 1).drop_last() =~= vecEcus@.take(uAt as int));
            table.Add(vecEcus[uAt], params, optCapacity);
            uAt += 1;
        }
        assert(vecEcus@.take(uAt as int) =~= vecEcus@);
        table
    }

    /// Add one ECU's endpoints.
    fn Add(&mut self, ecu: LinkedEcu, params: IsoTpParameters, optCapacity: Option<LinkCapacity>)
        ensures
            final(self)@ == with_ecu(old(self)@, ecu, params, optCapacity),
    {
        let u32RequestCanId: u32 = match ecu.m_optU32RequestCanId {
            Some(u32RequestCanId) => u32RequestCanId,
            None => {
                return;
            },
        };
        let address = match ecu.m_optCanAddress {
            Some(address) => address,
            None => {
                return;
            },
        };
        // Flow control is per ECU, not per link: each one declares how fast it is willing to be
        // sent a multi-frame request.
        let paramsForEcu = PacedForLink(params, optCapacity, ecu.m_timing);
        self.Put(
            u32RequestCanId,
            Endpoint {
                m_u32RequestCanId: u32RequestCanId,
                m_u32ResponseCanId: address.m_u32ResponseCanId,
                m_receiver: IsoTpReceiver::NewPhysical(paramsForEcu),
            },
        );
        if let Some(u32FunctionalCanId) = address.m_optU32FunctionalCanId {
            if !self.Listens(u32FunctionalCanId) {
                self.Put(
                    u32FunctionalCanId,
                    Endpoint {
                        m_u32RequestCanId: u32FunctionalCanId,
                        m_u32ResponseCanId: 0,
                        m_receiver: IsoTpReceiver::NewFunctional(params),
                    },
                );
            }
        }
    }

    /// Give a frame's bytes to whoever listens on its identifier, with the identifiers that
    /// endpoint is asked and answers on. `None` when nothing listens there.
    pub fn Feed(&mut self, u32CanId: u32, vecData: &[u8]) -> (optFed: Option<
        (u32, u32, ReceiveOutcome),
    >)
        ensures
            match optFed {
                None => !old(self)@.contains_key(u32CanId) && final(self)@ == old(self)@,
                Some((request, response, outcome)) => {
                    let endpoint = old(self)@[u32CanId];
                    let (receiver, seen) = received(endpoint.receiver, vecData@);
                    &&& old(self)@.contains_key(u32CanId)
                    &&& request == endpoint.request
                    &&& response == endpoint.response
                    &&& outcome@ == seen
                    &&& final(self)@ == old(self)@.insert(
                        u32CanId,
                        EndpointView { receiver, ..endpoint },
                    )
                },
            },
    {
        let mut endpoint = match self.Take(u32CanId) {
            Some(endpoint) => endpoint,
            None => {
                assert(self@ =~= old(self)@);
                return None;
            },
        };
        let outcome = endpoint.m_receiver.OnFrame(vecData);
        let u32RequestCanId: u32 = endpoint.m_u32RequestCanId;
        let u32ResponseCanId: u32 = endpoint.m_u32ResponseCanId;
        self.Put(u32CanId, endpoint);
        assert(self@ =~= old(self)@.insert(u32CanId, self@[u32CanId]));
        Some((u32RequestCanId, u32ResponseCanId, outcome))
    }
}

/// A broadcast is never flow controlled: whatever arrives on one, no flow control is owed.
pub proof fn law_broadcast_owes_no_flow_control(receiver: ReceiverView, data: Seq<u8>)
    requires
        receiver.functional,
        receiver.pending is None,
    ensures
        received(receiver, data).1 is Completed || received(receiver, data).1 is Nothing,
        received(receiver, data).0.functional,
        received(receiver, data).0.pending is None,
{
}

/// Every ECU of a list that is on this wire is listened for, on the identifier it runs under.
pub proof fn law_every_linked_ecu_is_reachable(
    ecus: Seq<LinkedEcu>,
    params: IsoTpParameters,
    capacity: Option<LinkCapacity>,
    i: int,
)
    requires
        0 <= i < ecus.len(),
        ecus[i].m_optU32RequestCanId is Some,
        ecus[i].m_optCanAddress is Some,
    ensures
        endpoints_of(ecus, params, capacity).contains_key(ecus[i].m_optU32RequestCanId->0),
    decreases ecus.len(),
{
    if i < ecus.len() - 1 {
        law_every_linked_ecu_is_reachable(ecus.drop_last(), params, capacity, i);
    }
}

} // verus!
