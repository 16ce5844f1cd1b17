//! The connection table: the live TCP data sockets, by socket number.

use std::collections::BTreeMap;

use vstd::prelude::*;

use crate::doip::connection::Connection;
use crate::doip::connection::ConnectionView;

verus! {

/// The live connections, keyed by whatever the transport calls a socket.
pub struct ConnectionTable {
    m_mapConnections: BTreeMap<u64, Connection>,
}

impl View for ConnectionTable {
    type V = Map<u64, ConnectionView>;

    closed spec fn view(&self) -> Map<u64, ConnectionView> {
        self.m_mapConnections@.map_values(|connection: Connection| connection@)
    }
}

/// A list holds exactly the sockets of a table, in ascending order.
pub open spec fn lists_sockets(sockets: Seq<u64>, table: Map<u64, ConnectionView>) -> bool {
    &&& forall|i: int, j: int| 0 <= i < j < sockets.len() ==> sockets[i] < sockets[j]
    &&& forall|s: u64| sockets.contains(s) <==> #[trigger] table.contains_key(s)
}

impl ConnectionTable {
    /// No connections.
    pub fn New() -> (table: Self)
        ensures
            table@ == Map::<u64, ConnectionView>::empty(),
    {
        let table = ConnectionTable { m_mapConnections: BTreeMap::new() };
        assert(table@ =~= Map::<u64, ConnectionView>::empty());
        table
    }

    /// How many connections there are.
    pub fn Count(&self) -> (uCount: usize)
        ensures
            uCount == self@.len(),
            self@.dom().finite(),
    {
        broadcast use vstd::std_specs::btree::group_btree_axioms;

        assert(self@.dom() =~= self.m_mapConnections@.dom());
        self.m_mapConnections.len()
    }

    /// The connection on a socket.
    pub fn Get(&self, u64Socket: u64) -> (optConnection: Option<Connection>)
        ensures
            match optConnection {
                Some(connection) => self@.contains_key(u64Socket) && connection@
                    == self@[u64Socket],
                None => !self@.contains_key(u64Socket),
            },
    {
        broadcast use vstd::std_specs::btree::group_btree_axioms;

        assert(vstd::laws_cmp::obeys_cmp::<u64>());
        match self.m_mapConnections.get(&u64Socket) {
            Some(connection) => Some(*connection),
            None => None,
        }
    }

    /// Put a connection on a socket.
    pub fn Put(&mut self, u64Socket: u64, connection: Connection)
        ensures
            final(self)@ == old(self)@.insert(u64Socket, connection@),
    {
        broadcast use vstd::std_specs::btree::group_btree_axioms;

        assert(vstd::laws_cmp::obeys_cmp::<u64>());
        self.m_mapConnections.insert(u64Socket, connection);
        assert(self@ =~= old(self)@.insert(u64Socket, connection@));
    }

    /// Forget a socket.
    pub fn Remove(&mut self, u64Socket: u64)
        ensures
            final(self)@ == old(self)@.remove(u64Socket),
    {
        broadcast use vstd::std_specs::btree::group_btree_axioms;

        assert(vstd::laws_cmp::obeys_cmp::<u64>());
        self.m_mapConnections.remove(&u64Socket);
        assert(self@ =~= old(self)@.remove(u64Socket));
    }

    /// The sockets, in ascending order.
    pub fn Sockets(&self) -> (vecSockets: Vec<u64>)
        ensures
            lists_sockets(vecSockets@, self@),
    {
        broadcast use vstd::std_specs::btree::group_btree_axioms;

        let itMap = self.m_mapConnections.iter();
        let ghost all = vstd::std_specs::iter::IteratorSpec::remaining(&itMap);
        let ghost keys = all.map_values(|entry: (&u64, &Connection)| *entry.0);
        assert(vstd::laws_cmp::obeys_cmp::<u64>());
        assert(vstd::std_specs::btree::key_obeys_cmp_spec::<u64>());
        assert(vstd::std_specs::btree::increasing_seq(keys));
        let mut vecSockets: Vec<u64> = Vec::new();
        for entry in itEntries: itMap
            invariant
                itEntries.seq() == all,
                keys == all.map_values(|entry: (&u64, &Connection)| *entry.0),
                vecSockets@ == keys.take(itEntries.index()),
        {
            vecSockets.push(*entry.0);
            assert(keys.take(itEntries.index() + 1) =~= keys.take(itEntries.index()).push(
                *entry.0,
            ));
        }
        assert(vecSockets@ =~= keys);
        proof {
            assert forall|i: int, j: int| 0 <= i < j < keys.len() implies keys[i] < keys[j] by {
                assert(vstd::std_specs::cmp::OrdSpec::cmp_spec(&keys[i], &keys[j]) is Less);
            }
            assert forall|s: u64| keys.contains(s) <==> #[trigger] self@.contains_key(s) by {
                if keys.contains(s) {
                    let i = choose|i: int| 0 <= i < keys.len() && keys[i] == s;
                    assert(self.m_mapConnections@.contains_key(*all[i].0));
                }
                if self@.contains_key(s) {
                    assert(all.contains((&s, &self.m_mapConnections@[s])));
                    let i = choose|i: int|
                        0 <= i < all.len() && all[i] == (&s, &self.m_mapConnections@[s]);
                    assert(keys[i] == s);
                }
            }
        }
        vecSockets
    }
}

} // verus!
