use vstd::prelude::*;
use std::collections::HashMap;
use crate::connection::{spec_drain, ConnModel, Connection};
use crate::protocol::registry::{Packet, Protocol};
use crate::protocol::{Bound, State};

verus! {

broadcast use vstd::std_specs::hash::group_hash_axioms;

/// The connection table: a map from peer key to connection. The hash map is
/// std's, specified by vstd; mutation goes through `&mut self`, so the
/// callers serialize access themselves.
pub type ConnTable = HashMap<u64, Connection>;

/// A connection looked up by key, if one was there.
pub type OptConn = Option<Connection>;

/// The contents of a table with no entries.
pub open spec fn empty_table() -> Map<u64, Connection> {
    Map::empty()
}

/// The table of live connections, keyed by an opaque peer identifier, and
/// the list of stream peers the stream read poller walks.
pub struct ConnectionManager {
    pub connections: ConnTable,
    pub tcp_addresses: Vec<u64>,
}

impl ConnectionManager {
    pub open spec fn spec_connections(&self) -> Map<u64, Connection> {
        self.connections@
    }

    pub fn new() -> (r: ConnectionManager)
        ensures
            r.spec_connections() == empty_table(),
            r.tcp_addresses@ == Seq::<u64>::empty(),
    {
        let r = ConnectionManager { connections: HashMap::new(), tcp_addresses: Vec::new() };
        proof {
            assert(r.tcp_addresses@ =~= Seq::<u64>::empty());
        }
        r
    }

    /// Registers a connection under a peer key; a stream peer also joins the
    /// poller's list.
    pub fn insert_connection(&mut self, peer: u64, conn: Connection) -> (prev: OptConn)
        ensures
            final(self).spec_connections() == old(self).spec_connections().insert(peer, conn),
            prev is Some <==> old(self).spec_connections().contains_key(peer),
            final(self).tcp_addresses@ == if conn@.transport is Stream {
                old(self).tcp_addresses@.push(peer)
            } else {
                old(self).tcp_addresses@
            },
    {
        let is_stream = conn.is_tcp();
        let prev = self.connections.insert(peer, conn);
        if is_stream {
            self.tcp_addresses.push(peer);
        }
        prev
    }

    /// The parse worker's step for one byte delivery: the bytes join the
    /// peer's buffer and every packet that completes comes back, in wire
    /// order, with the connection's state advanced packet by packet. A
    /// delivery for an unknown peer yields nothing.
    pub fn handle_delivery(&mut self, peer: u64, bytes: &mut Vec<u8>) -> (packets: Vec<Packet>)
        ensures
            ({
                let before = old(self).spec_connections();
                let after = final(self).spec_connections();
                if before.contains_key(peer) {
                    let start = ConnModel {
                        buf: before[peer]@.buf + old(bytes)@,
                        ..before[peer]@
                    };
                    &&& packets@.map_values(|p: Packet| p@) == spec_drain(start).0
                    &&& after.contains_key(peer) && after[peer]@ == spec_drain(start).1
                    &&& after.dom() == before.dom()
                    &&& forall|k: u64|
                        k != peer && before.contains_key(k) ==> after.contains_key(k)
                            && after[k] == before[k]
                } else {
                    packets@.len() == 0 && after == before
                }
            }),
    {
        match self.connections.remove(&peer) {
            Some(mut conn) => {
                let packets = conn.handle_read(bytes);
                self.connections.insert(peer, conn);
                proof {
                    assert(final(self).spec_connections().dom() =~= old(
                        self,
                    ).spec_connections().dom());
                }
                packets
            },
            None => {
                proof {
                    assert(old(self).spec_connections().remove(peer) =~= old(
                        self,
                    ).spec_connections());
                }
                Vec::new()
            },
        }
    }

    /// The peer connection's current protocol state and binding; the table
    /// itself is left as it was.
    pub fn peer_info(&mut self, peer: u64) -> (r: Option<(State, Protocol)>)
        ensures
            final(self).spec_connections() == old(self).spec_connections(),
            final(self).tcp_addresses@ == old(self).tcp_addresses@,
            r is Some <==> old(self).spec_connections().contains_key(peer),
            r matches Some(info) ==> info.0 == old(self).spec_connections()[peer]@.state
                && info.1 == old(self).spec_connections()[peer]@.protocol,
    {
        match self.connections.get(&peer) {
            Some(conn) => Some((conn.state(), conn.protocol_binding())),
            None => Option::None,
        }
    }

    /// Serializes a packet toward a peer with its connection's protocol
    /// binding and framing, advancing the connection's datagram counter
    /// where one applies. None when the peer is unknown or the packet is
    /// not clientbound-writable under the bound version.
    pub fn send_to_peer(&mut self, peer: u64, packet: Packet) -> (r: Option<Vec<u8>>)
        ensures
            ({
                let before = old(self).spec_connections();
                let after = final(self).spec_connections();
                if before.contains_key(peer) {
                    let w = crate::protocol::registry::spec_proto_write(
                        before[peer]@.protocol,
                        packet@,
                        Bound::Clientbound,
                    );
                    &&& after.dom() == before.dom()
                    &&& after.contains_key(peer)
                    &&& (r is Some <==> w is Some)
                    &&& (match (r, w) {
                        (Some(out), Some(framed)) => if before[peer]@.state is BedrockRakNet {
                            out@ == Connection::spec_datagram_header(
                                before[peer]@.seq_id,
                                framed.len(),
                            ) + framed
                        } else {
                            out@ == framed
                        },
                        _ => true,
                    })
                } else {
                    r is None && after == before
                }
            }),
    {
        match self.connections.remove(&peer) {
            Some(mut conn) => {
                let out = conn.send_packet(packet);
                self.connections.insert(peer, conn);
                proof {
                    assert(final(self).spec_connections().dom() =~= old(
                        self,
                    ).spec_connections().dom());
                }
                out
            },
            None => {
                proof {
                    assert(old(self).spec_connections().remove(peer) =~= old(
                        self,
                    ).spec_connections());
                }
                Option::None
            },
        }
    }

    /// Applies a handler's decision to a connection: a state transition, a
    /// protocol rebinding, or both.
    pub fn apply_update(&mut self, peer: u64, new_state: Option<State>, new_protocol: Option<
        Protocol,
    >)
        ensures
            ({
                let before = old(self).spec_connections();
                let after = final(self).spec_connections();
                if before.contains_key(peer) {
                    &&& after.dom() == before.dom()
                    &&& after.contains_key(peer)
                    &&& after[peer]@ == (ConnModel {
                        state: match new_state {
                            Some(s) => s,
                            None => before[peer]@.state,
                        },
                        protocol: match new_protocol {
                            Some(p) => p,
                            None => before[peer]@.protocol,
                        },
                        ..before[peer]@
                    })
                    &&& forall|k: u64|
                        k != peer && before.contains_key(k) ==> after.contains_key(k)
                            && after[k] == before[k]
                } else {
                    after == before
                }
            }),
    {
        match self.connections.remove(&peer) {
            Some(mut conn) => {
                match new_state {
                    Some(s) => {
                        conn.set_state(s);
                    },
                    None => {},
                }
                match new_protocol {
                    Some(p) => {
                        conn.set_protocol(p);
                    },
                    None => {},
                }
                self.connections.insert(peer, conn);
                proof {
                    assert(final(self).spec_connections().dom() =~= old(
                        self,
                    ).spec_connections().dom());
                }
            },
            None => {
                proof {
                    assert(old(self).spec_connections().remove(peer) =~= old(
                        self,
                    ).spec_connections());
                }
            },
        }
    }
}

} // verus!
