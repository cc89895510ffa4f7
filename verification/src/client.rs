//! The client-side socket registry and the per-datagram decision of the
//! client's tunnel-reading pump.
//!
//! The client keeps one lazily-created local UDP socket per flow id.  The
//! sockets themselves are owned by the unverified shell; the registry maps
//! each id to a plain handle the shell issued for the socket it created.

use vstd::prelude::*;

use crate::assoc::{assoc_map, lemma_assoc_map_dom, lemma_assoc_map_last, lemma_assoc_map_push};
use crate::frame::{decode, spec_decode};

verus! {

/// A plain stand-in for one local UDP socket: the shell binds the socket,
/// issues a handle for it, and later turns the handle back into the socket.
#[derive(Clone, Copy, Debug, PartialEq, Eq, Hash, Structural)]
pub struct SocketHandle {
    /// The shell's number for the socket.
    pub index: u64,
}

/// The client's flow registry for one tunnel connection: which local socket
/// each flow id sends on.
pub struct MapsClient {
    id_to_socket: Vec<(u16, SocketHandle)>,
}

impl MapsClient {
    /// The mapping from flow id to the handle of the flow's local socket.
    pub closed spec fn socket_map(&self) -> Map<u16, SocketHandle> {
        assoc_map(self.id_to_socket@)
    }

    /// A fresh registry for one tunnel connection: no flow has a socket yet.
    pub fn new() -> (c: MapsClient)
        ensures
            c.socket_map() == Map::<u16, SocketHandle>::empty(),
    {
        MapsClient { id_to_socket: Vec::new() }
    }

    /// Registers `socket` as flow `id`'s local socket.  The pump calls this
    /// at most once per id, on the first tunnelled datagram bearing the id.
    pub fn set_socket(&mut self, id: u16, socket: SocketHandle)
        ensures
            final(self).socket_map() == old(self).socket_map().insert(id, socket),
    {
        self.id_to_socket.push((id, socket));
        proof {
            lemma_assoc_map_push(old(self).id_to_socket@, id, socket);
        }
    }

    /// The handle of flow `id`'s local socket, if one was registered.
    pub fn get_socket(&self, id: u16) -> (r: Option<SocketHandle>)
        ensures
            match r {
                Some(h) => self.socket_map().contains_key(id) && h == self.socket_map()[id],
                None => !self.socket_map().contains_key(id),
            },
    {
        let mut i: usize = self.id_to_socket.len();
        while i > 0
            invariant
                i <= self.id_to_socket@.len(),
                forall|j: int|
                    i <= j < self.id_to_socket@.len() ==> (#[trigger] self.id_to_socket@[j]).0
                        != id,
            decreases i,
        {
            i = i - 1;
            if self.id_to_socket[i].0 == id {
                proof {
                    lemma_assoc_map_last(self.id_to_socket@, i as int);
                }
                return Some(self.id_to_socket[i].1);
            }
        }
        proof {
            lemma_assoc_map_dom(self.id_to_socket@, id);
        }
        None
    }
}

/// What the client's tunnel-reading pump does with one received tunnel
/// datagram.
pub enum ClientVerdict {
    /// The datagram was shorter than the 2-byte header: dropped, the pump
    /// continues.
    Malformed,
    /// The flow already has a local socket: send `payload` on it.
    Forward { id: u16, socket: SocketHandle, payload: Vec<u8> },
    /// The first datagram of a flow unknown so far: bind a fresh local
    /// socket, register it under `id`, start the flow's worker, and send
    /// `payload` on the new socket.
    NewFlow { id: u16, payload: Vec<u8> },
}

/// One step of the client's tunnel-reading pump: the received tunnel
/// datagram is split into flow id and payload and routed to the flow's
/// socket.  An id already holding a socket is always routed to that socket
/// and never asks for a second one, so lazy flow creation is idempotent; an
/// unknown id asks for a new flow rather than being dropped.
pub fn client_route(maps: &MapsClient, datagram: &Vec<u8>) -> (v: ClientVerdict)
    ensures
        datagram@.len() < 2 ==> v == ClientVerdict::Malformed,
        datagram@.len() >= 2 ==> {
            let id = spec_decode(datagram@).0;
            if maps.socket_map().contains_key(id) {
                v matches ClientVerdict::Forward { id: fid, socket, payload } && fid == id
                    && socket == maps.socket_map()[id] && payload@ == spec_decode(datagram@).1
            } else {
                v matches ClientVerdict::NewFlow { id: nid, payload } && nid == id && payload@
                    == spec_decode(datagram@).1
            }
        },
{
    match decode(datagram) {
        Err(_) => ClientVerdict::Malformed,
        Ok((id, payload)) => match maps.get_socket(id) {
            Some(socket) => ClientVerdict::Forward { id, socket, payload },
            None => ClientVerdict::NewFlow { id, payload },
        },
    }
}

/// Idempotence of lazy flow creation: once a socket is registered for an id,
/// that id holds that socket, every later lookup finds it (so the pump never
/// creates a second socket for the id), and the sockets of all other flows
/// are exactly as before.
pub proof fn lemma_set_socket_idempotent(before: Map<u16, SocketHandle>, id: u16, h: SocketHandle)
    ensures
        before.insert(id, h).contains_key(id),
        before.insert(id, h)[id] == h,
        forall|o: u16|
            o != id ==> (#[trigger] before.insert(id, h).contains_key(o) <==> before.contains_key(
                o,
            )),
        forall|o: u16|
            o != id && before.contains_key(o) ==> #[trigger] before.insert(id, h)[o] == before[o],
{
}

} // verus!
