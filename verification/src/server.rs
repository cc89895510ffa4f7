//! The server-side flow registry and the per-datagram decisions of the
//! server pump loops.
//!
//! The registry keeps two mappings, address-to-id and id-to-address, for the
//! lifetime of one tunnel connection.  Ids are handed out in strict
//! first-seen order starting at 0 and are never reused within a connection;
//! an id is the allocation counter truncated to 16 bits, so ids stay
//! pairwise distinct while at most 65536 flows have been seen (more
//! concurrently distinguishable flows are out of scope).

use vstd::prelude::*;

use crate::addr::Addr;
use crate::assoc::{assoc_map, lemma_assoc_map_dom, lemma_assoc_map_last, lemma_assoc_map_push};
use crate::frame::{decode, encode, spec_decode, spec_encode, FrameError, MAX_PAYLOAD_LEN};
use crate::id_gen::IncrementalIdGeneratorAtomic;

verus! {

/// How many flow ids the 16-bit wire header can distinguish.
pub const FLOW_ID_SPACE: usize = 65536;

/// The id the registry hands to address `a`: the id already held, or else
/// the allocation counter truncated to 16 bits.
pub open spec fn step_id(addrs: Map<Addr, u16>, count: int, a: Addr) -> u16 {
    if addrs.contains_key(a) {
        addrs[a]
    } else {
        count as u16
    }
}

/// The address-to-id mapping after address `a` has been seen.
pub open spec fn step_addr_map(addrs: Map<Addr, u16>, count: int, a: Addr) -> Map<Addr, u16> {
    if addrs.contains_key(a) {
        addrs
    } else {
        addrs.insert(a, count as u16)
    }
}

/// The id-to-address mapping after address `a` has been seen.
pub open spec fn step_id_map(
    addrs: Map<Addr, u16>,
    ids: Map<u16, Addr>,
    count: int,
    a: Addr,
) -> Map<u16, Addr> {
    if addrs.contains_key(a) {
        ids
    } else {
        ids.insert(count as u16, a)
    }
}

/// The allocation count after address `a` has been seen.
pub open spec fn step_count(addrs: Map<Addr, u16>, count: int, a: Addr) -> int {
    if addrs.contains_key(a) {
        count
    } else {
        count + 1
    }
}

/// The server's flow registry for one tunnel connection: the mutual-inverse
/// pair of mappings between peer addresses and flow ids, and the id
/// allocator they share.
pub struct MapsServer {
    addr_to_id: Vec<(Addr, u16)>,
    id_to_addr: Vec<(u16, Addr)>,
    id_gen: IncrementalIdGeneratorAtomic,
}

impl MapsServer {
    /// The address-to-id mapping: which flow id each peer address holds.
    pub closed spec fn addr_map(&self) -> Map<Addr, u16> {
        assoc_map(self.addr_to_id@)
    }

    /// The id-to-address mapping: which peer address each flow id names.
    pub closed spec fn id_map(&self) -> Map<u16, Addr> {
        assoc_map(self.id_to_addr@)
    }

    /// How many flows have been registered since the connection began; also
    /// the next allocation counter value.
    pub closed spec fn flow_count(&self) -> int {
        self.id_gen.counter() as int
    }

    /// Internal consistency: the pair registered i-th holds id `i as u16`,
    /// no address is registered twice, and the two vectors and the counter
    /// advance in lock step.
    pub closed spec fn wf(&self) -> bool {
        &&& self.id_gen.counter() == self.addr_to_id@.len()
        &&& self.id_to_addr@.len() == self.addr_to_id@.len()
        &&& forall|i: int|
            0 <= i < self.addr_to_id@.len() ==> (#[trigger] self.addr_to_id@[i]).1 == i as u16
        &&& forall|i: int|
            0 <= i < self.id_to_addr@.len() ==> #[trigger] self.id_to_addr@[i] == (
                i as u16,
                self.addr_to_id@[i].0,
            )
        &&& forall|i: int, j: int|
            0 <= i < j < self.addr_to_id@.len() ==> (#[trigger] self.addr_to_id@[i]).0 != (
                #[trigger] self.addr_to_id@[j]).0
    }

    /// A fresh registry for one tunnel connection: both mappings empty, the
    /// allocation counter at zero.  All prior assignments are gone.
    pub fn new() -> (s: MapsServer)
        ensures
            s.wf(),
            s.addr_map() == Map::<Addr, u16>::empty(),
            s.id_map() == Map::<u16, Addr>::empty(),
            s.flow_count() == 0,
    {
        MapsServer {
            addr_to_id: Vec::new(),
            id_to_addr: Vec::new(),
            id_gen: IncrementalIdGeneratorAtomic::new(),
        }
    }

    /// The id held by `addr`, if the address is registered.
    fn lookup_addr(&self, addr: &Addr) -> (r: Option<u16>)
        ensures
            match r {
                Some(id) => self.addr_map().contains_key(*addr) && id == self.addr_map()[*addr],
                None => !self.addr_map().contains_key(*addr),
            },
    {
        let mut i: usize = self.addr_to_id.len();
        while i > 0
            invariant
                i <= self.addr_to_id@.len(),
                forall|j: int|
                    i <= j < self.addr_to_id@.len() ==> (#[trigger] self.addr_to_id@[j]).0
                        != *addr,
            decreases i,
        {
            i = i - 1;
            if self.addr_to_id[i].0 == *addr {
                proof {
                    lemma_assoc_map_last(self.addr_to_id@, i as int);
                }
                return Some(self.addr_to_id[i].1);
            }
        }
        proof {
            lemma_assoc_map_dom(self.addr_to_id@, *addr);
        }
        None
    }

    /// Returns the flow id held by `addr`, allocating the next id in
    /// first-seen order if the address is new.  A repeated address always
    /// receives the id it was first assigned.
    pub fn get_id(&mut self, addr: &Addr) -> (id: u16)
        requires
            old(self).wf(),
        ensures
            final(self).wf(),
            id == step_id(old(self).addr_map(), old(self).flow_count(), *addr),
            final(self).addr_map() == step_addr_map(
                old(self).addr_map(),
                old(self).flow_count(),
                *addr,
            ),
            final(self).id_map() == step_id_map(
                old(self).addr_map(),
                old(self).id_map(),
                old(self).flow_count(),
                *addr,
            ),
            final(self).flow_count() == step_count(
                old(self).addr_map(),
                old(self).flow_count(),
                *addr,
            ),
    {
        match self.lookup_addr(addr) {
            Some(id) => id,
            None => {
                proof {
                    lemma_assoc_map_dom(old(self).addr_to_id@, *addr);
                }
                let id_big = self.id_gen.next();
                let id = #[verifier::truncate] (id_big as u16);
                self.addr_to_id.push((*addr, id));
                self.id_to_addr.push((id, *addr));
                proof {
                    assert(self.addr_to_id.len() == old(self).addr_to_id@.len() + 1);
                    lemma_assoc_map_push(old(self).addr_to_id@, *addr, id);
                    lemma_assoc_map_push(old(self).id_to_addr@, id, *addr);
                }
                id
            },
        }
    }

    /// The peer address registered under flow id `id`, if any.
    pub fn get_addr(&self, id: u16) -> (r: Option<Addr>)
        ensures
            match r {
                Some(a) => self.id_map().contains_key(id) && a == self.id_map()[id],
                None => !self.id_map().contains_key(id),
            },
    {
        let mut i: usize = self.id_to_addr.len();
        while i > 0
            invariant
                i <= self.id_to_addr@.len(),
                forall|j: int|
                    i <= j < self.id_to_addr@.len() ==> (#[trigger] self.id_to_addr@[j]).0 != id,
            decreases i,
        {
            i = i - 1;
            if self.id_to_addr[i].0 == id {
                proof {
                    lemma_assoc_map_last(self.id_to_addr@, i as int);
                }
                return Some(self.id_to_addr[i].1);
            }
        }
        proof {
            lemma_assoc_map_dom(self.id_to_addr@, id);
        }
        None
    }
}

/// The two registry mappings are mutual inverses over their current entries:
/// while at most 65536 flows have been seen, following one mapping and then
/// the other leads back to where one started.
pub proof fn lemma_maps_mutual_inverse(m: &MapsServer)
    requires
        m.wf(),
        m.flow_count() <= FLOW_ID_SPACE,
    ensures
        forall|a: Addr|
            #[trigger] m.addr_map().contains_key(a) ==> m.id_map().contains_key(m.addr_map()[a])
                && m.id_map()[m.addr_map()[a]] == a,
        forall|id: u16|
            #[trigger] m.id_map().contains_key(id) ==> m.addr_map().contains_key(m.id_map()[id])
                && m.addr_map()[m.id_map()[id]] == id,
{
    let av = m.addr_to_id@;
    let iv = m.id_to_addr@;
    assert forall|a: Addr| #[trigger] m.addr_map().contains_key(a) implies m.id_map().contains_key(
        m.addr_map()[a],
    ) && m.id_map()[m.addr_map()[a]] == a by {
        lemma_assoc_map_dom(av, a);
        let i = choose|i: int| 0 <= i < av.len() && av[i].0 == a;
        lemma_assoc_map_last(av, i);
        assert(m.addr_map()[a] == i as u16);
        assert forall|j: int| i < j < iv.len() implies (#[trigger] iv[j]).0 != iv[i].0 by {
            assert(iv[j].0 == j as u16);
            assert(i as u16 != j as u16);
        }
        lemma_assoc_map_last(iv, i);
    }
    assert forall|id: u16| #[trigger] m.id_map().contains_key(id) implies m.addr_map().contains_key(
        m.id_map()[id],
    ) && m.addr_map()[m.id_map()[id]] == id by {
        lemma_assoc_map_dom(iv, id);
        let i = choose|i: int| 0 <= i < iv.len() && iv[i].0 == id;
        assert forall|j: int| i < j < iv.len() implies (#[trigger] iv[j]).0 != iv[i].0 by {
            assert(iv[j].0 == j as u16);
            assert(i as u16 != j as u16);
        }
        lemma_assoc_map_last(iv, i);
        assert(m.id_map()[id] == av[i].0);
        lemma_assoc_map_last(av, i);
    }
}

/// Law: while at most 65536 flows have been seen, distinct registered
/// addresses hold distinct flow ids.
pub proof fn lemma_registry_ids_distinct(m: &MapsServer, a1: Addr, a2: Addr)
    requires
        m.wf(),
        m.flow_count() <= FLOW_ID_SPACE,
        m.addr_map().contains_key(a1),
        m.addr_map().contains_key(a2),
        a1 != a2,
    ensures
        m.addr_map()[a1] != m.addr_map()[a2],
{
    lemma_maps_mutual_inverse(m);
}

/// What the server's tunnel-to-UDP pump does with one received tunnel
/// datagram.  Neither dropped case terminates the pump or touches any flow.
pub enum TunnelVerdict {
    /// The datagram was shorter than the 2-byte header: dropped.
    Malformed,
    /// The datagram bore a flow id the registry does not know (for example a
    /// stray datagram arriving after a reconnect): dropped, nothing is sent.
    UnknownFlow { id: u16 },
    /// Send `payload` over the local UDP socket to `addr`, the peer
    /// registered under `id`.
    Deliver { id: u16, addr: Addr, payload: Vec<u8> },
}

/// One step of the server's UDP-to-tunnel pump: the payload received from
/// `src` is tagged with the flow id `src` holds (allocating one if the
/// address is new) and framed for the tunnel.  Fails, sending nothing and
/// changing nothing, exactly when the framed datagram would exceed the
/// transport's size limit.
pub fn server_handle_udp(maps: &mut MapsServer, src: &Addr, payload: &Vec<u8>) -> (r: Result<
    Vec<u8>,
    FrameError,
>)
    requires
        old(maps).wf(),
    ensures
        final(maps).wf(),
        payload@.len() <= MAX_PAYLOAD_LEN ==> {
            &&& r matches Ok(d) && d@ == spec_encode(
                step_id(old(maps).addr_map(), old(maps).flow_count(), *src),
                payload@,
            )
            &&& final(maps).addr_map() == step_addr_map(
                old(maps).addr_map(),
                old(maps).flow_count(),
                *src,
            )
            &&& final(maps).id_map() == step_id_map(
                old(maps).addr_map(),
                old(maps).id_map(),
                old(maps).flow_count(),
                *src,
            )
            &&& final(maps).flow_count() == step_count(
                old(maps).addr_map(),
                old(maps).flow_count(),
                *src,
            )
        },
        payload@.len() > MAX_PAYLOAD_LEN ==> r == Result::<Vec<u8>, FrameError>::Err(
            FrameError::DatagramTooLarge,
        ) && *final(maps) == *old(maps),
{
    if payload.len() > MAX_PAYLOAD_LEN {
        return Err(FrameError::DatagramTooLarge);
    }
    let id = maps.get_id(src);
    encode(id, payload)
}

/// One step of the server's tunnel-to-UDP pump: the received tunnel datagram
/// is split into flow id and payload and resolved against the registry.  A
/// short datagram is judged malformed and an unknown id produces no
/// delivery; both are dropped verdicts, never errors, so the pump always
/// continues.
pub fn server_handle_tunnel(maps: &MapsServer, datagram: &Vec<u8>) -> (v: TunnelVerdict)
    ensures
        datagram@.len() < 2 ==> v == TunnelVerdict::Malformed,
        datagram@.len() >= 2 ==> {
            let id = spec_decode(datagram@).0;
            if maps.id_map().contains_key(id) {
                v matches TunnelVerdict::Deliver { id: did, addr, payload } && did == id && addr
                    == maps.id_map()[id] && payload@ == spec_decode(datagram@).1
            } else {
                v == (TunnelVerdict::UnknownFlow { id })
            }
        },
{
    match decode(datagram) {
        Err(_) => TunnelVerdict::Malformed,
        Ok((id, payload)) => match maps.get_addr(id) {
            None => TunnelVerdict::UnknownFlow { id },
            Some(addr) => TunnelVerdict::Deliver { id, addr, payload },
        },
    }
}

} // verus!
