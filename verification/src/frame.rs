//! Wire format of one tunnelled datagram: a 2-byte little-endian flow id
//! followed by the raw payload bytes.

use vstd::prelude::*;
use vstd::arithmetic::div_mod::lemma_fundamental_div_mod;

verus! {

/// Largest wire datagram the tunnel transport is asked to carry.
pub const MAX_DATAGRAM_LEN: usize = 65535;

/// Largest payload that still fits behind the 2-byte flow-id header.
pub const MAX_PAYLOAD_LEN: usize = 65533;

/// Framing failures.  Both are non-fatal to a pump: a malformed datagram is
/// dropped, an oversized payload is never placed on the tunnel.
#[derive(Clone, Copy, Debug, PartialEq, Eq, Structural)]
pub enum FrameError {
    /// A received datagram was shorter than the 2-byte flow-id header.
    MalformedDatagram,
    /// An encoded datagram would exceed the transport's datagram size limit.
    DatagramTooLarge,
}

/// Low byte of a flow id on the wire (little-endian).
pub open spec fn id_lo(id: u16) -> u8 {
    (id % 256) as u8
}

/// High byte of a flow id on the wire (little-endian).
pub open spec fn id_hi(id: u16) -> u8 {
    (id / 256) as u8
}

/// The flow id read back from its two little-endian wire bytes.
pub open spec fn le16(lo: u8, hi: u8) -> u16 {
    (lo + 256 * hi) as u16
}

/// The wire image of one tunnelled datagram.
pub open spec fn spec_encode(id: u16, payload: Seq<u8>) -> Seq<u8> {
    seq![id_lo(id), id_hi(id)] + payload
}

/// The (id, payload) split of a wire datagram of length at least 2.
pub open spec fn spec_decode(d: Seq<u8>) -> (u16, Seq<u8>) {
    (le16(d[0], d[1]), d.skip(2))
}

/// Frames `(id, payload)` for the tunnel: 2-byte little-endian id header,
/// then the payload.  Fails (and sends nothing oversized to the transport)
/// exactly when the framed length would exceed `MAX_DATAGRAM_LEN`.
pub fn encode(id: u16, payload: &Vec<u8>) -> (r: Result<Vec<u8>, FrameError>)
    ensures
        payload@.len() <= MAX_PAYLOAD_LEN ==> (r matches Ok(d) && d@ == spec_encode(id, payload@)
            && d@.len() <= MAX_DATAGRAM_LEN),
        payload@.len() > MAX_PAYLOAD_LEN ==> r == Result::<Vec<u8>, FrameError>::Err(
            FrameError::DatagramTooLarge,
        ),
{
    if payload.len() > MAX_PAYLOAD_LEN {
        return Err(FrameError::DatagramTooLarge);
    }
    let mut d: Vec<u8> = Vec::new();
    d.push((id % 256) as u8);
    d.push((id / 256) as u8);
    let mut i: usize = 0;
    while i < payload.len()
        invariant
            i <= payload@.len(),
            d@ == spec_encode(id, payload@.take(i as int)),
        decreases payload@.len() - i,
    {
        d.push(payload[i]);
        proof {
            assert(payload@.take(i + 1) =~= payload@.take(i as int).push(payload@[i as int]));
        }
        i = i + 1;
    }
    proof {
        assert(payload@.take(payload@.len() as int) =~= payload@);
    }
    Ok(d)
}

/// Splits a wire datagram into its flow id and payload.  Fails exactly when
/// the datagram is shorter than the 2-byte header.
pub fn decode(datagram: &Vec<u8>) -> (r: Result<(u16, Vec<u8>), FrameError>)
    ensures
        datagram@.len() >= 2 ==> (r matches Ok(p) && p.0 == spec_decode(datagram@).0 && p.1@
            == spec_decode(datagram@).1),
        datagram@.len() < 2 ==> r == Result::<(u16, Vec<u8>), FrameError>::Err(
            FrameError::MalformedDatagram,
        ),
{
    if datagram.len() < 2 {
        return Err(FrameError::MalformedDatagram);
    }
    let id: u16 = datagram[0] as u16 + 256 * (datagram[1] as u16);
    let mut payload: Vec<u8> = Vec::new();
    let mut i: usize = 2;
    while i < datagram.len()
        invariant
            2 <= i <= datagram@.len(),
            payload@ == datagram@.subrange(2, i as int),
        decreases datagram@.len() - i,
    {
        payload.push(datagram[i]);
        proof {
            assert(datagram@.subrange(2, i + 1) =~= datagram@.subrange(2, i as int).push(
                datagram@[i as int],
            ));
        }
        i = i + 1;
    }
    proof {
        assert(datagram@.subrange(2, datagram@.len() as int) =~= datagram@.skip(2));
    }
    Ok((id, payload))
}

/// Round-trip law: decoding an encoded datagram restores the flow id and the
/// payload exactly, for every id and every payload.
pub proof fn lemma_round_trip(id: u16, payload: Seq<u8>)
    ensures
        spec_encode(id, payload).len() == payload.len() + 2,
        spec_decode(spec_encode(id, payload)) == (id, payload),
{
    lemma_fundamental_div_mod(id as int, 256);
    assert(spec_decode(spec_encode(id, payload)).1 =~= payload);
}

} // verus!
