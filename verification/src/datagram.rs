//! Datagram framing on the unreliable path.
//!
//! A datagram carries the stream identifier it is addressed to in its
//! first 8 bytes — big-endian, unlike the little-endian control-stream
//! frames, which is deliberate and kept for wire compatibility — and the
//! payload in the rest.  Datagrams shorter than 8 bytes are dropped.

use vstd::prelude::*;
use vstd::bytes::{
    lemma_auto_spec_u64_to_from_le_bytes, spec_u64_from_le_bytes, spec_u64_to_le_bytes,
    u64_from_le_bytes, u64_to_le_bytes,
};
use vstd::slice::{slice_subrange, slice_to_vec};

verus! {

/// A 64-bit value as 8 big-endian bytes: the little-endian bytes
/// reversed.
pub open spec fn spec_u64_to_be_bytes(x: u64) -> Seq<u8> {
    spec_u64_to_le_bytes(x).reverse()
}

/// The 64-bit value 8 big-endian bytes stand for.
pub open spec fn spec_u64_from_be_bytes(s: Seq<u8>) -> u64
    recommends
        s.len() == 8,
{
    spec_u64_from_le_bytes(s.reverse())
}

/// Big-endian byte conversion round-trips, in both directions.
pub proof fn lemma_u64_be_bytes_round_trip(x: u64, s: Seq<u8>)
    requires
        s.len() == 8,
    ensures
        spec_u64_to_be_bytes(x).len() == 8,
        spec_u64_from_be_bytes(spec_u64_to_be_bytes(x)) == x,
        spec_u64_to_be_bytes(spec_u64_from_be_bytes(s)) == s,
{
    lemma_auto_spec_u64_to_from_le_bytes();
    assert(spec_u64_to_le_bytes(x).reverse().reverse() =~= spec_u64_to_le_bytes(x));
    assert(spec_u64_to_le_bytes(spec_u64_from_le_bytes(s.reverse())).reverse() =~= s);
}

/// Writes a 64-bit value as 8 big-endian bytes.
pub fn u64_to_be_bytes(x: u64) -> (r: Vec<u8>)
    ensures
        r@ == spec_u64_to_be_bytes(x),
{
    let le = u64_to_le_bytes(x);
    let mut out: Vec<u8> = Vec::new();
    let mut i: usize = 0;
    while i < 8
        invariant
            le@ == spec_u64_to_le_bytes(x),
            le@.len() == 8,
            i <= 8,
            out@.len() == i,
            forall|k: int| 0 <= k < i ==> out@[k] == le@[7 - k],
        decreases 8 - i,
    {
        out.push(le[7 - i]);
        i += 1;
    }
    proof {
        lemma_auto_spec_u64_to_from_le_bytes();
        assert(out@ =~= spec_u64_to_be_bytes(x));
    }
    out
}

/// Reads a 64-bit value from 8 big-endian bytes.
pub fn u64_from_be_bytes(s: &[u8]) -> (x: u64)
    requires
        s@.len() == 8,
    ensures
        x == spec_u64_from_be_bytes(s@),
{
    let mut rev: Vec<u8> = Vec::new();
    let mut i: usize = 0;
    while i < 8
        invariant
            s@.len() == 8,
            i <= 8,
            rev@.len() == i,
            forall|k: int| 0 <= k < i ==> rev@[k] == s@[7 - k],
        decreases 8 - i,
    {
        rev.push(*vstd::slice::slice_index_get(s, 7 - i));
        i += 1;
    }
    assert(rev@ =~= s@.reverse());
    u64_from_le_bytes(rev.as_slice())
}

/// The canonical datagram for a stream identifier and payload: 8
/// big-endian identifier bytes, then the payload.
pub open spec fn spec_encode_datagram(id: u64, data: Seq<u8>) -> Seq<u8> {
    spec_u64_to_be_bytes(id) + data
}

/// The addressee and payload a datagram carries, if it is long enough
/// to carry an identifier at all.
pub open spec fn spec_decode_datagram(b: Seq<u8>) -> Option<(u64, Seq<u8>)> {
    if b.len() < 8 {
        None
    } else {
        Some((spec_u64_from_be_bytes(b.subrange(0, 8)), b.subrange(8, b.len() as int)))
    }
}

/// Decoding inverts encoding: every datagram comes back as the
/// identifier and payload it was built from.
pub proof fn lemma_datagram_round_trip(id: u64, data: Seq<u8>)
    ensures
        spec_decode_datagram(spec_encode_datagram(id, data)) == Some((id, data)),
{
    let e = spec_encode_datagram(id, data);
    lemma_u64_be_bytes_round_trip(id, seq![0u8, 0u8, 0u8, 0u8, 0u8, 0u8, 0u8, 0u8]);
    assert(e.subrange(0, 8) =~= spec_u64_to_be_bytes(id));
    lemma_u64_be_bytes_round_trip(id, e.subrange(0, 8));
    assert(e.subrange(8, e.len() as int) =~= data);
}

/// Builds the datagram addressed to a stream: the identifier in big
/// endian, then the payload.
pub fn encode_datagram(id: u64, data: &Vec<u8>) -> (r: Vec<u8>)
    ensures
        r@ == spec_encode_datagram(id, data@),
{
    let mut out = u64_to_be_bytes(id);
    out.extend_from_slice(data.as_slice());
    assert(out@ =~= spec_encode_datagram(id, data@));
    out
}

/// Splits a datagram into its addressee and payload; the inverse of
/// [`encode_datagram`].  Returns `None` exactly on datagrams shorter
/// than the 8 identifier bytes, which are dropped silently.
pub fn decode_datagram(datagram: &Vec<u8>) -> (r: Option<(u64, Vec<u8>)>)
    ensures
        match r {
            Some(p) => spec_decode_datagram(datagram@) == Some((p.0, p.1@)),
            None => spec_decode_datagram(datagram@) is None,
        },
{
    if datagram.len() < 8 {
        return None;
    }
    let id = u64_from_be_bytes(slice_subrange(datagram.as_slice(), 0, 8));
    let payload = slice_to_vec(slice_subrange(datagram.as_slice(), 8, datagram.len()));
    Some((id, payload))
}

} // verus!
