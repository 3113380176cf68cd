//! What the transport thread computes: framing one record for the socket,
//! and picking the listening port out of a configured range.
//!
//! The socket itself lives outside the library. The transport loop around
//! these functions reads records from the channel, frames them here, and
//! writes the bytes out; the binding loop tries the ports of its range in
//! ascending order, which `select_port` models against a set of occupied
//! ports.

use vstd::prelude::*;
use vstd::bytes::{spec_u64_to_le_bytes, u64_to_le_bytes};

use crate::codec::{enc_msg, encode_record};
use crate::outside::{snap_compress, snap_compressed};
use crate::records::{Rec, WireRecord};

verus! {

/// The bytes one record occupies on the stream: an 8 byte little-endian
/// count of the compressed payload, then the payload, which is the snap
/// compression of the record's wire encoding.
pub open spec fn spec_frame(sink_index: u64, r: Rec) -> Seq<u8> {
    let compressed = snap_compressed(enc_msg(sink_index, r));
    spec_u64_to_le_bytes(compressed.len() as u64) + compressed
}

/// Frames one record: encodes, compresses, and length-prefixes it. Returns
/// `None` exactly when the encoding is too long for the compressor, which
/// only a multi-gigabyte record can reach.
pub fn frame_record(sink_index: u64, rec: &WireRecord) -> (r: Option<Vec<u8>>)
    ensures
        match r {
            Some(out) => enc_msg(sink_index, rec@).len() < 0x8000_0000 && out@ == spec_frame(
                sink_index,
                rec@,
            ),
            None => enc_msg(sink_index, rec@).len() >= 0x8000_0000,
        },
{
    let encoded = encode_record(sink_index, rec);
    if encoded.len() < 0x8000_0000 {
        let compressed = snap_compress(&encoded);
        let mut out = u64_to_le_bytes(compressed.len() as u64);
        out.extend_from_slice(compressed.as_slice());
        Some(out)
    } else {
        None
    }
}

/// The port the binding loop ends on: the lowest port of `[low, high)` that
/// is not occupied, or `None` when every port of the range is.
pub open spec fn spec_select_port(low: u16, high: u16, occupied: Seq<u16>) -> Option<u16>
    decreases high - low,
{
    if low >= high {
        None
    } else if !occupied.contains(low) {
        Some(low)
    } else {
        spec_select_port((low + 1) as u16, high, occupied)
    }
}

fn contains_port(occupied: &Vec<u16>, p: u16) -> (r: bool)
    ensures
        r == occupied@.contains(p),
{
    let mut i: usize = 0;
    while i < occupied.len()
        invariant
            0 <= i <= occupied@.len(),
            forall|j: int| 0 <= j < i ==> occupied@[j] != p,
        decreases occupied@.len() - i,
    {
        if occupied[i] == p {
            return true;
        }
        i = i + 1;
    }
    false
}

/// Picks the first free port of `[low, high)`, given which ports are
/// occupied: the decision the binding loop makes when each bind attempt
/// fails exactly on the occupied ports.
pub fn select_port(low: u16, high: u16, occupied: &Vec<u16>) -> (r: Option<u16>)
    ensures
        r == spec_select_port(low, high, occupied@),
{
    let mut p: u16 = low;
    while p < high
        invariant
            low <= p <= high || (low >= high && p == low),
            spec_select_port(low, high, occupied@) == spec_select_port(p, high, occupied@),
        decreases high - p,
    {
        if !contains_port(occupied, p) {
            return Some(p);
        }
        p = p + 1;
    }
    None
}

/// Port binding resolves as first-fit: a chosen port lies in the range, is
/// free, and every port below it in the range is occupied; and the range is
/// exhausted only when every one of its ports is occupied.
pub proof fn lemma_select_port_first_fit(low: u16, high: u16, occupied: Seq<u16>)
    ensures
        match spec_select_port(low, high, occupied) {
            Some(p) => low <= p < high && !occupied.contains(p) && (forall|q: u16|
                low <= q < p ==> occupied.contains(q)),
            None => forall|q: u16| low <= q < high ==> occupied.contains(q),
        },
    decreases high - low,
{
    if low >= high {
    } else if !occupied.contains(low) {
    } else {
        lemma_select_port_first_fit((low + 1) as u16, high, occupied);
    }
}

} // verus!
