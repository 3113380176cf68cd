//! The delta-image codec: a stateless encoder that turns a previous/next
//! pixel buffer pair plus a quantization mask into a buffer of signed
//! per-byte deltas, and the matching decoder.
//!
//! Every channel byte position `i` encodes to `(next[i] & mask) - (prev[i] &
//! mask)` as a 16 bit signed value. Decoding adds each delta back onto the
//! receiver's last reconstructed buffer. Under the lossless mask the
//! reconstruction is exact; under a lossy mask the reconstruction agrees with
//! the new frame on every bit the mask keeps.

use vstd::prelude::*;

use crate::records::ImageCompression;

verus! {

/// The delta buffer produced for `prev`/`next` under `mask`, byte for byte.
pub open spec fn spec_delta(prev: Seq<u8>, next: Seq<u8>, mask: u8) -> Seq<i16>
    recommends
        prev.len() == next.len(),
{
    Seq::new(prev.len(), |i: int| ((next[i] & mask) - (prev[i] & mask)) as i16)
}

/// The buffer a receiver reconstructs: each delta added onto its base byte.
pub open spec fn spec_apply(base: Seq<u8>, deltas: Seq<i16>) -> Seq<u8>
    recommends
        base.len() == deltas.len(),
{
    Seq::new(base.len(), |i: int| (base[i] + deltas[i]) as u8)
}

/// Whether every delta lands its base byte back inside the byte range, so
/// that reconstruction loses nothing to truncation.
pub open spec fn applies_in_range(base: Seq<u8>, deltas: Seq<i16>) -> bool {
    forall|i: int| 0 <= i < base.len() ==> 0 <= (#[trigger] base[i]) + deltas[i] <= 255
}

/// Encodes the per-byte quantized difference of two equal-length buffers.
/// Returns `None` exactly when the buffers disagree in length.
pub fn delta_encode(prev: &Vec<u8>, next: &Vec<u8>, mask: ImageCompression) -> (r: Option<
    Vec<i16>,
>)
    ensures
        match r {
            Some(deltas) => prev@.len() == next@.len() && deltas@ == spec_delta(
                prev@,
                next@,
                mask.spec_mask(),
            ),
            None => prev@.len() != next@.len(),
        },
{
    if prev.len() != next.len() {
        return None;
    }
    let m = mask.mask();
    let mut deltas: Vec<i16> = Vec::new();
    let mut i: usize = 0;
    while i < prev.len()
        invariant
            0 <= i <= prev@.len(),
            prev@.len() == next@.len(),
            m == mask.spec_mask(),
            deltas@.len() == i,
            forall|j: int| 0 <= j < i ==> deltas@[j] == spec_delta(prev@, next@, m)[j],
        decreases prev@.len() - i,
    {
        let p = prev[i] & m;
        let n = next[i] & m;
        let d: i16 = (n as i16) - (p as i16);
        deltas.push(d);
        i = i + 1;
    }
    proof {
        assert(deltas@ =~= spec_delta(prev@, next@, m));
    }
    Some(deltas)
}

/// Adds a delta buffer back onto a base buffer. Returns `None` exactly when
/// the lengths disagree or some sum leaves the byte range.
pub fn delta_decode(base: &Vec<u8>, deltas: &Vec<i16>) -> (r: Option<Vec<u8>>)
    ensures
        match r {
            Some(out) => base@.len() == deltas@.len() && applies_in_range(base@, deltas@)
                && out@ == spec_apply(base@, deltas@),
            None => base@.len() != deltas@.len() || !applies_in_range(base@, deltas@),
        },
{
    if base.len() != deltas.len() {
        return None;
    }
    let mut out: Vec<u8> = Vec::new();
    let mut i: usize = 0;
    while i < base.len()
        invariant
            0 <= i <= base@.len(),
            base@.len() == deltas@.len(),
            out@.len() == i,
            forall|j: int| 0 <= j < i ==> 0 <= (#[trigger] base@[j]) + deltas@[j] <= 255,
            forall|j: int| 0 <= j < i ==> out@[j] == spec_apply(base@, deltas@)[j],
        decreases base@.len() - i,
    {
        let s: i32 = (base[i] as i32) + (deltas[i] as i32);
        if s < 0 || s > 255 {
            return None;
        }
        out.push(s as u8);
        i = i + 1;
    }
    proof {
        assert(out@ =~= spec_apply(base@, deltas@));
    }
    Some(out)
}

/// One byte of the reconstruction argument: when the receiver's base byte
/// agrees with the encoder's previous byte on every kept bit, adding the
/// quantized delta stays in the byte range and reproduces every kept bit of
/// the new byte. Under the lossless mask it reproduces the new byte exactly.
proof fn lemma_byte_delta(p: u8, n: u8, b: u8, m: u8)
    by (bit_vector)
    requires
        m == 0xff || m == 0xfe || m == 0xfc || m == 0xf8,
        b & m == p & m,
    ensures
        0 <= b + ((n & m) - (p & m)),
        b + ((n & m) - (p & m)) <= 255,
        ((b + ((n & m) - (p & m))) as u8) & m == n & m,
        m == 0xff ==> ((b + ((n & m) - (p & m))) as u8) == n,
{
}

/// Round trip under the lossless mask: decoding the delta of `prev`/`next`
/// against `prev` itself reproduces `next` byte for byte.
pub proof fn lemma_delta_roundtrip_lossless(prev: Seq<u8>, next: Seq<u8>)
    requires
        prev.len() == next.len(),
    ensures
        applies_in_range(prev, spec_delta(prev, next, 0xff)),
        spec_apply(prev, spec_delta(prev, next, 0xff)) == next,
{
    let deltas = spec_delta(prev, next, 0xff);
    assert forall|i: int| 0 <= i < prev.len() implies 0 <= (#[trigger] prev[i]) + deltas[i] <= 255 by {
        lemma_byte_delta(prev[i], next[i], prev[i], 0xff);
    }
    assert forall|i: int| 0 <= i < prev.len() implies spec_apply(prev, deltas)[i] == next[i] by {
        lemma_byte_delta(prev[i], next[i], prev[i], 0xff);
    }
    assert(spec_apply(prev, deltas) =~= next);
}

/// Round trip under any mask: if the receiver's base buffer agrees with the
/// encoder's previous buffer on every kept bit, the reconstruction stays in
/// range and agrees with the new buffer on every kept bit.
pub proof fn lemma_delta_roundtrip_masked(
    prev: Seq<u8>,
    next: Seq<u8>,
    base: Seq<u8>,
    mask: ImageCompression,
)
    requires
        prev.len() == next.len(),
        base.len() == prev.len(),
        forall|i: int| 0 <= i < base.len() ==> base[i] & mask.spec_mask() == prev[i]
            & mask.spec_mask(),
    ensures
        applies_in_range(base, spec_delta(prev, next, mask.spec_mask())),
        forall|i: int|
            0 <= i < base.len() ==> spec_apply(base, spec_delta(prev, next, mask.spec_mask()))[i]
                & mask.spec_mask() == next[i] & mask.spec_mask(),
{
    let m = mask.spec_mask();
    let deltas = spec_delta(prev, next, m);
    assert forall|i: int| 0 <= i < base.len() implies 0 <= (#[trigger] base[i]) + deltas[i] <= 255 by {
        lemma_byte_delta(prev[i], next[i], base[i], m);
    }
    assert forall|i: int| 0 <= i < base.len() implies spec_apply(base, deltas)[i] & m == next[i]
        & m by {
        lemma_byte_delta(prev[i], next[i], base[i], m);
    }
}

} // verus!
