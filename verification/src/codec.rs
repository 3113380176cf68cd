//! The binary wire codec: a fixed, self-describing encoding of one
//! `(sink_index, record)` pair, and its decoder.
//!
//! Integers travel little-endian at fixed width; byte buffers, strings and
//! element lists are length-prefixed with a 64 bit count; strings are UTF-8;
//! the record variant is picked by a leading tag byte. The decoder accepts a
//! byte sequence exactly when it is the encoding of one pair with nothing
//! left over, and the round trip is proved below.

use vstd::prelude::*;
use vstd::bytes::{
    spec_u16_from_le_bytes, spec_u16_to_le_bytes, spec_u32_from_le_bytes, spec_u32_to_le_bytes,
    spec_u64_from_le_bytes, spec_u64_to_le_bytes, u16_from_le_bytes, u16_to_le_bytes,
    u32_from_le_bytes, u32_to_le_bytes, u64_from_le_bytes, u64_to_le_bytes,
    lemma_auto_spec_u16_to_from_le_bytes, lemma_auto_spec_u32_to_from_le_bytes,
    lemma_auto_spec_u64_to_from_le_bytes,
};
use vstd::slice::{slice_subrange, slice_to_vec};
use vstd::utf8::{decode_utf8, encode_utf8, encode_utf8_decode_utf8, encode_utf8_valid_utf8,
    valid_utf8};

use crate::records::{Frame, FrameModel, Rec, SeriesKind, WireRecord};
use crate::outside::string_from_utf8;

verus! {

// ---------------------------------------------------------------------------
// Spec-level encoders
// ---------------------------------------------------------------------------
/// A signed 16 bit delta travels as the little-endian bytes of its bit
/// pattern.
pub open spec fn enc_i16(x: i16) -> Seq<u8> {
    spec_u16_to_le_bytes(x as u16)
}

/// A byte buffer travels as a 64 bit count followed by the bytes.
pub open spec fn enc_bytes(b: Seq<u8>) -> Seq<u8> {
    spec_u64_to_le_bytes(b.len() as u64) + b
}

/// A string travels as its length-prefixed UTF-8 encoding.
pub open spec fn enc_str(s: Seq<char>) -> Seq<u8> {
    enc_bytes(encode_utf8(s))
}

/// A point list travels element by element, two 64 bit words each.
pub open spec fn enc_pairs(ps: Seq<(u64, u64)>) -> Seq<u8>
    decreases ps.len(),
{
    if ps.len() == 0 {
        Seq::empty()
    } else {
        spec_u64_to_le_bytes(ps[0].0) + spec_u64_to_le_bytes(ps[0].1) + enc_pairs(ps.drop_first())
    }
}

/// A delta list travels element by element.
pub open spec fn enc_i16s(ds: Seq<i16>) -> Seq<u8>
    decreases ds.len(),
{
    if ds.len() == 0 {
        Seq::empty()
    } else {
        enc_i16(ds[0]) + enc_i16s(ds.drop_first())
    }
}

/// The tag byte of a record variant.
pub open spec fn tag_of(r: Rec) -> u8 {
    match r {
        Rec::InitSource { .. } => 0,
        Rec::InitSeriesPlot2d { .. } => 1,
        Rec::InitSeries2d { .. } => 2,
        Rec::Series2dPoint { .. } => 3,
        Rec::Series2dBatch { .. } => 4,
        Rec::InitImage { .. } => 5,
        Rec::DeltaImage { .. } => 6,
        Rec::StringMessage { .. } => 7,
    }
}

/// The byte standing for a batch's drawing kind.
pub open spec fn kind_byte(k: SeriesKind) -> u8 {
    match k {
        SeriesKind::Scatter => 0,
        SeriesKind::Line => 1,
    }
}

/// The encoding of one record, after the tag byte of its variant.
pub open spec fn enc_rec_body(r: Rec) -> Seq<u8> {
    match r {
        Rec::InitSource { name } => enc_str(name),
        Rec::InitSeriesPlot2d { plot_name } => enc_str(plot_name),
        Rec::InitSeries2d { plot_index, series_name } => spec_u64_to_le_bytes(plot_index)
            + enc_str(series_name),
        Rec::Series2dPoint { plot_index, series_index, x_bits, y_bits } => spec_u64_to_le_bytes(
            plot_index,
        ) + spec_u64_to_le_bytes(series_index) + spec_u64_to_le_bytes(x_bits)
            + spec_u64_to_le_bytes(y_bits),
        Rec::Series2dBatch { plot_index, series_index, kind, points } => spec_u64_to_le_bytes(
            plot_index,
        ) + spec_u64_to_le_bytes(series_index) + seq![kind_byte(kind)] + spec_u64_to_le_bytes(
            points.len() as u64,
        ) + enc_pairs(points),
        Rec::InitImage { channel_name, frame } => enc_str(channel_name) + spec_u32_to_le_bytes(
            frame.width,
        ) + spec_u32_to_le_bytes(frame.height) + enc_bytes(frame.pixels),
        Rec::DeltaImage { channel_index, deltas } => spec_u64_to_le_bytes(channel_index)
            + spec_u64_to_le_bytes(deltas.len() as u64) + enc_i16s(deltas),
        Rec::StringMessage { channel_name, text } => (match channel_name {
            Some(c) => seq![1u8] + enc_str(c),
            None => seq![0u8],
        }) + enc_str(text),
    }
}

/// The encoding of one record.
pub open spec fn enc_rec(r: Rec) -> Seq<u8> {
    seq![tag_of(r)] + enc_rec_body(r)
}

/// The encoding of one `(sink_index, record)` pair: what one framed message
/// holds before compression.
pub open spec fn enc_msg(sink_index: u64, r: Rec) -> Seq<u8> {
    spec_u64_to_le_bytes(sink_index) + enc_rec(r)
}

/// Whether a record's variable-length parts fit their 64 bit count prefixes.
/// Every record an exec caller can build satisfies this.
pub open spec fn rec_wf(r: Rec) -> bool {
    match r {
        Rec::InitSource { name } => encode_utf8(name).len() <= u64::MAX,
        Rec::InitSeriesPlot2d { plot_name } => encode_utf8(plot_name).len() <= u64::MAX,
        Rec::InitSeries2d { series_name, .. } => encode_utf8(series_name).len() <= u64::MAX,
        Rec::Series2dPoint { .. } => true,
        Rec::Series2dBatch { points, .. } => points.len() <= u64::MAX,
        Rec::InitImage { channel_name, frame } => encode_utf8(channel_name).len() <= u64::MAX
            && frame.pixels.len() <= u64::MAX,
        Rec::DeltaImage { deltas, .. } => deltas.len() <= u64::MAX,
        Rec::StringMessage { channel_name, text } => encode_utf8(text).len() <= u64::MAX && (match
            channel_name {
            Some(c) => encode_utf8(c).len() <= u64::MAX,
            None => true,
        }),
    }
}

// ---------------------------------------------------------------------------
// Spec-level decoders: each consumes a prefix and returns the rest
// ---------------------------------------------------------------------------
pub open spec fn dec_byte(b: Seq<u8>) -> Option<(u8, Seq<u8>)> {
    if b.len() >= 1 {
        Some((b[0], b.skip(1)))
    } else {
        None
    }
}

pub open spec fn dec_u64(b: Seq<u8>) -> Option<(u64, Seq<u8>)> {
    if b.len() >= 8 {
        Some((spec_u64_from_le_bytes(b.take(8)), b.skip(8)))
    } else {
        None
    }
}

pub open spec fn dec_u32(b: Seq<u8>) -> Option<(u32, Seq<u8>)> {
    if b.len() >= 4 {
        Some((spec_u32_from_le_bytes(b.take(4)), b.skip(4)))
    } else {
        None
    }
}

pub open spec fn dec_i16(b: Seq<u8>) -> Option<(i16, Seq<u8>)> {
    if b.len() >= 2 {
        Some((spec_u16_from_le_bytes(b.take(2)) as i16, b.skip(2)))
    } else {
        None
    }
}

pub open spec fn dec_bytes(b: Seq<u8>) -> Option<(Seq<u8>, Seq<u8>)> {
    match dec_u64(b) {
        Some((n, rest)) => if rest.len() >= n {
            Some((rest.take(n as int), rest.skip(n as int)))
        } else {
            None
        },
        None => None,
    }
}

pub open spec fn dec_str(b: Seq<u8>) -> Option<(Seq<char>, Seq<u8>)> {
    match dec_bytes(b) {
        Some((bs, rest)) => if valid_utf8(bs) {
            Some((decode_utf8(bs), rest))
        } else {
            None
        },
        None => None,
    }
}

pub open spec fn dec_pairs(b: Seq<u8>, n: nat) -> Option<(Seq<(u64, u64)>, Seq<u8>)>
    decreases n,
{
    if n == 0 {
        Some((Seq::empty(), b))
    } else {
        match dec_u64(b) {
            Some((x, r1)) => match dec_u64(r1) {
                Some((y, r2)) => match dec_pairs(r2, (n - 1) as nat) {
                    Some((ps, r3)) => Some((seq![(x, y)] + ps, r3)),
                    None => None,
                },
                None => None,
            },
            None => None,
        }
    }
}

pub open spec fn dec_i16s(b: Seq<u8>, n: nat) -> Option<(Seq<i16>, Seq<u8>)>
    decreases n,
{
    if n == 0 {
        Some((Seq::empty(), b))
    } else {
        match dec_i16(b) {
            Some((d, r1)) => match dec_i16s(r1, (n - 1) as nat) {
                Some((ds, r2)) => Some((seq![d] + ds, r2)),
                None => None,
            },
            None => None,
        }
    }
}

/// Decodes one record: a tag byte, then the variant's fields.
pub open spec fn dec_rec(b: Seq<u8>) -> Option<(Rec, Seq<u8>)> {
    match dec_byte(b) {
        Some((tag, r0)) => {
            if tag == 0 {
                match dec_str(r0) {
                    Some((name, r1)) => Some((Rec::InitSource { name }, r1)),
                    None => None,
                }
            } else if tag == 1 {
                match dec_str(r0) {
                    Some((plot_name, r1)) => Some((Rec::InitSeriesPlot2d { plot_name }, r1)),
                    None => None,
                }
            } else if tag == 2 {
                match dec_u64(r0) {
                    Some((plot_index, r1)) => match dec_str(r1) {
                        Some((series_name, r2)) => Some(
                            (Rec::InitSeries2d { plot_index, series_name }, r2),
                        ),
                        None => None,
                    },
                    None => None,
                }
            } else if tag == 3 {
                match dec_u64(r0) {
                    Some((plot_index, r1)) => match dec_u64(r1) {
                        Some((series_index, r2)) => match dec_u64(r2) {
                            Some((x_bits, r3)) => match dec_u64(r3) {
                                Some((y_bits, r4)) => Some(
                                    (
                                        Rec::Series2dPoint {
                                            plot_index,
                                            series_index,
                                            x_bits,
                                            y_bits,
                                        },
                                        r4,
                                    ),
                                ),
                                None => None,
                            },
                            None => None,
                        },
                        None => None,
                    },
                    None => None,
                }
            } else if tag == 4 {
                match dec_u64(r0) {
                    Some((plot_index, r1)) => match dec_u64(r1) {
                        Some((series_index, r2)) => match dec_byte(r2) {
                            Some((kb, r3)) => if kb == 0 || kb == 1 {
                                let kind = if kb == 0 {
                                    SeriesKind::Scatter
                                } else {
                                    SeriesKind::Line
                                };
                                match dec_u64(r3) {
                                    Some((n, r4)) => match dec_pairs(r4, n as nat) {
                                        Some((points, r5)) => Some(
                                            (
                                                Rec::Series2dBatch {
                                                    plot_index,
                                                    series_index,
                                                    kind,
                                                    points,
                                                },
                                                r5,
                                            ),
                                        ),
                                        None => None,
                                    },
                                    None => None,
                                }
                            } else {
                                None
                            },
                            None => None,
                        },
                        None => None,
                    },
                    None => None,
                }
            } else if tag == 5 {
                match dec_str(r0) {
                    Some((channel_name, r1)) => match dec_u32(r1) {
                        Some((width, r2)) => match dec_u32(r2) {
                            Some((height, r3)) => match dec_bytes(r3) {
                                Some((pixels, r4)) => Some(
                                    (
                                        Rec::InitImage {
                                            channel_name,
                                            frame: FrameModel { pixels, width, height },
                                        },
                                        r4,
                                    ),
                                ),
                                None => None,
                            },
                            None => None,
                        },
                        None => None,
                    },
                    None => None,
                }
            } else if tag == 6 {
                match dec_u64(r0) {
                    Some((channel_index, r1)) => match dec_u64(r1) {
                        Some((n, r2)) => match dec_i16s(r2, n as nat) {
                            Some((deltas, r3)) => Some(
                                (Rec::DeltaImage { channel_index, deltas }, r3),
                            ),
                            None => None,
                        },
                        None => None,
                    },
                    None => None,
                }
            } else if tag == 7 {
                match dec_byte(r0) {
                    Some((flag, r1)) => if flag == 0 || flag == 1 {
                        let after_channel = if flag == 0 {
                            Some((None::<Seq<char>>, r1))
                        } else {
                            match dec_str(r1) {
                                Some((c, r2)) => Some((Some(c), r2)),
                                None => None,
                            }
                        };
                        match after_channel {
                            Some((channel_name, r2)) => match dec_str(r2) {
                                Some((text, r3)) => Some(
                                    (Rec::StringMessage { channel_name, text }, r3),
                                ),
                                None => None,
                            },
                            None => None,
                        }
                    } else {
                        None
                    },
                    None => None,
                }
            } else {
                None
            }
        },
        None => None,
    }
}

/// Decodes one framed message: a sink index, one record, nothing left over.
pub open spec fn dec_msg(b: Seq<u8>) -> Option<(u64, Rec)> {
    match dec_u64(b) {
        Some((sink_index, r0)) => match dec_rec(r0) {
            Some((rec, r1)) => if r1.len() == 0 {
                Some((sink_index, rec))
            } else {
                None
            },
            None => None,
        },
        None => None,
    }
}

// ---------------------------------------------------------------------------
// Round-trip lemmas: each decoder inverts its encoder on any continuation
// ---------------------------------------------------------------------------
proof fn lemma_dec_byte(x: u8, rest: Seq<u8>)
    ensures
        dec_byte(seq![x] + rest) == Some((x, rest)),
{
    assert((seq![x] + rest)[0] == x);
    assert((seq![x] + rest).skip(1) =~= rest);
}

proof fn lemma_dec_u64(x: u64, rest: Seq<u8>)
    ensures
        dec_u64(spec_u64_to_le_bytes(x) + rest) == Some((x, rest)),
{
    lemma_auto_spec_u64_to_from_le_bytes();
    let e = spec_u64_to_le_bytes(x);
    assert((e + rest).take(8) =~= e);
    assert((e + rest).skip(8) =~= rest);
}

proof fn lemma_dec_u32(x: u32, rest: Seq<u8>)
    ensures
        dec_u32(spec_u32_to_le_bytes(x) + rest) == Some((x, rest)),
{
    lemma_auto_spec_u32_to_from_le_bytes();
    let e = spec_u32_to_le_bytes(x);
    assert((e + rest).take(4) =~= e);
    assert((e + rest).skip(4) =~= rest);
}

proof fn lemma_dec_i16(x: i16, rest: Seq<u8>)
    ensures
        dec_i16(enc_i16(x) + rest) == Some((x, rest)),
{
    lemma_auto_spec_u16_to_from_le_bytes();
    let e = enc_i16(x);
    assert((e + rest).take(2) =~= e);
    assert((e + rest).skip(2) =~= rest);
    assert(((x as u16) as i16) == x) by (bit_vector);
}

proof fn lemma_dec_bytes(bs: Seq<u8>, rest: Seq<u8>)
    requires
        bs.len() <= u64::MAX,
    ensures
        dec_bytes(enc_bytes(bs) + rest) == Some((bs, rest)),
{
    let n = bs.len() as u64;
    assert(enc_bytes(bs) + rest =~= spec_u64_to_le_bytes(n) + (bs + rest));
    lemma_dec_u64(n, bs + rest);
    assert((bs + rest).take(n as int) =~= bs);
    assert((bs + rest).skip(n as int) =~= rest);
}

proof fn lemma_dec_str(s: Seq<char>, rest: Seq<u8>)
    requires
        encode_utf8(s).len() <= u64::MAX,
    ensures
        dec_str(enc_str(s) + rest) == Some((s, rest)),
{
    lemma_dec_bytes(encode_utf8(s), rest);
    encode_utf8_valid_utf8(s);
    encode_utf8_decode_utf8(s);
}

proof fn lemma_dec_pairs(ps: Seq<(u64, u64)>, rest: Seq<u8>)
    ensures
        dec_pairs(enc_pairs(ps) + rest, ps.len()) == Some((ps, rest)),
    decreases ps.len(),
{
    if ps.len() == 0 {
        assert(enc_pairs(ps) + rest =~= rest);
    } else {
        let p = ps[0];
        let tail = ps.drop_first();
        let e0 = spec_u64_to_le_bytes(p.0);
        let e1 = spec_u64_to_le_bytes(p.1);
        assert(enc_pairs(ps) + rest =~= e0 + (e1 + (enc_pairs(tail) + rest)));
        lemma_dec_u64(p.0, e1 + (enc_pairs(tail) + rest));
        lemma_dec_u64(p.1, enc_pairs(tail) + rest);
        lemma_dec_pairs(tail, rest);
        assert(seq![(p.0, p.1)] + tail =~= ps);
    }
}

proof fn lemma_dec_i16s(ds: Seq<i16>, rest: Seq<u8>)
    ensures
        dec_i16s(enc_i16s(ds) + rest, ds.len()) == Some((ds, rest)),
    decreases ds.len(),
{
    if ds.len() == 0 {
        assert(enc_i16s(ds) + rest =~= rest);
    } else {
        let tail = ds.drop_first();
        assert(enc_i16s(ds) + rest =~= enc_i16(ds[0]) + (enc_i16s(tail) + rest));
        lemma_dec_i16(ds[0], enc_i16s(tail) + rest);
        lemma_dec_i16s(tail, rest);
        assert(seq![ds[0]] + tail =~= ds);
    }
}

#[verifier::spinoff_prover]
#[verifier::rlimit(60)]
proof fn lemma_dec_rec(r: Rec, rest: Seq<u8>)
    requires
        rec_wf(r),
    ensures
        dec_rec(enc_rec(r) + rest) == Some((r, rest)),
{
    let body = enc_rec_body(r);
    assert(enc_rec(r) + rest =~= seq![tag_of(r)] + (body + rest));
    lemma_dec_byte(tag_of(r), body + rest);
    match r {
        Rec::InitSource { name } => {
            lemma_dec_str(name, rest);
        },
        Rec::InitSeriesPlot2d { plot_name } => {
            lemma_dec_str(plot_name, rest);
        },
        Rec::InitSeries2d { plot_index, series_name } => {
            assert(body + rest =~= spec_u64_to_le_bytes(plot_index) + (enc_str(series_name)
                + rest));
            lemma_dec_u64(plot_index, enc_str(series_name) + rest);
            lemma_dec_str(series_name, rest);
        },
        Rec::Series2dPoint { plot_index, series_index, x_bits, y_bits } => {
            let e1 = spec_u64_to_le_bytes(series_index);
            let e2 = spec_u64_to_le_bytes(x_bits);
            let e3 = spec_u64_to_le_bytes(y_bits);
            assert(body + rest =~= spec_u64_to_le_bytes(plot_index) + (e1 + (e2 + (e3 + rest))));
            lemma_dec_u64(plot_index, e1 + (e2 + (e3 + rest)));
            lemma_dec_u64(series_index, e2 + (e3 + rest));
            lemma_dec_u64(x_bits, e3 + rest);
            lemma_dec_u64(y_bits, rest);
        },
        Rec::Series2dBatch { plot_index, series_index, kind, points } => {
            let e1 = spec_u64_to_le_bytes(series_index);
            let kb = seq![kind_byte(kind)];
            let en = spec_u64_to_le_bytes(points.len() as u64);
            let ep = enc_pairs(points);
            assert(body + rest =~= spec_u64_to_le_bytes(plot_index) + (e1 + (kb + (en + (ep
                + rest)))));
            lemma_dec_u64(plot_index, e1 + (kb + (en + (ep + rest))));
            lemma_dec_u64(series_index, kb + (en + (ep + rest)));
            lemma_dec_byte(kind_byte(kind), en + (ep + rest));
            lemma_dec_u64(points.len() as u64, ep + rest);
            lemma_dec_pairs(points, rest);
            assert((points.len() as u64) as nat == points.len());
        },
        Rec::InitImage { channel_name, frame } => {
            let ew = spec_u32_to_le_bytes(frame.width);
            let eh = spec_u32_to_le_bytes(frame.height);
            let ep = enc_bytes(frame.pixels);
            assert(body + rest =~= enc_str(channel_name) + (ew + (eh + (ep + rest))));
            lemma_dec_str(channel_name, ew + (eh + (ep + rest)));
            lemma_dec_u32(frame.width, eh + (ep + rest));
            lemma_dec_u32(frame.height, ep + rest);
            lemma_dec_bytes(frame.pixels, rest);
        },
        Rec::DeltaImage { channel_index, deltas } => {
            let en = spec_u64_to_le_bytes(deltas.len() as u64);
            let ed = enc_i16s(deltas);
            assert(body + rest =~= spec_u64_to_le_bytes(channel_index) + (en + (ed + rest)));
            lemma_dec_u64(channel_index, en + (ed + rest));
            lemma_dec_u64(deltas.len() as u64, ed + rest);
            lemma_dec_i16s(deltas, rest);
            assert((deltas.len() as u64) as nat == deltas.len());
        },
        Rec::StringMessage { channel_name, text } => {
            match channel_name {
                Some(c) => {
                    assert(body + rest =~= seq![1u8] + (enc_str(c) + (enc_str(text) + rest)));
                    lemma_dec_byte(1u8, enc_str(c) + (enc_str(text) + rest));
                    lemma_dec_str(c, enc_str(text) + rest);
                    lemma_dec_str(text, rest);
                },
                None => {
                    assert(body + rest =~= seq![0u8] + (enc_str(text) + rest));
                    lemma_dec_byte(0u8, enc_str(text) + rest);
                    lemma_dec_str(text, rest);
                },
            }
        },
    }
}

/// The codec round trip: decoding the encoding of any well-formed pair gives
/// the pair back, with nothing left over.
pub proof fn lemma_codec_roundtrip(sink_index: u64, r: Rec)
    requires
        rec_wf(r),
    ensures
        dec_msg(enc_msg(sink_index, r)) == Some((sink_index, r)),
{
    assert(enc_msg(sink_index, r) =~= spec_u64_to_le_bytes(sink_index) + (enc_rec(r)
        + Seq::empty()));
    lemma_dec_u64(sink_index, enc_rec(r) + Seq::empty());
    lemma_dec_rec(r, Seq::empty());
}

// ---------------------------------------------------------------------------
// Exec encoder
// ---------------------------------------------------------------------------
fn push_u64(out: &mut Vec<u8>, x: u64)
    ensures
        final(out)@ == old(out)@ + spec_u64_to_le_bytes(x),
{
    let mut t = u64_to_le_bytes(x);
    out.append(&mut t);
}

fn push_u32(out: &mut Vec<u8>, x: u32)
    ensures
        final(out)@ == old(out)@ + spec_u32_to_le_bytes(x),
{
    let mut t = u32_to_le_bytes(x);
    out.append(&mut t);
}

fn push_i16(out: &mut Vec<u8>, x: i16)
    ensures
        final(out)@ == old(out)@ + enc_i16(x),
{
    let mut t = u16_to_le_bytes(x as u16);
    out.append(&mut t);
}

fn push_bytes(out: &mut Vec<u8>, b: &[u8])
    ensures
        final(out)@ == old(out)@ + enc_bytes(b@),
{
    push_u64(out, b.len() as u64);
    out.extend_from_slice(b);
}

fn push_str(out: &mut Vec<u8>, s: &str)
    ensures
        final(out)@ == old(out)@ + enc_str(s@),
{
    let bs = s.as_bytes();
    push_bytes(out, bs);
}

proof fn lemma_enc_pairs_snoc(ps: Seq<(u64, u64)>, p: (u64, u64))
    ensures
        enc_pairs(ps.push(p)) == enc_pairs(ps) + spec_u64_to_le_bytes(p.0) + spec_u64_to_le_bytes(
            p.1,
        ),
    decreases ps.len(),
{
    if ps.len() == 0 {
        assert(ps.push(p)[0] == p);
        assert(ps.push(p).drop_first() =~= Seq::<(u64, u64)>::empty());
        assert(ps =~= Seq::<(u64, u64)>::empty());
        assert(enc_pairs(Seq::<(u64, u64)>::empty()) == Seq::<u8>::empty());
        assert(enc_pairs(ps.push(p)) == spec_u64_to_le_bytes(p.0) + spec_u64_to_le_bytes(p.1)
            + Seq::<u8>::empty());
        assert(enc_pairs(ps.push(p)) =~= enc_pairs(ps) + spec_u64_to_le_bytes(p.0)
            + spec_u64_to_le_bytes(p.1));
    } else {
        assert(ps.push(p).drop_first() =~= ps.drop_first().push(p));
        lemma_enc_pairs_snoc(ps.drop_first(), p);
        assert(enc_pairs(ps.push(p)) =~= enc_pairs(ps) + spec_u64_to_le_bytes(p.0)
            + spec_u64_to_le_bytes(p.1));
    }
}

proof fn lemma_enc_i16s_snoc(ds: Seq<i16>, d: i16)
    ensures
        enc_i16s(ds.push(d)) == enc_i16s(ds) + enc_i16(d),
    decreases ds.len(),
{
    if ds.len() == 0 {
        assert(ds.push(d)[0] == d);
        assert(ds.push(d).drop_first() =~= Seq::<i16>::empty());
        assert(ds =~= Seq::<i16>::empty());
        assert(enc_i16s(Seq::<i16>::empty()) == Seq::<u8>::empty());
        assert(enc_i16s(ds.push(d)) == enc_i16(d) + Seq::<u8>::empty());
        assert(enc_i16s(ds.push(d)) =~= enc_i16s(ds) + enc_i16(d));
    } else {
        assert(ds.push(d).drop_first() =~= ds.drop_first().push(d));
        lemma_enc_i16s_snoc(ds.drop_first(), d);
        assert(enc_i16s(ds.push(d)) =~= enc_i16s(ds) + enc_i16(d));
    }
}

fn push_pairs(out: &mut Vec<u8>, ps: &Vec<(u64, u64)>)
    ensures
        final(out)@ == old(out)@ + enc_pairs(ps@),
{
    let mut i: usize = 0;
    proof {
        assert(ps@.take(0) =~= Seq::<(u64, u64)>::empty());
        assert(out@ =~= out@ + enc_pairs(ps@.take(0)));
    }
    while i < ps.len()
        invariant
            0 <= i <= ps@.len(),
            out@ == old(out)@ + enc_pairs(ps@.take(i as int)),
        decreases ps@.len() - i,
    {
        let p = ps[i];
        push_u64(out, p.0);
        push_u64(out, p.1);
        proof {
            lemma_enc_pairs_snoc(ps@.take(i as int), ps@[i as int]);
            assert(ps@.take(i as int).push(ps@[i as int]) =~= ps@.take(i as int + 1));
        }
        i = i + 1;
    }
    proof {
        assert(ps@.take(ps@.len() as int) =~= ps@);
    }
}

fn push_i16s(out: &mut Vec<u8>, ds: &Vec<i16>)
    ensures
        final(out)@ == old(out)@ + enc_i16s(ds@),
{
    let mut i: usize = 0;
    proof {
        assert(ds@.take(0) =~= Seq::<i16>::empty());
        assert(out@ =~= out@ + enc_i16s(ds@.take(0)));
    }
    while i < ds.len()
        invariant
            0 <= i <= ds@.len(),
            out@ == old(out)@ + enc_i16s(ds@.take(i as int)),
        decreases ds@.len() - i,
    {
        push_i16(out, ds[i]);
        proof {
            lemma_enc_i16s_snoc(ds@.take(i as int), ds@[i as int]);
            assert(ds@.take(i as int).push(ds@[i as int]) =~= ds@.take(i as int + 1));
        }
        i = i + 1;
    }
    proof {
        assert(ds@.take(ds@.len() as int) =~= ds@);
    }
}

/// Encodes one `(sink_index, record)` pair to its wire bytes.
#[verifier::spinoff_prover]
#[verifier::rlimit(60)]
pub fn encode_record(sink_index: u64, rec: &WireRecord) -> (out: Vec<u8>)
    ensures
        out@ == enc_msg(sink_index, rec@),
{
    let mut out: Vec<u8> = Vec::new();
    push_u64(&mut out, sink_index);
    match rec {
        WireRecord::InitSource { name } => {
            out.push(0u8);
            push_str(&mut out, name.as_str());
        },
        WireRecord::InitSeriesPlot2d { plot_name } => {
            out.push(1u8);
            push_str(&mut out, plot_name.as_str());
        },
        WireRecord::InitSeries2d { plot_index, series_name } => {
            out.push(2u8);
            push_u64(&mut out, *plot_index);
            push_str(&mut out, series_name.as_str());
        },
        WireRecord::Series2dPoint { plot_index, series_index, x_bits, y_bits } => {
            out.push(3u8);
            push_u64(&mut out, *plot_index);
            push_u64(&mut out, *series_index);
            push_u64(&mut out, *x_bits);
            push_u64(&mut out, *y_bits);
        },
        WireRecord::Series2dBatch { plot_index, series_index, kind, points } => {
            out.push(4u8);
            push_u64(&mut out, *plot_index);
            push_u64(&mut out, *series_index);
            let kb: u8 = match kind {
                SeriesKind::Scatter => 0,
                SeriesKind::Line => 1,
            };
            out.push(kb);
            push_u64(&mut out, points.len() as u64);
            push_pairs(&mut out, points);
        },
        WireRecord::InitImage { channel_name, frame } => {
            out.push(5u8);
            push_str(&mut out, channel_name.as_str());
            push_u32(&mut out, frame.width);
            push_u32(&mut out, frame.height);
            push_bytes(&mut out, frame.pixels.as_slice());
        },
        WireRecord::DeltaImage { channel_index, deltas } => {
            out.push(6u8);
            push_u64(&mut out, *channel_index);
            push_u64(&mut out, deltas.len() as u64);
            push_i16s(&mut out, deltas);
        },
        WireRecord::StringMessage { channel_name, text } => {
            out.push(7u8);
            match channel_name {
                Some(c) => {
                    out.push(1u8);
                    push_str(&mut out, c.as_str());
                },
                None => {
                    out.push(0u8);
                },
            }
            push_str(&mut out, text.as_str());
        },
    }
    proof {
        assert(out@ =~= enc_msg(sink_index, rec@));
    }
    out
}

// ---------------------------------------------------------------------------
// Exec decoder
// ---------------------------------------------------------------------------
fn read_byte(b: &Vec<u8>, pos: usize) -> (r: Option<(u8, usize)>)
    requires
        pos <= b@.len(),
    ensures
        match r {
            Some((x, p2)) => pos <= p2 <= b@.len() && dec_byte(b@.skip(pos as int)) == Some(
                (x, b@.skip(p2 as int)),
            ),
            None => dec_byte(b@.skip(pos as int)) is None,
        },
{
    if pos < b.len() {
        let x = b[pos];
        proof {
            assert(b@.skip(pos as int)[0] == b@[pos as int]);
            assert(b@.skip(pos as int).skip(1) =~= b@.skip(pos as int + 1));
        }
        Some((x, pos + 1))
    } else {
        None
    }
}

fn read_u64(b: &Vec<u8>, pos: usize) -> (r: Option<(u64, usize)>)
    requires
        pos <= b@.len(),
    ensures
        match r {
            Some((x, p2)) => pos <= p2 <= b@.len() && dec_u64(b@.skip(pos as int)) == Some(
                (x, b@.skip(p2 as int)),
            ),
            None => dec_u64(b@.skip(pos as int)) is None,
        },
{
    if b.len() - pos >= 8 {
        let s = slice_subrange(b.as_slice(), pos, pos + 8);
        let x = u64_from_le_bytes(s);
        proof {
            assert(b@.skip(pos as int).take(8) =~= b@.subrange(pos as int, pos as int + 8));
            assert(b@.skip(pos as int).skip(8) =~= b@.skip(pos as int + 8));
        }
        Some((x, pos + 8))
    } else {
        None
    }
}

fn read_u32(b: &Vec<u8>, pos: usize) -> (r: Option<(u32, usize)>)
    requires
        pos <= b@.len(),
    ensures
        match r {
            Some((x, p2)) => pos <= p2 <= b@.len() && dec_u32(b@.skip(pos as int)) == Some(
                (x, b@.skip(p2 as int)),
            ),
            None => dec_u32(b@.skip(pos as int)) is None,
        },
{
    if b.len() - pos >= 4 {
        let s = slice_subrange(b.as_slice(), pos, pos + 4);
        let x = u32_from_le_bytes(s);
        proof {
            assert(b@.skip(pos as int).take(4) =~= b@.subrange(pos as int, pos as int + 4));
            assert(b@.skip(pos as int).skip(4) =~= b@.skip(pos as int + 4));
        }
        Some((x, pos + 4))
    } else {
        None
    }
}

fn read_i16(b: &Vec<u8>, pos: usize) -> (r: Option<(i16, usize)>)
    requires
        pos <= b@.len(),
    ensures
        match r {
            Some((x, p2)) => pos <= p2 <= b@.len() && dec_i16(b@.skip(pos as int)) == Some(
                (x, b@.skip(p2 as int)),
            ),
            None => dec_i16(b@.skip(pos as int)) is None,
        },
{
    if b.len() - pos >= 2 {
        let s = slice_subrange(b.as_slice(), pos, pos + 2);
        let x = u16_from_le_bytes(s);
        proof {
            assert(b@.skip(pos as int).take(2) =~= b@.subrange(pos as int, pos as int + 2));
            assert(b@.skip(pos as int).skip(2) =~= b@.skip(pos as int + 2));
        }
        Some((x as i16, pos + 2))
    } else {
        None
    }
}

fn read_bytes(b: &Vec<u8>, pos: usize) -> (r: Option<(Vec<u8>, usize)>)
    requires
        pos <= b@.len(),
    ensures
        match r {
            Some((v, p2)) => pos <= p2 <= b@.len() && dec_bytes(b@.skip(pos as int)) == Some(
                (v@, b@.skip(p2 as int)),
            ),
            None => dec_bytes(b@.skip(pos as int)) is None,
        },
{
    match read_u64(b, pos) {
        Some((n, p1)) => {
            if n <= (b.len() - p1) as u64 {
                let len = n as usize;
                let s = slice_subrange(b.as_slice(), p1, p1 + len);
                let v = slice_to_vec(s);
                proof {
                    assert(b@.skip(p1 as int).take(n as int) =~= b@.subrange(
                        p1 as int,
                        p1 as int + n as int,
                    ));
                    assert(b@.skip(p1 as int).skip(n as int) =~= b@.skip(p1 as int + n as int));
                }
                Some((v, p1 + len))
            } else {
                None
            }
        },
        None => None,
    }
}

fn read_str(b: &Vec<u8>, pos: usize) -> (r: Option<(String, usize)>)
    requires
        pos <= b@.len(),
    ensures
        match r {
            Some((s, p2)) => pos <= p2 <= b@.len() && dec_str(b@.skip(pos as int)) == Some(
                (s@, b@.skip(p2 as int)),
            ),
            None => dec_str(b@.skip(pos as int)) is None,
        },
{
    match read_bytes(b, pos) {
        Some((v, p2)) => match string_from_utf8(v) {
            Some(s) => Some((s, p2)),
            None => None,
        },
        None => None,
    }
}

fn read_pairs(b: &Vec<u8>, pos: usize, n: u64) -> (r: Option<(Vec<(u64, u64)>, usize)>)
    requires
        pos <= b@.len(),
    ensures
        match r {
            Some((ps, p2)) => pos <= p2 <= b@.len() && dec_pairs(b@.skip(pos as int), n as nat)
                == Some((ps@, b@.skip(p2 as int))),
            None => dec_pairs(b@.skip(pos as int), n as nat) is None,
        },
    decreases n,
{
    if n == 0 {
        let ps: Vec<(u64, u64)> = Vec::new();
        proof {
            assert(ps@ =~= Seq::<(u64, u64)>::empty());
        }
        Some((ps, pos))
    } else {
        match read_u64(b, pos) {
            Some((x, p1)) => match read_u64(b, p1) {
                Some((y, p2)) => match read_pairs(b, p2, n - 1) {
                    Some((mut ps, p3)) => {
                        let ghost tail = ps@;
                        ps.insert(0, (x, y));
                        proof {
                            assert(ps@ =~= seq![(x, y)] + tail);
                        }
                        Some((ps, p3))
                    },
                    None => None,
                },
                None => None,
            },
            None => None,
        }
    }
}

fn read_i16s(b: &Vec<u8>, pos: usize, n: u64) -> (r: Option<(Vec<i16>, usize)>)
    requires
        pos <= b@.len(),
    ensures
        match r {
            Some((ds, p2)) => pos <= p2 <= b@.len() && dec_i16s(b@.skip(pos as int), n as nat)
                == Some((ds@, b@.skip(p2 as int))),
            None => dec_i16s(b@.skip(pos as int), n as nat) is None,
        },
    decreases n,
{
    if n == 0 {
        let ds: Vec<i16> = Vec::new();
        proof {
            assert(ds@ =~= Seq::<i16>::empty());
        }
        Some((ds, pos))
    } else {
        match read_i16(b, pos) {
            Some((d, p1)) => match read_i16s(b, p1, n - 1) {
                Some((mut ds, p2)) => {
                    let ghost tail = ds@;
                    ds.insert(0, d);
                    proof {
                        assert(ds@ =~= seq![d] + tail);
                    }
                    Some((ds, p2))
                },
                None => None,
            },
            None => None,
        }
    }
}

/// Decodes one framed message. Returns the pair exactly when the bytes are
/// the encoding of one `(sink_index, record)` pair with nothing left over.
#[verifier::spinoff_prover]
#[verifier::rlimit(90)]
pub fn decode_record(bytes: &Vec<u8>) -> (r: Option<(u64, WireRecord)>)
    ensures
        match r {
            Some((sink_index, rec)) => dec_msg(bytes@) == Some((sink_index, rec@)),
            None => dec_msg(bytes@) is None,
        },
{
    proof {
        assert(bytes@.skip(0) =~= bytes@);
    }
    let parsed: Option<(u64, WireRecord, usize)> = match read_u64(bytes, 0) {
        Some((sink_index, p0)) => match read_byte(bytes, p0) {
            Some((tag, p1)) => {
                if tag == 0 {
                    match read_str(bytes, p1) {
                        Some((name, p2)) => Some((sink_index, WireRecord::InitSource { name }, p2)),
                        None => None,
                    }
                } else if tag == 1 {
                    match read_str(bytes, p1) {
                        Some((plot_name, p2)) => Some(
                            (sink_index, WireRecord::InitSeriesPlot2d { plot_name }, p2),
                        ),
                        None => None,
                    }
                } else if tag == 2 {
                    match read_u64(bytes, p1) {
                        Some((plot_index, p2)) => match read_str(bytes, p2) {
                            Some((series_name, p3)) => Some(
                                (
                                    sink_index,
                                    WireRecord::InitSeries2d { plot_index, series_name },
                                    p3,
                                ),
                            ),
                            None => None,
                        },
                        None => None,
                    }
                } else if tag == 3 {
                    match read_u64(bytes, p1) {
                        Some((plot_index, p2)) => match read_u64(bytes, p2) {
                            Some((series_index, p3)) => match read_u64(bytes, p3) {
                                Some((x_bits, p4)) => match read_u64(bytes, p4) {
                                    Some((y_bits, p5)) => Some(
                                        (
                                            sink_index,
                                            WireRecord::Series2dPoint {
                                                plot_index,
                                                series_index,
                                                x_bits,
                                                y_bits,
                                            },
                                            p5,
                                        ),
                                    ),
                                    None => None,
                                },
                                None => None,
                            },
                            None => None,
                        },
                        None => None,
                    }
                } else if tag == 4 {
                    match read_u64(bytes, p1) {
                        Some((plot_index, p2)) => match read_u64(bytes, p2) {
                            Some((series_index, p3)) => match read_byte(bytes, p3) {
                                Some((kb, p4)) => {
                                    if kb == 0 || kb == 1 {
                                        let kind = if kb == 0 {
                                            SeriesKind::Scatter
                                        } else {
                                            SeriesKind::Line
                                        };
                                        match read_u64(bytes, p4) {
                                            Some((n, p5)) => match read_pairs(bytes, p5, n) {
                                                Some((points, p6)) => Some(
                                                    (
                                                        sink_index,
                                                        WireRecord::Series2dBatch {
                                                            plot_index,
                                                            series_index,
                                                            kind,
                                                            points,
                                                        },
                                                        p6,
                                                    ),
                                                ),
                                                None => None,
                                            },
                                            None => None,
                                        }
                                    } else {
                                        None
                                    }
                                },
                                None => None,
                            },
                            None => None,
                        },
                        None => None,
                    }
                } else if tag == 5 {
                    match read_str(bytes, p1) {
                        Some((channel_name, p2)) => match read_u32(bytes, p2) {
                            Some((width, p3)) => match read_u32(bytes, p3) {
                                Some((height, p4)) => match read_bytes(bytes, p4) {
                                    Some((pixels, p5)) => Some(
                                        (
                                            sink_index,
                                            WireRecord::InitImage {
                                                channel_name,
                                                frame: Frame { pixels, width, height },
                                            },
                                            p5,
                                        ),
                                    ),
                                    None => None,
                                },
                                None => None,
                            },
                            None => None,
                        },
                        None => None,
                    }
                } else if tag == 6 {
                    match read_u64(bytes, p1) {
                        Some((channel_index, p2)) => match read_u64(bytes, p2) {
                            Some((n, p3)) => match read_i16s(bytes, p3, n) {
                                Some((deltas, p4)) => Some(
                                    (
                                        sink_index,
                                        WireRecord::DeltaImage { channel_index, deltas },
                                        p4,
                                    ),
                                ),
                                None => None,
                            },
                            None => None,
                        },
                        None => None,
                    }
                } else if tag == 7 {
                    match read_byte(bytes, p1) {
                        Some((flag, p2)) => {
                            if flag == 0 {
                                match read_str(bytes, p2) {
                                    Some((text, p3)) => Some(
                                        (
                                            sink_index,
                                            WireRecord::StringMessage { channel_name: None, text },
                                            p3,
                                        ),
                                    ),
                                    None => None,
                                }
                            } else if flag == 1 {
                                match read_str(bytes, p2) {
                                    Some((c, p3)) => match read_str(bytes, p3) {
                                        Some((text, p4)) => Some(
                                            (
                                                sink_index,
                                                WireRecord::StringMessage {
                                                    channel_name: Some(c),
                                                    text,
                                                },
                                                p4,
                                            ),
                                        ),
                                        None => None,
                                    },
                                    None => None,
                                }
                            } else {
                                None
                            }
                        },
                        None => None,
                    }
                } else {
                    None
                }
            },
            None => None,
        },
        None => None,
    };
    match parsed {
        Some((sink_index, rec, p_end)) => {
            if p_end == bytes.len() {
                proof {
                    assert(bytes@.skip(p_end as int).len() == 0);
                }
                Some((sink_index, rec))
            } else {
                proof {
                    assert(bytes@.skip(p_end as int).len() > 0);
                }
                None
            }
        },
        None => None,
    }
}

} // verus!
