use plotsink::delta::{delta_decode, delta_encode};
use plotsink::records::ImageCompression;

#[test]
fn masks_have_expected_bits() {
    assert_eq!(ImageCompression::Lossless.mask(), 0b1111_1111);
    assert_eq!(ImageCompression::Lvl1.mask(), 0b1111_1110);
    assert_eq!(ImageCompression::Lvl2.mask(), 0b1111_1100);
    assert_eq!(ImageCompression::Lvl3.mask(), 0b1111_1000);
}

#[test]
fn lossless_roundtrip_is_exact() {
    let prev: Vec<u8> = vec![0, 1, 127, 128, 200, 255, 3, 77];
    let next: Vec<u8> = vec![255, 0, 128, 127, 201, 0, 3, 80];
    let deltas = delta_encode(&prev, &next, ImageCompression::Lossless).unwrap();
    let back = delta_decode(&prev, &deltas).unwrap();
    assert_eq!(back, next);
}

#[test]
fn exact_delta_values() {
    let prev: Vec<u8> = vec![0x0f, 0x00, 0xff];
    let next: Vec<u8> = vec![0xff, 0x08, 0x00];
    let deltas = delta_encode(&prev, &next, ImageCompression::Lvl3).unwrap();
    // (0xf8 & 0xff) - (0xf8 & 0x0f): 0xf8 - 0x08 = 240; 0x08 - 0x00 = 8; 0x00 - 0xf8 = -248
    assert_eq!(deltas, vec![240, 8, -248]);
}

#[test]
fn lossy_roundtrip_matches_on_kept_bits() {
    let prev: Vec<u8> = vec![0x0f, 0x11, 0xa5, 0xfe, 0x07];
    let next: Vec<u8> = vec![0xf0, 0x92, 0x5a, 0x01, 0xff];
    for mask in [ImageCompression::Lvl1, ImageCompression::Lvl2, ImageCompression::Lvl3] {
        let m = mask.mask();
        let deltas = delta_encode(&prev, &next, mask).unwrap();
        let back = delta_decode(&prev, &deltas).unwrap();
        for i in 0..next.len() {
            assert_eq!(back[i] & m, next[i] & m);
        }
    }
}

#[test]
fn lossy_roundtrip_from_drifted_base() {
    // The receiver's base agrees with the encoder's previous frame only on
    // the kept bits; reconstruction must still match the new frame there.
    let prev: Vec<u8> = vec![0x10, 0x20, 0x84];
    let base: Vec<u8> = vec![0x13, 0x27, 0x80];
    let next: Vec<u8> = vec![0xa0, 0x55, 0x1f];
    let mask = ImageCompression::Lvl3;
    let m = mask.mask();
    for i in 0..prev.len() {
        assert_eq!(base[i] & m, prev[i] & m);
    }
    let deltas = delta_encode(&prev, &next, mask).unwrap();
    let back = delta_decode(&base, &deltas).unwrap();
    for i in 0..next.len() {
        assert_eq!(back[i] & m, next[i] & m);
    }
}

#[test]
fn encode_rejects_length_mismatch() {
    let prev: Vec<u8> = vec![1, 2, 3];
    let next: Vec<u8> = vec![1, 2];
    assert!(delta_encode(&prev, &next, ImageCompression::Lossless).is_none());
}

#[test]
fn decode_rejects_length_mismatch() {
    let base: Vec<u8> = vec![1, 2, 3];
    let deltas: Vec<i16> = vec![0, 0];
    assert!(delta_decode(&base, &deltas).is_none());
}

#[test]
fn decode_rejects_out_of_range_sum() {
    let base: Vec<u8> = vec![250];
    let deltas: Vec<i16> = vec![10];
    assert!(delta_decode(&base, &deltas).is_none());
    let base2: Vec<u8> = vec![3];
    let deltas2: Vec<i16> = vec![-4];
    assert!(delta_decode(&base2, &deltas2).is_none());
}

#[test]
fn empty_buffers_roundtrip() {
    let prev: Vec<u8> = Vec::new();
    let next: Vec<u8> = Vec::new();
    let deltas = delta_encode(&prev, &next, ImageCompression::Lossless).unwrap();
    assert!(deltas.is_empty());
    let back = delta_decode(&prev, &deltas).unwrap();
    assert!(back.is_empty());
}
