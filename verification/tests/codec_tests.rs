use plotsink::codec::{decode_record, encode_record};
use plotsink::records::{Frame, SeriesKind, WireRecord};
use plotsink::transport::{frame_record, select_port};

fn roundtrip(sink_index: u64, rec: &WireRecord) -> (u64, WireRecord) {
    let bytes = encode_record(sink_index, rec);
    decode_record(&bytes).expect("an encoded record must decode")
}

#[test]
fn roundtrip_init_source() {
    let (idx, rec) = roundtrip(3, &WireRecord::InitSource { name: String::from("hello!") });
    assert_eq!(idx, 3);
    match rec {
        WireRecord::InitSource { name } => assert_eq!(name, "hello!"),
        _ => panic!("wrong variant"),
    }
}

#[test]
fn roundtrip_init_series_plot() {
    let (idx, rec) = roundtrip(0, &WireRecord::InitSeriesPlot2d {
        plot_name: String::from("losses"),
    });
    assert_eq!(idx, 0);
    match rec {
        WireRecord::InitSeriesPlot2d { plot_name } => assert_eq!(plot_name, "losses"),
        _ => panic!("wrong variant"),
    }
}

#[test]
fn roundtrip_init_series() {
    let (_, rec) = roundtrip(1, &WireRecord::InitSeries2d {
        plot_index: 4,
        series_name: String::from("train"),
    });
    match rec {
        WireRecord::InitSeries2d { plot_index, series_name } => {
            assert_eq!(plot_index, 4);
            assert_eq!(series_name, "train");
        }
        _ => panic!("wrong variant"),
    }
}

#[test]
fn roundtrip_point() {
    let x = 1.5f64.to_bits();
    let y = (-0.25f64).to_bits();
    let (_, rec) = roundtrip(9, &WireRecord::Series2dPoint {
        plot_index: 1,
        series_index: 2,
        x_bits: x,
        y_bits: y,
    });
    match rec {
        WireRecord::Series2dPoint { plot_index, series_index, x_bits, y_bits } => {
            assert_eq!(plot_index, 1);
            assert_eq!(series_index, 2);
            assert_eq!(f64::from_bits(x_bits), 1.5);
            assert_eq!(f64::from_bits(y_bits), -0.25);
        }
        _ => panic!("wrong variant"),
    }
}

#[test]
fn roundtrip_batch() {
    let points = vec![(1u64, 2u64), (3u64, 4u64), (5u64, 6u64)];
    let (_, rec) = roundtrip(7, &WireRecord::Series2dBatch {
        plot_index: 0,
        series_index: 1,
        kind: SeriesKind::Line,
        points: points.clone(),
    });
    match rec {
        WireRecord::Series2dBatch { plot_index, series_index, kind, points: got } => {
            assert_eq!(plot_index, 0);
            assert_eq!(series_index, 1);
            assert!(matches!(kind, SeriesKind::Line));
            assert_eq!(got, points);
        }
        _ => panic!("wrong variant"),
    }
}

#[test]
fn roundtrip_init_image() {
    let frame = Frame { pixels: vec![1, 2, 3, 4, 5, 6], width: 2, height: 1 };
    let (_, rec) = roundtrip(2, &WireRecord::InitImage {
        channel_name: String::from("camera"),
        frame,
    });
    match rec {
        WireRecord::InitImage { channel_name, frame } => {
            assert_eq!(channel_name, "camera");
            assert_eq!(frame.width, 2);
            assert_eq!(frame.height, 1);
            assert_eq!(frame.pixels, vec![1, 2, 3, 4, 5, 6]);
        }
        _ => panic!("wrong variant"),
    }
}

#[test]
fn roundtrip_delta_image() {
    let (_, rec) = roundtrip(2, &WireRecord::DeltaImage {
        channel_index: 5,
        deltas: vec![-255, 0, 255, -8],
    });
    match rec {
        WireRecord::DeltaImage { channel_index, deltas } => {
            assert_eq!(channel_index, 5);
            assert_eq!(deltas, vec![-255, 0, 255, -8]);
        }
        _ => panic!("wrong variant"),
    }
}

#[test]
fn roundtrip_string_message() {
    let (_, rec) = roundtrip(0, &WireRecord::StringMessage {
        channel_name: Some(String::from("status")),
        text: String::from("ready"),
    });
    match rec {
        WireRecord::StringMessage { channel_name, text } => {
            assert_eq!(channel_name.as_deref(), Some("status"));
            assert_eq!(text, "ready");
        }
        _ => panic!("wrong variant"),
    }
}

#[test]
fn exact_bytes_of_string_message() {
    let bytes = encode_record(2, &WireRecord::StringMessage {
        channel_name: None,
        text: String::from("hi"),
    });
    let mut expected: Vec<u8> = Vec::new();
    expected.extend_from_slice(&2u64.to_le_bytes());
    expected.push(7);
    expected.push(0);
    expected.extend_from_slice(&2u64.to_le_bytes());
    expected.extend_from_slice(b"hi");
    assert_eq!(bytes, expected);
}

#[test]
fn exact_bytes_of_point() {
    let bytes = encode_record(1, &WireRecord::Series2dPoint {
        plot_index: 3,
        series_index: 4,
        x_bits: 5,
        y_bits: 6,
    });
    let mut expected: Vec<u8> = Vec::new();
    expected.extend_from_slice(&1u64.to_le_bytes());
    expected.push(3);
    expected.extend_from_slice(&3u64.to_le_bytes());
    expected.extend_from_slice(&4u64.to_le_bytes());
    expected.extend_from_slice(&5u64.to_le_bytes());
    expected.extend_from_slice(&6u64.to_le_bytes());
    assert_eq!(bytes, expected);
}

#[test]
fn decode_rejects_truncated_bytes() {
    let bytes = encode_record(2, &WireRecord::InitSource { name: String::from("x") });
    let truncated: Vec<u8> = bytes[..bytes.len() - 1].to_vec();
    assert!(decode_record(&truncated).is_none());
}

#[test]
fn decode_rejects_trailing_bytes() {
    let mut bytes = encode_record(2, &WireRecord::InitSource { name: String::from("x") });
    bytes.push(0);
    assert!(decode_record(&bytes).is_none());
}

#[test]
fn decode_rejects_unknown_tag() {
    let mut bytes: Vec<u8> = Vec::new();
    bytes.extend_from_slice(&0u64.to_le_bytes());
    bytes.push(200);
    assert!(decode_record(&bytes).is_none());
}

#[test]
fn frame_has_length_prefix_and_snap_payload() {
    let rec = WireRecord::StringMessage { channel_name: None, text: String::from("hello world!") };
    let framed = frame_record(0, &rec).expect("framing a small record succeeds");
    let mut len_bytes = [0u8; 8];
    len_bytes.copy_from_slice(&framed[..8]);
    let len = u64::from_le_bytes(len_bytes) as usize;
    assert_eq!(len, framed.len() - 8);
    let payload = snap::raw::Decoder::new()
        .decompress_vec(&framed[8..])
        .expect("the payload is valid snap data");
    assert_eq!(payload, encode_record(0, &rec));
}

#[test]
fn select_port_takes_first_free() {
    let occupied = vec![8000u16, 8001u16];
    assert_eq!(select_port(8000, 8003, &occupied), Some(8002));
}

#[test]
fn select_port_fails_on_exhausted_range() {
    let occupied = vec![8000u16, 8001u16, 8002u16];
    assert_eq!(select_port(8000, 8003, &occupied), None);
}

#[test]
fn select_port_skips_occupied_gaps() {
    let occupied = vec![8001u16];
    assert_eq!(select_port(8000, 8003, &occupied), Some(8000));
    assert_eq!(select_port(8001, 8003, &occupied), Some(8002));
}

#[test]
fn select_port_empty_range() {
    let occupied: Vec<u16> = Vec::new();
    assert_eq!(select_port(9000, 9000, &occupied), None);
}
