use crossbeam_channel::Receiver;
use plotsink::codec::decode_record;
use plotsink::records::{Frame, ImageCompression, SeriesKind, WireRecord};
use plotsink::sink::{PlotSink, CHANNEL_CAPACITY};
use plotsink::transport::frame_record;

const WHITE: (u8, u8, u8) = (255, 255, 255);

fn drain(receiver: &Receiver<WireRecord>) -> Vec<WireRecord> {
    let mut out = Vec::new();
    while let Ok(rec) = receiver.try_recv() {
        out.push(rec);
    }
    out
}

#[test]
fn first_record_is_init_source_after_log() {
    let (mut sink, receiver) = PlotSink::make(String::from("alpha"), WHITE);
    sink.println("first line");
    let records = drain(&receiver);
    assert_eq!(records.len(), 2);
    match &records[0] {
        WireRecord::InitSource { name } => assert_eq!(name, "alpha"),
        _ => panic!("the first record must announce the source"),
    }
    match &records[1] {
        WireRecord::StringMessage { channel_name, text } => {
            assert!(channel_name.is_none());
            assert_eq!(text, "first line");
        }
        _ => panic!("wrong record"),
    }
}

#[test]
fn first_record_is_init_source_after_plot_point() {
    let (mut sink, receiver) = PlotSink::make(String::from("beta"), WHITE);
    sink.plot_series_2d("p", "s", 0, 0);
    let records = drain(&receiver);
    match &records[0] {
        WireRecord::InitSource { name } => assert_eq!(name, "beta"),
        _ => panic!("the first record must announce the source"),
    }
}

#[test]
fn first_record_is_init_source_after_plot_image() {
    let (mut sink, receiver) = PlotSink::make(String::from("gamma"), WHITE);
    let frame = Frame { pixels: vec![0, 0, 0], width: 1, height: 1 };
    sink.plot_image("cam", frame, ImageCompression::Lossless);
    let records = drain(&receiver);
    match &records[0] {
        WireRecord::InitSource { name } => assert_eq!(name, "gamma"),
        _ => panic!("the first record must announce the source"),
    }
}

#[test]
fn channel_tagged_log() {
    let (mut sink, receiver) = PlotSink::make(String::from("tagged"), WHITE);
    sink.println2("status", "ready");
    let records = drain(&receiver);
    match &records[1] {
        WireRecord::StringMessage { channel_name, text } => {
            assert_eq!(channel_name.as_deref(), Some("status"));
            assert_eq!(text, "ready");
        }
        _ => panic!("wrong record"),
    }
}

#[test]
fn plot_indices_are_assigned_in_first_use_order() {
    let (mut sink, receiver) = PlotSink::make(String::from("idx"), WHITE);
    sink.plot_series_2d("p1", "s", 0, 0);
    sink.plot_series_2d("p2", "s", 0, 0);
    sink.plot_series_2d("p3", "s", 0, 0);
    sink.plot_series_2d("p1", "s", 0, 0);
    let records = drain(&receiver);
    let mut plot_declarations = Vec::new();
    let mut points = Vec::new();
    for rec in &records {
        match rec {
            WireRecord::InitSeriesPlot2d { plot_name } => {
                plot_declarations.push(plot_name.clone())
            }
            WireRecord::Series2dPoint { plot_index, .. } => points.push(*plot_index),
            _ => {}
        }
    }
    assert_eq!(plot_declarations, vec!["p1", "p2", "p3"]);
    // the indices the four points carry: first use assigns 0, 1, 2; reuse of p1 yields 0 again
    assert_eq!(points, vec![0, 1, 2, 0]);
}

#[test]
fn series_indices_are_scoped_per_plot() {
    let (mut sink, receiver) = PlotSink::make(String::from("series"), WHITE);
    sink.plot_series_2d("p", "s1", 0, 0);
    sink.plot_series_2d("p", "s2", 0, 0);
    sink.plot_series_2d("q", "s1", 0, 0);
    sink.plot_series_2d("p", "s1", 0, 0);
    let records = drain(&receiver);
    let mut points = Vec::new();
    for rec in &records {
        if let WireRecord::Series2dPoint { plot_index, series_index, .. } = rec {
            points.push((*plot_index, *series_index));
        }
    }
    assert_eq!(points, vec![(0, 0), (0, 1), (1, 0), (0, 0)]);
}

#[test]
fn point_carries_float_bits() {
    let (mut sink, receiver) = PlotSink::make(String::from("bits"), WHITE);
    sink.plot_series_2d("p", "s", 2.5f64.to_bits(), (-1.0f64).to_bits());
    let records = drain(&receiver);
    let last = records.last().unwrap();
    match last {
        WireRecord::Series2dPoint { x_bits, y_bits, .. } => {
            assert_eq!(f64::from_bits(*x_bits), 2.5);
            assert_eq!(f64::from_bits(*y_bits), -1.0);
        }
        _ => panic!("wrong record"),
    }
}

#[test]
fn batches_carry_kind_and_points() {
    let (mut sink, receiver) = PlotSink::make(String::from("batch"), WHITE);
    let data = vec![(1.0f64.to_bits(), 2.0f64.to_bits()), (3.0f64.to_bits(), 4.0f64.to_bits())];
    sink.plot_series_2d_vec("p", "scatter", data.clone());
    sink.plot_line_2d("p", "line", data.clone());
    let records = drain(&receiver);
    let mut batches = Vec::new();
    for rec in &records {
        if let WireRecord::Series2dBatch { kind, points, .. } = rec {
            batches.push((*kind, points.clone()));
        }
    }
    assert_eq!(batches.len(), 2);
    assert!(matches!(batches[0].0, SeriesKind::Scatter));
    assert_eq!(batches[0].1, data);
    assert!(matches!(batches[1].0, SeriesKind::Line));
    assert_eq!(batches[1].1, data);
}

#[test]
fn at_most_capacity_records_are_delivered() {
    let (mut sink, receiver) = PlotSink::make(String::from("burst"), WHITE);
    for i in 0..(CHANNEL_CAPACITY + 50) {
        sink.println(&format!("line {}", i));
    }
    let records = drain(&receiver);
    assert_eq!(records.len(), CHANNEL_CAPACITY);
}

#[test]
fn second_image_on_channel_is_a_delta() {
    let (mut sink, receiver) = PlotSink::make(String::from("cam"), WHITE);
    let f1 = Frame { pixels: vec![10, 20, 30], width: 1, height: 1 };
    let f2 = Frame { pixels: vec![11, 19, 30], width: 1, height: 1 };
    sink.plot_image("c", f1, ImageCompression::Lossless);
    sink.plot_image("c", f2, ImageCompression::Lossless);
    let records = drain(&receiver);
    assert_eq!(records.len(), 3);
    assert!(matches!(&records[1], WireRecord::InitImage { .. }));
    match &records[2] {
        WireRecord::DeltaImage { channel_index, deltas } => {
            assert_eq!(*channel_index, 0);
            assert_eq!(*deltas, vec![1, -1, 0]);
        }
        _ => panic!("the second update must be a delta"),
    }
}

#[test]
fn dimension_change_forces_full_frame() {
    let (mut sink, receiver) = PlotSink::make(String::from("dims"), WHITE);
    let f1 = Frame { pixels: vec![0, 0, 0], width: 1, height: 1 };
    let f2 = Frame { pixels: vec![0, 0, 0, 0, 0, 0], width: 2, height: 1 };
    sink.plot_image("c", f1, ImageCompression::Lossless);
    sink.plot_image("c", f2, ImageCompression::Lossless);
    let records = drain(&receiver);
    assert!(matches!(&records[1], WireRecord::InitImage { .. }));
    match &records[2] {
        WireRecord::InitImage { frame, .. } => assert_eq!(frame.width, 2),
        _ => panic!("a dimension change must resend a full frame"),
    }
}

#[test]
fn failed_delta_enqueue_forces_full_frame_resync() {
    let (mut sink, _receiver) = PlotSink::make(String::from("resync"), WHITE);
    let f1 = Frame { pixels: vec![10, 20, 30], width: 1, height: 1 };
    // Two records so far: InitSource and InitImage. Fill the channel to
    // capacity with log lines while it is still draining nowhere.
    sink.plot_image("c", f1, ImageCompression::Lossless);
    for _ in 0..(CHANNEL_CAPACITY - 2) {
        sink.println("filler");
    }
    // The channel is now full and the sink has not warned yet, so this
    // delta's enqueue reports failure and invalidates the cache.
    let f2 = Frame { pixels: vec![11, 21, 31], width: 1, height: 1 };
    sink.plot_image("c", f2, ImageCompression::Lossless);
    // The next update for the channel must resynchronize with a full frame.
    let f3 = Frame { pixels: vec![12, 22, 32], width: 1, height: 1 };
    sink.plot_image("c", f3, ImageCompression::Lossless);
    let records = drain(&_receiver);
    assert_eq!(records.len(), CHANNEL_CAPACITY);
    match &records[records.len() - 2] {
        WireRecord::DeltaImage { .. } => {}
        _ => panic!("the failed update still enqueued its delta"),
    }
    match &records[records.len() - 1] {
        WireRecord::InitImage { frame, .. } => assert_eq!(frame.pixels, vec![12, 22, 32]),
        _ => panic!("after a failed delta the next update must be a full frame"),
    }
}

#[test]
fn end_to_end_stream_decodes_to_two_records() {
    let (mut sink, receiver) = PlotSink::make(String::from("hello!"), WHITE);
    sink.println("hello world!");
    // What the transport thread would write: each record framed onto the
    // stream in order.
    let mut stream: Vec<u8> = Vec::new();
    for rec in drain(&receiver) {
        stream.extend_from_slice(&frame_record(7, &rec).unwrap());
    }
    // What the visualizer would read back.
    let mut decoded: Vec<(u64, WireRecord)> = Vec::new();
    let mut at = 0usize;
    while at < stream.len() {
        let mut len_bytes = [0u8; 8];
        len_bytes.copy_from_slice(&stream[at..at + 8]);
        let len = u64::from_le_bytes(len_bytes) as usize;
        at += 8;
        let payload = snap::raw::Decoder::new()
            .decompress_vec(&stream[at..at + len])
            .expect("valid snap payload");
        at += len;
        decoded.push(decode_record(&payload).expect("valid record bytes"));
    }
    assert_eq!(decoded.len(), 2);
    assert_eq!(decoded[0].0, 7);
    match &decoded[0].1 {
        WireRecord::InitSource { name } => assert_eq!(name, "hello!"),
        _ => panic!("the stream must open with the source announcement"),
    }
    match &decoded[1].1 {
        WireRecord::StringMessage { channel_name, text } => {
            assert!(channel_name.is_none());
            assert_eq!(text, "hello world!");
        }
        _ => panic!("the log line must follow"),
    }
}
