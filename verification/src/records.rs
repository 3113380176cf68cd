//! The wire record model: the tagged union of telemetry events that cross
//! from the application thread to the transport thread, and the ghost view
//! that contracts speak about.
//!
//! Series coordinates travel as the 64 bit patterns of the caller's floating
//! point values: the sink never reads them, it only carries them, so the
//! library holds them as plain `u64` values.

use vstd::prelude::*;

verus! {

/// Quantization masks for the delta-image encoder: lossless keeps every bit
/// of each channel byte, the three coarser levels mask out progressively more
/// low-order bits before differencing.
#[derive(Clone, Copy, PartialEq, Eq, Structural, Debug)]
pub enum ImageCompression {
    Lossless,
    Lvl1,
    Lvl2,
    Lvl3,
}

impl ImageCompression {
    /// The mask applied to every channel byte before differencing.
    pub open spec fn spec_mask(self) -> u8 {
        match self {
            ImageCompression::Lossless => 0xff,
            ImageCompression::Lvl1 => 0xfe,
            ImageCompression::Lvl2 => 0xfc,
            ImageCompression::Lvl3 => 0xf8,
        }
    }

    #[verifier::when_used_as_spec(spec_mask)]
    pub fn mask(self) -> (m: u8)
        ensures
            m == self.spec_mask(),
    {
        match self {
            ImageCompression::Lossless => 0xff,
            ImageCompression::Lvl1 => 0xfe,
            ImageCompression::Lvl2 => 0xfc,
            ImageCompression::Lvl3 => 0xf8,
        }
    }
}

/// How a batch of 2-D points is meant to be drawn.
#[derive(Clone, Copy, PartialEq, Eq, Structural, Debug)]
pub enum SeriesKind {
    Scatter,
    Line,
}

/// A raster frame: row-major pixels, three channel bytes per pixel.
pub struct Frame {
    pub pixels: Vec<u8>,
    pub width: u32,
    pub height: u32,
}

/// The ghost image of a [`Frame`].
pub ghost struct FrameModel {
    pub pixels: Seq<u8>,
    pub width: u32,
    pub height: u32,
}

impl Frame {
    /// A frame is well formed when it holds exactly three channel bytes per
    /// pixel of its stated dimensions.
    pub open spec fn wf(self) -> bool {
        self.pixels@.len() == 3 * (self.width as int) * (self.height as int)
    }
}

impl View for Frame {
    type V = FrameModel;

    open spec fn view(&self) -> FrameModel {
        FrameModel { pixels: self.pixels@, width: self.width, height: self.height }
    }
}

impl Clone for Frame {
    fn clone(&self) -> (r: Self)
        ensures
            r@ == self@,
    {
        Frame { pixels: self.pixels.clone(), width: self.width, height: self.height }
    }
}

/// One telemetry event, as enqueued toward the transport thread.
#[allow(inconsistent_fields)]
pub enum WireRecord {
    /// The sink's display name; always the first record a sink ever emits.
    InitSource { name: String },
    /// Declares a new named 2-D plot.
    InitSeriesPlot2d { plot_name: String },
    /// Declares a new named series within the plot of the given index.
    InitSeries2d { plot_index: u64, series_name: String },
    /// One data point; coordinates are `f64` bit patterns.
    Series2dPoint { plot_index: u64, series_index: u64, x_bits: u64, y_bits: u64 },
    /// A batch of points; coordinates are `f64` bit patterns.
    Series2dBatch {
        plot_index: u64,
        series_index: u64,
        kind: SeriesKind,
        points: Vec<(u64, u64)>,
    },
    /// A full reference frame for an image channel.
    InitImage { channel_name: String, frame: Frame },
    /// An incremental update relative to the last cached frame of a channel.
    DeltaImage { channel_index: u64, deltas: Vec<i16> },
    /// A log line, optionally tagged to a named channel.
    StringMessage { channel_name: Option<String>, text: String },
}

/// The ghost image of a [`WireRecord`]: the same tagged union over
/// mathematical sequences.
#[allow(inconsistent_fields)]
pub ghost enum Rec {
    InitSource { name: Seq<char> },
    InitSeriesPlot2d { plot_name: Seq<char> },
    InitSeries2d { plot_index: u64, series_name: Seq<char> },
    Series2dPoint { plot_index: u64, series_index: u64, x_bits: u64, y_bits: u64 },
    Series2dBatch {
        plot_index: u64,
        series_index: u64,
        kind: SeriesKind,
        points: Seq<(u64, u64)>,
    },
    InitImage { channel_name: Seq<char>, frame: FrameModel },
    DeltaImage { channel_index: u64, deltas: Seq<i16> },
    StringMessage { channel_name: Option<Seq<char>>, text: Seq<char> },
}

impl View for WireRecord {
    type V = Rec;

    open spec fn view(&self) -> Rec {
        match self {
            WireRecord::InitSource { name } => Rec::InitSource { name: name@ },
            WireRecord::InitSeriesPlot2d { plot_name } => Rec::InitSeriesPlot2d {
                plot_name: plot_name@,
            },
            WireRecord::InitSeries2d { plot_index, series_name } => Rec::InitSeries2d {
                plot_index: *plot_index,
                series_name: series_name@,
            },
            WireRecord::Series2dPoint { plot_index, series_index, x_bits, y_bits } => {
                Rec::Series2dPoint {
                    plot_index: *plot_index,
                    series_index: *series_index,
                    x_bits: *x_bits,
                    y_bits: *y_bits,
                }
            },
            WireRecord::Series2dBatch { plot_index, series_index, kind, points } => {
                Rec::Series2dBatch {
                    plot_index: *plot_index,
                    series_index: *series_index,
                    kind: *kind,
                    points: points@,
                }
            },
            WireRecord::InitImage { channel_name, frame } => Rec::InitImage {
                channel_name: channel_name@,
                frame: frame@,
            },
            WireRecord::DeltaImage { channel_index, deltas } => Rec::DeltaImage {
                channel_index: *channel_index,
                deltas: deltas@,
            },
            WireRecord::StringMessage { channel_name, text } => Rec::StringMessage {
                channel_name: match channel_name {
                    Some(c) => Some(c@),
                    None => None,
                },
                text: text@,
            },
        }
    }
}

} // verus!
