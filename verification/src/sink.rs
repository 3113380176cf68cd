//! The telemetry sink: per-sink registry and cache state, the enqueue
//! policy toward the bounded channel, and the record emission rules.
//!
//! The sink owns its registry and image cache exclusively; only wire records
//! cross the thread boundary, through the bounded channel. The ghost field
//! `emitted` records every record the sink has offered to the channel, in
//! order, and the sink's invariant pins the first of them to be the
//! `InitSource` record carrying the sink's name.

use vstd::prelude::*;

use crate::delta::{delta_encode, spec_delta};
use crate::outside::{
    channel_bounded, channel_is_full, channel_try_recv, channel_try_send, console_line,
    console_warn, receiver_clone, str_eq,
};
use crate::records::{Frame, FrameModel, ImageCompression, Rec, SeriesKind, WireRecord};

verus! {

/// How many records the bounded channel holds at most.
pub const CHANNEL_CAPACITY: usize = 100;

/// One registered 2-D plot: its name and its series names, in first-use
/// order; the index of a plot or series is its position.
pub struct PlotEntry {
    pub name: String,
    pub series: Vec<String>,
}

/// The ghost image of a [`PlotEntry`].
pub ghost struct PlotEntryModel {
    pub name: Seq<char>,
    pub series: Seq<Seq<char>>,
}

impl View for PlotEntry {
    type V = PlotEntryModel;

    open spec fn view(&self) -> PlotEntryModel {
        PlotEntryModel { name: self.name@, series: self.series@.map_values(|s: String| s@) }
    }
}

/// One registered image channel: its name and the cached last frame, or
/// `None` after an invalidation; the channel's index is its position.
pub struct ImageEntry {
    pub name: String,
    pub cache: Option<Frame>,
}

/// The ghost image of an [`ImageEntry`].
pub ghost struct ImageEntryModel {
    pub name: Seq<char>,
    pub cache: Option<FrameModel>,
}

impl View for ImageEntry {
    type V = ImageEntryModel;

    open spec fn view(&self) -> ImageEntryModel {
        ImageEntryModel {
            name: self.name@,
            cache: match self.cache {
                Some(f) => Some(f@),
                None => None,
            },
        }
    }
}

/// The position of the first occurrence of `name`, or `-1` when absent.
pub open spec fn index_of_name(names: Seq<Seq<char>>, name: Seq<char>) -> int
    decreases names.len(),
{
    if names.len() == 0 {
        -1
    } else if names[0] == name {
        0
    } else {
        let r = index_of_name(names.drop_first(), name);
        if r == -1 {
            -1
        } else {
            r + 1
        }
    }
}

/// What `index_of_name` means: a found index points at the first
/// occurrence, and `-1` means the name is absent.
pub proof fn lemma_index_of_name(names: Seq<Seq<char>>, name: Seq<char>)
    ensures
        index_of_name(names, name) == -1 ==> forall|j: int|
            0 <= j < names.len() ==> names[j] != name,
        index_of_name(names, name) != -1 ==> {
            let i = index_of_name(names, name);
            &&& 0 <= i < names.len()
            &&& names[i] == name
            &&& forall|j: int| 0 <= j < i ==> names[j] != name
        },
    decreases names.len(),
{
    if names.len() == 0 {
    } else if names[0] == name {
    } else {
        lemma_index_of_name(names.drop_first(), name);
        assert forall|j: int| 1 <= j < names.len() implies names.drop_first()[j - 1] == names[j] by {}
    }
}

/// The plot names of a registry, in order.
pub open spec fn plot_names(plots: Seq<PlotEntryModel>) -> Seq<Seq<char>> {
    plots.map_values(|p: PlotEntryModel| p.name)
}

/// The image channel names of a registry, in order.
pub open spec fn image_names(images: Seq<ImageEntryModel>) -> Seq<Seq<char>> {
    images.map_values(|e: ImageEntryModel| e.name)
}

/// Pairwise-distinct names.
pub open spec fn names_unique(names: Seq<Seq<char>>) -> bool {
    forall|i: int, j: int| 0 <= i < j < names.len() ==> names[i] != names[j]
}

/// The ghost image of a [`PlotSink`].
pub ghost struct SinkModel {
    pub name: Seq<char>,
    pub first_send: bool,
    pub full_warn: bool,
    pub plots: Seq<PlotEntryModel>,
    pub images: Seq<ImageEntryModel>,
    pub emitted: Seq<Rec>,
    pub warns: int,
}

/// The per-plot-group telemetry endpoint. It owns the registry, the image
/// cache and the producing side of the bounded channel; the receiving side
/// goes to the transport loop.
pub struct PlotSink {
    name: String,
    color: (u8, u8, u8),
    sender: crossbeam_channel::Sender<WireRecord>,
    drain: crossbeam_channel::Receiver<WireRecord>,
    first_send: bool,
    full_warn: bool,
    plots: Vec<PlotEntry>,
    images: Vec<ImageEntry>,
    emitted: Ghost<Seq<Rec>>,
    warns: Ghost<int>,
}

impl View for PlotSink {
    type V = SinkModel;

    closed spec fn view(&self) -> SinkModel {
        SinkModel {
            name: self.name@,
            first_send: self.first_send,
            full_warn: self.full_warn,
            plots: self.plots@.map_values(|p: PlotEntry| p@),
            images: self.images@.map_values(|e: ImageEntry| e@),
            emitted: self.emitted@,
            warns: self.warns@,
        }
    }
}

/// The records a send prepends when it is the sink's first: exactly one
/// `InitSource`, carrying the sink's name, before anything else.
pub open spec fn first_prefix(m: SinkModel) -> Seq<Rec> {
    if m.first_send {
        seq![Rec::InitSource { name: m.name }]
    } else {
        Seq::empty()
    }
}

/// How many warnings one enqueue step emits, given the warned-state before
/// it and the fullness it observed: one exactly when the channel turned out
/// full and the previous step had not already warned.
pub open spec fn warn_step(warned_before: bool, full_observed: bool) -> int {
    if full_observed && !warned_before {
        1
    } else {
        0
    }
}

impl PlotSink {
    /// The sink's invariant: the emitted history starts with `InitSource`
    /// exactly when anything was emitted at all, `first_send` tracks
    /// emptiness of the history, registered names are unique, and every
    /// cached frame matches its stated dimensions.
    pub open spec fn wf(self) -> bool {
        let m = self@;
        &&& m.first_send <==> m.emitted.len() == 0
        &&& m.emitted.len() > 0 ==> m.emitted[0] == (Rec::InitSource { name: m.name })
        &&& names_unique(plot_names(m.plots))
        &&& forall|i: int| 0 <= i < m.plots.len() ==> names_unique(#[trigger] m.plots[i].series)
        &&& names_unique(image_names(m.images))
        &&& forall|i: int|
            0 <= i < m.images.len() ==> match #[trigger] m.images[i].cache {
                Some(f) => f.pixels.len() == 3 * (f.width as int) * (f.height as int),
                None => true,
            }
    }

    /// Constructs a sink and its channel. The second component is the
    /// receiving end, meant for the transport loop that drains the sink.
    pub fn make(name: String, color: (u8, u8, u8)) -> (r: (
        PlotSink,
        crossbeam_channel::Receiver<WireRecord>,
    ))
        ensures
            r.0.wf(),
            r.0@.name == name@,
            r.0@.first_send == true,
            r.0@.full_warn == false,
            r.0@.plots.len() == 0,
            r.0@.images.len() == 0,
            r.0@.emitted.len() == 0,
            r.0@.warns == 0,
    {
        let (sender, receiver) = channel_bounded(CHANNEL_CAPACITY);
        let drain = receiver_clone(&receiver);
        let sink = PlotSink {
            name,
            color,
            sender,
            drain,
            first_send: true,
            full_warn: false,
            plots: Vec::new(),
            images: Vec::new(),
            emitted: Ghost(Seq::empty()),
            warns: Ghost(0),
        };
        proof {
            assert(plot_names(sink@.plots) =~= Seq::<Seq<char>>::empty());
            assert(image_names(sink@.images) =~= Seq::<Seq<char>>::empty());
        }
        (sink, receiver)
    }

    /// One enqueue step: observe fullness, warn once per overflow episode
    /// and drop the oldest pending record to make room, then offer the
    /// record. The observed fullness is what `full_warn` holds afterwards;
    /// the step warns accordingly, and a fresh warning reports failure.
    fn send_raw(&mut self, d: WireRecord) -> (ok: bool)
        ensures
            final(self)@.name == old(self)@.name,
            final(self)@.first_send == old(self)@.first_send,
            final(self)@.plots == old(self)@.plots,
            final(self)@.images == old(self)@.images,
            final(self)@.emitted == old(self)@.emitted.push(d@),
            final(self)@.warns == old(self)@.warns + warn_step(
                old(self)@.full_warn,
                final(self)@.full_warn,
            ),
            final(self)@.full_warn && !old(self)@.full_warn ==> !ok,
    {
        let ghost dv = d@;
        let mut ok = true;
        let full = channel_is_full(&self.sender);
        if full {
            if !self.full_warn {
                self.full_warn = true;
                proof {
                    self.warns@ = self.warns@ + 1;
                }
                console_warn(self.color, self.name.as_str(), "channel is full, dropping data");
                ok = false;
            }
            let _ = channel_try_recv(&self.drain);
        } else {
            self.full_warn = false;
        }
        let sent = channel_try_send(&self.sender, d);
        if !sent {
            console_warn(self.color, self.name.as_str(), "sending on a disconnected channel");
            ok = false;
        }
        proof {
            self.emitted@ = self.emitted@.push(dv);
        }
        ok
    }

    /// Emits one record, preceded by the one-time `InitSource` record on
    /// the sink's very first send.
    fn send(&mut self, d: WireRecord) -> (ok: bool)
        requires
            old(self).wf(),
        ensures
            final(self).wf(),
            final(self)@.name == old(self)@.name,
            final(self)@.first_send == false,
            final(self)@.plots == old(self)@.plots,
            final(self)@.images == old(self)@.images,
            final(self)@.emitted == old(self)@.emitted + first_prefix(old(self)@) + seq![d@],
            final(self)@.warns >= old(self)@.warns,
            !old(self)@.first_send ==> final(self)@.warns == old(self)@.warns + warn_step(
                old(self)@.full_warn,
                final(self)@.full_warn,
            ),
            !old(self)@.first_send && final(self)@.full_warn && !old(self)@.full_warn ==> !ok,
    {
        if self.first_send {
            self.first_send = false;
            let init = WireRecord::InitSource { name: self.name.clone() };
            let _ = self.send_raw(init);
        }
        let ok = self.send_raw(d);
        proof {
            assert(self@.emitted =~= old(self)@.emitted + first_prefix(old(self)@) + seq![d@]);
        }
        ok
    }

    fn find_plot(&self, name: &str) -> (r: Option<usize>)
        ensures
            match r {
                Some(i) => 0 <= i < self@.plots.len() && index_of_name(
                    plot_names(self@.plots),
                    name@,
                ) == i,
                None => index_of_name(plot_names(self@.plots), name@) == -1,
            },
    {
        let ghost names = plot_names(self@.plots);
        let mut i: usize = 0;
        while i < self.plots.len()
            invariant
                0 <= i <= self@.plots.len(),
                names == plot_names(self@.plots),
                forall|j: int| 0 <= j < i ==> names[j] != name@,
            decreases self@.plots.len() - i,
        {
            if str_eq(self.plots[i].name.as_str(), name) {
                proof {
                    assert(names[i as int] == self@.plots[i as int].name);
                    lemma_index_of_name(names, name@);
                }
                return Some(i);
            }
            i = i + 1;
        }
        proof {
            lemma_index_of_name(names, name@);
        }
        None
    }

    fn find_series(&self, pi: usize, name: &str) -> (r: Option<usize>)
        requires
            pi < self@.plots.len(),
        ensures
            match r {
                Some(j) => 0 <= j < self@.plots[pi as int].series.len() && index_of_name(
                    self@.plots[pi as int].series,
                    name@,
                ) == j,
                None => index_of_name(self@.plots[pi as int].series, name@) == -1,
            },
    {
        let ghost names = self@.plots[pi as int].series;
        let entry = &self.plots[pi];
        let mut j: usize = 0;
        while j < entry.series.len()
            invariant
                0 <= j <= names.len(),
                pi < self@.plots.len(),
                names == self@.plots[pi as int].series,
                names == entry@.series,
                forall|k: int| 0 <= k < j ==> names[k] != name@,
            decreases names.len() - j,
        {
            if str_eq(entry.series[j].as_str(), name) {
                proof {
                    assert(names[j as int] == entry@.series[j as int]);
                    lemma_index_of_name(names, name@);
                }
                return Some(j);
            }
            j = j + 1;
        }
        proof {
            lemma_index_of_name(names, name@);
        }
        None
    }

    fn find_image(&self, name: &str) -> (r: Option<usize>)
        ensures
            match r {
                Some(i) => 0 <= i < self@.images.len() && index_of_name(
                    image_names(self@.images),
                    name@,
                ) == i,
                None => index_of_name(image_names(self@.images), name@) == -1,
            },
    {
        let ghost names = image_names(self@.images);
        let mut i: usize = 0;
        while i < self.images.len()
            invariant
                0 <= i <= self@.images.len(),
                names == image_names(self@.images),
                forall|j: int| 0 <= j < i ==> names[j] != name@,
            decreases self@.images.len() - i,
        {
            if str_eq(self.images[i].name.as_str(), name) {
                proof {
                    assert(names[i as int] == self@.images[i as int].name);
                    lemma_index_of_name(names, name@);
                }
                return Some(i);
            }
            i = i + 1;
        }
        proof {
            lemma_index_of_name(names, name@);
        }
        None
    }

    /// Resolves or creates the plot and series indices for a name pair,
    /// emitting the declaration records that first use requires.
    fn init_series_2d(&mut self, plot_name: &str, series_name: &str) -> (r: (usize, usize))
        requires
            old(self).wf(),
        ensures
            final(self).wf(),
            final(self)@.name == old(self)@.name,
            final(self)@.images == old(self)@.images,
            final(self)@.plots == reg_update(old(self)@.plots, plot_name@, series_name@),
            r.0 == plot_index_after(old(self)@.plots, plot_name@),
            r.1 == series_index_after(old(self)@.plots, plot_name@, series_name@),
            r.0 < final(self)@.plots.len(),
            final(self)@.emitted == old(self)@.emitted + (if init_records(
                old(self)@.plots,
                plot_name@,
                series_name@,
            ).len() == 0 {
                Seq::<Rec>::empty()
            } else {
                first_prefix(old(self)@) + init_records(old(self)@.plots, plot_name@, series_name@)
            }),
            final(self)@.first_send == (old(self)@.first_send && init_records(
                old(self)@.plots,
                plot_name@,
                series_name@,
            ).len() == 0),
    {
        let ghost m0 = self@;
        match self.find_plot(plot_name) {
            None => {
                proof {
                    lemma_index_of_name(plot_names(m0.plots), plot_name@);
                }
                let pi = self.plots.len();
                let mut series: Vec<String> = Vec::new();
                series.push(series_name.to_owned());
                self.plots.push(PlotEntry { name: plot_name.to_owned(), series });
                proof {
                    assert(plot_names(self@.plots) =~= plot_names(m0.plots).push(plot_name@));
                    assert(self@.plots[pi as int].series =~= seq![series_name@]);
                    assert(self@.plots =~= reg_update(m0.plots, plot_name@, series_name@));
                }
                let _ = self.send(WireRecord::InitSeriesPlot2d { plot_name: plot_name.to_owned() });
                let _ = self.send(
                    WireRecord::InitSeries2d {
                        plot_index: pi as u64,
                        series_name: series_name.to_owned(),
                    },
                );
                proof {
                    assert(self@.emitted =~= m0.emitted + first_prefix(m0) + init_records(
                        m0.plots,
                        plot_name@,
                        series_name@,
                    ));
                }
                (pi, 0)
            },
            Some(pi) => {
                match self.find_series(pi, series_name) {
                    Some(sj) => {
                        proof {
                            assert(self@.plots =~= reg_update(m0.plots, plot_name@, series_name@));
                            assert(self@.emitted =~= m0.emitted + Seq::<Rec>::empty());
                        }
                        (pi, sj)
                    },
                    None => {
                        let sj = {
                            let entry = &self.plots[pi];
                            entry.series.len()
                        };
                        let mut entry = self.plots.remove(pi);
                        entry.series.push(series_name.to_owned());
                        self.plots.insert(pi, entry);
                        proof {
                            let updated = PlotEntryModel {
                                name: m0.plots[pi as int].name,
                                series: m0.plots[pi as int].series.push(series_name@),
                            };
                            assert(self@.plots[pi as int].series =~= updated.series);
                            assert(self@.plots[pi as int] =~= updated);
                            assert(self@.plots =~= m0.plots.update(pi as int, updated));
                            assert(plot_names(self@.plots) =~= plot_names(m0.plots));
                            assert(self@.plots =~= reg_update(m0.plots, plot_name@, series_name@));
                            lemma_index_of_name(m0.plots[pi as int].series, series_name@);
                            assert(names_unique(updated.series));
                        }
                        let _ = self.send(
                            WireRecord::InitSeries2d {
                                plot_index: pi as u64,
                                series_name: series_name.to_owned(),
                            },
                        );
                        proof {
                            assert(self@.emitted =~= m0.emitted + first_prefix(m0) + init_records(
                                m0.plots,
                                plot_name@,
                                series_name@,
                            ));
                        }
                        (pi, sj)
                    },
                }
            },
        }
    }

    /// Writes the line to the local console and emits a `StringMessage`.
    fn println_c(&mut self, channel: Option<&str>, s: &str)
        requires
            old(self).wf(),
        ensures
            final(self).wf(),
            final(self)@.name == old(self)@.name,
            final(self)@.plots == old(self)@.plots,
            final(self)@.images == old(self)@.images,
            final(self)@.first_send == false,
            final(self)@.emitted == old(self)@.emitted + first_prefix(old(self)@) + seq![
                Rec::StringMessage { channel_name: opt_str_view(channel), text: s@ },
            ],
    {
        console_line(self.color, self.name.as_str(), channel, s);
        let channel_name: Option<String> = match channel {
            Some(c) => Some(c.to_owned()),
            None => None,
        };
        let _ = self.send(WireRecord::StringMessage { channel_name, text: s.to_owned() });
    }

    /// Logs a line without a channel tag.
    pub fn println(&mut self, s: &str)
        requires
            old(self).wf(),
        ensures
            final(self).wf(),
            final(self)@.name == old(self)@.name,
            final(self)@.plots == old(self)@.plots,
            final(self)@.images == old(self)@.images,
            final(self)@.first_send == false,
            final(self)@.emitted == old(self)@.emitted + first_prefix(old(self)@) + seq![
                Rec::StringMessage { channel_name: None, text: s@ },
            ],
    {
        self.println_c(None, s);
    }

    /// Logs a line tagged to a named channel.
    pub fn println2(&mut self, channel: &str, s: &str)
        requires
            old(self).wf(),
        ensures
            final(self).wf(),
            final(self)@.name == old(self)@.name,
            final(self)@.plots == old(self)@.plots,
            final(self)@.images == old(self)@.images,
            final(self)@.first_send == false,
            final(self)@.emitted == old(self)@.emitted + first_prefix(old(self)@) + seq![
                Rec::StringMessage { channel_name: Some(channel@), text: s@ },
            ],
    {
        self.println_c(Some(channel), s);
    }

    /// Emits one data point on a plot/series pair, creating the pair on
    /// first use. Coordinates are `f64` bit patterns.
    pub fn plot_series_2d(&mut self, plot_name: &str, series_name: &str, x_bits: u64, y_bits: u64)
        requires
            old(self).wf(),
        ensures
            final(self).wf(),
            final(self)@.name == old(self)@.name,
            final(self)@.images == old(self)@.images,
            final(self)@.plots == reg_update(old(self)@.plots, plot_name@, series_name@),
            final(self)@.first_send == false,
            final(self)@.emitted == old(self)@.emitted + first_prefix(old(self)@) + init_records(
                old(self)@.plots,
                plot_name@,
                series_name@,
            ) + seq![
                Rec::Series2dPoint {
                    plot_index: plot_index_after(old(self)@.plots, plot_name@) as u64,
                    series_index: series_index_after(
                        old(self)@.plots,
                        plot_name@,
                        series_name@,
                    ) as u64,
                    x_bits,
                    y_bits,
                },
            ],
    {
        let ghost m0 = self@;
        let (pi, si) = self.init_series_2d(plot_name, series_name);
        let _ = self.send(
            WireRecord::Series2dPoint {
                plot_index: pi as u64,
                series_index: si as u64,
                x_bits,
                y_bits,
            },
        );
        proof {
            assert(self@.emitted =~= m0.emitted + first_prefix(m0) + init_records(
                m0.plots,
                plot_name@,
                series_name@,
            ) + seq![
                Rec::Series2dPoint {
                    plot_index: plot_index_after(m0.plots, plot_name@) as u64,
                    series_index: series_index_after(m0.plots, plot_name@, series_name@) as u64,
                    x_bits,
                    y_bits,
                },
            ]);
        }
    }

    fn plot_batch(
        &mut self,
        plot_name: &str,
        series_name: &str,
        data: Vec<(u64, u64)>,
        kind: SeriesKind,
    )
        requires
            old(self).wf(),
        ensures
            final(self).wf(),
            final(self)@.name == old(self)@.name,
            final(self)@.images == old(self)@.images,
            final(self)@.plots == reg_update(old(self)@.plots, plot_name@, series_name@),
            final(self)@.first_send == false,
            final(self)@.emitted == old(self)@.emitted + first_prefix(old(self)@) + init_records(
                old(self)@.plots,
                plot_name@,
                series_name@,
            ) + seq![
                Rec::Series2dBatch {
                    plot_index: plot_index_after(old(self)@.plots, plot_name@) as u64,
                    series_index: series_index_after(
                        old(self)@.plots,
                        plot_name@,
                        series_name@,
                    ) as u64,
                    kind,
                    points: data@,
                },
            ],
    {
        let ghost m0 = self@;
        let ghost dv = data@;
        let (pi, si) = self.init_series_2d(plot_name, series_name);
        let _ = self.send(
            WireRecord::Series2dBatch {
                plot_index: pi as u64,
                series_index: si as u64,
                kind,
                points: data,
            },
        );
        proof {
            assert(self@.emitted =~= m0.emitted + first_prefix(m0) + init_records(
                m0.plots,
                plot_name@,
                series_name@,
            ) + seq![
                Rec::Series2dBatch {
                    plot_index: plot_index_after(m0.plots, plot_name@) as u64,
                    series_index: series_index_after(m0.plots, plot_name@, series_name@) as u64,
                    kind,
                    points: dv,
                },
            ]);
        }
    }

    /// Emits a batch of points drawn as a scatter.
    pub fn plot_series_2d_vec(&mut self, plot_name: &str, series_name: &str, data: Vec<(u64, u64)>)
        requires
            old(self).wf(),
        ensures
            final(self).wf(),
            final(self)@.name == old(self)@.name,
            final(self)@.images == old(self)@.images,
            final(self)@.plots == reg_update(old(self)@.plots, plot_name@, series_name@),
            final(self)@.first_send == false,
            final(self)@.emitted == old(self)@.emitted + first_prefix(old(self)@) + init_records(
                old(self)@.plots,
                plot_name@,
                series_name@,
            ) + seq![
                Rec::Series2dBatch {
                    plot_index: plot_index_after(old(self)@.plots, plot_name@) as u64,
                    series_index: series_index_after(
                        old(self)@.plots,
                        plot_name@,
                        series_name@,
                    ) as u64,
                    kind: SeriesKind::Scatter,
                    points: data@,
                },
            ],
    {
        self.plot_batch(plot_name, series_name, data, SeriesKind::Scatter);
    }

    /// Emits a batch of points drawn as a connected line.
    pub fn plot_line_2d(&mut self, plot_name: &str, series_name: &str, data: Vec<(u64, u64)>)
        requires
            old(self).wf(),
        ensures
            final(self).wf(),
            final(self)@.name == old(self)@.name,
            final(self)@.images == old(self)@.images,
            final(self)@.plots == reg_update(old(self)@.plots, plot_name@, series_name@),
            final(self)@.first_send == false,
            final(self)@.emitted == old(self)@.emitted + first_prefix(old(self)@) + init_records(
                old(self)@.plots,
                plot_name@,
                series_name@,
            ) + seq![
                Rec::Series2dBatch {
                    plot_index: plot_index_after(old(self)@.plots, plot_name@) as u64,
                    series_index: series_index_after(
                        old(self)@.plots,
                        plot_name@,
                        series_name@,
                    ) as u64,
                    kind: SeriesKind::Line,
                    points: data@,
                },
            ],
    {
        self.plot_batch(plot_name, series_name, data, SeriesKind::Line);
    }

    /// Sends one raster frame on a named image channel: a full reference
    /// frame when the channel is new, its cache is invalidated or the
    /// dimensions changed, else a quantized delta against the cached frame.
    /// The cache then holds the new frame unmasked — unless the delta's
    /// enqueue failed, in which case it is invalidated so the next call
    /// resynchronizes with a full frame.
    pub fn plot_image(&mut self, channel: &str, frame: Frame, mask: ImageCompression)
        requires
            old(self).wf(),
            frame.wf(),
        ensures
            final(self).wf(),
            final(self)@.name == old(self)@.name,
            final(self)@.plots == old(self)@.plots,
            final(self)@.first_send == false,
            final(self)@.emitted == old(self)@.emitted + first_prefix(old(self)@) + image_records(
                old(self)@.images,
                channel@,
                frame@,
                mask,
            ),
            ({
                let i = index_of_name(image_names(old(self)@.images), channel@);
                let cached = ImageEntryModel { name: channel@, cache: Some(frame@) };
                let invalidated = ImageEntryModel { name: channel@, cache: None };
                if i == -1 {
                    final(self)@.images == old(self)@.images.push(cached)
                } else if image_action_full(old(self)@.images, channel@, frame@) {
                    final(self)@.images == old(self)@.images.update(i, cached)
                } else {
                    final(self)@.images == old(self)@.images.update(i, cached)
                        || final(self)@.images == old(self)@.images.update(i, invalidated)
                }
            }),
    {
        let ghost m0 = self@;
        let ghost fv = frame@;
        match self.find_image(channel) {
            None => {
                proof {
                    lemma_index_of_name(image_names(m0.images), channel@);
                }
                let cached = frame.clone();
                self.images.push(ImageEntry { name: channel.to_owned(), cache: Some(cached) });
                proof {
                    assert(image_names(self@.images) =~= image_names(m0.images).push(channel@));
                    assert(self@.images =~= m0.images.push(
                        ImageEntryModel { name: channel@, cache: Some(fv) },
                    ));
                }
                let _ = self.send(
                    WireRecord::InitImage { channel_name: channel.to_owned(), frame },
                );
                proof {
                    assert(self@.emitted =~= m0.emitted + first_prefix(m0) + image_records(
                        m0.images,
                        channel@,
                        fv,
                        mask,
                    ));
                }
            },
            Some(i) => {
                proof {
                    lemma_index_of_name(image_names(m0.images), channel@);
                    assert(m0.images[i as int].name == channel@);
                }
                let needs_full: bool = match &self.images[i].cache {
                    None => true,
                    Some(f) => f.width != frame.width || f.height != frame.height,
                };
                if needs_full {
                    let mut entry = self.images.remove(i);
                    entry.cache = Some(frame.clone());
                    self.images.insert(i, entry);
                    proof {
                        assert(self@.images =~= m0.images.update(
                            i as int,
                            ImageEntryModel { name: channel@, cache: Some(fv) },
                        ));
                        assert(image_names(self@.images) =~= image_names(m0.images));
                    }
                    let _ = self.send(
                        WireRecord::InitImage { channel_name: channel.to_owned(), frame },
                    );
                    proof {
                        assert(self@.emitted =~= m0.emitted + first_prefix(m0) + image_records(
                            m0.images,
                            channel@,
                            fv,
                            mask,
                        ));
                    }
                } else {
                    let deltas_opt: Option<Vec<i16>> = match &self.images[i].cache {
                        Some(prev) => delta_encode(&prev.pixels, &frame.pixels, mask),
                        None => vstd::pervasive::unreached(),
                    };
                    let deltas: Vec<i16> = match deltas_opt {
                        Some(d) => d,
                        None => vstd::pervasive::unreached(),
                    };
                    let mut entry = self.images.remove(i);
                    entry.cache = Some(frame);
                    self.images.insert(i, entry);
                    proof {
                        assert(self@.images =~= m0.images.update(
                            i as int,
                            ImageEntryModel { name: channel@, cache: Some(fv) },
                        ));
                        assert(image_names(self@.images) =~= image_names(m0.images));
                    }
                    let ok = self.send(
                        WireRecord::DeltaImage { channel_index: i as u64, deltas },
                    );
                    proof {
                        assert(self@.emitted =~= m0.emitted + first_prefix(m0) + image_records(
                            m0.images,
                            channel@,
                            fv,
                            mask,
                        ));
                    }
                    if !ok {
                        let ghost mid = self@.images;
                        let mut entry2 = self.images.remove(i);
                        entry2.cache = None;
                        self.images.insert(i, entry2);
                        proof {
                            let invalidated = ImageEntryModel { name: channel@, cache: None };
                            assert(self@.images =~= mid.update(i as int, invalidated));
                            assert(mid.update(i as int, invalidated) =~= m0.images.update(
                                i as int,
                                invalidated,
                            ));
                            assert(image_names(self@.images) =~= image_names(m0.images));
                        }
                    }
                }
            },
        }
    }
}

/// The view of an optional channel tag.
pub open spec fn opt_str_view(channel: Option<&str>) -> Option<Seq<char>> {
    match channel {
        Some(c) => Some(c@),
        None => None,
    }
}

/// The registry after looking up or creating a plot/series name pair:
/// a new plot entry is appended on first use of the plot name, a new series
/// name is appended to its plot on first use, and a known pair changes
/// nothing.
pub open spec fn reg_update(
    plots: Seq<PlotEntryModel>,
    p: Seq<char>,
    s: Seq<char>,
) -> Seq<PlotEntryModel> {
    let i = index_of_name(plot_names(plots), p);
    if i == -1 {
        plots.push(PlotEntryModel { name: p, series: seq![s] })
    } else if index_of_name(plots[i].series, s) == -1 {
        plots.update(i, PlotEntryModel { name: plots[i].name, series: plots[i].series.push(s) })
    } else {
        plots
    }
}

/// The declaration records that one plot/series resolution emits: both
/// records on a new plot, one on a new series of a known plot, none on a
/// known pair.
pub open spec fn init_records(plots: Seq<PlotEntryModel>, p: Seq<char>, s: Seq<char>) -> Seq<Rec> {
    let i = index_of_name(plot_names(plots), p);
    if i == -1 {
        seq![
            Rec::InitSeriesPlot2d { plot_name: p },
            Rec::InitSeries2d { plot_index: plots.len() as u64, series_name: s },
        ]
    } else if index_of_name(plots[i].series, s) == -1 {
        seq![Rec::InitSeries2d { plot_index: i as u64, series_name: s }]
    } else {
        Seq::empty()
    }
}

/// The plot index a name resolves to: its position on reuse, the next
/// position on first use.
pub open spec fn plot_index_after(plots: Seq<PlotEntryModel>, p: Seq<char>) -> int {
    let i = index_of_name(plot_names(plots), p);
    if i == -1 {
        plots.len() as int
    } else {
        i
    }
}

/// The series index a name pair resolves to, scoped to its plot.
pub open spec fn series_index_after(plots: Seq<PlotEntryModel>, p: Seq<char>, s: Seq<char>) -> int {
    let i = index_of_name(plot_names(plots), p);
    if i == -1 {
        0
    } else {
        let j = index_of_name(plots[i].series, s);
        if j == -1 {
            plots[i].series.len() as int
        } else {
            j
        }
    }
}

/// Whether an image update must send a full reference frame: the channel is
/// new, its cache was invalidated, or the dimensions changed.
pub open spec fn image_action_full(
    images: Seq<ImageEntryModel>,
    channel: Seq<char>,
    frame: FrameModel,
) -> bool {
    let i = index_of_name(image_names(images), channel);
    ||| i == -1
    ||| images[i].cache is None
    ||| images[i].cache->Some_0.width != frame.width
    ||| images[i].cache->Some_0.height != frame.height
}

/// The one record an image update emits: a full `InitImage`, or a
/// `DeltaImage` holding the quantized difference against the cached frame.
pub open spec fn image_records(
    images: Seq<ImageEntryModel>,
    channel: Seq<char>,
    frame: FrameModel,
    mask: ImageCompression,
) -> Seq<Rec> {
    if image_action_full(images, channel, frame) {
        seq![Rec::InitImage { channel_name: channel, frame }]
    } else {
        let i = index_of_name(image_names(images), channel);
        seq![
            Rec::DeltaImage {
                channel_index: i as u64,
                deltas: spec_delta(
                    images[i].cache->Some_0.pixels,
                    frame.pixels,
                    mask.spec_mask(),
                ),
            },
        ]
    }
}

/// The first record a sink ever offers to its channel is the `InitSource`
/// record carrying the sink's name, whichever public method is called
/// first: every method keeps the invariant that pins the history's head.
pub proof fn lemma_first_record_is_init_source(sink: PlotSink)
    requires
        sink.wf(),
        sink@.emitted.len() > 0,
    ensures
        sink@.emitted[0] == (Rec::InitSource { name: sink@.name }),
{
}

/// A lookup-or-create step on a name list: reuse keeps the list, first use
/// appends.
pub open spec fn insert_name(names: Seq<Seq<char>>, name: Seq<char>) -> Seq<Seq<char>> {
    if index_of_name(names, name) >= 0 {
        names
    } else {
        names.push(name)
    }
}

/// A run of lookup-or-create steps, in order.
pub open spec fn insert_all(names0: Seq<Seq<char>>, new: Seq<Seq<char>>) -> Seq<Seq<char>>
    decreases new.len(),
{
    if new.len() == 0 {
        names0
    } else {
        insert_all(insert_name(names0, new[0]), new.drop_first())
    }
}

/// Looking up or creating a plot/series pair changes the plot-name list
/// exactly as one lookup-or-create step on the plot name.
pub proof fn lemma_reg_update_names(plots: Seq<PlotEntryModel>, p: Seq<char>, s: Seq<char>)
    ensures
        plot_names(reg_update(plots, p, s)) == insert_name(plot_names(plots), p),
{
    let i = index_of_name(plot_names(plots), p);
    lemma_index_of_name(plot_names(plots), p);
    if i == -1 {
        assert(plot_names(reg_update(plots, p, s)) =~= plot_names(plots).push(p));
        assert(insert_name(plot_names(plots), p) == plot_names(plots).push(p));
    } else if index_of_name(plots[i].series, s) == -1 {
        assert(plot_names(reg_update(plots, p, s)) =~= plot_names(plots));
        assert(insert_name(plot_names(plots), p) == plot_names(plots));
    } else {
        assert(plot_names(reg_update(plots, p, s)) =~= plot_names(plots));
        assert(insert_name(plot_names(plots), p) == plot_names(plots));
    }
}

proof fn lemma_insert_all_fresh(acc: Seq<Seq<char>>, new: Seq<Seq<char>>)
    requires
        names_unique(new),
        forall|i: int| 0 <= i < new.len() ==> !acc.contains(#[trigger] new[i]),
    ensures
        insert_all(acc, new) == acc + new,
    decreases new.len(),
{
    if new.len() == 0 {
        assert(insert_all(acc, new) =~= acc + new);
    } else {
        let n0 = new[0];
        lemma_index_of_name(acc, n0);
        assert(index_of_name(acc, n0) == -1) by {
            if index_of_name(acc, n0) != -1 {
                assert(acc[index_of_name(acc, n0)] == n0);
                assert(acc.contains(n0));
            }
        }
        let acc2 = acc.push(n0);
        assert forall|i: int| 0 <= i < new.drop_first().len() implies !acc2.contains(
            #[trigger] new.drop_first()[i],
        ) by {
            assert(new.drop_first()[i] == new[i + 1]);
            assert(new[i + 1] != n0);
            if acc2.contains(new[i + 1]) {
                let k = choose|k: int| 0 <= k < acc2.len() && acc2[k] == new[i + 1];
                assert(k < acc.len() ==> acc.contains(new[i + 1]));
            }
        }
        lemma_insert_all_fresh(acc2, new.drop_first());
        assert(acc2 + new.drop_first() =~= acc + new);
    }
}

/// Index monotonicity: distinct plot names used in order, starting from an
/// empty registry, are assigned the indices `0, 1, 2, …` in that order, and
/// looking any of them up again yields the same index. The same
/// lookup-or-create step governs series names within a plot and image
/// channel names, so the law covers those lists too.
pub proof fn lemma_first_use_indices(names: Seq<Seq<char>>)
    requires
        names_unique(names),
    ensures
        insert_all(Seq::empty(), names) == names,
        forall|i: int| 0 <= i < names.len() ==> index_of_name(names, #[trigger] names[i]) == i,
{
    assert forall|i: int| 0 <= i < names.len() implies !Seq::<Seq<char>>::empty().contains(
        #[trigger] names[i],
    ) by {}
    lemma_insert_all_fresh(Seq::empty(), names);
    assert(Seq::empty() + names =~= names);
    assert forall|i: int| 0 <= i < names.len() implies index_of_name(names, #[trigger] names[i])
        == i by {
        lemma_index_of_name(names, names[i]);
        let k = index_of_name(names, names[i]);
        assert(k != -1);
        if k < i {
            assert(names[k] == names[i]);
        } else if k > i {
            assert(names[i] != names[i]);
        }
    }
}

/// How many warnings a run of enqueue steps emits, folding the one-step
/// warning rule over the fullness each step observed.
pub open spec fn warns_of_run(warned0: bool, fulls: Seq<bool>) -> int
    decreases fulls.len(),
{
    if fulls.len() == 0 {
        0
    } else {
        warn_step(warned0, fulls[0]) + warns_of_run(fulls[0], fulls.drop_first())
    }
}

proof fn lemma_no_rewarn(fulls: Seq<bool>)
    requires
        forall|i: int| 0 <= i < fulls.len() ==> fulls[i],
    ensures
        warns_of_run(true, fulls) == 0,
    decreases fulls.len(),
{
    if fulls.len() > 0 {
        lemma_no_rewarn(fulls.drop_first());
    }
}

/// Backpressure warns once per overflow episode: a run of enqueue steps
/// that each observe a full channel, starting unwarned, emits exactly one
/// warning, however long the run. Each exec enqueue step accounts its
/// warnings by `warn_step`, which this run folds.
pub proof fn lemma_one_warning_per_episode(fulls: Seq<bool>)
    requires
        fulls.len() >= 1,
        forall|i: int| 0 <= i < fulls.len() ==> fulls[i],
    ensures
        warns_of_run(false, fulls) == 1,
{
    assert(fulls[0]);
    lemma_no_rewarn(fulls.drop_first());
}

/// Cache invalidation forces a resynchronization: once an image channel's
/// cache is invalidated, the next image update for that channel emits a
/// full `InitImage` frame, never a stale delta.
pub proof fn lemma_full_frame_after_invalidation(
    images: Seq<ImageEntryModel>,
    channel: Seq<char>,
    frame: FrameModel,
    mask: ImageCompression,
)
    requires
        ({
            let i = index_of_name(image_names(images), channel);
            i != -1 && images[i].cache is None
        }),
    ensures
        image_records(images, channel, frame, mask) == seq![
            Rec::InitImage { channel_name: channel, frame },
        ],
{
    lemma_index_of_name(image_names(images), channel);
}

} // verus!
