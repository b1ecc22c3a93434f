use vstd::prelude::*;
use crate::alignment::Alignment;
use crate::color::{Color, ColorMode, ColorModeView};
use crate::utils::string_of;
use crate::graph::layout::{adjusted, split_heights, text_or_empty, tildes};
use crate::graph::plot::{
    draw_title, draw_x_labels, draw_y_labels_1d_plot, draw_y_labels_2d_plot, opt_text, plot_1d, plot_2d, points_fit,
};
use crate::graph::range::{
    count_distinct, get_min_max_diff, get_where_to_skip, labels_of, lemma_widest_gap_nonnegative, opt_view, opt_wf,
    prettify_y_labels, ratio_of_subplots, series_wf, snap_view, spread_flat_range, unwrap_y_min_max, values_of, Side,
};
use crate::graph::sample::pick_meaningful_values;
use crate::interval::{draw_labeled_intervals, lemma_plot_column_monotonic, visible, Interval, IntervalView};
use crate::format::YLabelFormatter;
use crate::lines::Lines;
use crate::number::Rational;
use crate::skip_value::{SkipValue, SkipView};

pub mod layout;
pub mod merge;
pub mod plot;
pub mod range;
pub mod sample;
pub mod setters;

pub use merge::{merge_horiz, merge_vert};

verus! {

/// What a plot shows.
#[derive(Clone, Debug)]
pub enum GraphData {
    /// A series of labelled values, drawn as bars.
    Data1D(Vec<(String, Rational)>),
    /// Points, each a glyph at a column and a row, with the labels of the columns and of
    /// the rows.
    Data2D { data: Vec<(usize, usize, u16)>, x_labels: Vec<Option<String>>, y_labels: Vec<Option<String>> },
    /// Nothing yet.
    Empty,
}

/// What a plot shows, as a mathematical value.
pub enum DataView {
    Series { labels: Seq<Seq<char>>, values: Seq<real> },
    Points { data: Seq<(usize, usize, u16)>, x_labels: Seq<Option<Seq<char>>>, y_labels: Seq<Option<Seq<char>>> },
    Empty,
}

impl View for GraphData {
    type V = DataView;

    open spec fn view(&self) -> DataView {
        match self {
            GraphData::Data1D(series) => DataView::Series { labels: labels_of(series@), values: values_of(series@) },
            GraphData::Data2D { data, x_labels, y_labels } => DataView::Points {
                data: data@,
                x_labels: x_labels@.map_values(|label: Option<String>| opt_text(label)),
                y_labels: y_labels@.map_values(|label: Option<String>| opt_text(label)),
            },
            GraphData::Empty => DataView::Empty,
        }
    }
}

impl DataView {
    /// The number of entries of a series, or of points.
    pub open spec fn len(self) -> nat {
        match self {
            DataView::Series { values, .. } => values.len(),
            DataView::Points { data, .. } => data.len(),
            DataView::Empty => 0,
        }
    }
}

impl GraphData {
    /// Every value of a series is a well-formed number.
    pub open spec fn wf(&self) -> bool {
        self matches GraphData::Data1D(series) ==> series_wf(series@)
    }

    /// The series.
    pub fn unwrap_1d(&self) -> (r: &Vec<(String, Rational)>)
        requires
            self is Data1D,
        ensures
            *self == GraphData::Data1D(*r),
    {
        match self {
            GraphData::Data1D(series) => series,
            _ => vstd::pervasive::unreached(),
        }
    }

    /// The points, the labels of the columns and the labels of the rows.
    pub fn unwrap_2d(&self) -> (r: (&Vec<(usize, usize, u16)>, &Vec<Option<String>>, &Vec<Option<String>>))
        requires
            self is Data2D,
        ensures
            *self == (GraphData::Data2D { data: *r.0, x_labels: *r.1, y_labels: *r.2 }),
    {
        match self {
            GraphData::Data2D { data, x_labels, y_labels } => (data, x_labels, y_labels),
            _ => vstd::pervasive::unreached(),
        }
    }

    /// The number of entries of a series, or of points.
    pub fn len(&self) -> (r: usize)
        ensures
            r == self@.len(),
    {
        match self {
            GraphData::Data1D(data) => data.len(),
            GraphData::Data2D { data, .. } => data.len(),
            GraphData::Empty => 0,
        }
    }

    /// Whether there is no entry.
    pub fn is_empty(&self) -> (r: bool)
        ensures
            r == (self@.len() == 0),
    {
        self.len() == 0
    }
}

/// A plot: what it shows and how it is laid out. It is set up with the setters and then
/// drawn.
#[derive(Clone, Debug)]
pub struct Graph {
    pub(crate) data: GraphData,
    pub(crate) title: Option<String>,
    pub(crate) big_title: bool,
    pub(crate) title_color: Option<Color>,
    pub(crate) plot_width: usize,
    pub(crate) plot_height: usize,
    pub(crate) block_width: Option<usize>,
    pub(crate) x_label_margin: usize,
    pub(crate) y_label_margin: usize,
    pub(crate) y_label_formatter: YLabelFormatter,
    pub(crate) x_axis_label: Option<String>,
    pub(crate) y_axis_label: Option<String>,
    pub(crate) labeled_intervals: Vec<Interval>,
    pub(crate) y_min: Option<Rational>,
    pub(crate) y_max: Option<Rational>,
    pub(crate) pretty_y: Option<Rational>,
    pub(crate) skip_value: SkipValue,
    pub(crate) paddings: [usize; 4],
    pub(crate) color_mode: ColorMode,
    pub(crate) primary_color: Option<Color>,
}

/// A plot as a mathematical value.
pub struct GraphView {
    pub data: DataView,
    pub title: Option<Seq<char>>,
    pub big_title: bool,
    pub title_color: Option<Color>,
    pub plot_width: nat,
    pub plot_height: nat,
    /// The columns that one entry of a series takes, where that sets the plot's width.
    pub block_width: Option<nat>,
    pub x_label_margin: nat,
    pub y_label_margin: nat,
    /// The prefix and the suffix of the labels of the y axis.
    pub y_label_affixes: (Seq<char>, Seq<char>),
    pub x_axis_label: Option<Seq<char>>,
    pub y_axis_label: Option<Seq<char>>,
    pub labeled_intervals: Seq<IntervalView>,
    pub y_min: Option<real>,
    pub y_max: Option<real>,
    /// The granularity to which the labels of the y axis are snapped.
    pub pretty_y: Option<real>,
    pub skip_value: SkipView,
    /// Blank rows and columns around the plot: top, bottom, left, right.
    pub paddings: [usize; 4],
    pub color_mode: ColorModeView,
    pub primary_color: Option<Color>,
}

/// The view of a size that may be absent.
pub open spec fn opt_nat(size: Option<usize>) -> Option<nat> {
    match size {
        Some(n) => Some(n as nat),
        None => None,
    }
}

impl View for Graph {
    type V = GraphView;

    open(crate) spec fn view(&self) -> GraphView {
        GraphView {
            data: self.data@,
            title: opt_text(self.title),
            big_title: self.big_title,
            title_color: self.title_color,
            plot_width: self.plot_width as nat,
            plot_height: self.plot_height as nat,
            block_width: opt_nat(self.block_width),
            x_label_margin: self.x_label_margin as nat,
            y_label_margin: self.y_label_margin as nat,
            y_label_affixes: (self.y_label_formatter.prefix@, self.y_label_formatter.suffix@),
            x_axis_label: opt_text(self.x_axis_label),
            y_axis_label: opt_text(self.y_axis_label),
            labeled_intervals: self.labeled_intervals@.map_values(|interval: Interval| interval@),
            y_min: opt_view(self.y_min),
            y_max: opt_view(self.y_max),
            pretty_y: opt_view(self.pretty_y),
            skip_value: self.skip_value@,
            paddings: self.paddings,
            color_mode: self.color_mode@,
            primary_color: self.primary_color,
        }
    }
}

impl GraphView {
    /// The plot that nothing has been set on: 80 columns by 28 rows, a label for every
    /// second row, labels snapped to halves, and a range skipped where the plot finds one.
    pub open spec fn initial() -> GraphView {
        GraphView {
            data: DataView::Empty,
            title: None,
            big_title: false,
            title_color: None,
            plot_width: 80,
            plot_height: 28,
            block_width: None,
            x_label_margin: 2,
            y_label_margin: 2,
            y_label_affixes: (Seq::empty(), Seq::empty()),
            x_axis_label: None,
            y_axis_label: None,
            labeled_intervals: Seq::empty(),
            y_min: None,
            y_max: None,
            pretty_y: Some(1real / 2real),
            skip_value: SkipView::Automatic,
            paddings: [0usize, 0usize, 0usize, 0usize],
            color_mode: ColorModeView::Plain,
            primary_color: None,
        }
    }

    /// The width of the plot in columns: for a series with a block width, that many
    /// columns for each entry; else the width that was set.
    pub open spec fn actual_plot_width(self) -> nat {
        match (self.data, self.block_width) {
            (DataView::Series { values, .. }, Some(w)) => w * values.len(),
            _ => self.plot_width,
        }
    }

    /// The plot can be drawn. There is data, and a series is not empty. A lower bound of
    /// the y axis is not above an upper bound. Points lie within the plot, and there is a
    /// label, which may be absent, for each of its columns and rows, of which there is at
    /// least one. No interval ends before it starts. The width of the plot is a number
    /// that the machine can hold.
    pub open spec fn valid(self) -> bool {
        &&& match (self.y_min, self.y_max) {
            (Some(low), Some(high)) => low <= high,
            _ => true,
        }
        &&& match self.data {
            DataView::Series { values, .. } => values.len() > 0,
            DataView::Points { data, x_labels, y_labels } => {
                &&& x_labels.len() > 0
                &&& y_labels.len() > 0
                &&& points_fit(data, self.plot_width, self.plot_height)
                &&& x_labels.len() == self.plot_width
                &&& y_labels.len() == self.plot_height
            },
            DataView::Empty => false,
        }
        &&& forall|i: int| 0 <= i < self.labeled_intervals.len() ==> (#[trigger] self.labeled_intervals[i]).end
            >= self.labeled_intervals[i].start
        &&& self.actual_plot_width() <= usize::MAX
    }
}

impl Default for Graph {
    fn default() -> (r: Self)
        ensures
            r@ == GraphView::initial(),
            r.wf(),
    {
        let r = Graph {
            plot_width: 80,
            plot_height: 28,
            block_width: None,
            data: GraphData::Empty,
            x_label_margin: 2,
            y_label_margin: 2,
            y_label_formatter: YLabelFormatter::new(),
            paddings: [0, 0, 0, 0],
            y_max: None,
            y_min: None,
            pretty_y: Some(Rational::from_i32(1).div(&Rational::from_i32(2))),
            title: None,
            title_color: None,
            skip_value: SkipValue::Automatic,
            x_axis_label: None,
            y_axis_label: None,
            labeled_intervals: Vec::new(),
            big_title: false,
            color_mode: ColorMode::Plain,
            primary_color: None,
        };
        assert(r@.labeled_intervals =~= Seq::empty());
        assert(r@.paddings =~= GraphView::initial().paddings);
        assert(r@.y_label_affixes.0 =~= Seq::empty());
        assert(r@.y_label_affixes.1 =~= Seq::empty());
        r
    }
}

impl Graph {
    /// Every number in the plot is well formed.
    pub open(crate) spec fn wf(&self) -> bool {
        &&& self.data.wf()
        &&& opt_wf(self.y_min)
        &&& opt_wf(self.y_max)
        &&& opt_wf(self.pretty_y)
        &&& self.skip_value.wf()
    }

    /// A plot `plot_width` columns wide and `plot_height` rows tall, without data.
    pub fn new(plot_width: usize, plot_height: usize) -> (r: Self)
        ensures
            r@ == (GraphView { plot_width: plot_width as nat, plot_height: plot_height as nat, ..GraphView::initial() }),
            r.wf(),
    {
        let mut r = Graph::default();
        r.plot_width = plot_width;
        r.plot_height = plot_height;
        r
    }

    /// The width of the plot in columns, where the machine can hold it.
    pub(crate) fn get_actual_plot_width(&self) -> (r: Option<usize>)
        ensures
            r == (if self@.actual_plot_width() <= usize::MAX {
                Some(self@.actual_plot_width() as usize)
            } else {
                None
            }),
    {
        match (&self.data, self.block_width) {
            (GraphData::Data1D(series), Some(w)) => {
                assert(w * series.len() <= 0xFFFF_FFFF_FFFF_FFFF * 0xFFFF_FFFF_FFFF_FFFF) by (nonlinear_arith)
                    requires
                        0 <= w <= 0xFFFF_FFFF_FFFF_FFFF,
                        0 <= series.len() <= 0xFFFF_FFFF_FFFF_FFFF,
                ;
                let wide: u128 = (w as u128) * (series.len() as u128);
                if wide <= usize::MAX as u128 {
                    Some(wide as usize)
                } else {
                    None
                }
            },
            _ => Some(self.plot_width),
        }
    }

    /// Whether the plot can be drawn: see `GraphView::valid`.
    pub fn is_valid(&self) -> (r: bool)
        requires
            self.wf(),
        ensures
            r == self@.valid(),
    {
        let bounds_ok = match (&self.y_min, &self.y_max) {
            (Some(low), Some(high)) => !high.lt(low),
            _ => true,
        };
        let data_ok = match &self.data {
            GraphData::Data1D(series) => series.len() > 0,
            GraphData::Data2D { data, x_labels, y_labels } => {
                if x_labels.len() > 0 && y_labels.len() > 0 && x_labels.len() == self.plot_width && y_labels.len()
                    == self.plot_height {
                    let mut fit = true;
                    let mut i: usize = 0;
                    while i < data.len() && fit
                        invariant
                            i <= data.len(),
                            fit ==> forall|k: int| 0 <= k < i ==> (#[trigger] data[k]).0 < self.plot_width
                                && data[k].1 < self.plot_height,
                            !fit ==> !points_fit(data@, self.plot_width as nat, self.plot_height as nat),
                        decreases data.len() - i + if fit { 1int } else { 0int },
                    {
                        if data[i].0 >= self.plot_width || data[i].1 >= self.plot_height {
                            fit = false;
                        }
                        i += 1;
                    }
                    fit
                } else {
                    false
                }
            },
            GraphData::Empty => false,
        };
        let mut intervals_ok = true;
        let mut i: usize = 0;
        while i < self.labeled_intervals.len() && intervals_ok
            invariant
                i <= self.labeled_intervals.len(),
                intervals_ok ==> forall|k: int| 0 <= k < i ==> (#[trigger] self@.labeled_intervals[k]).end
                    >= self@.labeled_intervals[k].start,
                !intervals_ok ==> exists|k: int| 0 <= k < self.labeled_intervals.len() && (
                #[trigger] self@.labeled_intervals[k]).end < self@.labeled_intervals[k].start,
            decreases self.labeled_intervals.len() - i + if intervals_ok { 1int } else { 0int },
        {
            assert(self@.labeled_intervals[i as int] == self.labeled_intervals[i as int]@);
            if !self.labeled_intervals[i].is_valid() {
                intervals_ok = false;
            }
            i += 1;
        }
        bounds_ok && data_ok && intervals_ok && self.get_actual_plot_width().is_some()
    }

    /// Whether the bounds of a range may be snapped, and to what.
    fn snap_info(&self, low_movable: bool, high_movable: bool) -> (r: Option<(bool, bool, Rational)>)
        requires
            self.wf(),
        ensures
            snap_view(r) == self@.snap(low_movable, high_movable),
            r matches Some(info) ==> info.2.wf(),
    {
        match &self.pretty_y {
            Some(step) => Some((low_movable, high_movable, step.clone())),
            None => None,
        }
    }

    /// The y axis for the series `data`, which is the series as it is drawn: the range,
    /// the range that is left out, and the shares of the plots around it.
    fn choose_axis(&self, data: &Vec<(String, Rational)>) -> (r: (Rational, Rational, Option<(Rational, Rational)>, (usize, usize)))
        requires
            self.wf(),
            series_wf(data@),
            data.len() > 0,
            values_of(data@) == self@.shown_values(),
        ensures
            r.0.wf() && r.1.wf(),
            r.2 matches Some(range) ==> range.0.wf() && range.1.wf(),
            r.0@ == self@.axis().y_min,
            r.1@ == self@.axis().y_max,
            self@.axis().skip == match r.2 {
                Some(range) => Some((range.0@, range.1@)),
                None => None,
            },
            r.2 is Some ==> (r.3.0 as nat, r.3.1 as nat) == self@.axis().parts,
            r.2 is Some ==> self@.plot_height > 18 && r.3.0 + r.3.1 == 6 && 2 <= r.3.0 <= 4,
    {
        let (least, greatest, max_diff) = get_min_max_diff(data, self.plot_height);
        let (data_min, data_max) = spread_flat_range(&least, &greatest, self.plot_height);
        let (y_min, y_max) = unwrap_y_min_max(&self.y_min, &self.y_max, &data_min, &data_max);
        if self.plot_height <= 18 {
            return (y_min, y_max, None, (3, 3));
        }
        match &self.skip_value {
            SkipValue::Disabled => (y_min, y_max, None, (3, 3)),
            SkipValue::Automatic => {
                proof {
                    lemma_widest_gap_nonnegative(values_of(data@), data.len() as nat);
                }
                if !max_diff.is_zero() && y_max.sub(&y_min).div(&max_diff).lt(&Rational::from_i32(3)) {
                    let (low, from, to, high, parts) = get_where_to_skip(data);
                    let y_min = if self.y_min.is_none() { low } else { y_min };
                    let y_max = if self.y_max.is_none() { high } else { y_max };
                    if y_min.lt(&from) && to.lt(&y_max) {
                        (y_min, y_max, Some((from, to)), parts)
                    } else {
                        (y_min, y_max, None, parts)
                    }
                } else {
                    (y_min, y_max, None, (3, 3))
                }
            },
            SkipValue::Manual { from, to } => {
                let below = count_distinct(data, Side::Below, from);
                let above = count_distinct(data, Side::Above, to);
                let parts = ratio_of_subplots(below, above);
                if to.lt(from) || from.lt(&y_min) || y_max.lt(to) {
                    (y_min, y_max, None, parts)
                } else {
                    (y_min, y_max, Some((from.clone(), to.clone())), parts)
                }
            },
        }
    }

    /// The heights of the plots below and above a skipped range.
    fn subplot_heights(height: usize, parts: (usize, usize)) -> (r: (usize, usize))
        requires
            height > 18,
            parts.0 + parts.1 == 6,
            2 <= parts.0 <= 4,
        ensures
            (r.0 as nat, r.1 as nat) == split_heights(height as nat, (parts.0 as nat, parts.1 as nat)),
    {
        assert(height * parts.0 <= height * 4 && height * parts.1 <= height * 4 && height * parts.0 >= height * 2
            && height * parts.1 >= height * 2 && height * parts.0 + height * parts.1 == height * 6) by (nonlinear_arith)
            requires
                parts.0 + parts.1 == 6,
                2 <= parts.0 <= 4,
                height >= 0,
        ;
        let below: usize = ((height as u128) * (parts.0 as u128) / 6) as usize;
        let above: usize = ((height as u128) * (parts.1 as u128) / 6) as usize;
        if below > above {
            (height - above, above - 1)
        } else {
            (below - 1, height - below)
        }
    }

    /// The bars of `data` with the y axis and its labels, nothing left out.
    fn draw_plot_without_skip(
        &self,
        data: &Vec<(String, Rational)>,
        plot_width: usize,
        y_min: &Rational,
        y_max: &Rational,
    ) -> (r: Lines)
        requires
            self.wf(),
            series_wf(data@),
            data.len() > 0,
            y_min.wf(),
            y_max.wf(),
        ensures
            r@ == self@.plot_without_skip(values_of(data@), plot_width as nat, y_min@, y_max@),
            r@.is_rect(),
    {
        let (low, high) = prettify_y_labels(
            y_min,
            y_max,
            self.plot_height,
            self.snap_info(self.y_min.is_none(), self.y_max.is_none()),
        );
        let plot = plot_1d(data, plot_width, self.plot_height, &low, &high, false, self.primary_color).add_border(
            [false, true, true, false],
        );
        let y_labels = draw_y_labels_1d_plot(
            &low,
            &high,
            self.plot_height,
            self.y_label_margin,
            &self.y_label_formatter,
        );
        y_labels.merge_horizontally(&plot, Alignment::First)
    }

    /// The plot below (`upper` false) or above (`upper` true) a skipped range, with the
    /// y axis and its labels, which are made `label_width` columns wide.
    fn draw_subplot(
        &self,
        data: &Vec<(String, Rational)>,
        plot_width: usize,
        low: &Rational,
        high: &Rational,
        height: usize,
        y_labels: Lines,
        label_width: usize,
        upper: bool,
    ) -> (r: Lines)
        requires
            self.wf(),
            series_wf(data@),
            data.len() > 0,
            low.wf(),
            high.wf(),
            y_labels@ == crate::graph::plot::y_labels_1d(
                low@,
                high@,
                height as nat,
                self@.y_label_margin,
                self@.y_label_affixes,
            ),
            y_labels@.is_rect(),
            label_width >= y_labels@.width,
        ensures
            r@ == if upper {
                self@.upper_plot(values_of(data@), plot_width as nat, (low@, high@), height as nat, label_width as nat)
            } else {
                self@.lower_plot(values_of(data@), plot_width as nat, (low@, high@), height as nat, label_width as nat)
            },
            r@.is_rect(),
    {
        let plot = plot_1d(data, plot_width, height, low, high, !upper, self.primary_color).add_border(
            [false, !upper, true, false],
        );
        let width = y_labels.get_width();
        y_labels.add_padding([0, 0, label_width - width, 0]).merge_horizontally(&plot, Alignment::First)
    }

    /// The bars of `data` with the y axis and its labels, the range from `from` to `to`
    /// left out.
    fn draw_plot_with_skip(
        &self,
        data: &Vec<(String, Rational)>,
        plot_width: usize,
        y_min: &Rational,
        y_max: &Rational,
        from: &Rational,
        to: &Rational,
        parts: (usize, usize),
    ) -> (r: Lines)
        requires
            self.wf(),
            series_wf(data@),
            data.len() > 0,
            y_min.wf(),
            y_max.wf(),
            from.wf(),
            to.wf(),
            self@.plot_height > 18,
            parts.0 + parts.1 == 6,
            2 <= parts.0 <= 4,
        ensures
            r@ == self@.plot_with_skip(
                values_of(data@),
                plot_width as nat,
                y_min@,
                y_max@,
                from@,
                to@,
                (parts.0 as nat, parts.1 as nat),
            ),
            r@.is_rect(),
    {
        let automatic = self.skip_value.is_automatic();
        let (height1, height2) = Graph::subplot_heights(self.plot_height, parts);
        let (low1, high1) = prettify_y_labels(y_min, from, height1, self.snap_info(self.y_min.is_none(), automatic));
        let (low2, high2) = prettify_y_labels(to, y_max, height2, self.snap_info(automatic, self.y_max.is_none()));
        let y_labels1 = draw_y_labels_1d_plot(&low1, &high1, height1, self.y_label_margin, &self.y_label_formatter);
        let y_labels2 = draw_y_labels_1d_plot(&low2, &high2, height2, self.y_label_margin, &self.y_label_formatter);
        let width1 = y_labels1.get_width();
        let width2 = y_labels2.get_width();
        let label_width = if width1 >= width2 { width1 } else { width2 };
        let lower = self.draw_subplot(data, plot_width, &low1, &high1, height1, y_labels1, label_width, false);
        let upper = self.draw_subplot(data, plot_width, &low2, &high2, height2, y_labels2, label_width, true);
        let mut line = Lines::from_string(
            Graph::line_of_tildes(lower.get_width()).as_str(),
            Alignment::First,
            &ColorMode::Plain,
        );
        line.set_color_all(self.primary_color);
        upper.merge_vertically(&line.merge_vertically(&lower, Alignment::First), Alignment::First)
    }

    /// The bars of the series `data`, which is the series as it is drawn, with the y axis
    /// and its labels.
    fn draw_series_plot(&self, data: &Vec<(String, Rational)>, plot_width: usize) -> (r: Lines)
        requires
            self.wf(),
            series_wf(data@),
            data.len() > 0,
            values_of(data@) == self@.shown_values(),
            plot_width == self@.actual_plot_width(),
        ensures
            r@ == self@.series_plot(),
            r@.is_rect(),
    {
        let (y_min, y_max, skip, parts) = self.choose_axis(data);
        match skip {
            None => self.draw_plot_without_skip(data, plot_width, &y_min, &y_max),
            Some((from, to)) => self.draw_plot_with_skip(data, plot_width, &y_min, &y_max, &from, &to, parts),
        }
    }

    /// `n` tildes.
    fn line_of_tildes(n: usize) -> (r: String)
        ensures
            r@ == tildes(n as nat),
    {
        let mut chars: Vec<char> = Vec::new();
        let mut i: usize = 0;
        while i < n
            invariant
                i <= n,
                chars@ == tildes(i as nat),
            decreases n - i,
        {
            chars.push('~');
            i += 1;
            assert(chars@ =~= tildes(i as nat));
        }
        string_of(&chars)
    }

    /// A plot with what stands around it: the labels of the axes, the title and the
    /// paddings.
    fn frame(&self, plot: Lines) -> (r: Lines)
        requires
            plot@.is_rect(),
        ensures
            r@ == self@.framed(plot@),
            r@.is_rect(),
    {
        let mut plot = plot;
        if let Some(label) = &self.x_axis_label {
            let xal = Lines::from_string(label.as_str(), Alignment::First, &ColorMode::Plain).add_padding(
                [self.plot_height, 0, 0, 0],
            );
            plot = plot.merge_horizontally(&xal, Alignment::First);
        }
        if let Some(label) = &self.y_axis_label {
            let yal = Lines::from_string(label.as_str(), Alignment::First, &ColorMode::Plain);
            plot = yal.merge_vertically(&plot, Alignment::First);
        }
        if let Some(title) = &self.title {
            let title = draw_title(title.as_str(), self.big_title, self.title_color);
            plot = title.merge_vertically(&plot, Alignment::Center);
        }
        plot.add_padding(self.paddings)
    }

    /// The intervals with their columns in a plot `plot_width` wide over `len` entries.
    fn adjusted_intervals(&self, plot_width: usize, len: usize) -> (r: Vec<Interval>)
        requires
            len > 0,
        ensures
            r@.map_values(|interval: Interval| interval@) == adjusted(
                self@.labeled_intervals,
                plot_width as nat,
                len as nat,
            ),
    {
        let ghost want = adjusted(self@.labeled_intervals, plot_width as nat, len as nat);
        let mut out: Vec<Interval> = Vec::new();
        let mut i: usize = 0;
        while i < self.labeled_intervals.len()
            invariant
                i <= self.labeled_intervals.len(),
                len > 0,
                want == adjusted(self@.labeled_intervals, plot_width as nat, len as nat),
                out.len() == i,
                forall|k: int| 0 <= k < i ==> (#[trigger] out[k])@ == want[k],
            decreases self.labeled_intervals.len() - i,
        {
            let mut interval = self.labeled_intervals[i].clone();
            interval.adjust_coordinate(plot_width, len);
            assert(self@.labeled_intervals[i as int] == self.labeled_intervals[i as int]@);
            out.push(interval);
            i += 1;
        }
        assert(out@.map_values(|interval: Interval| interval@) =~= want);
        out
    }

    /// Draws a series.
    fn draw_1d_graph(&self) -> (r: String)
        requires
            self.wf(),
            self@.valid(),
            self@.data is Series,
        ensures
            r@ == self@.series_canvas().text(self@.color_mode),
            self@.series_canvas().is_rect(),
    {
        let series = self.data.unwrap_1d();
        let plot_width = match self.get_actual_plot_width() {
            Some(width) => width,
            None => vstd::pervasive::unreached(),
        };
        let sampled = if series.len() as u128 > 2 * (plot_width as u128) {
            Some(pick_meaningful_values(series, plot_width))
        } else {
            None
        };
        let data = match &sampled {
            Some(picked) => picked,
            None => series,
        };
        let mut plot = self.draw_series_plot(data, plot_width);
        let mut labels: Vec<String> = Vec::new();
        let mut i: usize = 0;
        while i < data.len()
            invariant
                i <= data.len(),
                labels.len() == i,
                forall|k: int| 0 <= k < i ==> (#[trigger] labels[k])@ == data[k].0@,
            decreases data.len() - i,
        {
            labels.push(data[i].0.clone());
            i += 1;
        }
        assert(labels@.map_values(|label: String| label@) =~= self@.shown_labels());
        let x_labels = draw_x_labels(&labels, plot_width, self.x_label_margin);
        plot = plot.merge_vertically(&x_labels, Alignment::Last);
        if self.labeled_intervals.len() > 0 {
            let intervals = self.adjusted_intervals(plot_width, series.len());
            proof {
                let views = intervals@.map_values(|interval: Interval| interval@);
                assert(views.len() == self@.labeled_intervals.len());
                assert forall|k: int| 0 <= k < intervals.len() && visible(
                    #[trigger] intervals[k]@,
                    plot_width as nat,
                ) implies intervals[k]@.plot_start <= intervals[k]@.plot_end < usize::MAX by {
                    assert(views[k] == intervals[k]@);
                    lemma_plot_column_monotonic(
                        self@.labeled_intervals[k].start,
                        self@.labeled_intervals[k].end,
                        plot_width as nat,
                        series.len() as nat,
                    );
                }
            }
            let arrows = draw_labeled_intervals(&intervals, plot_width);
            plot = plot.merge_vertically(&arrows, Alignment::Last);
        }
        let framed = self.frame(plot);
        framed.to_string(&self.color_mode)
    }

    /// Draws points.
    fn draw_2d_graph(&self) -> (r: String)
        requires
            self.wf(),
            self@.valid(),
            self@.data is Points,
        ensures
            r@ == self@.points_canvas().text(self@.color_mode),
            self@.points_canvas().is_rect(),
    {
        let (data, x_labels, y_labels) = self.data.unwrap_2d();
        let mut plot = plot_2d(data, self.plot_width, self.plot_height).add_border([false, true, true, false]);
        let ghost views = x_labels@.map_values(|label: Option<String>| opt_text(label));
        let mut labels: Vec<String> = Vec::new();
        let mut i: usize = 0;
        while i < x_labels.len()
            invariant
                i <= x_labels.len(),
                views == x_labels@.map_values(|label: Option<String>| opt_text(label)),
                labels.len() == i,
                forall|k: int| 0 <= k < i ==> (#[trigger] labels[k])@ == text_or_empty(views[k]),
            decreases x_labels.len() - i,
        {
            assert(views[i as int] == opt_text(x_labels[i as int]));
            match &x_labels[i] {
                Some(label) => labels.push(label.clone()),
                None => labels.push(String::new()),
            }
            i += 1;
        }
        assert(labels@.map_values(|label: String| label@) =~= views.map_values(
            |label: Option<Seq<char>>| text_or_empty(label),
        ));
        let below = draw_x_labels(&labels, self.plot_width, self.x_label_margin);
        plot = plot.merge_vertically(&below, Alignment::Last);
        let beside = draw_y_labels_2d_plot(y_labels);
        plot = beside.merge_horizontally(&plot, Alignment::First);
        let framed = self.frame(plot);
        framed.to_string(&self.color_mode)
    }

    /// Draws the plot. Whether it can be drawn, `is_valid` tells. The text is that of a
    /// rectangle: every line of it has the same number of cells.
    pub fn draw(&self) -> (r: String)
        requires
            self.wf(),
            self@.valid(),
        ensures
            r@ == self@.drawing(),
            self@.canvas().is_rect(),
    {
        match &self.data {
            GraphData::Data1D(_) => self.draw_1d_graph(),
            GraphData::Data2D { .. } => self.draw_2d_graph(),
            GraphData::Empty => vstd::pervasive::unreached(),
        }
    }
}

} // verus!
