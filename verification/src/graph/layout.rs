use vstd::prelude::*;
use crate::alignment::Alignment;
use crate::color::ColorModeView;
use crate::graph::plot::{
    bar_cell, bars, quarter_rows, scattered, title_canvas, x_labels, y_label_value, y_labels_1d, y_labels_2d, FULL_BLOCK,
    OVERFLOW_MARK,
};
use crate::lines::SPACE;
use crate::number::truncation;
use crate::graph::range::{
    distinct_count, greatest, least, lemma_least_greatest, lemma_plan_bounds, lemma_plan_skips_no_value,
    lemma_pretty_range_in_order, pretty_range, skip_plan, spread_flat,
    subplot_parts, widest_gap, y_range, Side,
};
use crate::graph::sample::sampled;
use crate::graph::{DataView, GraphView};
use crate::interval::{labeled_intervals, plot_column, IntervalView};
use crate::lines::Canvas;
use crate::skip_value::SkipView;

verus! {

/// The y axis of a plot of a series: its range, the range of values that is left out, if
/// one is, and the shares of the plots below and above that range.
pub struct Axis {
    pub y_min: real,
    pub y_max: real,
    pub skip: Option<(real, real)>,
    pub parts: (nat, nat),
}

/// The heights of the plot below a skipped range and of the plot above it. The two share
/// the rows of the plot by `parts`, in sixths; the taller takes the rows that are left
/// over, and the other gives one row to the line that parts the two.
pub open spec fn split_heights(height: nat, parts: (nat, nat)) -> (nat, nat) {
    let below = height * parts.0 / 6;
    let above = height * parts.1 / 6;
    if below > above {
        ((height - above) as nat, (above - 1) as nat)
    } else {
        ((below - 1) as nat, (height - below) as nat)
    }
}

/// `n` tildes: the line that parts the plots below and above a skipped range.
pub open spec fn tildes(n: nat) -> Seq<char> {
    Seq::new(n, |i: int| '~')
}

/// The intervals with the columns that they have in a plot `width` wide over `len`
/// entries.
pub open spec fn adjusted(intervals: Seq<IntervalView>, width: nat, len: nat) -> Seq<IntervalView> {
    intervals.map_values(
        |interval: IntervalView|
            IntervalView {
                plot_start: plot_column(interval.start, width, len),
                plot_end: plot_column(interval.end, width, len),
                ..interval
            },
    )
}

/// A label of the x axis that may be absent: nothing is drawn for an absent one.
pub open spec fn text_or_empty(label: Option<Seq<char>>) -> Seq<char> {
    match label {
        Some(text) => text,
        None => Seq::empty(),
    }
}

impl GraphView {
    /// The labels of the series as it is drawn: thinned out where it has more than two
    /// entries for each column of the plot.
    pub open spec fn shown_labels(self) -> Seq<Seq<char>> {
        match self.data {
            DataView::Series { labels, values } => if values.len() > 2 * self.actual_plot_width() {
                sampled(values, self.actual_plot_width()).map_values(|i: int| labels[i])
            } else {
                labels
            },
            _ => Seq::empty(),
        }
    }

    /// The values of the series as it is drawn.
    pub open spec fn shown_values(self) -> Seq<real> {
        match self.data {
            DataView::Series { labels, values } => if values.len() > 2 * self.actual_plot_width() {
                sampled(values, self.actual_plot_width()).map_values(|i: int| values[i])
            } else {
                values
            },
            _ => Seq::empty(),
        }
    }

    /// The range of the y axis before anything is left out: the bounds that were set,
    /// and for one that was not, the least or the greatest of the values. (Values that are
    /// all the same get a range around them: see `spread_flat`.)
    pub open spec fn base_range(self) -> (real, real) {
        let values = self.shown_values();
        let bounds = spread_flat(least(values), greatest(values), self.plot_height);
        y_range(self.y_min, self.y_max, bounds.0, bounds.1)
    }

    /// The y axis. A range is left out only in a plot more than 18 rows tall. Where the
    /// plot decides, it leaves the widest gap between the values out if the plot's range
    /// is less than three times as wide as that gap; bounds that were not set then go to
    /// the values with the margins of `skip_plan`, and the gap is left out only if it
    /// lies within the bounds. A range that was set is left out unless it is malformed,
    /// that is, starts above its end, or reaches beyond the plot's range.
    pub open spec fn axis(self) -> Axis {
        let values = self.shown_values();
        let (low, high) = self.base_range();
        let gap = widest_gap(values, values.len());
        let plain = Axis { y_min: low, y_max: high, skip: None, parts: (3, 3) };
        if self.plot_height <= 18 {
            plain
        } else {
            match self.skip_value {
                SkipView::Disabled => plain,
                SkipView::Automatic => if gap != 0real && (high - low) / gap < 3real {
                    let plan = skip_plan(values);
                    let y_min = if self.y_min is None { plan.low } else { low };
                    let y_max = if self.y_max is None { plan.high } else { high };
                    Axis {
                        y_min,
                        y_max,
                        skip: if y_min < plan.from && plan.to < y_max {
                            Some((plan.from, plan.to))
                        } else {
                            None
                        },
                        parts: plan.parts,
                    }
                } else {
                    plain
                },
                SkipView::Manual { from, to } => Axis {
                    y_min: low,
                    y_max: high,
                    skip: if from > to || from < low || to > high { None } else { Some((from, to)) },
                    parts: subplot_parts(
                        distinct_count(values, values.len(), Side::Below, from),
                        distinct_count(values, values.len(), Side::Above, to),
                    ),
                },
            }
        }
    }

    /// Whether the bounds of a range may be snapped, and to what: the lower bound of the
    /// plot and its upper bound where they were not set, a bound at a skipped range where
    /// the plot chose the range.
    pub open spec fn snap(self, low_movable: bool, high_movable: bool) -> Option<(bool, bool, real)> {
        match self.pretty_y {
            Some(step) => Some((low_movable, high_movable, step)),
            None => None,
        }
    }

    /// The range of values that the plot leaves out, where it leaves one out.
    pub open spec fn skipped(self) -> (real, real) {
        self.axis().skip->0
    }

    /// The range of a plot of a series in which nothing is left out, with pretty labels.
    pub open spec fn plot_range(self) -> (real, real) {
        pretty_range(
            self.axis().y_min,
            self.axis().y_max,
            self.plot_height,
            self.snap(self.y_min is None, self.y_max is None),
        )
    }

    /// The bars with the y axis and its labels, for a plot in which nothing is left out
    /// and whose range, before its labels are made pretty, goes from `y_min` to `y_max`.
    pub open spec fn plot_without_skip(self, values: Seq<real>, width: nat, y_min: real, y_max: real) -> Canvas {
        let (low, high) = pretty_range(
            y_min,
            y_max,
            self.plot_height,
            self.snap(self.y_min is None, self.y_max is None),
        );
        y_labels_1d(low, high, self.plot_height, self.y_label_margin, self.y_label_affixes).merge_horizontally(
            bars(values, width, self.plot_height, low, high, false, self.primary_color).add_border(
                false,
                true,
                true,
                false,
            ),
            Alignment::First,
        )
    }

    /// The range of the plot below a skipped range that starts at `from`, with pretty
    /// labels, in a plot whose range starts at `y_min`.
    pub open spec fn lower_range(self, y_min: real, from: real, parts: (nat, nat)) -> (real, real) {
        pretty_range(
            y_min,
            from,
            split_heights(self.plot_height, parts).0,
            self.snap(self.y_min is None, self.skip_value is Automatic),
        )
    }

    /// The range of the plot above a skipped range that ends at `to`, with pretty labels,
    /// in a plot whose range ends at `y_max`.
    pub open spec fn upper_range(self, to: real, y_max: real, parts: (nat, nat)) -> (real, real) {
        pretty_range(
            to,
            y_max,
            split_heights(self.plot_height, parts).1,
            self.snap(self.skip_value is Automatic, self.y_max is None),
        )
    }

    /// The plot below a skipped range, with the y axis and its labels, which are
    /// `label_width` columns wide. It shows no overflow marks.
    pub open spec fn lower_plot(self, values: Seq<real>, width: nat, range: (real, real), height: nat, label_width: nat) -> Canvas {
        let labels = y_labels_1d(range.0, range.1, height, self.y_label_margin, self.y_label_affixes);
        labels.add_padding(0, 0, (label_width - labels.width) as nat, 0).merge_horizontally(
            bars(values, width, height, range.0, range.1, true, self.primary_color).add_border(
                false,
                true,
                true,
                false,
            ),
            Alignment::First,
        )
    }

    /// The plot above a skipped range, with the y axis and its labels, which are
    /// `label_width` columns wide.
    pub open spec fn upper_plot(self, values: Seq<real>, width: nat, range: (real, real), height: nat, label_width: nat) -> Canvas {
        let labels = y_labels_1d(range.0, range.1, height, self.y_label_margin, self.y_label_affixes);
        labels.add_padding(0, 0, (label_width - labels.width) as nat, 0).merge_horizontally(
            bars(values, width, height, range.0, range.1, false, self.primary_color).add_border(
                false,
                false,
                true,
                false,
            ),
            Alignment::First,
        )
    }

    /// The bars with the y axis and its labels, for a plot that leaves the range from
    /// `from` to `to` out: two plots, each with its own scale, and a line of tildes
    /// between them.
    pub open spec fn plot_with_skip(
        self,
        values: Seq<real>,
        width: nat,
        y_min: real,
        y_max: real,
        from: real,
        to: real,
        parts: (nat, nat),
    ) -> Canvas {
        let (height1, height2) = split_heights(self.plot_height, parts);
        let range1 = self.lower_range(y_min, from, parts);
        let range2 = self.upper_range(to, y_max, parts);
        let width1 = y_labels_1d(range1.0, range1.1, height1, self.y_label_margin, self.y_label_affixes).width;
        let width2 = y_labels_1d(range2.0, range2.1, height2, self.y_label_margin, self.y_label_affixes).width;
        let label_width = if width1 >= width2 { width1 } else { width2 };
        let lower = self.lower_plot(values, width, range1, height1, label_width);
        let upper = self.upper_plot(values, width, range2, height2, label_width);
        upper.merge_vertically(
            Canvas::from_text(tildes(lower.width), Alignment::First, ColorModeView::Plain).with_color(
                self.primary_color,
            ).merge_vertically(lower, Alignment::First),
            Alignment::First,
        )
    }

    /// The bars with the y axis and its labels.
    pub open spec fn series_plot(self) -> Canvas {
        let values = self.shown_values();
        let width = self.actual_plot_width();
        let axis = self.axis();
        match axis.skip {
            None => self.plot_without_skip(values, width, axis.y_min, axis.y_max),
            Some((from, to)) => self.plot_with_skip(values, width, axis.y_min, axis.y_max, from, to, axis.parts),
        }
    }

    /// A plot with what stands around it: the label of the x axis to its right, at the
    /// height of the axis; the label of the y axis above it; the title above that,
    /// centred; and the paddings around all of it.
    pub open spec fn framed(self, plot: Canvas) -> Canvas {
        let with_x = match self.x_axis_label {
            Some(label) => plot.merge_horizontally(
                Canvas::from_text(label, Alignment::First, ColorModeView::Plain).add_padding(self.plot_height, 0, 0, 0),
                Alignment::First,
            ),
            None => plot,
        };
        let with_y = match self.y_axis_label {
            Some(label) => Canvas::from_text(label, Alignment::First, ColorModeView::Plain).merge_vertically(
                with_x,
                Alignment::First,
            ),
            None => with_x,
        };
        let with_title = match self.title {
            Some(title) => title_canvas(title, self.big_title, self.title_color).merge_vertically(
                with_y,
                Alignment::Center,
            ),
            None => with_y,
        };
        with_title.add_padding(
            self.paddings[0] as nat,
            self.paddings[1] as nat,
            self.paddings[2] as nat,
            self.paddings[3] as nat,
        )
    }

    /// The plot of a series: the bars with their axes, the labels of the x axis below,
    /// the labelled intervals below those, and the frame.
    pub open spec fn series_canvas(self) -> Canvas {
        let width = self.actual_plot_width();
        let labelled = self.series_plot().merge_vertically(
            x_labels(self.shown_labels(), width, self.x_label_margin),
            Alignment::Last,
        );
        self.framed(
            if self.labeled_intervals.len() > 0 {
                labelled.merge_vertically(
                    labeled_intervals(adjusted(self.labeled_intervals, width, self.data.len()), width),
                    Alignment::Last,
                )
            } else {
                labelled
            },
        )
    }

    /// The plot of points: the points with their axes, the labels of the columns below,
    /// the labels of the rows to the left, and the frame.
    pub open spec fn points_canvas(self) -> Canvas {
        match self.data {
            DataView::Points { data, x_labels: column_labels, y_labels: row_labels } => self.framed(
                y_labels_2d(row_labels).merge_horizontally(
                    scattered(data, self.plot_width, self.plot_height, data.len()).add_border(
                        false,
                        true,
                        true,
                        false,
                    ).merge_vertically(
                        x_labels(
                            column_labels.map_values(|label: Option<Seq<char>>| text_or_empty(label)),
                            self.plot_width,
                            self.x_label_margin,
                        ),
                        Alignment::Last,
                    ),
                    Alignment::First,
                ),
            ),
            _ => Canvas::blank(0, 0),
        }
    }

    /// The plot as a canvas.
    pub open spec fn canvas(self) -> Canvas {
        match self.data {
            DataView::Series { .. } => self.series_canvas(),
            DataView::Points { .. } => self.points_canvas(),
            DataView::Empty => Canvas::blank(0, 0),
        }
    }

    /// The plot as text, in the plot's color mode.
    pub open spec fn drawing(self) -> Seq<char> {
        self.canvas().text(self.color_mode)
    }
}

/// In a plot of a series that leaves nothing out, the values that the labels of the y
/// axis show do not rise from one row to the next below, as long as the range of the
/// plot is not upside down.
pub proof fn lemma_y_labels_in_order(graph: GraphView, row: int)
    requires
        graph.data is Series,
        graph.axis().skip is None,
        graph.plot_height > 0,
        graph.plot_range().0 <= graph.plot_range().1,
    ensures
        y_label_value(graph.plot_range().0, graph.plot_range().1, graph.plot_height, row) >= y_label_value(
            graph.plot_range().0,
            graph.plot_range().1,
            graph.plot_height,
            row + 1,
        ),
{
    crate::graph::plot::lemma_y_labels_descend(
        graph.plot_range().0,
        graph.plot_range().1,
        graph.plot_height,
        row,
    );
}

/// The range of a plot of a series that leaves nothing out is not upside down where the
/// plot chose both of its bounds, and where both were set and are in order. (Where only
/// one was set, and lies beyond all values, the other may end up on the wrong side of it.)
pub proof fn lemma_plot_range_in_order(graph: GraphView)
    requires
        graph.data is Series,
        graph.shown_values().len() > 0,
        graph.axis().skip is None,
        (graph.y_min is None && graph.y_max is None) || (graph.y_min is Some && graph.y_max is Some
            && graph.y_min->0 <= graph.y_max->0),
    ensures
        graph.plot_range().0 <= graph.plot_range().1,
{
    let values = graph.shown_values();
    lemma_least_greatest(values, 0);
    let base = graph.base_range();
    assert(base.0 <= base.1);
    let axis = graph.axis();
    if graph.plot_height > 18 && graph.skip_value is Automatic && graph.y_min is None && widest_gap(
        values,
        values.len(),
    ) != 0real {
        lemma_plan_bounds(values);
    }
    assert(axis.y_min <= axis.y_max);
    lemma_pretty_range_in_order(
        axis.y_min,
        axis.y_max,
        graph.plot_height,
        graph.snap(graph.y_min is None, graph.y_max is None),
    );
}

/// Bounds of the y axis that were both set are the range of the plot: the plot moves
/// neither of them, whatever the values are and whether or not it leaves a range out, and
/// where it leaves none out, it does not snap them either.
pub proof fn lemma_set_bounds_are_kept(graph: GraphView)
    requires
        graph.data is Series,
        graph.y_min is Some,
        graph.y_max is Some,
    ensures
        graph.axis().y_min == graph.y_min->0,
        graph.axis().y_max == graph.y_max->0,
        graph.plot_range() == (graph.y_min->0, graph.y_max->0),
{
}

/// A value that lies above the range of a plot by a quarter of a row or more is not drawn
/// to scale: its column carries the overflow mark in the top row and is filled below it.
/// (Where the value lies so far above that its place leaves 32 bits, the column is blank.)
pub proof fn lemma_bar_above_range_is_marked(value: real, low: real, high: real, height: nat, row: int)
    requires
        low < high,
        0 <= row < height,
        value >= high + (high - low) / ((4 * height) as real),
        quarter_rows(value, low, high, height) is Some,
    ensures
        bar_cell(quarter_rows(value, low, high, height), height, row, false) == if row == 0 {
            OVERFLOW_MARK
        } else {
            FULL_BLOCK
        },
{
    let span = high - low;
    let rows = (4 * height) as real;
    let step = span / rows;
    assert(step * rows == span) by (nonlinear_arith)
        requires
            step == span / rows,
            rows > 0real,
    ;
    let share = (high - value) / span;
    assert(share * rows <= -1real) by (nonlinear_arith)
        requires
            share == (high - value) / span,
            span > 0real,
            rows > 0real,
            high - value <= -step,
            step * rows == span,
    ;
    let position = share * (height as real) * 4real;
    assert(position == share * rows) by (nonlinear_arith)
        requires
            position == share * (height as real) * 4real,
            rows == (4 * height) as real,
    ;
    assert(truncation(position) <= -1);
}

/// A value that is not below the upper bound of a plot that shows no overflow marks
/// fills its column in every row, or leaves it blank in every row: it is not drawn to
/// the plot's scale.
pub proof fn lemma_bar_at_or_above_range(value: real, low: real, high: real, height: nat, row: int)
    requires
        low <= high <= value,
        0 <= row < height,
    ensures
        quarter_rows(value, low, high, height) is Some ==> bar_cell(
            quarter_rows(value, low, high, height),
            height,
            row,
            true,
        ) == FULL_BLOCK,
        quarter_rows(value, low, high, height) is None ==> bar_cell(
            quarter_rows(value, low, high, height),
            height,
            row,
            true,
        ) == SPACE,
{
    if low < high {
        let share = (high - value) / (high - low);
        assert(share <= 0real) by (nonlinear_arith)
            requires
                share == (high - value) / (high - low),
                high <= value,
                low < high,
        ;
        let position = share * (height as real) * 4real;
        assert(position <= 0real) by (nonlinear_arith)
            requires
                position == share * (height as real) * 4real,
                share <= 0real,
                height >= 0,
        ;
        assert(truncation(position) <= 0);
    }
}

/// A value that is not above the lower bound of a plot leaves its column blank in every
/// row.
pub proof fn lemma_bar_at_or_below_range(value: real, low: real, high: real, height: nat, row: int)
    requires
        value <= low <= high,
        0 <= row < height,
    ensures
        bar_cell(quarter_rows(value, low, high, height), height, row, false) == SPACE,
{
    if low < high {
        let share = (high - value) / (high - low);
        assert(share >= 1real) by (nonlinear_arith)
            requires
                share == (high - value) / (high - low),
                value <= low,
                low < high,
        ;
        let position = share * (height as real) * 4real;
        assert(position >= (4 * height) as real) by (nonlinear_arith)
            requires
                position == share * (height as real) * 4real,
                share >= 1real,
                height >= 0,
        ;
        assert(truncation(position) >= 4 * height);
    }
}

/// A lower bound that may not move stays where it is when the range is made pretty, and
/// a range that is not upside down stays so.
pub proof fn lemma_fixed_low_stays(low: real, high: real, height: nat, high_movable: bool, step: real)
    ensures
        pretty_range(low, high, height, Some((false, high_movable, step))) == (low, high),
{
}

/// Where a plot of a series leaves a range out, no value of the series within that range
/// is drawn to the scale of either plot: in the plot below the range its column is
/// filled in every row, or blank in every row where the plot's range spans nothing, and
/// in the plot above the range its column is blank.
pub proof fn lemma_skipped_values_not_scaled(graph: GraphView, i: int, row: int)
    requires
        graph.data is Series,
        graph.axis().skip is Some,
        0 <= i < graph.shown_values().len(),
        graph.skipped().0 <= graph.shown_values()[i] <= graph.skipped().1,
    ensures
        ({
            let axis = graph.axis();
            let value = graph.shown_values()[i];
            let heights = split_heights(graph.plot_height, axis.parts);
            let lower = graph.lower_range(axis.y_min, graph.skipped().0, axis.parts);
            let upper = graph.upper_range(graph.skipped().1, axis.y_max, axis.parts);
            let quarters = quarter_rows(value, lower.0, lower.1, heights.0);
            &&& 0 <= row < heights.0 ==> bar_cell(quarters, heights.0, row, true) == if quarters is Some {
                FULL_BLOCK
            } else {
                SPACE
            }
            &&& 0 <= row < heights.1 ==> bar_cell(
                quarter_rows(value, upper.0, upper.1, heights.1),
                heights.1,
                row,
                false,
            ) == SPACE
        }),
{
    let axis = graph.axis();
    let values = graph.shown_values();
    let value = values[i];
    let heights = split_heights(graph.plot_height, axis.parts);
    match graph.skip_value {
        SkipView::Automatic => {
            lemma_plan_skips_no_value(values, i);
        },
        SkipView::Manual { from, to } => {
            let lower = graph.lower_range(axis.y_min, from, axis.parts);
            let upper = graph.upper_range(to, axis.y_max, axis.parts);
            assert(lower == (axis.y_min, from));
            if graph.pretty_y is Some {
                lemma_fixed_low_stays(to, axis.y_max, heights.1, graph.y_max is None, graph.pretty_y->0);
            }
            if 0 <= row < heights.0 {
                lemma_bar_at_or_above_range(value, lower.0, lower.1, heights.0, row);
            }
            if 0 <= row < heights.1 {
                lemma_bar_at_or_below_range(value, upper.0, upper.1, heights.1, row);
            }
        },
        SkipView::Disabled => {},
    }
}

} // verus!
