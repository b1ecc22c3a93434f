use vstd::prelude::*;
use crate::color::{Color, ColorMode};
use crate::utils::{decimal, decimal_string, low_unit, low_unit_of};
use crate::convert::IntoRatio;
use crate::format::YLabelFormatter;
use crate::graph::plot::opt_text;
use crate::graph::{DataView, Graph, GraphData, GraphView};
use crate::interval::{Interval, IntervalView};
use crate::number::Rational;
use crate::skip_value::SkipValue;

verus! {

/// The series of the values `data`, each labelled with its index.
pub open spec fn indexed_series<T: IntoRatio>(data: Seq<T>) -> DataView {
    DataView::Series {
        labels: Seq::new(data.len(), |i: int| decimal(i as nat)),
        values: Seq::new(data.len(), |i: int| data[i].ratio()),
    }
}

/// The series of the labelled values `data`.
pub open spec fn labeled_series<T: IntoRatio>(data: Seq<(String, T)>) -> DataView {
    DataView::Series {
        labels: Seq::new(data.len(), |i: int| data[i].0@),
        values: Seq::new(data.len(), |i: int| data[i].1.ratio()),
    }
}

/// The points `data`, each glyph as one code unit.
pub open spec fn glyph_points(data: Seq<(usize, usize, char)>) -> Seq<(usize, usize, u16)> {
    data.map_values(|point: (usize, usize, char)| (point.0, point.1, low_unit(point.2)))
}

/// The glyph of a cell of which the quarters top left, top right, bottom left and bottom
/// right hold a dot or not; none for a cell without a dot.
pub open spec fn quadrant_glyph(top_left: bool, top_right: bool, bottom_left: bool, bottom_right: bool) -> Option<u16> {
    match (top_left, top_right, bottom_left, bottom_right) {
        (true, true, true, true) => Some(0x2588u16),
        (true, true, true, false) => Some(0x259Bu16),
        (true, true, false, true) => Some(0x259Cu16),
        (true, true, false, false) => Some(0x2580u16),
        (true, false, true, true) => Some(0x2599u16),
        (true, false, true, false) => Some(0x258Cu16),
        (true, false, false, true) => Some(0x259Au16),
        (true, false, false, false) => Some(0x2598u16),
        (false, true, true, true) => Some(0x259Fu16),
        (false, true, true, false) => Some(0x259Eu16),
        (false, true, false, true) => Some(0x2590u16),
        (false, true, false, false) => Some(0x259Du16),
        (false, false, true, true) => Some(0x2584u16),
        (false, false, true, false) => Some(0x2596u16),
        (false, false, false, true) => Some(0x2597u16),
        (false, false, false, false) => None,
    }
}

/// The glyph of the cell at column `x` of row `y` for the dots `dots`.
pub open spec fn glyph_at(dots: Seq<(usize, usize)>, x: int, y: int) -> Option<u16> {
    quadrant_glyph(
        dots.contains(((2 * x) as usize, (2 * y) as usize)),
        dots.contains(((2 * x + 1) as usize, (2 * y) as usize)),
        dots.contains(((2 * x) as usize, (2 * y + 1) as usize)),
        dots.contains(((2 * x + 1) as usize, (2 * y + 1) as usize)),
    )
}

/// The points that stand for the dots `dots` in the first `n` cells of a plot `width` by
/// `height`, the cells taken column by column, each column from the top.
pub open spec fn quadrant_points(dots: Seq<(usize, usize)>, width: nat, height: nat, n: nat) -> Seq<(usize, usize, u16)>
    decreases n,
{
    if n == 0 {
        Seq::empty()
    } else {
        let before = quadrant_points(dots, width, height, (n - 1) as nat);
        let x = (n - 1) / (height as int);
        let y = (n - 1) % (height as int);
        match glyph_at(dots, x, y) {
            Some(glyph) => before.push((x as usize, y as usize, glyph)),
            None => before,
        }
    }
}

/// The glyph of a cell of which the quarters hold a dot or not.
fn quadrant_glyph_of(top_left: bool, top_right: bool, bottom_left: bool, bottom_right: bool) -> (r: Option<u16>)
    ensures
        r == quadrant_glyph(top_left, top_right, bottom_left, bottom_right),
{
    match (top_left, top_right, bottom_left, bottom_right) {
        (true, true, true, true) => Some(0x2588),
        (true, true, true, false) => Some(0x259B),
        (true, true, false, true) => Some(0x259C),
        (true, true, false, false) => Some(0x2580),
        (true, false, true, true) => Some(0x2599),
        (true, false, true, false) => Some(0x258C),
        (true, false, false, true) => Some(0x259A),
        (true, false, false, false) => Some(0x2598),
        (false, true, true, true) => Some(0x259F),
        (false, true, true, false) => Some(0x259E),
        (false, true, false, true) => Some(0x2590),
        (false, true, false, false) => Some(0x259D),
        (false, false, true, true) => Some(0x2584),
        (false, false, true, false) => Some(0x2596),
        (false, false, false, true) => Some(0x2597),
        (false, false, false, false) => None,
    }
}

/// A row of the grid of dots for a plot `width` wide, without a dot.
fn dark_row(width: usize) -> (r: Vec<bool>)
    ensures
        r.len() == 2 * width,
        forall|i: int| 0 <= i < r.len() ==> !#[trigger] r[i],
{
    let mut row: Vec<bool> = Vec::new();
    let mut x: usize = 0;
    while x < width
        invariant
            x <= width,
            row.len() == 2 * x,
            forall|i: int| 0 <= i < row.len() ==> !#[trigger] row[i],
        decreases width - x,
    {
        row.push(false);
        row.push(false);
        x += 1;
    }
    row
}

/// The views of labels that may be absent.
pub open spec fn label_views(labels: Seq<Option<String>>) -> Seq<Option<Seq<char>>> {
    labels.map_values(|label: Option<String>| opt_text(label))
}

/// A copy of the labels.
fn copy_labels(labels: &[Option<String>]) -> (r: Vec<Option<String>>)
    ensures
        label_views(r@) == label_views(labels@),
        r.len() == labels.len(),
{
    let mut out: Vec<Option<String>> = Vec::new();
    let mut i: usize = 0;
    while i < labels.len()
        invariant
            i <= labels.len(),
            out.len() == i,
            forall|k: int| 0 <= k < i ==> opt_text(#[trigger] out[k]) == opt_text(labels[k]),
        decreases labels.len() - i,
    {
        match &labels[i] {
            Some(label) => out.push(Some(label.clone())),
            None => out.push(None),
        }
        i += 1;
    }
    assert(label_views(out@) =~= label_views(labels@));
    out
}

impl Graph {
    /// Shows the values `data` as a series, each labelled with its index, from 0.
    pub fn set_1d_data<T: IntoRatio>(&mut self, data: &[T]) -> (r: &mut Self)
        requires
            old(self).wf(),
            forall|i: int| 0 <= i < data.len() ==> (#[trigger] data[i]).convertible(),
        ensures
            r@ == (GraphView { data: indexed_series(data@), ..old(self)@ }),
            r.wf(),
            *final(self) == *final(r),
    {
        let mut series: Vec<(String, Rational)> = Vec::new();
        let mut i: usize = 0;
        while i < data.len()
            invariant
                i <= data.len(),
                forall|k: int| 0 <= k < data.len() ==> (#[trigger] data[k]).convertible(),
                series.len() == i,
                forall|k: int| 0 <= k < i ==> (#[trigger] series[k]).1.wf() && series[k].1@ == data[k].ratio()
                    && series[k].0@ == decimal(k as nat),
            decreases data.len() - i,
        {
            series.push((decimal_string(i), data[i].into_ratio()));
            i += 1;
        }
        self.data = GraphData::Data1D(series);
        assert(self@.data->Series_labels =~= indexed_series(data@)->Series_labels);
        assert(self@.data->Series_values =~= indexed_series(data@)->Series_values);
        self
    }

    /// Shows the labelled values `data` as a series.
    pub fn set_1d_labeled_data<T: IntoRatio>(&mut self, data: &[(String, T)]) -> (r: &mut Self)
        requires
            old(self).wf(),
            forall|i: int| 0 <= i < data.len() ==> (#[trigger] data[i]).1.convertible(),
        ensures
            r@ == (GraphView { data: labeled_series(data@), ..old(self)@ }),
            r.wf(),
            *final(self) == *final(r),
    {
        let mut series: Vec<(String, Rational)> = Vec::new();
        let mut i: usize = 0;
        while i < data.len()
            invariant
                i <= data.len(),
                forall|k: int| 0 <= k < data.len() ==> (#[trigger] data[k]).1.convertible(),
                series.len() == i,
                forall|k: int| 0 <= k < i ==> (#[trigger] series[k]).1.wf() && series[k].1@ == data[k].1.ratio()
                    && series[k].0@ == data[k].0@,
            decreases data.len() - i,
        {
            series.push((data[i].0.clone(), data[i].1.into_ratio()));
            i += 1;
        }
        self.data = GraphData::Data1D(series);
        assert(self@.data->Series_labels =~= labeled_series(data@)->Series_labels);
        assert(self@.data->Series_values =~= labeled_series(data@)->Series_values);
        self
    }

    /// Shows points: each entry of `data` is a column, a row and the glyph to draw there.
    /// `x_labels` holds a label, which may be absent, for each column, and `y_labels` one
    /// for each row; their numbers become the width and the height of the plot.
    pub fn set_2d_data(
        &mut self,
        data: &[(usize, usize, char)],
        x_labels: &[Option<String>],
        y_labels: &[Option<String>],
    ) -> (r: &mut Self)
        requires
            old(self).wf(),
        ensures
            r@ == (GraphView {
                data: DataView::Points {
                    data: glyph_points(data@),
                    x_labels: label_views(x_labels@),
                    y_labels: label_views(y_labels@),
                },
                plot_width: x_labels.len() as nat,
                plot_height: y_labels.len() as nat,
                ..old(self)@
            }),
            r.wf(),
            *final(self) == *final(r),
    {
        let mut points: Vec<(usize, usize, u16)> = Vec::new();
        let mut i: usize = 0;
        while i < data.len()
            invariant
                i <= data.len(),
                points.len() == i,
                forall|k: int| 0 <= k < i ==> #[trigger] points[k] == (data[k].0, data[k].1, low_unit(data[k].2)),
            decreases data.len() - i,
        {
            points.push((data[i].0, data[i].1, low_unit_of(data[i].2)));
            i += 1;
        }
        assert(points@ =~= glyph_points(data@));
        self.plot_width = x_labels.len();
        self.plot_height = y_labels.len();
        self.data = GraphData::Data2D { data: points, x_labels: copy_labels(x_labels), y_labels: copy_labels(y_labels) };
        self
    }

    /// Shows dots at twice the resolution of the plot: each entry of `data` is a column
    /// and a row of a grid with two columns for each column of the plot and two rows for
    /// each row, and each cell of the plot shows which of its four quarters hold a dot.
    /// `x_labels` and `y_labels` are as for `set_2d_data`.
    pub fn set_2d_data_high_resolution(
        &mut self,
        data: &[(usize, usize)],
        x_labels: &[Option<String>],
        y_labels: &[Option<String>],
    ) -> (r: &mut Self)
        requires
            old(self).wf(),
            forall|i: int| 0 <= i < data.len() ==> (#[trigger] data[i]).0 < 2 * x_labels.len() && data[i].1 < 2
                * y_labels.len(),
        ensures
            r@ == (GraphView {
                data: DataView::Points {
                    data: quadrant_points(
                        data@,
                        x_labels.len() as nat,
                        y_labels.len() as nat,
                        (x_labels.len() * y_labels.len()) as nat,
                    ),
                    x_labels: label_views(x_labels@),
                    y_labels: label_views(y_labels@),
                },
                plot_width: x_labels.len() as nat,
                plot_height: y_labels.len() as nat,
                ..old(self)@
            }),
            r.wf(),
            *final(self) == *final(r),
    {
        let width = x_labels.len();
        let height = y_labels.len();
        let mut grid: Vec<Vec<bool>> = Vec::new();
        let mut y: usize = 0;
        while y < height
            invariant
                y <= height,
                grid.len() == 2 * y,
                forall|j: int| 0 <= j < grid.len() ==> (#[trigger] grid[j]).len() == 2 * width,
                forall|j: int, i: int| 0 <= j < grid.len() && 0 <= i < 2 * width ==> !#[trigger] grid[j][i],
            decreases height - y,
        {
            grid.push(dark_row(width));
            grid.push(dark_row(width));
            y += 1;
        }
        let mut n: usize = 0;
        while n < data.len()
            invariant
                n <= data.len(),
                forall|i: int| 0 <= i < data.len() ==> (#[trigger] data[i]).0 < 2 * width && data[i].1 < 2 * height,
                grid.len() == 2 * height,
                forall|j: int| 0 <= j < grid.len() ==> (#[trigger] grid[j]).len() == 2 * width,
                forall|j: int, i: int| 0 <= j < 2 * height && 0 <= i < 2 * width ==> #[trigger] grid[j][i] == data@.take(
                    n as int,
                ).contains((i as usize, j as usize)),
            decreases data.len() - n,
        {
            let (x, y) = data[n];
            let ghost before = data@.take(n as int);
            let ghost after = data@.take(n + 1);
            grid[y][x] = true;
            proof {
                assert(after =~= before.push((x, y)));
                assert forall|j: int, i: int| 0 <= j < 2 * height && 0 <= i < 2 * width implies #[trigger] grid[j][i]
                    == after.contains((i as usize, j as usize)) by {
                    if before.contains((i as usize, j as usize)) {
                        let k = choose|k: int| 0 <= k < before.len() && before[k] == (i as usize, j as usize);
                        assert(after[k] == (i as usize, j as usize));
                    }
                    if after.contains((i as usize, j as usize)) {
                        let k = choose|k: int| 0 <= k < after.len() && after[k] == (i as usize, j as usize);
                        if k < n {
                            assert(before[k] == (i as usize, j as usize));
                        }
                    }
                    if i == x && j == y {
                        assert(after[n as int] == (x, y));
                    }
                }
            }
            n += 1;
        }
        assert(data@.take(data.len() as int) =~= data@);
        let mut points: Vec<(usize, usize, u16)> = Vec::new();
        let mut x: usize = 0;
        while x < width
            invariant
                x <= width,
                grid.len() == 2 * height,
                forall|j: int| 0 <= j < grid.len() ==> (#[trigger] grid[j]).len() == 2 * width,
                forall|j: int, i: int| 0 <= j < 2 * height && 0 <= i < 2 * width ==> #[trigger] grid[j][i] == data@.contains(
                    (i as usize, j as usize),
                ),
                points@ == quadrant_points(data@, width as nat, height as nat, (x * height) as nat),
            decreases width - x,
        {
            let mut y: usize = 0;
            while y < height
                invariant
                    y <= height,
                    x < width,
                    grid.len() == 2 * height,
                    forall|j: int| 0 <= j < grid.len() ==> (#[trigger] grid[j]).len() == 2 * width,
                    forall|j: int, i: int| 0 <= j < 2 * height && 0 <= i < 2 * width ==> #[trigger] grid[j][i]
                        == data@.contains((i as usize, j as usize)),
                    points@ == quadrant_points(data@, width as nat, height as nat, (x * height + y) as nat),
                decreases height - y,
            {
                proof {
                    let cell = x * height + y;
                    assert(cell / (height as int) == x && cell % (height as int) == y) by (nonlinear_arith)
                        requires
                            cell == x * height + y,
                            0 <= y < height,
                            0 <= x,
                    ;
                }
                let glyph = quadrant_glyph_of(
                    grid[y * 2][x * 2],
                    grid[y * 2][x * 2 + 1],
                    grid[y * 2 + 1][x * 2],
                    grid[y * 2 + 1][x * 2 + 1],
                );
                if let Some(glyph) = glyph {
                    points.push((x, y, glyph));
                }
                y += 1;
            }
            assert(x * height + height == (x + 1) * height) by (nonlinear_arith);
            x += 1;
        }
        self.plot_width = width;
        self.plot_height = height;
        self.data = GraphData::Data2D { data: points, x_labels: copy_labels(x_labels), y_labels: copy_labels(y_labels) };
        self
    }

    /// Sets the lower bound of the y axis.
    pub fn set_y_min<T: IntoRatio>(&mut self, y_min: T) -> (r: &mut Self)
        requires
            y_min.convertible(),
            old(self).wf(),
        ensures
            r@ == (GraphView { y_min: Some(y_min.ratio()), ..old(self)@ }),
            r.wf(),
            *final(self) == *final(r),
    {
        self.y_min = Some(y_min.into_ratio());
        self
    }

    /// Sets the upper bound of the y axis.
    pub fn set_y_max<T: IntoRatio>(&mut self, y_max: T) -> (r: &mut Self)
        requires
            y_max.convertible(),
            old(self).wf(),
        ensures
            r@ == (GraphView { y_max: Some(y_max.ratio()), ..old(self)@ }),
            r.wf(),
            *final(self) == *final(r),
    {
        self.y_max = Some(y_max.into_ratio());
        self
    }

    /// Sets both bounds of the y axis.
    pub fn set_y_range<T: IntoRatio, U: IntoRatio>(&mut self, y_min: T, y_max: U) -> (r: &mut Self)
        requires
            y_min.convertible(),
            y_max.convertible(),
            old(self).wf(),
        ensures
            r@ == (GraphView { y_min: Some(y_min.ratio()), y_max: Some(y_max.ratio()), ..old(self)@ }),
            r.wf(),
            *final(self) == *final(r),
    {
        self.y_min = Some(y_min.into_ratio());
        self.y_max = Some(y_max.into_ratio());
        self
    }

    /// Sets the granularity to which the labels of the y axis are snapped where the plot
    /// chooses the range itself: with 5, a range from -0.1 to 499.9 becomes one whose
    /// labels are multiples of 5.
    pub fn set_pretty_y<T: IntoRatio>(&mut self, y: T) -> (r: &mut Self)
        requires
            y.convertible(),
            old(self).wf(),
        ensures
            r@ == (GraphView { pretty_y: Some(y.ratio()), ..old(self)@ }),
            r.wf(),
            *final(self) == *final(r),
    {
        self.pretty_y = Some(y.into_ratio());
        self
    }

    /// Sets the width of the plot in columns.
    pub fn set_plot_width(&mut self, plot_width: usize) -> (r: &mut Self)
        ensures
            r@ == (GraphView { plot_width: plot_width as nat, ..old(self)@ }),
            r.wf() == old(self).wf(),
            *final(self) == *final(r),
    {
        self.plot_width = plot_width;
        self
    }

    /// Sets the height of the plot in rows.
    pub fn set_plot_height(&mut self, plot_height: usize) -> (r: &mut Self)
        ensures
            r@ == (GraphView { plot_height: plot_height as nat, ..old(self)@ }),
            r.wf() == old(self).wf(),
            *final(self) == *final(r),
    {
        self.plot_height = plot_height;
        self
    }

    /// Sets the number of columns left free behind a label of the x axis.
    pub fn set_x_label_margin(&mut self, x_label_margin: usize) -> (r: &mut Self)
        ensures
            r@ == (GraphView { x_label_margin: x_label_margin as nat, ..old(self)@ }),
            r.wf() == old(self).wf(),
            *final(self) == *final(r),
    {
        self.x_label_margin = x_label_margin;
        self
    }

    /// Sets which rows carry a label of the y axis: every `y_label_margin`-th.
    pub fn set_y_label_margin(&mut self, y_label_margin: usize) -> (r: &mut Self)
        ensures
            r@ == (GraphView { y_label_margin: y_label_margin as nat, ..old(self)@ }),
            r.wf() == old(self).wf(),
            *final(self) == *final(r),
    {
        self.y_label_margin = y_label_margin;
        self
    }

    /// Sets how the labels of the y axis are written.
    pub fn set_y_label_formatter(&mut self, formatter: YLabelFormatter) -> (r: &mut Self)
        ensures
            r@ == (GraphView { y_label_affixes: (formatter.prefix@, formatter.suffix@), ..old(self)@ }),
            r.wf() == old(self).wf(),
            *final(self) == *final(r),
    {
        self.y_label_formatter = formatter;
        self
    }

    /// Sets the number of columns that one entry of a series takes. The width of the plot
    /// then follows from the number of entries, whatever width was set.
    pub fn set_block_width(&mut self, block_width: usize) -> (r: &mut Self)
        ensures
            r@ == (GraphView { block_width: Some(block_width as nat), ..old(self)@ }),
            r.wf() == old(self).wf(),
            *final(self) == *final(r),
    {
        self.block_width = Some(block_width);
        self
    }

    /// Sets the number of blank rows above the plot.
    pub fn set_padding_top(&mut self, padding_top: usize) -> (r: &mut Self)
        ensures
            r@ == (GraphView {
                paddings: [padding_top, old(self)@.paddings[1], old(self)@.paddings[2], old(self)@.paddings[3]],
                ..old(self)@
            }),
            r.wf() == old(self).wf(),
            *final(self) == *final(r),
    {
        self.paddings = [padding_top, self.paddings[1], self.paddings[2], self.paddings[3]];
        self
    }

    /// Sets the number of blank rows below the plot.
    pub fn set_padding_bottom(&mut self, padding_bottom: usize) -> (r: &mut Self)
        ensures
            r@ == (GraphView {
                paddings: [old(self)@.paddings[0], padding_bottom, old(self)@.paddings[2], old(self)@.paddings[3]],
                ..old(self)@
            }),
            r.wf() == old(self).wf(),
            *final(self) == *final(r),
    {
        self.paddings = [self.paddings[0], padding_bottom, self.paddings[2], self.paddings[3]];
        self
    }

    /// Sets the number of blank columns to the left of the plot.
    pub fn set_padding_left(&mut self, padding_left: usize) -> (r: &mut Self)
        ensures
            r@ == (GraphView {
                paddings: [old(self)@.paddings[0], old(self)@.paddings[1], padding_left, old(self)@.paddings[3]],
                ..old(self)@
            }),
            r.wf() == old(self).wf(),
            *final(self) == *final(r),
    {
        self.paddings = [self.paddings[0], self.paddings[1], padding_left, self.paddings[3]];
        self
    }

    /// Sets the number of blank columns to the right of the plot.
    pub fn set_padding_right(&mut self, padding_right: usize) -> (r: &mut Self)
        ensures
            r@ == (GraphView {
                paddings: [old(self)@.paddings[0], old(self)@.paddings[1], old(self)@.paddings[2], padding_right],
                ..old(self)@
            }),
            r.wf() == old(self).wf(),
            *final(self) == *final(r),
    {
        self.paddings = [self.paddings[0], self.paddings[1], self.paddings[2], padding_right];
        self
    }

    /// Sets the blank rows and columns around the plot: top, bottom, left, right.
    pub fn set_paddings(&mut self, paddings: [usize; 4]) -> (r: &mut Self)
        ensures
            r@ == (GraphView { paddings, ..old(self)@ }),
            r.wf() == old(self).wf(),
            *final(self) == *final(r),
    {
        self.paddings = paddings;
        self
    }

    /// Sets the title.
    pub fn set_title(&mut self, title: &str) -> (r: &mut Self)
        ensures
            r@ == (GraphView { title: Some(title@), ..old(self)@ }),
            r.wf() == old(self).wf(),
            *final(self) == *final(r),
    {
        self.title = Some(title.to_owned());
        self
    }

    /// Sets the color of the title.
    pub fn set_title_color(&mut self, title_color: Option<Color>) -> (r: &mut Self)
        ensures
            r@ == (GraphView { title_color, ..old(self)@ }),
            r.wf() == old(self).wf(),
            *final(self) == *final(r),
    {
        self.title_color = title_color;
        self
    }

    /// Sets the label of the x axis.
    pub fn set_x_axis_label(&mut self, x_axis_label: &str) -> (r: &mut Self)
        ensures
            r@ == (GraphView { x_axis_label: Some(x_axis_label@), ..old(self)@ }),
            r.wf() == old(self).wf(),
            *final(self) == *final(r),
    {
        self.x_axis_label = Some(x_axis_label.to_owned());
        self
    }

    /// Sets the label of the y axis.
    pub fn set_y_axis_label(&mut self, y_axis_label: &str) -> (r: &mut Self)
        ensures
            r@ == (GraphView { y_axis_label: Some(y_axis_label@), ..old(self)@ }),
            r.wf() == old(self).wf(),
            *final(self) == *final(r),
    {
        self.y_axis_label = Some(y_axis_label.to_owned());
        self
    }

    /// Sets whether the title is drawn in banner letters.
    pub fn set_big_title(&mut self, big_title: bool) -> (r: &mut Self)
        ensures
            r@ == (GraphView { big_title, ..old(self)@ }),
            r.wf() == old(self).wf(),
            *final(self) == *final(r),
    {
        self.big_title = big_title;
        self
    }

    /// Sets whether a range of values is left out of the plot. A range is left out only
    /// of a plot more than 18 rows tall.
    pub fn set_skip_range(&mut self, skip_value: SkipValue) -> (r: &mut Self)
        requires
            old(self).wf(),
            skip_value.wf(),
        ensures
            r@ == (GraphView { skip_value: skip_value@, ..old(self)@ }),
            r.wf(),
            *final(self) == *final(r),
    {
        self.skip_value = skip_value;
        self
    }

    /// Adds a labelled interval from entry `start` to entry `end` of the data, both
    /// inclusive. How many columns it takes depends on the width of the plot.
    pub fn add_labeled_interval(&mut self, start: i32, end: i32, label: String) -> (r: &mut Self)
        ensures
            r@ == (GraphView {
                labeled_intervals: old(self)@.labeled_intervals.push(
                    IntervalView { start: start as int, end: end as int, plot_start: 0, plot_end: 0, label: label@ },
                ),
                ..old(self)@
            }),
            r.wf() == old(self).wf(),
            *final(self) == *final(r),
    {
        self.labeled_intervals.push(Interval::new(start, end, label));
        assert(self@.labeled_intervals =~= old(self)@.labeled_intervals.push(
            IntervalView { start: start as int, end: end as int, plot_start: 0, plot_end: 0, label: label@ },
        ));
        self
    }

    /// Sets the color of overflow marks and of the line at a skipped range.
    pub fn set_primary_color(&mut self, color: Option<Color>) -> (r: &mut Self)
        ensures
            r@ == (GraphView { primary_color: color, ..old(self)@ }),
            r.wf() == old(self).wf(),
            *final(self) == *final(r),
    {
        self.primary_color = color;
        self
    }

    /// Sets how colors are written into the text of the plot.
    pub fn set_color_mode(&mut self, color_mode: ColorMode) -> (r: &mut Self)
        ensures
            r@ == (GraphView { color_mode: color_mode@, ..old(self)@ }),
            r.wf() == old(self).wf(),
            *final(self) == *final(r),
    {
        self.color_mode = color_mode;
        self
    }
}

} // verus!
