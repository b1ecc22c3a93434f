use vstd::prelude::*;
use crate::alignment::Alignment;
use crate::color::{ColorMode, ColorModeView};
use crate::lines::{Canvas, Lines, HORIZONTAL, SPACE};
use crate::utils::{encode_utf16, from_v16, utf16, utf16_lossy};

verus! {

/// `<`, the head of an arrow that points left.
pub const LEFT_HEAD: u16 = 0x3C;

/// `>`, the head of an arrow that points right.
pub const RIGHT_HEAD: u16 = 0x3E;

/// `.`, of which three stand for what was cut from a label.
pub const DOT: u16 = 0x2E;

/// A labelled stretch of the x axis, from data index `start` to data index `end`, both
/// inclusive. `plot_start` and `plot_end` are the columns of the plot that the two indices
/// fall on; `adjust_coordinate` computes them.
#[derive(Debug)]
pub struct Interval {
    start: i32,
    end: i32,
    plot_start: usize,
    plot_end: usize,
    label: String,
}

/// An interval as a mathematical value.
pub struct IntervalView {
    pub start: int,
    pub end: int,
    pub plot_start: nat,
    pub plot_end: nat,
    pub label: Seq<char>,
}

impl View for Interval {
    type V = IntervalView;

    closed spec fn view(&self) -> IntervalView {
        IntervalView {
            start: self.start as int,
            end: self.end as int,
            plot_start: self.plot_start as nat,
            plot_end: self.plot_end as nat,
            label: self.label@,
        }
    }
}

impl Clone for Interval {
    fn clone(&self) -> (r: Self)
        ensures
            r@ == self@,
    {
        Interval {
            start: self.start,
            end: self.end,
            plot_start: self.plot_start,
            plot_end: self.plot_end,
            label: self.label.clone(),
        }
    }
}

/// The data index that stands for `index` when columns are computed: indices before the
/// data count as the first, those far behind it as twice the number of points.
pub open spec fn clamped_index(index: int, data_size: nat) -> int {
    if index < 0 {
        0
    } else if index > 2 * data_size {
        2 * data_size as int
    } else {
        index
    }
}

/// The column of a plot `graph_width` wide on which index `index` of `data_size` data
/// points falls. A column that no `usize` could hold counts as the last but one that it
/// can, which lies beyond any plot.
pub open spec fn plot_column(index: int, graph_width: nat, data_size: nat) -> nat {
    let column = (clamped_index(index, data_size) * graph_width) / (data_size as int);
    if column >= usize::MAX {
        (usize::MAX - 1) as nat
    } else {
        column as nat
    }
}

/// A later index falls on no earlier column.
pub proof fn lemma_plot_column_monotonic(a: int, b: int, graph_width: nat, data_size: nat)
    requires
        a <= b,
        data_size > 0,
    ensures
        plot_column(a, graph_width, data_size) <= plot_column(b, graph_width, data_size),
        plot_column(b, graph_width, data_size) < usize::MAX,
{
    let x = clamped_index(a, data_size) * graph_width;
    let y = clamped_index(b, data_size) * graph_width;
    let d = data_size as int;
    assert(x <= y) by (nonlinear_arith)
        requires
            x == clamped_index(a, data_size) * graph_width,
            y == clamped_index(b, data_size) * graph_width,
            clamped_index(a, data_size) <= clamped_index(b, data_size),
            graph_width >= 0,
    ;
    assert(x / d <= y / d) by (nonlinear_arith)
        requires
            x <= y,
            d > 0,
    ;
    assert(0 <= x / d) by (nonlinear_arith)
        requires
            x == clamped_index(a, data_size) * graph_width,
            clamped_index(a, data_size) >= 0,
            d > 0,
    ;
}

/// The column of a plot `graph_width` wide on which index `index` falls.
fn column_of(index: i32, graph_width: usize, data_size: usize) -> (r: usize)
    requires
        data_size > 0,
    ensures
        r == plot_column(index as int, graph_width as nat, data_size as nat),
{
    let clamped: u128 = if index < 0 {
        0
    } else if index as u128 > 2 * (data_size as u128) {
        2 * (data_size as u128)
    } else {
        index as u128
    };
    assert(clamped * graph_width <= 0x8000_0000 * 0xFFFF_FFFF_FFFF_FFFF) by (nonlinear_arith)
        requires
            0 <= clamped <= 0x8000_0000,
            0 <= graph_width <= 0xFFFF_FFFF_FFFF_FFFF,
    ;
    let column: u128 = clamped * (graph_width as u128) / (data_size as u128);
    if column >= usize::MAX as u128 {
        usize::MAX - 1
    } else {
        column as usize
    }
}

/// `n` line glyphs.
pub open spec fn dashes(n: nat) -> Seq<u16> {
    Seq::new(n, |i: int| HORIZONTAL)
}

/// Three dots.
pub open spec fn ellipsis() -> Seq<u16> {
    Seq::new(3, |i: int| DOT)
}

/// A label as it is drawn: the code units of its text, with a blank for each control
/// character.
pub open spec fn label_units(label: Seq<char>) -> Seq<u16> {
    utf16(label).map_values(|u: u16| if u < SPACE { SPACE } else { u })
}

/// The arrow over a stretch of `len` columns that lies within the plot. With room for
/// it, the label stands in the middle of the arrow; a long label is cut short where at
/// least eight columns are there; else the arrow is bare. One column is too little to
/// draw anything.
pub open spec fn full_arrow(label: Seq<u16>, len: nat) -> Seq<u16> {
    if len >= label.len() + 4 {
        let rem = (len - label.len() - 2) as nat;
        seq![LEFT_HEAD] + dashes(rem / 2) + label + dashes(rem / 2 + rem % 2) + seq![RIGHT_HEAD]
    } else if label.len() > 8 && len > 7 {
        seq![LEFT_HEAD, HORIZONTAL] + label.take(len - 7) + ellipsis() + seq![HORIZONTAL, RIGHT_HEAD]
    } else if len > 1 {
        seq![LEFT_HEAD] + dashes((len - 2) as nat) + seq![RIGHT_HEAD]
    } else {
        Seq::empty()
    }
}

/// The label of an arrow of which only `len` columns lie within the plot: whole where it
/// fits, cut short where more than five columns are there, else left out.
pub open spec fn half_label(label: Seq<u16>, len: nat) -> Seq<u16> {
    if len >= label.len() + 2 {
        label
    } else if len > 5 {
        label.take(len - 5) + ellipsis()
    } else {
        Seq::empty()
    }
}

/// The visible part, `len` columns long, of an arrow that leaves the plot on one side.
/// With `left_side` the part at the plot's left edge is shown: it ends in the right head.
/// Else the part at the right edge is shown: it begins with the left head.
pub open spec fn half_arrow(label: Seq<u16>, len: nat, left_side: bool) -> Seq<u16> {
    let shown = half_label(label, len);
    let line = dashes((len - shown.len() - 1) as nat);
    if left_side {
        shown + line + seq![RIGHT_HEAD]
    } else {
        seq![LEFT_HEAD] + line + shown
    }
}

/// Appends `n` times `unit`.
fn push_run(out: &mut Vec<u16>, unit: u16, n: usize)
    ensures
        final(out)@ == old(out)@ + Seq::new(n as nat, |i: int| unit),
{
    let mut i: usize = 0;
    assert(out@ =~= old(out)@ + Seq::new(0, |k: int| unit));
    while i < n
        invariant
            i <= n,
            out@ == old(out)@ + Seq::new(i as nat, |k: int| unit),
        decreases n - i,
    {
        out.push(unit);
        i += 1;
        assert(out@ =~= old(out)@ + Seq::new(i as nat, |k: int| unit));
    }
}

/// Appends the first `n` entries of `source`.
fn push_prefix(out: &mut Vec<u16>, source: &Vec<u16>, n: usize)
    requires
        n <= source.len(),
    ensures
        final(out)@ == old(out)@ + source@.take(n as int),
{
    let mut i: usize = 0;
    assert(out@ =~= old(out)@ + source@.take(0));
    while i < n
        invariant
            i <= n <= source.len(),
            out@ == old(out)@ + source@.take(i as int),
        decreases n - i,
    {
        out.push(source[i]);
        i += 1;
        assert(out@ =~= old(out)@ + source@.take(i as int));
    }
}

impl Interval {
    /// The interval from data index `start` to data index `end`. Its columns are not
    /// known yet: call `adjust_coordinate` once the plot's width and the number of data
    /// points are.
    pub fn new(start: i32, end: i32, label: String) -> (r: Self)
        ensures
            r@ == (IntervalView { start: start as int, end: end as int, plot_start: 0, plot_end: 0, label: label@ }),
    {
        Interval { start, end, label, plot_start: 0, plot_end: 0 }
    }

    /// Whether the interval does not end before it starts.
    pub fn is_valid(&self) -> (r: bool)
        ensures
            r == (self@.end >= self@.start),
    {
        self.end >= self.start
    }

    /// The label as it is drawn.
    pub fn label_to_v16(&self) -> (r: Vec<u16>)
        ensures
            r@ == label_units(self@.label),
    {
        let units = encode_utf16(self.label.as_str());
        let mut out: Vec<u16> = Vec::new();
        let mut i: usize = 0;
        while i < units.len()
            invariant
                i <= units.len(),
                units@ == utf16(self@.label),
                out.len() == i,
                forall|k: int| 0 <= k < i ==> #[trigger] out@[k] == (if units@[k] < SPACE { SPACE } else { units@[k] }),
            decreases units.len() - i,
        {
            let unit = units[i];
            out.push(if unit < SPACE { SPACE } else { unit });
            i += 1;
        }
        assert(out@ =~= label_units(self@.label));
        out
    }

    /// Computes the columns of the interval in a plot `graph_width` wide that shows
    /// `data_size` data points.
    pub fn adjust_coordinate(&mut self, graph_width: usize, data_size: usize)
        requires
            data_size > 0,
        ensures
            final(self)@ == (IntervalView {
                plot_start: plot_column(old(self)@.start, graph_width as nat, data_size as nat),
                plot_end: plot_column(old(self)@.end, graph_width as nat, data_size as nat),
                ..old(self)@
            }),
    {
        self.plot_start = column_of(self.start, graph_width, data_size);
        self.plot_end = column_of(self.end, graph_width, data_size);
    }

    /// The arrow of an interval that lies within the plot.
    pub fn render_full(&self) -> (r: Vec<u16>)
        requires
            self@.plot_start <= self@.plot_end < usize::MAX,
        ensures
            r@ == full_arrow(label_units(self@.label), (self@.plot_end - self@.plot_start + 1) as nat),
    {
        let label = self.label_to_v16();
        let len = self.plot_end - self.plot_start + 1;
        let mut out: Vec<u16> = Vec::new();
        if label.len() <= len && len - label.len() >= 4 {
            let rem = len - label.len() - 2;
            out.push(LEFT_HEAD);
            push_run(&mut out, HORIZONTAL, rem / 2);
            push_prefix(&mut out, &label, label.len());
            push_run(&mut out, HORIZONTAL, rem / 2 + rem % 2);
            out.push(RIGHT_HEAD);
            assert(label@.take(label.len() as int) =~= label@);
            assert(out@ =~= full_arrow(label@, len as nat));
        } else if label.len() > 8 && len > 7 {
            out.push(LEFT_HEAD);
            out.push(HORIZONTAL);
            push_prefix(&mut out, &label, len - 7);
            push_run(&mut out, DOT, 3);
            out.push(HORIZONTAL);
            out.push(RIGHT_HEAD);
            assert(out@ =~= full_arrow(label@, len as nat));
        } else if len > 1 {
            out.push(LEFT_HEAD);
            push_run(&mut out, HORIZONTAL, len - 2);
            out.push(RIGHT_HEAD);
            assert(out@ =~= full_arrow(label@, len as nat));
        } else {
            assert(out@ =~= full_arrow(label@, len as nat));
        }
        out
    }

    /// The visible part of the arrow of an interval that leaves a plot `graph_width` wide
    /// on one side: with `left_side` to the left, else to the right.
    pub fn render_half(&self, left_side: bool, graph_width: usize) -> (r: Vec<u16>)
        requires
            left_side ==> self@.plot_end < usize::MAX,
            !left_side ==> self@.plot_start < graph_width,
        ensures
            r@ == half_arrow(
                label_units(self@.label),
                if left_side { self@.plot_end + 1 } else { (graph_width - self@.plot_start) as nat },
                left_side,
            ),
    {
        let label = self.label_to_v16();
        let len = if left_side { self.plot_end + 1 } else { graph_width - self.plot_start };
        let mut shown: Vec<u16> = Vec::new();
        if label.len() <= len && len - label.len() >= 2 {
            push_prefix(&mut shown, &label, label.len());
            assert(label@.take(label.len() as int) =~= label@);
            assert(shown@ =~= half_label(label@, len as nat));
        } else if len > 5 {
            push_prefix(&mut shown, &label, len - 5);
            push_run(&mut shown, DOT, 3);
            assert(shown@ =~= half_label(label@, len as nat));
        } else {
            assert(shown@ =~= half_label(label@, len as nat));
        }
        let mut out: Vec<u16> = Vec::new();
        if left_side {
            push_prefix(&mut out, &shown, shown.len());
            push_run(&mut out, HORIZONTAL, len - shown.len() - 1);
            out.push(RIGHT_HEAD);
            assert(shown@.take(shown.len() as int) =~= shown@);
            assert(out@ =~= half_arrow(label@, len as nat, left_side));
        } else {
            out.push(LEFT_HEAD);
            push_run(&mut out, HORIZONTAL, len - shown.len() - 1);
            push_prefix(&mut out, &shown, shown.len());
            assert(shown@.take(shown.len() as int) =~= shown@);
            assert(out@ =~= half_arrow(label@, len as nat, left_side));
        }
        out
    }
}

/// Whether the interval is drawn in a plot `width` wide: not where it ends before the
/// data or starts beyond the plot.
pub open spec fn visible(interval: IntervalView, width: nat) -> bool {
    interval.end >= 0 && interval.plot_start < width
}

/// Whether the interval takes column `i` of a row `width` wide.
pub open spec fn covers(interval: IntervalView, width: nat, i: int) -> bool {
    interval.plot_start <= i <= interval.plot_end && i < width
}

/// Whether the row with the columns `mask` taken has room for the interval.
pub open spec fn admits(mask: Seq<bool>, interval: IntervalView) -> bool {
    forall|i: int| 0 <= i < mask.len() && covers(interval, mask.len(), i) ==> !#[trigger] mask[i]
}

/// The columns taken once the interval is put into the row.
pub open spec fn marked(mask: Seq<bool>, interval: IntervalView) -> Seq<bool> {
    Seq::new(mask.len(), |i: int| mask[i] || covers(interval, mask.len(), i))
}

/// The first row from row `from` on that has room for the interval; the number of rows
/// where none has.
pub open spec fn first_fit(masks: Seq<Seq<bool>>, interval: IntervalView, from: nat) -> nat
    decreases masks.len() - from,
{
    if from >= masks.len() {
        masks.len()
    } else if admits(masks[from as int], interval) {
        from
    } else {
        first_fit(masks, interval, from + 1)
    }
}

/// Rows of arrows: the columns taken in each row, and for each interval the row it is
/// drawn in, if it is drawn.
pub struct Packing {
    pub masks: Seq<Seq<bool>>,
    pub rows: Seq<Option<nat>>,
}

/// The rows that the intervals are packed into, each put into the first row that has room
/// for it, and into a new row where none has. There is one row from the beginning.
pub open spec fn pack(intervals: Seq<IntervalView>, width: nat) -> Packing
    decreases intervals.len(),
{
    if intervals.len() == 0 {
        Packing { masks: seq![Seq::new(width, |i: int| false)], rows: Seq::empty() }
    } else {
        let before = pack(intervals.drop_last(), width);
        let interval = intervals.last();
        if !visible(interval, width) {
            Packing { masks: before.masks, rows: before.rows.push(None) }
        } else {
            let row = first_fit(before.masks, interval, 0);
            Packing {
                masks: if row < before.masks.len() {
                    before.masks.update(row as int, marked(before.masks[row as int], interval))
                } else {
                    before.masks.push(marked(Seq::new(width, |i: int| false), interval))
                },
                rows: before.rows.push(Some(row)),
            }
        }
    }
}

/// The arrow of the interval in a plot `width` wide: a half where the interval starts
/// before the data or ends beyond the plot, else the full arrow.
pub open spec fn arrow(interval: IntervalView, width: nat) -> Seq<u16> {
    let label = label_units(interval.label);
    if interval.start < 0 {
        half_arrow(label, interval.plot_end + 1, true)
    } else if interval.plot_end >= width {
        half_arrow(label, (width - interval.plot_start) as nat, false)
    } else {
        full_arrow(label, (interval.plot_end - interval.plot_start + 1) as nat)
    }
}

/// The column at which the arrow of the interval starts.
pub open spec fn arrow_column(interval: IntervalView) -> nat {
    if interval.start < 0 {
        0
    } else {
        interval.plot_start
    }
}

/// The first `n` intervals drawn into a blank canvas, each in its row.
pub open spec fn drawn(
    intervals: Seq<IntervalView>,
    rows: Seq<Option<nat>>,
    width: nat,
    height: nat,
    n: nat,
) -> Canvas
    decreases n,
{
    if n == 0 {
        Canvas::blank(width, height)
    } else {
        let before = drawn(intervals, rows, width, height, (n - 1) as nat);
        match rows[n - 1] {
            Some(row) => before.blit(
                Canvas::from_text(
                    utf16_lossy(arrow(intervals[n - 1], width)),
                    Alignment::First,
                    ColorModeView::Plain,
                ),
                arrow_column(intervals[n - 1]),
                row,
                None,
            ),
            None => before,
        }
    }
}

/// The canvas with the arrows of the intervals over a plot `width` wide.
pub open spec fn labeled_intervals(intervals: Seq<IntervalView>, width: nat) -> Canvas {
    let packing = pack(intervals, width);
    drawn(intervals, packing.rows, width, packing.masks.len(), intervals.len())
}

/// Whether the row with the columns `mask` taken has room for the interval.
pub fn can_push(mask: &Vec<bool>, interval: &Interval) -> (r: bool)
    ensures
        r == admits(mask@, interval@),
{
    let mut i: usize = interval.plot_start;
    while i < mask.len() && i <= interval.plot_end
        invariant
            interval@.plot_start <= i,
            forall|k: int| 0 <= k < i && covers(interval@, mask@.len(), k) ==> !#[trigger] mask@[k],
        decreases mask.len() - i,
    {
        if mask[i] {
            assert(covers(interval@, mask@.len(), i as int));
            return false;
        }
        i += 1;
    }
    true
}

/// Takes the columns of the interval in the row.
pub fn push(mask: &mut Vec<bool>, interval: &Interval)
    ensures
        final(mask)@ == marked(old(mask)@, interval@),
{
    let mut i: usize = interval.plot_start;
    while i < mask.len() && i <= interval.plot_end
        invariant
            interval@.plot_start <= i,
            mask.len() == old(mask).len(),
            forall|k: int| 0 <= k < mask.len() ==> #[trigger] mask@[k] == (old(mask)@[k] || (k < i && covers(
                interval@,
                mask@.len(),
                k,
            ))),
        decreases mask.len() - i,
    {
        mask[i] = true;
        i += 1;
    }
    assert(mask@ =~= marked(old(mask)@, interval@));
}

/// The row kept for an interval, as a mathematical value.
pub open spec fn row_view(row: Option<usize>) -> Option<nat> {
    match row {
        Some(k) => Some(k as nat),
        None => None,
    }
}

/// Draws the arrows of the intervals over a plot `graph_width` wide. Each interval goes
/// into the first row in which it overlaps no earlier one, and a new row is opened where
/// there is none; an interval that lies outside the plot is not drawn.
pub fn draw_labeled_intervals(intervals: &Vec<Interval>, graph_width: usize) -> (r: Lines)
    requires
        forall|i: int| 0 <= i < intervals.len() && visible(#[trigger] intervals[i]@, graph_width as nat)
            ==> intervals[i]@.plot_start <= intervals[i]@.plot_end < usize::MAX,
    ensures
        r@ == labeled_intervals(intervals@.map_values(|interval: Interval| interval@), graph_width as nat),
        r@.is_rect(),
{
    let ghost views = intervals@.map_values(|interval: Interval| interval@);
    let mut masks: Vec<Vec<bool>> = Vec::new();
    masks.push(blank_mask(graph_width));
    let mut rows: Vec<Option<usize>> = Vec::new();
    let mut n: usize = 0;
    assert(views.take(0) =~= Seq::empty());
    assert(masks@.map_values(|m: Vec<bool>| m@) =~= pack(views.take(0), graph_width as nat).masks);
    assert(rows@.map_values(|row: Option<usize>| row_view(row)) =~= pack(views.take(0), graph_width as nat).rows);
    while n < intervals.len()
        invariant
            n <= intervals.len(),
            views == intervals@.map_values(|interval: Interval| interval@),
            masks@.map_values(|m: Vec<bool>| m@) == pack(views.take(n as int), graph_width as nat).masks,
            rows@.map_values(|row: Option<usize>| row_view(row)) == pack(views.take(n as int), graph_width as nat).rows,
            rows.len() == n,
            masks.len() >= 1,
            forall|k: int| 0 <= k < n ==> (#[trigger] rows[k] matches Some(row) ==> row < masks.len()),
            forall|k: int| 0 <= k < n && rows[k] is Some ==> visible(#[trigger] intervals[k]@, graph_width as nat),
        decreases intervals.len() - n,
    {
        let interval = &intervals[n];
        let ghost before = pack(views.take(n as int), graph_width as nat);
        let ghost mask_views = masks@.map_values(|m: Vec<bool>| m@);
        let ghost row_views = rows@.map_values(|row: Option<usize>| row_view(row));
        proof {
            assert(views.take(n + 1).drop_last() =~= views.take(n as int));
            assert(views.take(n + 1).last() == interval@);
        }
        if interval.end < 0 || interval.plot_start >= graph_width {
            rows.push(None);
            assert(rows@.map_values(|row: Option<usize>| row_view(row)) =~= row_views.push(None));
        } else {
            let mut index: usize = 0;
            while index < masks.len() && !can_push(&masks[index], interval)
                invariant
                    index <= masks.len(),
                    mask_views == masks@.map_values(|m: Vec<bool>| m@),
                    first_fit(mask_views, interval@, 0) == first_fit(mask_views, interval@, index as nat),
                decreases masks.len() - index,
            {
                assert(mask_views[index as int] == masks[index as int]@);
                index += 1;
            }
            if index < masks.len() {
                assert(mask_views[index as int] == masks[index as int]@);
                push(&mut masks[index], interval);
                assert(masks@.map_values(|m: Vec<bool>| m@) =~= mask_views.update(
                    index as int,
                    marked(mask_views[index as int], interval@),
                ));
            } else {
                let mut mask = blank_mask(graph_width);
                push(&mut mask, interval);
                masks.push(mask);
                assert(masks@.map_values(|m: Vec<bool>| m@) =~= mask_views.push(
                    marked(Seq::new(graph_width as nat, |i: int| false), interval@),
                ));
            }
            rows.push(Some(index));
            assert(rows@.map_values(|row: Option<usize>| row_view(row)) =~= row_views.push(Some(index as nat)));
        }
        n += 1;
    }
    assert(views.take(intervals.len() as int) =~= views);
    let ghost packing = pack(views, graph_width as nat);
    let height = masks.len();
    assert(height == packing.masks.len());
    let mut result = Lines::new(graph_width, height);
    let mut n: usize = 0;
    while n < intervals.len()
        invariant
            n <= intervals.len(),
            views == intervals@.map_values(|interval: Interval| interval@),
            rows.len() == intervals.len(),
            rows@.map_values(|row: Option<usize>| row_view(row)) == packing.rows,
            forall|i: int| 0 <= i < intervals.len() && visible(#[trigger] intervals[i]@, graph_width as nat)
                ==> intervals[i]@.plot_start <= intervals[i]@.plot_end < usize::MAX,
            forall|k: int| 0 <= k < intervals.len() && rows[k] is Some ==> visible(
                #[trigger] intervals[k]@,
                graph_width as nat,
            ),
            result@ == drawn(views, packing.rows, graph_width as nat, height as nat, n as nat),
            result@.is_rect(),
        decreases intervals.len() - n,
    {
        let interval = &intervals[n];
        assert(views[n as int] == interval@);
        assert(packing.rows[n as int] == row_view(rows[n as int]));
        if let Some(row) = rows[n] {
            assert(visible(intervals[n as int]@, graph_width as nat));
            let (units, column) = if interval.start < 0 {
                (interval.render_half(true, graph_width), 0)
            } else if interval.plot_end >= graph_width {
                (interval.render_half(false, graph_width), interval.plot_start)
            } else {
                (interval.render_full(), interval.plot_start)
            };
            let text = from_v16(&units);
            let stamp = Lines::from_string(text.as_str(), Alignment::First, &ColorMode::Plain);
            result = result.blit(&stamp, column, row, None);
        }
        n += 1;
    }
    result
}

/// A row in which no column is taken.
fn blank_mask(width: usize) -> (r: Vec<bool>)
    ensures
        r@ == Seq::new(width as nat, |i: int| false),
{
    let mut r: Vec<bool> = Vec::new();
    let mut i: usize = 0;
    while i < width
        invariant
            i <= width,
            r@ == Seq::new(i as nat, |k: int| false),
        decreases width - i,
    {
        r.push(false);
        i += 1;
        assert(r@ =~= Seq::new(i as nat, |k: int| false));
    }
    r
}

} // verus!
