use vstd::prelude::*;
use crate::alignment::Alignment;
use crate::color::{Color, ColorMode, ColorModeView};
use crate::utils::{decode_at, first_char_len, into_v16, low_unit, low_unit_of, string_of, utf16_lossy, v16};

verus! {

/// The blank cell.
pub const SPACE: u16 = 32;

/// The line break between two rows of text.
pub const NEWLINE: u16 = 10;

/// A canvas as a mathematical value: `height` rows of cells and, beside them, `height`
/// rows of colors.
///
/// A row of colors has exactly `width` entries. A row of cells has `width` cells too,
/// unless it came from text that carries control sequences: those take cells that show
/// nothing, and the row is then longer than it looks.
pub struct Canvas {
    pub width: nat,
    pub height: nat,
    pub cells: Seq<Seq<u16>>,
    pub colors: Seq<Seq<Option<Color>>>,
}

/// The start of a control sequence.
pub const ESCAPE: u16 = 27;

/// Where the scanner for control sequences stands.
#[derive(Clone, Copy, Debug, PartialEq, Eq, Structural)]
pub enum EscapeState {
    /// Outside any sequence.
    Idle,
    /// After the escape character.
    Escape,
    /// After the escape character and `[`.
    Bracket,
    /// After the escape character, `[` and `3`: inside a color sequence, up to its `m`.
    Digit,
}

/// The scanner after one more code unit `unit`, from state `at.0` with `at.1` cells
/// counted as visible. A sequence that turns out not to be a color sequence is counted
/// as visible after all, with the unit that showed it.
pub open spec fn scan_step(at: (EscapeState, nat), unit: u16) -> (EscapeState, nat) {
    match at.0 {
        EscapeState::Idle => if unit == ESCAPE {
            (EscapeState::Escape, at.1)
        } else {
            (EscapeState::Idle, at.1 + 1)
        },
        EscapeState::Escape => if unit == 0x5B {
            (EscapeState::Bracket, at.1)
        } else if unit == ESCAPE {
            (EscapeState::Escape, at.1 + 1)
        } else {
            (EscapeState::Idle, at.1 + 2)
        },
        EscapeState::Bracket => if unit == 0x33 {
            (EscapeState::Digit, at.1)
        } else if unit == ESCAPE {
            (EscapeState::Escape, at.1 + 2)
        } else {
            (EscapeState::Idle, at.1 + 3)
        },
        EscapeState::Digit => if unit == 0x6D {
            (EscapeState::Idle, at.1)
        } else {
            (EscapeState::Digit, at.1)
        },
    }
}

/// The scanner after the code units of `line`, started at `start`.
pub open spec fn scan(line: Seq<u16>, start: (EscapeState, nat)) -> (EscapeState, nat)
    decreases line.len(),
{
    if line.len() == 0 {
        start
    } else {
        scan_step(scan(line.drop_last(), start), line.last())
    }
}

/// The number of cells that `line` takes on the screen when it was written in `mode`.
/// In the terminal modes, color sequences of the shape `ESC [ 3 ... m` take none.
/// Markup is not measured: in that mode every code unit counts.
pub open spec fn visible_width(line: Seq<u16>, mode: ColorModeView) -> nat {
    match mode {
        ColorModeView::Plain | ColorModeView::Html { .. } => line.len(),
        ColorModeView::TerminalFg | ColorModeView::TerminalBg => scan(line, (EscapeState::Idle, 0)).1,
    }
}

/// The code units that the scanner has passed without counting them yet.
pub open spec fn pending(state: EscapeState) -> nat {
    match state {
        EscapeState::Idle => 0,
        EscapeState::Escape => 1,
        EscapeState::Bracket => 2,
        EscapeState::Digit => 3,
    }
}

/// The lines of a text: the runs of code units between its line breaks.
pub open spec fn split_lines(units: Seq<u16>) -> Seq<Seq<u16>>
    decreases units.len(),
{
    if units.len() == 0 {
        seq![Seq::empty()]
    } else {
        let before = split_lines(units.drop_last());
        if units.last() == NEWLINE {
            before.push(Seq::empty())
        } else {
            before.drop_last().push(before.last().push(units.last()))
        }
    }
}

/// The color of each character of `utf16_lossy(units)`, where `colors` gives the color of
/// each code unit: that of the character's first code unit.
pub open spec fn lossy_colors(units: Seq<u16>, colors: Seq<Option<Color>>) -> Seq<Option<Color>>
    decreases units.len(),
{
    if units.len() == 0 {
        Seq::empty()
    } else {
        let n = first_char_len(units);
        seq![colors[0]] + lossy_colors(units.skip(n), colors.skip(n))
    }
}

/// Every line of the text takes as many cells on the screen as it has code units: it
/// holds nothing that the scanner for control sequences would pass over.
pub open spec fn measured_exactly(units: Seq<u16>, mode: ColorModeView) -> bool {
    forall|j: int| 0 <= j < split_lines(units).len() ==> visible_width(#[trigger] split_lines(units)[j], mode)
        == split_lines(units)[j].len()
}

/// The largest visible width among `lines`.
pub open spec fn widest(lines: Seq<Seq<u16>>, mode: ColorModeView) -> nat
    decreases lines.len(),
{
    if lines.len() == 0 {
        0
    } else {
        let rest = widest(lines.drop_last(), mode);
        let last = visible_width(lines.last(), mode);
        if last > rest { last } else { rest }
    }
}

/// `─`
pub const HORIZONTAL: u16 = 0x2500;

/// `│`
pub const VERTICAL: u16 = 0x2502;

/// `╭`
pub const CORNER_TOP_LEFT: u16 = 0x256D;

/// `╮`
pub const CORNER_TOP_RIGHT: u16 = 0x256E;

/// `╯`
pub const CORNER_BOTTOM_RIGHT: u16 = 0x256F;

/// `╰`
pub const CORNER_BOTTOM_LEFT: u16 = 0x2570;

/// The frame glyph at column `i` of row `j` of a `width` by `height` canvas with a frame
/// on the given sides, if the frame passes there. A corner shows only where both of its
/// sides are framed; elsewhere a framed column shows the vertical line up to the edge.
pub open spec fn border_glyph(
    top: bool,
    bottom: bool,
    left: bool,
    right: bool,
    width: nat,
    height: nat,
    i: int,
    j: int,
) -> Option<u16> {
    if !(0 <= i < width && 0 <= j < height) {
        None
    } else if top && left && i == 0 && j == 0 {
        Some(CORNER_TOP_LEFT)
    } else if top && right && i == width - 1 && j == 0 {
        Some(CORNER_TOP_RIGHT)
    } else if bottom && left && i == 0 && j == height - 1 {
        Some(CORNER_BOTTOM_LEFT)
    } else if bottom && right && i == width - 1 && j == height - 1 {
        Some(CORNER_BOTTOM_RIGHT)
    } else if (left && i == 0) || (right && i == width - 1) {
        Some(VERTICAL)
    } else if (top && j == 0) || (bottom && j == height - 1) {
        Some(HORIZONTAL)
    } else {
        None
    }
}

/// `row` with `lead` entries `fill` in front of it and `trail` behind.
pub open spec fn padded<T>(row: Seq<T>, lead: nat, trail: nat, fill: T) -> Seq<T> {
    Seq::new(lead, |i: int| fill) + row + Seq::new(trail, |i: int| fill)
}

/// `n` blank cells.
pub open spec fn blank_cells(n: nat) -> Seq<u16> {
    Seq::new(n, |i: int| SPACE)
}

/// `n` cells without a color.
pub open spec fn blank_colors(n: nat) -> Seq<Option<Color>> {
    Seq::new(n, |i: int| None)
}

impl Canvas {
    /// Every row of colors is `width` long, every row of cells at least as long, and
    /// there are `height` rows of each.
    pub open spec fn wf(self) -> bool {
        &&& self.cells.len() == self.height
        &&& self.colors.len() == self.height
        &&& forall|y: int| 0 <= y < self.height ==> (#[trigger] self.colors[y]).len() == self.width
        &&& forall|y: int| 0 <= y < self.height ==> (#[trigger] self.cells[y]).len() >= self.width
    }

    /// The canvas is a rectangle: every row has exactly `width` cells, and there are
    /// exactly `height` rows.
    pub open spec fn is_rect(self) -> bool {
        self.wf() && self.rows_fit()
    }

    /// There are `height` rows of cells, each with `width` cells.
    pub open spec fn rows_fit(self) -> bool {
        &&& self.cells.len() == self.height
        &&& forall|y: int| 0 <= y < self.height ==> (#[trigger] self.cells[y]).len() == self.width
    }

    /// The canvas of `width` by `height` blank cells without color.
    pub open spec fn blank(width: nat, height: nat) -> Canvas {
        Canvas {
            width,
            height,
            cells: Seq::new(height, |y: int| blank_cells(width)),
            colors: Seq::new(height, |y: int| blank_colors(width)),
        }
    }

    /// The canvas with the cell at column `x` of row `y` replaced by `c`.
    pub open spec fn set(self, x: int, y: int, c: u16) -> Canvas {
        Canvas { cells: self.cells.update(y, self.cells[y].update(x, c)), ..self }
    }

    /// The canvas with the color at column `x` of row `y` replaced by `color`.
    pub open spec fn set_color(self, x: int, y: int, color: Option<Color>) -> Canvas {
        Canvas { colors: self.colors.update(y, self.colors[y].update(x, color)), ..self }
    }

    /// The part of the canvas that starts at column `x` of row `y` and is at most `w`
    /// wide and `h` tall, cut off at the canvas's edge.
    pub open spec fn crop(self, x: nat, y: nat, w: nat, h: nat) -> Canvas {
        let w = if w <= self.width - x { w } else { (self.width - x) as nat };
        let h = if h <= self.height - y { h } else { (self.height - y) as nat };
        Canvas {
            width: w,
            height: h,
            cells: Seq::new(h, |j: int| self.cells[y + j].subrange(x as int, (x + w) as int)),
            colors: Seq::new(h, |j: int| self.colors[y + j].subrange(x as int, (x + w) as int)),
        }
    }

    /// Whether `blit` of `other` at `(x, y)` writes the cell at column `i` of row `j`.
    pub open spec fn blit_covers(
        self,
        other: Canvas,
        x: nat,
        y: nat,
        transparent: Option<u16>,
        i: int,
        j: int,
    ) -> bool {
        &&& x <= i < self.width
        &&& i < x + other.width
        &&& y <= j < self.height
        &&& j < y + other.height
        &&& Some(other.cells[j - y][i - x]) != transparent
    }

    /// The canvas with `other` copied onto it, the top left cell of `other` at column `x`
    /// of row `y`: cells and colors, but for the cells of `other` that hold `transparent`,
    /// and for what would fall outside this canvas.
    pub open spec fn blit(self, other: Canvas, x: nat, y: nat, transparent: Option<u16>) -> Canvas {
        Canvas {
            cells: Seq::new(
                self.height,
                |j: int|
                    Seq::new(
                        self.cells[j].len(),
                        |i: int|
                            if self.blit_covers(other, x, y, transparent, i, j) {
                                other.cells[j - y][i - x]
                            } else {
                                self.cells[j][i]
                            },
                    ),
            ),
            colors: Seq::new(
                self.height,
                |j: int|
                    Seq::new(
                        self.width,
                        |i: int|
                            if self.blit_covers(other, x, y, transparent, i, j) {
                                other.colors[j - y][i - x]
                            } else {
                                self.colors[j][i]
                            },
                    ),
            ),
            ..self
        }
    }

    /// Row `j` of the cells, or a blank row where the canvas has no row `j`.
    pub open spec fn cells_or_blank(self, j: int) -> Seq<u16> {
        if 0 <= j < self.height {
            self.cells[j]
        } else {
            blank_cells(self.width)
        }
    }

    /// Row `j` of the colors, or a row without colors where the canvas has no row `j`.
    pub open spec fn colors_or_blank(self, j: int) -> Seq<Option<Color>> {
        if 0 <= j < self.height {
            self.colors[j]
        } else {
            blank_colors(self.width)
        }
    }

    /// This canvas above `other`. The result is as wide as the wider of the two; the
    /// narrower one is filled up with blank cells, placed as `alignment` says.
    pub open spec fn merge_vertically(self, other: Canvas, alignment: Alignment) -> Canvas {
        let width = if self.width >= other.width { self.width } else { other.width };
        let slack1 = (width - self.width) as nat;
        let slack2 = (width - other.width) as nat;
        Canvas {
            width,
            height: self.height + other.height,
            cells: Seq::new(
                self.height + other.height,
                |j: int|
                    if j < self.height {
                        padded(self.cells[j], alignment.lead(slack1), alignment.trail(slack1), SPACE)
                    } else {
                        padded(
                            other.cells[j - self.height],
                            alignment.lead(slack2),
                            alignment.trail(slack2),
                            SPACE,
                        )
                    },
            ),
            colors: Seq::new(
                self.height + other.height,
                |j: int|
                    if j < self.height {
                        padded(self.colors[j], alignment.lead(slack1), alignment.trail(slack1), None)
                    } else {
                        padded(
                            other.colors[j - self.height],
                            alignment.lead(slack2),
                            alignment.trail(slack2),
                            None,
                        )
                    },
            ),
        }
    }

    /// This canvas with `other` to its right. The result is as tall as the taller of the
    /// two; the shorter one gets blank rows above and below, placed as `alignment` says.
    pub open spec fn merge_horizontally(self, other: Canvas, alignment: Alignment) -> Canvas {
        let height = if self.height >= other.height { self.height } else { other.height };
        let top1 = alignment.lead((height - self.height) as nat);
        let top2 = alignment.lead((height - other.height) as nat);
        Canvas {
            width: self.width + other.width,
            height,
            cells: Seq::new(
                height,
                |j: int| self.cells_or_blank(j - top1) + other.cells_or_blank(j - top2),
            ),
            colors: Seq::new(
                height,
                |j: int| self.colors_or_blank(j - top1) + other.colors_or_blank(j - top2),
            ),
        }
    }

    /// The canvas with blank rows and columns around it.
    pub open spec fn add_padding(self, top: nat, bottom: nat, left: nat, right: nat) -> Canvas {
        let width = self.width + left + right;
        let height = self.height + top + bottom;
        Canvas {
            width,
            height,
            cells: Seq::new(
                height,
                |j: int|
                    if top <= j < top + self.height {
                        padded(self.cells[j - top], left, right, SPACE)
                    } else {
                        blank_cells(width)
                    },
            ),
            colors: Seq::new(
                height,
                |j: int|
                    if top <= j < top + self.height {
                        padded(self.colors[j - top], left, right, None)
                    } else {
                        blank_colors(width)
                    },
            ),
        }
    }

    /// The canvas with every cell given the color `color`.
    pub open spec fn with_color(self, color: Option<Color>) -> Canvas {
        Canvas {
            colors: Seq::new(self.height, |j: int| Seq::new(self.width, |i: int| color)),
            ..self
        }
    }

    /// The canvas with a frame on the sides that are asked for: one more row or column on
    /// each such side, drawn with line glyphs, and a corner glyph where two of them meet.
    pub open spec fn add_border(self, top: bool, bottom: bool, left: bool, right: bool) -> Canvas {
        let inner = self.add_padding(
            if top { 1 } else { 0 },
            if bottom { 1 } else { 0 },
            if left { 1 } else { 0 },
            if right { 1 } else { 0 },
        );
        Canvas {
            cells: Seq::new(
                inner.height,
                |j: int|
                    Seq::new(
                        inner.cells[j].len(),
                        |i: int|
                            match border_glyph(top, bottom, left, right, inner.width, inner.height, i, j) {
                                Some(glyph) => glyph,
                                None => inner.cells[j][i],
                            },
                    ),
            ),
            ..inner
        }
    }

    /// The canvas of a text given as code units: one row for each line, every line
    /// filled up with blank cells to the visible width of the widest, placed as
    /// `alignment` says, and no cell colored.
    pub open spec fn from_units(units: Seq<u16>, alignment: Alignment, mode: ColorModeView) -> Canvas {
        let lines = split_lines(units);
        let width = widest(lines, mode);
        Canvas {
            width,
            height: lines.len(),
            cells: Seq::new(
                lines.len(),
                |j: int|
                    {
                        let slack = (width - visible_width(lines[j], mode)) as nat;
                        padded(lines[j], alignment.lead(slack), alignment.trail(slack), SPACE)
                    },
            ),
            colors: Seq::new(lines.len(), |j: int| blank_colors(width)),
        }
    }

    /// The canvas of a text: empty for the empty text, else as `from_units` says of its
    /// code units, carriage returns left out.
    pub open spec fn from_text(text: Seq<char>, alignment: Alignment, mode: ColorModeView) -> Canvas {
        if text.len() == 0 {
            Canvas::blank(0, 0)
        } else {
            Canvas::from_units(v16(text), alignment, mode)
        }
    }

    /// The color of each cell of row `j`: a cell beyond the canvas's width has none.
    pub open spec fn row_colors(self, j: int) -> Seq<Option<Color>> {
        Seq::new(self.cells[j].len(), |i: int| if i < self.width { self.colors[j][i] } else { None })
    }

    /// The first `n` rows of cells, with a line break between each two.
    pub open spec fn joined_cells(self, n: nat) -> Seq<u16>
        decreases n,
    {
        if n == 0 {
            Seq::empty()
        } else if n == 1 {
            self.cells[0]
        } else {
            self.joined_cells((n - 1) as nat) + seq![NEWLINE] + self.cells[n - 1]
        }
    }

    /// The color of each code unit of `joined_cells(n)`: a line break has none.
    pub open spec fn joined_colors(self, n: nat) -> Seq<Option<Color>>
        decreases n,
    {
        if n == 0 {
            Seq::empty()
        } else if n == 1 {
            self.row_colors(0)
        } else {
            self.joined_colors((n - 1) as nat) + seq![None] + self.row_colors(n - 1)
        }
    }

    /// The canvas as text in `mode`: its rows, one to a line, with the markers of `mode`
    /// wherever the color changes. A character that takes two cells has the color of the
    /// first.
    pub open spec fn text(self, mode: ColorModeView) -> Seq<char> {
        let units = self.joined_cells(self.height);
        let colors = self.joined_colors(self.height);
        mode.colored(utf16_lossy(units), lossy_colors(units, colors))
    }

    /// The canvas with the cells `units` written into row `y` from column `x` on.
    pub open spec fn write(self, x: int, y: int, units: Seq<u16>) -> Canvas {
        Canvas {
            cells: self.cells.update(
                y,
                Seq::new(
                    self.cells[y].len(),
                    |i: int| if x <= i < x + units.len() { units[i - x] } else { self.cells[y][i] },
                ),
            ),
            ..self
        }
    }
}

/// A canvas: a grid of UTF-16 code units with an optional color for each cell.
#[derive(Debug)]
pub struct Lines {
    lines: Vec<Vec<u16>>,
    colors: Vec<Vec<Option<Color>>>,
    width: usize,
    height: usize,
}

impl View for Lines {
    type V = Canvas;

    closed spec fn view(&self) -> Canvas {
        Canvas {
            width: self.width as nat,
            height: self.height as nat,
            cells: self.lines@.map_values(|row: Vec<u16>| row@),
            colors: self.colors@.map_values(|row: Vec<Option<Color>>| row@),
        }
    }
}

impl Clone for Lines {
    fn clone(&self) -> (r: Self)
        ensures
            r@ == self@,
    {
        let mut lines: Vec<Vec<u16>> = Vec::new();
        let mut colors: Vec<Vec<Option<Color>>> = Vec::new();
        let mut y: usize = 0;
        while y < self.lines.len()
            invariant
                y <= self.lines.len(),
                lines.len() == y,
                forall|j: int| 0 <= j < y ==> (#[trigger] lines[j])@ == self.lines[j]@,
            decreases self.lines.len() - y,
        {
            lines.push(sub_vec(&self.lines[y], 0, self.lines[y].len()));
            y += 1;
        }
        let mut y: usize = 0;
        while y < self.colors.len()
            invariant
                y <= self.colors.len(),
                colors.len() == y,
                forall|j: int| 0 <= j < y ==> (#[trigger] colors[j])@ == self.colors[j]@,
            decreases self.colors.len() - y,
        {
            colors.push(sub_vec(&self.colors[y], 0, self.colors[y].len()));
            y += 1;
        }
        let r = Lines { lines, colors, width: self.width, height: self.height };
        assert(r@.cells =~= self@.cells);
        assert(r@.colors =~= self@.colors);
        r
    }
}

/// The entries of `v` from index `from` up to, not including, index `to`.
fn sub_vec<T: Copy>(v: &Vec<T>, from: usize, to: usize) -> (r: Vec<T>)
    requires
        from <= to <= v.len(),
    ensures
        r@ == v@.subrange(from as int, to as int),
{
    let mut r: Vec<T> = Vec::new();
    let mut i: usize = from;
    while i < to
        invariant
            from <= i <= to,
            to <= v.len(),
            r@ == v@.subrange(from as int, i as int),
        decreases to - i,
    {
        r.push(v[i]);
        i += 1;
        assert(r@ =~= v@.subrange(from as int, i as int));
    }
    assert(v@.subrange(0, v.len() as int) =~= v@);
    r
}

/// `a` followed by `b`.
fn concat<T: Copy>(a: &Vec<T>, b: &Vec<T>) -> (r: Vec<T>)
    ensures
        r@ == a@ + b@,
{
    let mut r: Vec<T> = Vec::new();
    let mut i: usize = 0;
    while i < a.len()
        invariant
            i <= a.len(),
            r@ == a@.take(i as int),
        decreases a.len() - i,
    {
        r.push(a[i]);
        i += 1;
        assert(r@ =~= a@.take(i as int));
    }
    let mut i: usize = 0;
    while i < b.len()
        invariant
            i <= b.len(),
            r@ == a@ + b@.take(i as int),
        decreases b.len() - i,
    {
        r.push(b[i]);
        i += 1;
        assert(r@ =~= a@ + b@.take(i as int));
    }
    assert(b@.take(b.len() as int) =~= b@);
    r
}

/// `n` entries `fill`.
fn filled<T: Copy>(n: usize, fill: T) -> (r: Vec<T>)
    ensures
        r@ == Seq::new(n as nat, |i: int| fill),
{
    let mut r: Vec<T> = Vec::new();
    let mut i: usize = 0;
    while i < n
        invariant
            i <= n,
            r@ == Seq::new(i as nat, |k: int| fill),
        decreases n - i,
    {
        r.push(fill);
        i += 1;
        assert(r@ =~= Seq::new(i as nat, |k: int| fill));
    }
    r
}

/// `row` with `lead` entries `fill` in front of it and `trail` behind.
fn pad_row<T: Copy>(row: &Vec<T>, lead: usize, trail: usize, fill: T) -> (r: Vec<T>)
    ensures
        r@ == padded(row@, lead as nat, trail as nat, fill),
{
    let front = filled(lead, fill);
    let back = filled(trail, fill);
    let head = concat(&front, row);
    concat(&head, &back)
}

/// The code unit that a transparent character is compared by.
pub open spec fn transparent_unit(c: Option<char>) -> Option<u16> {
    match c {
        Some(c) => Some(low_unit(c)),
        None => None,
    }
}

/// The frame glyph at column `i` of row `j`, if the frame passes there.
fn frame_glyph(borders: [bool; 4], width: usize, height: usize, i: usize, j: usize) -> (r: Option<u16>)
    ensures
        r == border_glyph(
            borders[0],
            borders[1],
            borders[2],
            borders[3],
            width as nat,
            height as nat,
            i as int,
            j as int,
        ),
{
    let top = borders[0];
    let bottom = borders[1];
    let left = borders[2];
    let right = borders[3];
    if !(i < width && j < height) {
        None
    } else if top && left && i == 0 && j == 0 {
        Some(CORNER_TOP_LEFT)
    } else if top && right && i == width - 1 && j == 0 {
        Some(CORNER_TOP_RIGHT)
    } else if bottom && left && i == 0 && j == height - 1 {
        Some(CORNER_BOTTOM_LEFT)
    } else if bottom && right && i == width - 1 && j == height - 1 {
        Some(CORNER_BOTTOM_RIGHT)
    } else if (left && i == 0) || (right && i == width - 1) {
        Some(VERTICAL)
    } else if (top && j == 0) || (bottom && j == height - 1) {
        Some(HORIZONTAL)
    } else {
        None
    }
}

/// The number of cells that `line` takes on the screen when it was written in
/// `color_mode`.
pub fn count_chars(line: &[u16], color_mode: &ColorMode) -> (r: usize)
    ensures
        r == visible_width(line@, color_mode@),
        r <= line@.len(),
{
    match color_mode {
        ColorMode::Plain | ColorMode::Html { .. } => line.len(),
        ColorMode::TerminalFg | ColorMode::TerminalBg => {
            let mut state = EscapeState::Idle;
            let mut count: usize = 0;
            let mut i: usize = 0;
            while i < line.len()
                invariant
                    i <= line.len(),
                    (state, count as nat) == scan(line@.take(i as int), (EscapeState::Idle, 0)),
                    count + pending(state) <= i,
                decreases line.len() - i,
            {
                let unit = line[i];
                proof {
                    assert(line@.take(i + 1).drop_last() =~= line@.take(i as int));
                    assert(line@.take(i + 1).last() == unit);
                }
                match state {
                    EscapeState::Idle => {
                        if unit == ESCAPE {
                            state = EscapeState::Escape;
                        } else {
                            count += 1;
                        }
                    },
                    EscapeState::Escape => {
                        if unit == 0x5B {
                            state = EscapeState::Bracket;
                        } else if unit == ESCAPE {
                            count += 1;
                        } else {
                            state = EscapeState::Idle;
                            count += 2;
                        }
                    },
                    EscapeState::Bracket => {
                        if unit == 0x33 {
                            state = EscapeState::Digit;
                        } else if unit == ESCAPE {
                            state = EscapeState::Escape;
                            count += 2;
                        } else {
                            state = EscapeState::Idle;
                            count += 3;
                        }
                    },
                    EscapeState::Digit => {
                        if unit == 0x6D {
                            state = EscapeState::Idle;
                        }
                    },
                }
                i += 1;
            }
            assert(line@.take(line@.len() as int) =~= line@);
            count
        },
    }
}

/// The lines of a text given as code units.
fn lines_of(units: &Vec<u16>) -> (r: Vec<Vec<u16>>)
    ensures
        r@.map_values(|row: Vec<u16>| row@) == split_lines(units@),
        r.len() >= 1,
{
    let mut done: Vec<Vec<u16>> = Vec::new();
    let mut current: Vec<u16> = Vec::new();
    let mut i: usize = 0;
    assert(done@.map_values(|row: Vec<u16>| row@).push(current@) =~= split_lines(units@.take(0)));
    while i < units.len()
        invariant
            i <= units.len(),
            done@.map_values(|row: Vec<u16>| row@).push(current@) == split_lines(units@.take(i as int)),
        decreases units.len() - i,
    {
        let unit = units[i];
        let ghost before = done@.map_values(|row: Vec<u16>| row@).push(current@);
        proof {
            assert(units@.take(i + 1).drop_last() =~= units@.take(i as int));
            assert(units@.take(i + 1).last() == unit);
        }
        if unit == NEWLINE {
            done.push(current);
            current = Vec::new();
            assert(done@.map_values(|row: Vec<u16>| row@).push(current@) =~= before.push(Seq::empty()));
        } else {
            current.push(unit);
            assert(done@.map_values(|row: Vec<u16>| row@).push(current@) =~= before.drop_last().push(
                before.last().push(unit),
            ));
        }
        i += 1;
    }
    assert(units@.take(units.len() as int) =~= units@);
    let ghost before = done@.map_values(|row: Vec<u16>| row@).push(current@);
    done.push(current);
    assert(done@.map_values(|row: Vec<u16>| row@) =~= before);
    done
}

/// A row of `n` blank cells.
fn blank_row(n: usize) -> (r: Vec<u16>)
    ensures
        r@ == blank_cells(n as nat),
{
    let r = filled(n, SPACE);
    assert(r@ =~= blank_cells(n as nat));
    r
}

/// A row of `n` cells without a color.
fn blank_color_row(n: usize) -> (r: Vec<Option<Color>>)
    ensures
        r@ == blank_colors(n as nat),
{
    let r = filled(n, None);
    assert(r@ =~= blank_colors(n as nat));
    r
}

impl Lines {
    /// The canvas is well formed: see `Canvas::wf`.
    pub open spec fn wf(&self) -> bool {
        self@.wf()
    }

    /// A blank canvas, `width` by `height`.
    pub fn new(width: usize, height: usize) -> (r: Self)
        ensures
            r@ == Canvas::blank(width as nat, height as nat),
            r@.is_rect(),
    {
        let mut lines: Vec<Vec<u16>> = Vec::new();
        let mut colors: Vec<Vec<Option<Color>>> = Vec::new();
        let mut y: usize = 0;
        while y < height
            invariant
                y <= height,
                lines.len() == y,
                colors.len() == y,
                forall|j: int| 0 <= j < y ==> (#[trigger] lines[j])@ == blank_cells(width as nat),
                forall|j: int| 0 <= j < y ==> (#[trigger] colors[j])@ == blank_colors(width as nat),
            decreases height - y,
        {
            lines.push(blank_row(width));
            colors.push(blank_color_row(width));
            y += 1;
        }
        let r = Lines { lines, colors, width, height };
        assert(r@.cells =~= Canvas::blank(width as nat, height as nat).cells);
        assert(r@.colors =~= Canvas::blank(width as nat, height as nat).colors);
        r
    }

    /// The canvas without rows or columns.
    pub fn empty() -> (r: Self)
        ensures
            r@ == Canvas::blank(0, 0),
            r@.is_rect(),
    {
        let r = Lines { lines: Vec::new(), colors: Vec::new(), width: 0, height: 0 };
        assert(r@.cells =~= Canvas::blank(0, 0).cells);
        assert(r@.colors =~= Canvas::blank(0, 0).colors);
        r
    }

    /// The number of columns.
    pub fn get_width(&self) -> (r: usize)
        ensures
            r == self@.width,
    {
        self.width
    }

    /// The number of rows.
    pub fn get_height(&self) -> (r: usize)
        ensures
            r == self@.height,
    {
        self.height
    }

    /// The cell at column `x` of row `y`.
    pub fn get(&self, x: usize, y: usize) -> (r: u16)
        requires
            self.wf(),
            y < self@.height,
            x < self@.cells[y as int].len(),
        ensures
            r == self@.cells[y as int][x as int],
    {
        self.lines[y][x]
    }

    /// The color at column `x` of row `y`.
    pub fn get_color(&self, x: usize, y: usize) -> (r: Option<Color>)
        requires
            self.wf(),
            y < self@.height,
            x < self@.width,
        ensures
            r == self@.colors[y as int][x as int],
    {
        assert(self@.colors[y as int].len() == self@.width);
        self.colors[y][x]
    }

    /// Puts `c` into the cell at column `x` of row `y`.
    pub fn set(&mut self, x: usize, y: usize, c: u16)
        requires
            old(self).wf(),
            y < old(self)@.height,
            x < old(self)@.cells[y as int].len(),
        ensures
            final(self)@ == old(self)@.set(x as int, y as int, c),
            final(self).wf(),
            old(self)@.is_rect() ==> final(self)@.is_rect(),
    {
        self.lines[y][x] = c;
        assert(self@.cells =~= old(self)@.set(x as int, y as int, c).cells);
        assert(self@.colors =~= old(self)@.colors);
    }

    /// Gives the cell at column `x` of row `y` the color `color`.
    pub fn set_color(&mut self, x: usize, y: usize, color: Option<Color>)
        requires
            old(self).wf(),
            y < old(self)@.height,
            x < old(self)@.width,
        ensures
            final(self)@ == old(self)@.set_color(x as int, y as int, color),
            final(self).wf(),
            old(self)@.is_rect() ==> final(self)@.is_rect(),
    {
        assert(self@.colors[y as int].len() == self@.width);
        self.colors[y][x] = color;
        assert(self@.colors =~= old(self)@.set_color(x as int, y as int, color).colors);
        assert(self@.cells =~= old(self)@.cells);
    }

    /// The part of the canvas that starts at column `x` of row `y` and is at most `w`
    /// wide and `h` tall.
    #[must_use]
    pub fn crop(&self, x: usize, y: usize, w: usize, h: usize) -> (r: Lines)
        requires
            self.wf(),
            x <= self@.width,
            y <= self@.height,
        ensures
            r@ == self@.crop(x as nat, y as nat, w as nat, h as nat),
            r@.is_rect(),
    {
        let cw = if w <= self.width - x { w } else { self.width - x };
        let ch = if h <= self.height - y { h } else { self.height - y };
        let mut lines: Vec<Vec<u16>> = Vec::new();
        let mut colors: Vec<Vec<Option<Color>>> = Vec::new();
        let mut j: usize = 0;
        while j < ch
            invariant
                j <= ch,
                self.wf(),
                x + cw <= self.width,
                y + ch <= self.height,
                lines.len() == j,
                colors.len() == j,
                forall|k: int| 0 <= k < j ==> (#[trigger] lines[k])@
                    == self@.cells[y + k].subrange(x as int, x + cw),
                forall|k: int| 0 <= k < j ==> (#[trigger] colors[k])@
                    == self@.colors[y + k].subrange(x as int, x + cw),
            decreases ch - j,
        {
            assert(self@.cells[y + j].len() >= self@.width);
            assert(self@.colors[y + j].len() == self@.width);
            lines.push(sub_vec(&self.lines[y + j], x, x + cw));
            colors.push(sub_vec(&self.colors[y + j], x, x + cw));
            j += 1;
        }
        let r = Lines { lines, colors, width: cw, height: ch };
        proof {
            let want = self@.crop(x as nat, y as nat, w as nat, h as nat);
            assert(r@.cells =~= want.cells);
            assert(r@.colors =~= want.colors);
        }
        r
    }

    /// This canvas with `other` copied onto it at column `x` of row `y`. Cells of `other`
    /// that hold `transparent_char` are left out, and so is what falls outside this
    /// canvas. To copy a part of `other`, crop it first.
    #[must_use]
    pub fn blit(&self, other: &Lines, x: usize, y: usize, transparent_char: Option<char>) -> (r: Lines)
        requires
            self.wf(),
            other.wf(),
        ensures
            r@ == self@.blit(other@, x as nat, y as nat, transparent_unit(transparent_char)),
            r.wf(),
            self@.is_rect() ==> r@.is_rect(),
    {
        let transparent: Option<u16> = match transparent_char {
            Some(c) => Some(low_unit_of(c)),
            None => None,
        };
        let ghost want = self@.blit(other@, x as nat, y as nat, transparent);
        let mut lines: Vec<Vec<u16>> = Vec::new();
        let mut colors: Vec<Vec<Option<Color>>> = Vec::new();
        let mut j: usize = 0;
        while j < self.height
            invariant
                j <= self.height,
                self.wf(),
                other.wf(),
                want == self@.blit(other@, x as nat, y as nat, transparent),
                lines.len() == j,
                colors.len() == j,
                forall|k: int| 0 <= k < j ==> (#[trigger] lines[k])@ == want.cells[k],
                forall|k: int| 0 <= k < j ==> (#[trigger] colors[k])@ == want.colors[k],
            decreases self.height - j,
        {
            assert(self@.cells[j as int].len() >= self@.width);
            assert(self@.colors[j as int].len() == self@.width);
            let in_rows = y <= j && j - y < other.height;
            let source = &self.lines[j];
            let source_colors = &self.colors[j];
            let mut row: Vec<u16> = Vec::new();
            let mut color_row: Vec<Option<Color>> = Vec::new();
            let mut i: usize = 0;
            while i < source.len()
                invariant
                    i <= source.len(),
                    j < self.height,
                    self.wf(),
                    other.wf(),
                    source@ == self@.cells[j as int],
                    source_colors@ == self@.colors[j as int],
                    source_colors.len() == self.width,
                    source.len() >= self.width,
                    in_rows == (y <= j && j - y < other.height),
                    row.len() == i,
                    color_row.len() == if i <= self.width { i } else { self.width },
                    forall|k: int| 0 <= k < i ==> #[trigger] row@[k] == want.cells[j as int][k],
                    forall|k: int| 0 <= k < i && k < self.width ==> #[trigger] color_row@[k]
                        == want.colors[j as int][k],
                    want == self@.blit(other@, x as nat, y as nat, transparent),
                decreases source.len() - i,
            {
                let mut cell = source[i];
                let mut color = if i < self.width { source_colors[i] } else { None };
                if in_rows && x <= i && i < self.width && i - x < other.width {
                    assert(other@.cells[j - y].len() >= other@.width);
                    assert(other@.colors[j - y].len() == other@.width);
                    let ch = other.lines[j - y][i - x];
                    if Some(ch) != transparent {
                        cell = ch;
                        color = other.colors[j - y][i - x];
                    }
                }
                row.push(cell);
                if i < self.width {
                    color_row.push(color);
                }
                i += 1;
            }
            assert(row@ =~= want.cells[j as int]);
            assert(color_row@ =~= want.colors[j as int]);
            lines.push(row);
            colors.push(color_row);
            j += 1;
        }
        let r = Lines { lines, colors, width: self.width, height: self.height };
        assert(r@.cells =~= want.cells);
        assert(r@.colors =~= want.colors);
        r
    }

    /// This canvas above `other`.
    #[must_use]
    pub fn merge_vertically(&self, other: &Lines, alignment: Alignment) -> (r: Lines)
        requires
            self.wf(),
            other.wf(),
        ensures
            r@ == self@.merge_vertically(other@, alignment),
            r.wf(),
            self@.is_rect() && other@.is_rect() ==> r@.is_rect(),
    {
        let width = if self.width >= other.width { self.width } else { other.width };
        let (lead1, trail1) = alignment.split(width - self.width);
        let (lead2, trail2) = alignment.split(width - other.width);
        let ghost want = self@.merge_vertically(other@, alignment);
        let mut lines: Vec<Vec<u16>> = Vec::new();
        let mut colors: Vec<Vec<Option<Color>>> = Vec::new();
        let mut j: usize = 0;
        while j < self.height
            invariant
                j <= self.height,
                self.wf(),
                want == self@.merge_vertically(other@, alignment),
                width == want.width,
                lead1 == alignment.lead((width - self.width) as nat),
                trail1 == alignment.trail((width - self.width) as nat),
                lead1 + trail1 == width - self.width,
                lines.len() == j,
                colors.len() == j,
                forall|k: int| 0 <= k < j ==> (#[trigger] lines[k])@ == want.cells[k],
                forall|k: int| 0 <= k < j ==> (#[trigger] colors[k])@ == want.colors[k],
            decreases self.height - j,
        {
            assert(self@.cells[j as int].len() >= self@.width);
            assert(self@.colors[j as int].len() == self@.width);
            lines.push(pad_row(&self.lines[j], lead1, trail1, SPACE));
            colors.push(pad_row(&self.colors[j], lead1, trail1, None));
            j += 1;
        }
        let mut j: usize = 0;
        while j < other.height
            invariant
                j <= other.height,
                other.wf(),
                want == self@.merge_vertically(other@, alignment),
                width == want.width,
                lead2 == alignment.lead((width - other.width) as nat),
                trail2 == alignment.trail((width - other.width) as nat),
                lead2 + trail2 == width - other.width,
                lines.len() == self.height + j,
                colors.len() == self.height + j,
                forall|k: int| 0 <= k < self.height + j ==> (#[trigger] lines[k])@ == want.cells[k],
                forall|k: int| 0 <= k < self.height + j ==> (#[trigger] colors[k])@ == want.colors[k],
            decreases other.height - j,
        {
            assert(other@.cells[j as int].len() >= other@.width);
            assert(other@.colors[j as int].len() == other@.width);
            lines.push(pad_row(&other.lines[j], lead2, trail2, SPACE));
            colors.push(pad_row(&other.colors[j], lead2, trail2, None));
            j += 1;
        }
        let height = lines.len();
        let r = Lines { lines, colors, width, height };
        assert(r@.cells =~= want.cells);
        assert(r@.colors =~= want.colors);
        assert(r.wf()) by {
            assert forall|k: int| 0 <= k < r@.height implies (#[trigger] r@.colors[k]).len() == r@.width
                && r@.cells[k].len() >= r@.width by {
                if k < self.height {
                    assert(self@.cells[k].len() >= self@.width);
                    assert(self@.colors[k].len() == self@.width);
                } else {
                    assert(other@.cells[k - self.height].len() >= other@.width);
                    assert(other@.colors[k - self.height].len() == other@.width);
                }
            }
        }
        r
    }

    /// This canvas with `other` to its right.
    #[must_use]
    pub fn merge_horizontally(&self, other: &Lines, alignment: Alignment) -> (r: Lines)
        requires
            self.wf(),
            other.wf(),
        ensures
            r@ == self@.merge_horizontally(other@, alignment),
            r.wf(),
            self@.is_rect() && other@.is_rect() ==> r@.is_rect(),
    {
        let height = if self.height >= other.height { self.height } else { other.height };
        let (top1, _) = alignment.split(height - self.height);
        let (top2, _) = alignment.split(height - other.height);
        let ghost want = self@.merge_horizontally(other@, alignment);
        let mut lines: Vec<Vec<u16>> = Vec::new();
        let mut colors: Vec<Vec<Option<Color>>> = Vec::new();
        let mut j: usize = 0;
        while j < height
            invariant
                j <= height,
                self.wf(),
                other.wf(),
                want == self@.merge_horizontally(other@, alignment),
                height == want.height,
                top1 == alignment.lead((height - self.height) as nat),
                top2 == alignment.lead((height - other.height) as nat),
                top1 + self.height <= height,
                top2 + other.height <= height,
                lines.len() == j,
                colors.len() == j,
                forall|k: int| 0 <= k < j ==> (#[trigger] lines[k])@ == want.cells[k],
                forall|k: int| 0 <= k < j ==> (#[trigger] colors[k])@ == want.colors[k],
            decreases height - j,
        {
            let (left, left_colors) = if top1 <= j && j - top1 < self.height {
                (concat(&self.lines[j - top1], &Vec::new()), concat(&self.colors[j - top1], &Vec::new()))
            } else {
                (blank_row(self.width), blank_color_row(self.width))
            };
            assert(left@ =~= self@.cells_or_blank(j - top1));
            assert(left_colors@ =~= self@.colors_or_blank(j - top1));
            if top2 <= j && j - top2 < other.height {
                lines.push(concat(&left, &other.lines[j - top2]));
                colors.push(concat(&left_colors, &other.colors[j - top2]));
            } else {
                lines.push(concat(&left, &blank_row(other.width)));
                colors.push(concat(&left_colors, &blank_color_row(other.width)));
            }
            j += 1;
        }
        let width = concat(&blank_color_row(self.width), &blank_color_row(other.width)).len();
        let r = Lines { lines, colors, width, height };
        assert(r@.cells =~= want.cells);
        assert(r@.colors =~= want.colors);
        assert(r.wf()) by {
            assert forall|k: int| 0 <= k < r@.height implies (#[trigger] r@.colors[k]).len() == r@.width
                && r@.cells[k].len() >= r@.width by {
                if 0 <= k - top1 < self.height {
                    assert(self@.cells[k - top1].len() >= self@.width);
                    assert(self@.colors[k - top1].len() == self@.width);
                }
                if 0 <= k - top2 < other.height {
                    assert(other@.cells[k - top2].len() >= other@.width);
                    assert(other@.colors[k - top2].len() == other@.width);
                }
            }
        }
        r
    }

    /// This canvas with blank rows and columns around it. `paddings` holds their numbers
    /// for the top, the bottom, the left and the right.
    #[must_use]
    pub fn add_padding(&self, paddings: [usize; 4]) -> (r: Lines)
        requires
            self.wf(),
        ensures
            r@ == self@.add_padding(
                paddings[0] as nat,
                paddings[1] as nat,
                paddings[2] as nat,
                paddings[3] as nat,
            ),
            r.wf(),
            self@.is_rect() ==> r@.is_rect(),
    {
        let top = paddings[0];
        let bottom = paddings[1];
        let left = paddings[2];
        let right = paddings[3];
        let width = pad_row(&blank_color_row(self.width), left, right, None).len();
        let ghost want = self@.add_padding(top as nat, bottom as nat, left as nat, right as nat);
        let mut lines: Vec<Vec<u16>> = Vec::new();
        let mut colors: Vec<Vec<Option<Color>>> = Vec::new();
        let mut j: usize = 0;
        while j < top
            invariant
                j <= top,
                want == self@.add_padding(top as nat, bottom as nat, left as nat, right as nat),
                width == self.width + left + right,
                lines.len() == j,
                colors.len() == j,
                forall|k: int| 0 <= k < j ==> (#[trigger] lines[k])@ == want.cells[k],
                forall|k: int| 0 <= k < j ==> (#[trigger] colors[k])@ == want.colors[k],
            decreases top - j,
        {
            lines.push(blank_row(width));
            colors.push(blank_color_row(width));
            j += 1;
        }
        let mut j: usize = 0;
        while j < self.height
            invariant
                j <= self.height,
                self.wf(),
                want == self@.add_padding(top as nat, bottom as nat, left as nat, right as nat),
                width == self.width + left + right,
                lines.len() == top + j,
                colors.len() == top + j,
                forall|k: int| 0 <= k < top + j ==> (#[trigger] lines[k])@ == want.cells[k],
                forall|k: int| 0 <= k < top + j ==> (#[trigger] colors[k])@ == want.colors[k],
            decreases self.height - j,
        {
            lines.push(pad_row(&self.lines[j], left, right, SPACE));
            colors.push(pad_row(&self.colors[j], left, right, None));
            j += 1;
        }
        let mut j: usize = 0;
        while j < bottom
            invariant
                j <= bottom,
                want == self@.add_padding(top as nat, bottom as nat, left as nat, right as nat),
                width == self.width + left + right,
                lines.len() == top + self.height + j,
                colors.len() == top + self.height + j,
                forall|k: int| 0 <= k < top + self.height + j ==> (#[trigger] lines[k])@ == want.cells[k],
                forall|k: int| 0 <= k < top + self.height + j ==> (#[trigger] colors[k])@ == want.colors[k],
            decreases bottom - j,
        {
            lines.push(blank_row(width));
            colors.push(blank_color_row(width));
            j += 1;
        }
        let height = lines.len();
        let r = Lines { lines, colors, width, height };
        assert(r@.cells =~= want.cells);
        assert(r@.colors =~= want.colors);
        assert(r.wf()) by {
            assert forall|k: int| 0 <= k < r@.height implies (#[trigger] r@.colors[k]).len() == r@.width
                && r@.cells[k].len() >= r@.width by {
                if top <= k < top + self.height {
                    assert(self@.cells[k - top].len() >= self@.width);
                    assert(self@.colors[k - top].len() == self@.width);
                }
            }
        }
        r
    }

    /// Gives every cell the color `color`.
    pub fn set_color_all(&mut self, color: Option<Color>)
        requires
            old(self).wf(),
        ensures
            final(self)@ == old(self)@.with_color(color),
            final(self).wf(),
            old(self)@.is_rect() ==> final(self)@.is_rect(),
    {
        let mut colors: Vec<Vec<Option<Color>>> = Vec::new();
        let mut j: usize = 0;
        while j < self.height
            invariant
                j <= self.height,
                colors.len() == j,
                forall|k: int| 0 <= k < j ==> (#[trigger] colors[k])@
                    == Seq::new(self.width as nat, |i: int| color),
            decreases self.height - j,
        {
            colors.push(filled(self.width, color));
            j += 1;
        }
        self.colors = colors;
        assert(self@.colors =~= old(self)@.with_color(color).colors);
        assert(self@.cells =~= old(self)@.cells);
    }

    /// Whether the canvas is a rectangle: `height` rows of `width` cells each.
    pub fn is_valid(&self) -> (r: bool)
        ensures
            r == self@.rows_fit(),
    {
        if self.lines.len() != self.height {
            return false;
        }
        let mut j: usize = 0;
        while j < self.height
            invariant
                j <= self.height,
                self.lines.len() == self.height,
                forall|k: int| 0 <= k < j ==> (#[trigger] self@.cells[k]).len() == self.width,
            decreases self.height - j,
        {
            if self.lines[j].len() != self.width {
                assert(self@.cells[j as int].len() != self.width);
                return false;
            }
            assert(self@.cells[j as int].len() == self.width);
            j += 1;
        }
        true
    }

    /// This canvas with a frame on the sides for which `borders` holds `true`: the top,
    /// the bottom, the left and the right.
    #[must_use]
    pub fn add_border(&self, borders: [bool; 4]) -> (r: Lines)
        requires
            self.wf(),
        ensures
            r@ == self@.add_border(borders[0], borders[1], borders[2], borders[3]),
            r.wf(),
            self@.is_rect() ==> r@.is_rect(),
    {
        let inner = self.add_padding(
            [
                if borders[0] { 1 } else { 0 },
                if borders[1] { 1 } else { 0 },
                if borders[2] { 1 } else { 0 },
                if borders[3] { 1 } else { 0 },
            ],
        );
        let ghost want = self@.add_border(borders[0], borders[1], borders[2], borders[3]);
        let mut lines: Vec<Vec<u16>> = Vec::new();
        let mut j: usize = 0;
        while j < inner.height
            invariant
                j <= inner.height,
                inner.wf(),
                want.cells.len() == inner@.height,
                forall|k: int, i: int| 0 <= k < inner@.height && 0 <= i < inner@.cells[k].len()
                    ==> #[trigger] want.cells[k][i] == (match border_glyph(
                    borders[0],
                    borders[1],
                    borders[2],
                    borders[3],
                    inner@.width,
                    inner@.height,
                    i,
                    k,
                ) {
                    Some(glyph) => glyph,
                    None => inner@.cells[k][i],
                }),
                forall|k: int| 0 <= k < inner@.height ==> (#[trigger] want.cells[k]).len()
                    == inner@.cells[k].len(),
                lines.len() == j,
                forall|k: int| 0 <= k < j ==> (#[trigger] lines[k])@ == want.cells[k],
            decreases inner.height - j,
        {
            let source = &inner.lines[j];
            let mut row: Vec<u16> = Vec::new();
            let mut i: usize = 0;
            while i < source.len()
                invariant
                    i <= source.len(),
                    j < inner.height,
                    source@ == inner@.cells[j as int],
                    row.len() == i,
                    forall|k: int| 0 <= k < i ==> #[trigger] row@[k] == (match border_glyph(
                        borders[0],
                        borders[1],
                        borders[2],
                        borders[3],
                        inner@.width,
                        inner@.height,
                        k,
                        j as int,
                    ) {
                        Some(glyph) => glyph,
                        None => inner@.cells[j as int][k],
                    }),
                decreases source.len() - i,
            {
                match frame_glyph(borders, inner.width, inner.height, i, j) {
                    Some(glyph) => row.push(glyph),
                    None => row.push(source[i]),
                }
                i += 1;
            }
            assert(row@ =~= want.cells[j as int]);
            lines.push(row);
            j += 1;
        }
        let r = Lines { lines, colors: inner.colors, width: inner.width, height: inner.height };
        assert(r@.cells =~= want.cells);
        assert(r@.colors =~= want.colors);
        assert(r.wf()) by {
            assert forall|k: int| 0 <= k < r@.height implies (#[trigger] r@.colors[k]).len() == r@.width
                && r@.cells[k].len() >= r@.width by {
                assert(inner@.cells[k].len() >= inner@.width);
                assert(inner@.colors[k].len() == inner@.width);
            }
        }
        assert(self@.is_rect() ==> r@.is_rect()) by {
            if self@.is_rect() {
                assert forall|k: int| 0 <= k < r@.height implies (#[trigger] r@.cells[k]).len() == r@.width by {
                    assert(inner@.cells[k].len() == inner@.width);
                }
            }
        }
        r
    }

    /// The canvas of a text. Every line is filled up with blank cells to the visible
    /// width of the widest line.
    ///
    /// `color_mode` is the mode in which `s` was written, if it came from this library,
    /// so that the color sequences in it are not counted as cells; for other text it is
    /// `ColorMode::Plain`.
    pub fn from_string(s: &str, alignment: Alignment, color_mode: &ColorMode) -> (r: Self)
        ensures
            r@ == Canvas::from_text(s@, alignment, color_mode@),
            r.wf(),
            (color_mode@ is Plain || color_mode@ is Html) ==> r@.is_rect(),
            measured_exactly(v16(s@), color_mode@) ==> r@.is_rect(),
    {
        if s.is_empty() {
            return Lines::empty();
        }
        let units = into_v16(s);
        let raw = lines_of(&units);
        let ghost lines = split_lines(units@);
        let mut width: usize = 0;
        let mut j: usize = 0;
        while j < raw.len()
            invariant
                j <= raw.len(),
                lines == raw@.map_values(|row: Vec<u16>| row@),
                width == widest(lines.take(j as int), color_mode@),
            decreases raw.len() - j,
        {
            proof {
                assert(lines.take(j + 1).drop_last() =~= lines.take(j as int));
                assert(lines.take(j + 1).last() == raw[j as int]@);
            }
            let line_width = count_chars(raw[j].as_slice(), color_mode);
            if line_width > width {
                width = line_width;
            }
            j += 1;
        }
        assert(lines.take(raw.len() as int) =~= lines);
        let ghost want = Canvas::from_units(units@, alignment, color_mode@);
        let mut cells: Vec<Vec<u16>> = Vec::new();
        let mut colors: Vec<Vec<Option<Color>>> = Vec::new();
        let mut j: usize = 0;
        while j < raw.len()
            invariant
                j <= raw.len(),
                lines == raw@.map_values(|row: Vec<u16>| row@),
                lines == split_lines(units@),
                width == widest(lines, color_mode@),
                want == Canvas::from_units(units@, alignment, color_mode@),
                cells.len() == j,
                colors.len() == j,
                forall|k: int| 0 <= k < j ==> (#[trigger] cells[k])@ == want.cells[k],
                forall|k: int| 0 <= k < j ==> (#[trigger] colors[k])@ == want.colors[k],
                forall|k: int| 0 <= k < j ==> (#[trigger] cells[k])@.len() >= width,
                (color_mode@ is Plain || color_mode@ is Html) ==> forall|k: int| 0 <= k < j ==>
                    (#[trigger] cells[k])@.len() == width,
                measured_exactly(units@, color_mode@) ==> forall|k: int| 0 <= k < j ==>
                    (#[trigger] cells[k])@.len() == width,
            decreases raw.len() - j,
        {
            let line_width = count_chars(raw[j].as_slice(), color_mode);
            proof {
                lemma_widest_bounds(lines, color_mode@, j as int);
                assert(lines[j as int] == raw[j as int]@);
            }
            let (lead, trail) = alignment.split(width - line_width);
            cells.push(pad_row(&raw[j], lead, trail, SPACE));
            colors.push(blank_color_row(width));
            j += 1;
        }
        let r = Lines { lines: cells, colors, width, height: raw.len() };
        assert(r@.cells =~= want.cells);
        assert(r@.colors =~= want.colors);
        r
    }

    /// The canvas as text: its rows, one to a line. In a mode other than
    /// `ColorMode::Plain` a marker is written wherever the color changes from one cell to
    /// the next, and no run of color is left open at the end.
    pub fn to_string(&self, color_mode: &ColorMode) -> (r: String)
        requires
            self.wf(),
        ensures
            r@ == self@.text(color_mode@),
    {
        let mut units: Vec<u16> = Vec::new();
        let mut unit_colors: Vec<Option<Color>> = Vec::new();
        let mut j: usize = 0;
        while j < self.height
            invariant
                j <= self.height,
                self.wf(),
                units@ == self@.joined_cells(j as nat),
                unit_colors@ == self@.joined_colors(j as nat),
                units.len() == unit_colors.len(),
            decreases self.height - j,
        {
            let ghost cells_before = units@;
            let ghost colors_before = unit_colors@;
            if j > 0 {
                units.push(NEWLINE);
                unit_colors.push(None);
            }
            let ghost cells_mid = units@;
            let ghost colors_mid = unit_colors@;
            assert(self@.colors[j as int].len() == self@.width);
            assert(self@.cells[j as int].len() >= self@.width);
            let row = &self.lines[j];
            let row_colors = &self.colors[j];
            let mut i: usize = 0;
            while i < row.len()
                invariant
                    i <= row.len(),
                    j < self.height,
                    row@ == self@.cells[j as int],
                    row_colors@ == self@.colors[j as int],
                    row_colors.len() == self.width,
                    units@ == cells_mid + row@.take(i as int),
                    unit_colors@ == colors_mid + self@.row_colors(j as int).take(i as int),
                    units.len() == unit_colors.len(),
                decreases row.len() - i,
            {
                units.push(row[i]);
                unit_colors.push(if i < self.width { row_colors[i] } else { None });
                i += 1;
                assert(units@ =~= cells_mid + row@.take(i as int));
                assert(unit_colors@ =~= colors_mid + self@.row_colors(j as int).take(i as int));
            }
            proof {
                assert(row@.take(row.len() as int) =~= row@);
                assert(self@.row_colors(j as int).take(row.len() as int) =~= self@.row_colors(j as int));
                if j == 0 {
                    assert(units@ =~= self@.cells[0]);
                    assert(unit_colors@ =~= self@.row_colors(0));
                } else {
                    assert(cells_mid =~= cells_before + seq![NEWLINE]);
                    assert(colors_mid =~= colors_before + seq![None]);
                }
            }
            j += 1;
        }
        let mut chars: Vec<char> = Vec::new();
        let mut char_colors: Vec<Option<Color>> = Vec::new();
        let mut i: usize = 0;
        assert(units@.skip(0) =~= units@);
        assert(unit_colors@.skip(0) =~= unit_colors@);
        while i < units.len()
            invariant
                i <= units.len(),
                units.len() == unit_colors.len(),
                chars.len() == char_colors.len(),
                chars@ + utf16_lossy(units@.skip(i as int)) == utf16_lossy(units@),
                char_colors@ + lossy_colors(units@.skip(i as int), unit_colors@.skip(i as int))
                    == lossy_colors(units@, unit_colors@),
            decreases units.len() - i,
        {
            let ghost chars_before = chars@;
            let ghost colors_before = char_colors@;
            let (c, n) = decode_at(&units, i);
            chars.push(c);
            char_colors.push(unit_colors[i]);
            proof {
                assert(chars@ + utf16_lossy(units@.skip(i + n)) =~= chars_before + (seq![c] + utf16_lossy(
                    units@.skip(i + n),
                )));
                assert(units@.skip(i as int).skip(n as int) =~= units@.skip(i + n));
                assert(unit_colors@.skip(i as int).skip(n as int) =~= unit_colors@.skip(i + n));
                assert(char_colors@ + lossy_colors(units@.skip(i + n), unit_colors@.skip(i + n))
                    =~= colors_before + (seq![unit_colors@[i as int]] + lossy_colors(
                    units@.skip(i + n),
                    unit_colors@.skip(i + n),
                )));
            }
            i += n;
        }
        assert(chars@ + utf16_lossy(units@.skip(i as int)) =~= chars@);
        assert(char_colors@ + lossy_colors(units@.skip(i as int), unit_colors@.skip(i as int))
            =~= char_colors@);
        let string = string_of(&chars);
        color_mode.apply_colors(string, char_colors)
    }
}

/// No line is wider than the widest.
pub proof fn lemma_widest_bounds(lines: Seq<Seq<u16>>, mode: ColorModeView, j: int)
    requires
        0 <= j < lines.len(),
    ensures
        visible_width(lines[j], mode) <= widest(lines, mode),
    decreases lines.len(),
{
    if j < lines.len() - 1 {
        lemma_widest_bounds(lines.drop_last(), mode, j);
    }
}

/// Merging with the canvas that has neither rows nor columns changes nothing: a canvas
/// above or below it, or to its left or right, is the canvas itself.
pub proof fn lemma_merge_with_empty(canvas: Canvas, alignment: Alignment)
    requires
        canvas.wf(),
    ensures
        canvas.merge_vertically(Canvas::blank(0, 0), alignment) == canvas,
        Canvas::blank(0, 0).merge_vertically(canvas, alignment) == canvas,
        canvas.merge_horizontally(Canvas::blank(0, 0), alignment) == canvas,
        Canvas::blank(0, 0).merge_horizontally(canvas, alignment) == canvas,
{
    let empty = Canvas::blank(0, 0);
    assert(alignment.lead(0) == 0 && alignment.trail(0) == 0);
    assert forall|j: int| 0 <= j < canvas.height implies padded(#[trigger] canvas.cells[j], 0, 0, SPACE)
        =~= canvas.cells[j] by {}
    assert forall|j: int| 0 <= j < canvas.height implies padded(#[trigger] canvas.colors[j], 0, 0, None)
        =~= canvas.colors[j] by {}
    assert(canvas.merge_vertically(empty, alignment).cells =~= canvas.cells);
    assert(canvas.merge_vertically(empty, alignment).colors =~= canvas.colors);
    assert(empty.merge_vertically(canvas, alignment).cells =~= canvas.cells);
    assert(empty.merge_vertically(canvas, alignment).colors =~= canvas.colors);
    assert forall|j: int| 0 <= j < canvas.height implies #[trigger] canvas.cells_or_blank(j) + empty.cells_or_blank(
        j - alignment.lead(canvas.height),
    ) =~= canvas.cells[j] by {}
    assert forall|j: int| 0 <= j < canvas.height implies #[trigger] canvas.colors_or_blank(j) + empty.colors_or_blank(
        j - alignment.lead(canvas.height),
    ) =~= canvas.colors[j] by {}
    assert forall|j: int| 0 <= j < canvas.height implies empty.cells_or_blank(j - alignment.lead(canvas.height))
        + #[trigger] canvas.cells_or_blank(j) =~= canvas.cells[j] by {}
    assert forall|j: int| 0 <= j < canvas.height implies empty.colors_or_blank(j - alignment.lead(canvas.height))
        + #[trigger] canvas.colors_or_blank(j) =~= canvas.colors[j] by {}
    assert(canvas.merge_horizontally(empty, alignment).cells =~= canvas.cells);
    assert(canvas.merge_horizontally(empty, alignment).colors =~= canvas.colors);
    assert(empty.merge_horizontally(canvas, alignment).cells =~= canvas.cells);
    assert(empty.merge_horizontally(canvas, alignment).colors =~= canvas.colors);
}

/// A text has at least one line.
pub proof fn lemma_split_lines_nonempty(units: Seq<u16>)
    ensures
        split_lines(units).len() >= 1,
    decreases units.len(),
{
    if units.len() > 0 {
        lemma_split_lines_nonempty(units.drop_last());
    }
}

/// One text after another has the lines of both, less one: the last line of the first
/// goes on in the first line of the second.
pub proof fn lemma_split_lines_concat(a: Seq<u16>, b: Seq<u16>)
    ensures
        split_lines(a + b).len() == split_lines(a).len() + split_lines(b).len() - 1,
    decreases b.len(),
{
    if b.len() == 0 {
        assert(a + b =~= a);
    } else {
        assert((a + b).drop_last() =~= a + b.drop_last());
        assert((a + b).last() == b.last());
        lemma_split_lines_concat(a, b.drop_last());
        lemma_split_lines_nonempty(a + b.drop_last());
        lemma_split_lines_nonempty(b.drop_last());
    }
}

/// A text without a line break is one line.
pub proof fn lemma_split_lines_single(units: Seq<u16>)
    requires
        forall|i: int| 0 <= i < units.len() ==> #[trigger] units[i] != NEWLINE,
    ensures
        split_lines(units).len() == 1,
    decreases units.len(),
{
    if units.len() > 0 {
        assert forall|i: int| 0 <= i < units.drop_last().len() implies #[trigger] units.drop_last()[i] != NEWLINE by {
            assert(units.drop_last()[i] == units[i]);
        }
        lemma_split_lines_single(units.drop_last());
        assert(units.last() == units[units.len() - 1]);
    }
}

} // verus!
