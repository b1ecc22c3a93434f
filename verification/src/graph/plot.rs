use vstd::prelude::*;
use crate::alignment::Alignment;
use crate::color::{Color, ColorMode, ColorModeView};
use crate::utils::{chars_of, code_point, low_unit, low_unit_of, string_of, utf16_of_char, v16};
use crate::format::{label_of, NumberFormatter, YLabelFormatter};
use crate::graph::range::{series_wf, values_of};
use crate::lines::{
    lemma_split_lines_concat, lemma_split_lines_single, split_lines, Canvas, Lines, NEWLINE, SPACE,
};
use crate::width::{lemma_char_range, lemma_units_concat};
use crate::number::{truncation, Rational};

verus! {

/// `█`, a cell filled whole.
pub const FULL_BLOCK: u16 = 0x2588;

/// `▆`, a cell filled to three quarters.
pub const THREE_QUARTER_BLOCK: u16 = 0x2586;

/// `▄`, a cell filled to a half.
pub const HALF_BLOCK: u16 = 0x2584;

/// `▂`, a cell filled to a quarter.
pub const QUARTER_BLOCK: u16 = 0x2582;

/// `^`, drawn in the top row where a value lies above the plot.
pub const OVERFLOW_MARK: u16 = 0x5E;

/// What is known of the text that `asciibox::render_string` draws for a title with its
/// default options: letters several rows tall, made of block glyphs.
pub uninterp spec fn banner_text(title: Seq<char>) -> Seq<char>;

/// `asciibox::render_string` with the default options.
#[verifier::external_body]
fn render_banner(title: &str) -> (r: String)
    ensures
        r@ == banner_text(title@),
{
    asciibox::render_string(title, asciibox::RenderOption::default())
}

/// The entry of a series of `len` entries that column `x` of a plot `width` wide shows.
pub open spec fn column_entry(x: int, len: nat, width: nat) -> int {
    (x * len) / (width as int)
}

/// How far below the top of a plot `height` rows tall with the range from `y_min` to
/// `y_max` the bar of `value` begins, in quarters of a row; negative where the value lies
/// above the plot, and nothing where the number leaves the range of `i32` or the range
/// of the plot spans nothing.
pub open spec fn quarter_rows(value: real, y_min: real, y_max: real, height: nat) -> Option<int> {
    let quarters = truncation((y_max - value) / (y_max - y_min) * (height as real) * 4real);
    if y_min == y_max {
        None
    } else if i32::MIN <= quarters <= i32::MAX {
        Some(quarters)
    } else {
        None
    }
}

/// Whether a column is marked as leaving the plot at the top.
pub open spec fn overflows(quarters: Option<int>, height: nat, no_overflow_char: bool) -> bool {
    quarters matches Some(q) && q < 0 && !no_overflow_char && height > 0
}

/// The glyph of the cell in which a bar begins `quarters` quarters of a row below the top.
pub open spec fn bar_glyph(quarters: int) -> u16 {
    if quarters % 4 == 0 {
        FULL_BLOCK
    } else if quarters % 4 == 1 {
        THREE_QUARTER_BLOCK
    } else if quarters % 4 == 2 {
        HALF_BLOCK
    } else {
        QUARTER_BLOCK
    }
}

/// The cell at row `j` of a column whose bar begins `quarters` quarters of a row below
/// the top: blank above the bar and where the bar begins below the plot, the glyph for
/// the fraction where the bar begins, and full below. A value above the plot fills its
/// column and carries the overflow mark in the top row, unless marks are switched off.
pub open spec fn bar_cell(quarters: Option<int>, height: nat, j: int, no_overflow_char: bool) -> u16 {
    match quarters {
        None => SPACE,
        Some(q) => {
            let start = if q < 0 { 0 } else { q };
            if start / 4 + 1 > height || j < start / 4 {
                SPACE
            } else if overflows(quarters, height, no_overflow_char) {
                if j == 0 { OVERFLOW_MARK } else { FULL_BLOCK }
            } else if j == start / 4 {
                bar_glyph(start)
            } else {
                FULL_BLOCK
            }
        },
    }
}

/// The bars of a series: a canvas `width` by `height` in which column `x` shows the entry
/// `column_entry(x, ..)`. Only overflow marks are colored.
pub open spec fn bars(
    values: Seq<real>,
    width: nat,
    height: nat,
    y_min: real,
    y_max: real,
    no_overflow_char: bool,
    color: Option<Color>,
) -> Canvas {
    Canvas {
        width,
        height,
        cells: Seq::new(
            height,
            |j: int|
                Seq::new(
                    width,
                    |x: int|
                        bar_cell(
                            quarter_rows(values[column_entry(x, values.len(), width)], y_min, y_max, height),
                            height,
                            j,
                            no_overflow_char,
                        ),
                ),
        ),
        colors: Seq::new(
            height,
            |j: int|
                Seq::new(
                    width,
                    |x: int|
                        if j == 0 && overflows(
                            quarter_rows(values[column_entry(x, values.len(), width)], y_min, y_max, height),
                            height,
                            no_overflow_char,
                        ) {
                            color
                        } else {
                            None
                        },
                ),
        ),
    }
}

/// The index `x * len / width`, computed without overflow.
pub fn entry_of_column(x: usize, len: usize, width: usize) -> (r: usize)
    requires
        x < width,
    ensures
        r == column_entry(x as int, len as nat, width as nat),
        len > 0 ==> r < len,
        len == 0 ==> r == 0,
{
    assert(x * len <= 0xFFFF_FFFF_FFFF_FFFF * 0xFFFF_FFFF_FFFF_FFFF) by (nonlinear_arith)
        requires
            0 <= x <= 0xFFFF_FFFF_FFFF_FFFF,
            0 <= len <= 0xFFFF_FFFF_FFFF_FFFF,
    ;
    assert((x * len) / (width as int) < len || len == 0) by (nonlinear_arith)
        requires
            0 <= x < width,
            0 <= len,
    ;
    assert((x * len) / (width as int) >= 0 && (len == 0 ==> (x * len) / (width as int) == 0)) by (nonlinear_arith)
        requires
            0 <= x < width,
            0 <= len,
    ;
    ((x as u128) * (len as u128) / (width as u128)) as usize
}

/// The cell at row `j` of a column whose bar begins `quarters` quarters below the top.
fn cell_of_bar(quarters: Option<i32>, height: usize, j: usize, no_overflow_char: bool) -> (r: u16)
    ensures
        r == bar_cell(
            match quarters {
                Some(q) => Some(q as int),
                None => None,
            },
            height as nat,
            j as int,
            no_overflow_char,
        ),
{
    match quarters {
        None => SPACE,
        Some(q) => {
            let start: usize = if q < 0 { 0 } else { q as usize };
            let row = start / 4;
            if row + 1 > height || j < row {
                SPACE
            } else if q < 0 && !no_overflow_char {
                if j == 0 { OVERFLOW_MARK } else { FULL_BLOCK }
            } else if j == row {
                let fraction = start % 4;
                if fraction == 0 {
                    FULL_BLOCK
                } else if fraction == 1 {
                    THREE_QUARTER_BLOCK
                } else if fraction == 2 {
                    HALF_BLOCK
                } else {
                    QUARTER_BLOCK
                }
            } else {
                FULL_BLOCK
            }
        },
    }
}

/// Draws the bars of a series, without axes or labels.
pub fn plot_1d(
    data: &Vec<(String, Rational)>,
    width: usize,
    height: usize,
    y_min: &Rational,
    y_max: &Rational,
    no_overflow_char: bool,
    overflow_char_color: Option<Color>,
) -> (r: Lines)
    requires
        series_wf(data@),
        y_min.wf(),
        y_max.wf(),
        width > 0 ==> data.len() > 0,
    ensures
        r@ == bars(
            values_of(data@),
            width as nat,
            height as nat,
            y_min@,
            y_max@,
            no_overflow_char,
            overflow_char_color,
        ),
        r@.is_rect(),
{
    let ghost values = values_of(data@);
    let ghost want = bars(values, width as nat, height as nat, y_min@, y_max@, no_overflow_char, overflow_char_color);
    let mut result = Lines::new(width, height);
    let y_diff = y_max.sub(y_min);
    let scale = Rational::from_usize(height).mul(&Rational::from_i32(4));
    let mut x: usize = 0;
    while x < width
        invariant
            x <= width,
            values == values_of(data@),
            series_wf(data@),
            y_min.wf(),
            y_max.wf(),
            y_diff.wf(),
            scale.wf(),
            y_diff@ == y_max@ - y_min@,
            scale@ == height as real * 4real,
            width > 0 ==> data.len() > 0,
            want == bars(values, width as nat, height as nat, y_min@, y_max@, no_overflow_char, overflow_char_color),
            result@.is_rect(),
            result@.width == width,
            result@.height == height,
            forall|j: int, i: int| 0 <= j < height && 0 <= i < x ==> #[trigger] result@.cells[j][i] == want.cells[j][i],
            forall|j: int, i: int| 0 <= j < height && x <= i < width ==> #[trigger] result@.cells[j][i] == SPACE,
            forall|j: int, i: int| 0 <= j < height && 0 <= i < x ==> #[trigger] result@.colors[j][i] == want.colors[j][i],
            forall|j: int, i: int| 0 <= j < height && x <= i < width ==> #[trigger] result@.colors[j][i] == None::<Color>,
        decreases width - x,
    {
        let entry = entry_of_column(x, data.len(), width);
        let value = &data[entry].1;
        assert(value@ == values[entry as int]);
        let quarters = if y_diff.is_zero() {
            None
        } else {
            let position = y_max.sub(value).div(&y_diff).mul(&scale);
            assert(position@ == (y_max@ - value@) / (y_max@ - y_min@) * (height as real) * 4real) by (nonlinear_arith)
                requires
                    position@ == (y_max@ - value@) / y_diff@ * scale@,
                    y_diff@ == y_max@ - y_min@,
                    scale@ == height as real * 4real,
            ;
            position.to_i32()
        };
        let ghost q = quarter_rows(value@, y_min@, y_max@, height as nat);
        assert(q == match quarters {
            Some(n) => Some(n as int),
            None => None,
        });
        let marked = match quarters {
            Some(n) => n < 0 && !no_overflow_char,
            None => false,
        };
        let mut y: usize = 0;
        while y < height
            invariant
                y <= height,
                x < width,
                result@.is_rect(),
                result@.width == width,
                result@.height == height,
                want == bars(values, width as nat, height as nat, y_min@, y_max@, no_overflow_char, overflow_char_color),
                q == quarter_rows(values[column_entry(x as int, values.len(), width as nat)], y_min@, y_max@, height as nat),
                q == match quarters {
                    Some(n) => Some(n as int),
                    None => None,
                },
                marked == (quarters matches Some(n) && n < 0 && !no_overflow_char),
                forall|j: int, i: int| 0 <= j < height && 0 <= i < x ==> #[trigger] result@.cells[j][i] == want.cells[j][i],
                forall|j: int, i: int| 0 <= j < height && x < i < width ==> #[trigger] result@.cells[j][i] == SPACE,
                forall|j: int| 0 <= j < y ==> #[trigger] result@.cells[j][x as int] == want.cells[j][x as int],
                forall|j: int| y <= j < height ==> #[trigger] result@.cells[j][x as int] == SPACE,
                forall|j: int, i: int| 0 <= j < height && 0 <= i < x ==> #[trigger] result@.colors[j][i] == want.colors[j][i],
                forall|j: int, i: int| 0 <= j < height && x < i < width ==> #[trigger] result@.colors[j][i] == None::<Color>,
                forall|j: int| 0 <= j < y ==> #[trigger] result@.colors[j][x as int] == want.colors[j][x as int],
                forall|j: int| y <= j < height ==> #[trigger] result@.colors[j][x as int] == None::<Color>,
            decreases height - y,
        {
            assert(result@.cells[y as int].len() == width);
            result.set(x, y, cell_of_bar(quarters, height, y, no_overflow_char));
            if y == 0 && marked {
                result.set_color(x, y, overflow_char_color);
            }
            y += 1;
        }
        x += 1;
    }
    assert(result@.cells =~~= want.cells);
    assert(result@.colors =~~= want.colors);
    result
}

/// The first `n` of the texts, with a line break between each two.
pub open spec fn joined(parts: Seq<Seq<char>>, n: nat) -> Seq<char>
    decreases n,
{
    if n == 0 {
        Seq::empty()
    } else if n == 1 {
        parts[0]
    } else {
        joined(parts, (n - 1) as nat) + seq!['\n'] + parts[n - 1]
    }
}

/// The texts, with a line break between each two.
pub fn join_lines(parts: &Vec<String>) -> (r: String)
    ensures
        r@ == joined(parts@.map_values(|part: String| part@), parts.len() as nat),
{
    let ghost views = parts@.map_values(|part: String| part@);
    let mut chars: Vec<char> = Vec::new();
    let mut i: usize = 0;
    while i < parts.len()
        invariant
            i <= parts.len(),
            views == parts@.map_values(|part: String| part@),
            chars@ == joined(views, i as nat),
        decreases parts.len() - i,
    {
        let ghost before = chars@;
        if i > 0 {
            chars.push('\n');
        }
        let part = chars_of(parts[i].as_str());
        let mut k: usize = 0;
        let ghost mid = chars@;
        while k < part.len()
            invariant
                k <= part.len(),
                chars@ == mid + part@.take(k as int),
            decreases part.len() - k,
        {
            chars.push(part[k]);
            k += 1;
            assert(chars@ =~= mid + part@.take(k as int));
        }
        assert(part@.take(part.len() as int) =~= part@);
        assert(views[i as int] == part@);
        assert(chars@ =~= if i == 0 { part@ } else { before + seq!['\n'] + part@ });
        i += 1;
    }
    string_of(&chars)
}

/// The value that the label of row `row` shows, in a plot `height` rows tall with the
/// range from `y_min` to `y_max`: the top row shows `y_max`, and each row below it one
/// step less.
pub open spec fn y_label_value(y_min: real, y_max: real, height: nat, row: int) -> real {
    y_max - (y_max - y_min) / (height as real) * (row as real)
}

/// A text on one line: with a blank for each line break.
pub open spec fn flat(text: Seq<char>) -> Seq<char> {
    text.map_values(|c: char| if c == '\n' { ' ' } else { c })
}

/// Whether the text has no line break.
pub open spec fn is_one_line(text: Seq<char>) -> bool {
    forall|i: int| 0 <= i < text.len() ==> #[trigger] text[i] != '\n'
}

/// Labels, one to a row and flush right. Where no label holds a line break there are as
/// many rows as labels, also where all the labels are empty.
pub open spec fn label_rows(labels: Seq<Seq<char>>) -> Canvas {
    if joined(labels, labels.len()).len() == 0 {
        Canvas::blank(0, labels.len())
    } else {
        Canvas::from_text(joined(labels, labels.len()), Alignment::Last, ColorModeView::Plain)
    }
}

/// The code units of a text without a line break hold none.
pub proof fn lemma_one_line_units(text: Seq<char>)
    requires
        is_one_line(text),
    ensures
        forall|i: int| 0 <= i < v16(text).len() ==> #[trigger] v16(text)[i] != NEWLINE,
    decreases text.len(),
{
    if text.len() > 0 {
        let rest = text.drop_last();
        let c = text.last();
        assert(is_one_line(rest)) by {
            assert forall|i: int| 0 <= i < rest.len() implies #[trigger] rest[i] != '\n' by {
                assert(rest[i] == text[i]);
            }
        }
        lemma_one_line_units(rest);
        lemma_char_range(c);
        assert(c == text[text.len() - 1]);
        assert(c as int != 10);
        let v = c as int;
        let units = utf16_of_char(c);
        assert(forall|i: int| 0 <= i < units.len() ==> #[trigger] units[i] != NEWLINE) by {
            if v >= 0x10000 {
                assert(0 <= (v - 0x10000) / 0x400 < 0x400);
                assert(0 <= (v - 0x10000) % 0x400 < 0x400);
            }
        }
        assert forall|i: int| 0 <= i < v16(text).len() implies #[trigger] v16(text)[i] != NEWLINE by {
            if c != '\r' {
                assert(v16(text) == v16(rest) + units);
                if i >= v16(rest).len() {
                    assert(v16(text)[i] == units[i - v16(rest).len()]);
                }
            }
        }
    }
}

/// The first `n` of texts without line breaks, joined, are `n` lines.
pub proof fn lemma_joined_lines(parts: Seq<Seq<char>>, n: nat)
    requires
        1 <= n <= parts.len(),
        forall|k: int| 0 <= k < n ==> is_one_line(#[trigger] parts[k]),
    ensures
        split_lines(v16(joined(parts, n))).len() == n,
    decreases n,
{
    if n == 1 {
        lemma_one_line_units(parts[0]);
        lemma_split_lines_single(v16(parts[0]));
    } else {
        let before = joined(parts, (n - 1) as nat);
        let last = parts[n - 1];
        lemma_joined_lines(parts, (n - 1) as nat);
        lemma_units_concat(before + seq!['\n'], last, false);
        lemma_units_concat(before, seq!['\n'], false);
        assert(v16(seq!['\n']) =~= seq![NEWLINE]) by {
            assert(seq!['\n'].drop_last() =~= Seq::<char>::empty());
            assert(v16(Seq::<char>::empty()) =~= Seq::<u16>::empty());
        }
        lemma_one_line_units(last);
        lemma_split_lines_single(v16(last));
        lemma_split_lines_concat(v16(before) + seq![NEWLINE], v16(last));
        let head = v16(before) + seq![NEWLINE];
        assert(head.drop_last() =~= v16(before));
        assert(head.last() == NEWLINE);
        assert(split_lines(head).len() == split_lines(v16(before)).len() + 1);
    }
}

/// A text made one line has no line break.
pub proof fn lemma_flat_is_one_line(text: Seq<char>)
    ensures
        is_one_line(flat(text)),
{
}

/// The label of row `row`, between the prefix and the suffix `affixes` and on one line:
/// with a margin above one, only every `margin`-th row has one.
pub open spec fn y_label(
    y_min: real,
    y_max: real,
    height: nat,
    margin: nat,
    affixes: (Seq<char>, Seq<char>),
    row: int,
) -> Seq<char> {
    if margin > 1 && row % (margin as int) != 0 {
        Seq::empty()
    } else {
        flat(affixes.0 + label_of(y_label_value(y_min, y_max, height, row)) + affixes.1)
    }
}

/// The labels of the y axis of a plot of a series, one row for each row of the plot,
/// flush right.
pub open spec fn y_labels_1d(
    y_min: real,
    y_max: real,
    height: nat,
    margin: nat,
    affixes: (Seq<char>, Seq<char>),
) -> Canvas {
    label_rows(Seq::new(height, |row: int| y_label(y_min, y_max, height, margin, affixes, row)))
}

/// From the top of a plot down, the values of the labels do not rise.
pub proof fn lemma_y_labels_descend(y_min: real, y_max: real, height: nat, row: int)
    requires
        y_min <= y_max,
        height > 0,
    ensures
        y_label_value(y_min, y_max, height, row) >= y_label_value(y_min, y_max, height, row + 1),
{
    let step = (y_max - y_min) / (height as real);
    assert(step >= 0real) by (nonlinear_arith)
        requires
            step == (y_max - y_min) / (height as real),
            y_min <= y_max,
            height > 0,
    ;
    assert(step * (row as real) <= step * ((row + 1) as real)) by (nonlinear_arith)
        requires
            step >= 0real,
    ;
}

/// Draws the labels of the y axis of a plot of a series, without the axis.
pub fn draw_y_labels_1d_plot(
    y_min: &Rational,
    y_max: &Rational,
    height: usize,
    margin: usize,
    formatter: &YLabelFormatter,
) -> (r: Lines)
    requires
        y_min.wf(),
        y_max.wf(),
    ensures
        r@ == y_labels_1d(y_min@, y_max@, height as nat, margin as nat, (formatter.prefix@, formatter.suffix@)),
        r@.is_rect(),
        r@.height == height,
{
    let ghost affixes = (formatter.prefix@, formatter.suffix@);
    let ghost want = Seq::new(
        height as nat,
        |row: int| y_label(y_min@, y_max@, height as nat, margin as nat, affixes, row),
    );
    if height == 0 {
        assert(want =~= Seq::<Seq<char>>::empty());
        return Lines::empty();
    }
    let mut labels: Vec<String> = Vec::new();
    let step = y_max.sub(y_min).div(&Rational::from_usize(height));
    let mut y: usize = 0;
    while y < height
        invariant
            y <= height,
            y_min.wf(),
            y_max.wf(),
            step.wf(),
            step@ == (y_max@ - y_min@) / (height as real),
            affixes == (formatter.prefix@, formatter.suffix@),
            want == Seq::new(
                height as nat,
                |row: int| y_label(y_min@, y_max@, height as nat, margin as nat, affixes, row),
            ),
            labels.len() == y,
            forall|k: int| 0 <= k < y ==> (#[trigger] labels[k])@ == want[k],
        decreases height - y,
    {
        if margin > 1 && y % margin != 0 {
            labels.push(String::new());
        } else {
            let curr_y = y_max.sub(&step.mul(&Rational::from_usize(y)));
            labels.push(flatten(formatter.f(&curr_y).as_str()));
        }
        y += 1;
    }
    assert(labels@.map_values(|part: String| part@) =~= want);
    draw_label_rows(&labels)
}

/// The text on one line: with a blank for each line break.
pub fn flatten(text: &str) -> (r: String)
    ensures
        r@ == flat(text@),
{
    let chars = chars_of(text);
    let mut out: Vec<char> = Vec::new();
    let mut k: usize = 0;
    while k < chars.len()
        invariant
            k <= chars.len(),
            out.len() == k,
            forall|m: int| 0 <= m < k ==> #[trigger] out@[m] == (if chars@[m] == '\n' { ' ' } else { chars@[m] }),
        decreases chars.len() - k,
    {
        out.push(if chars[k] == '\n' { ' ' } else { chars[k] });
        k += 1;
    }
    assert(out@ =~= flat(text@));
    string_of(&out)
}

/// Draws labels, one to a row and flush right.
pub fn draw_label_rows(labels: &Vec<String>) -> (r: Lines)
    ensures
        r@ == label_rows(labels@.map_values(|part: String| part@)),
        r@.is_rect(),
        (forall|k: int| 0 <= k < labels.len() ==> is_one_line(#[trigger] labels[k]@)) ==> r@.height == labels.len(),
{
    let ghost parts = labels@.map_values(|part: String| part@);
    let text = join_lines(labels);
    if text.as_str().is_empty() {
        return Lines::new(0, labels.len());
    }
    let r = Lines::from_string(text.as_str(), Alignment::Last, &ColorMode::Plain);
    proof {
        if forall|k: int| 0 <= k < labels.len() ==> is_one_line(#[trigger] labels[k]@) {
            assert(labels.len() >= 1);
            assert forall|k: int| 0 <= k < parts.len() implies is_one_line(#[trigger] parts[k]) by {
                assert(parts[k] == labels[k]@);
            }
            lemma_joined_lines(parts, parts.len());
        }
    }
    r
}

/// A label of the y axis as it is drawn: on one line, and empty where there is none.
pub open spec fn one_line(label: Option<Seq<char>>) -> Seq<char> {
    match label {
        Some(text) => flat(text),
        None => Seq::empty(),
    }
}

/// The view of a label that may be absent.
pub open spec fn opt_text(label: Option<String>) -> Option<Seq<char>> {
    match label {
        Some(text) => Some(text@),
        None => None,
    }
}

/// The labels of the y axis of a plot of points, one row each, flush right.
pub open spec fn y_labels_2d(labels: Seq<Option<Seq<char>>>) -> Canvas {
    label_rows(labels.map_values(|label: Option<Seq<char>>| one_line(label)))
}

/// Draws the labels of the y axis of a plot of points, without the axis.
pub fn draw_y_labels_2d_plot(y_labels: &Vec<Option<String>>) -> (r: Lines)
    ensures
        r@ == y_labels_2d(y_labels@.map_values(|label: Option<String>| opt_text(label))),
        r@.is_rect(),
        r@.height == y_labels.len(),
{
    let ghost views = y_labels@.map_values(|label: Option<String>| opt_text(label));
    let ghost want = views.map_values(|label: Option<Seq<char>>| one_line(label));
    let mut rows: Vec<String> = Vec::new();
    let mut i: usize = 0;
    while i < y_labels.len()
        invariant
            i <= y_labels.len(),
            views == y_labels@.map_values(|label: Option<String>| opt_text(label)),
            want == views.map_values(|label: Option<Seq<char>>| one_line(label)),
            rows.len() == i,
            forall|k: int| 0 <= k < i ==> (#[trigger] rows[k])@ == want[k],
        decreases y_labels.len() - i,
    {
        match &y_labels[i] {
            Some(text) => {
                assert(views[i as int] == Some(text@));
                rows.push(flatten(text.as_str()));
            },
            None => {
                assert(views[i as int] == None::<Seq<char>>);
                rows.push(String::new());
            },
        }
        i += 1;
    }
    assert(rows@.map_values(|part: String| part@) =~= want);
    draw_label_rows(&rows)
}

/// The title of a plot: the text itself, each line centred, or in banner letters where a
/// big title is asked for; all of it in the title's color.
pub open spec fn title_canvas(title: Seq<char>, big_title: bool, color: Option<Color>) -> Canvas {
    (if big_title {
        Canvas::from_text(banner_text(title), Alignment::First, ColorModeView::Plain)
    } else {
        Canvas::from_text(title, Alignment::Center, ColorModeView::Plain)
    }).with_color(color)
}

/// Draws the title of a plot.
pub fn draw_title(title: &str, big_title: bool, title_color: Option<Color>) -> (r: Lines)
    ensures
        r@ == title_canvas(title@, big_title, title_color),
        r@.is_rect(),
{
    let mut result = if big_title {
        let banner = render_banner(title);
        Lines::from_string(banner.as_str(), Alignment::First, &ColorMode::Plain)
    } else {
        Lines::from_string(title, Alignment::Center, &ColorMode::Plain)
    };
    result.set_color_all(title_color);
    result
}

/// The first `n` of the points put into a blank canvas, a blank in place of a line break.
/// Where two points fall on one cell, the later one shows.
pub open spec fn scattered(data: Seq<(usize, usize, u16)>, width: nat, height: nat, n: nat) -> Canvas
    decreases n,
{
    if n == 0 {
        Canvas::blank(width, height)
    } else {
        let point = data[n - 1];
        scattered(data, width, height, (n - 1) as nat).set(
            point.0 as int,
            point.1 as int,
            if point.2 == NEWLINE { SPACE } else { point.2 },
        )
    }
}

/// Every point lies within a plot `width` by `height`.
pub open spec fn points_fit(data: Seq<(usize, usize, u16)>, width: nat, height: nat) -> bool {
    forall|i: int| 0 <= i < data.len() ==> (#[trigger] data[i]).0 < width && data[i].1 < height
}

/// Draws points, each as its glyph at its place, without axes or labels.
pub fn plot_2d(data: &Vec<(usize, usize, u16)>, width: usize, height: usize) -> (r: Lines)
    requires
        points_fit(data@, width as nat, height as nat),
    ensures
        r@ == scattered(data@, width as nat, height as nat, data.len() as nat),
        r@.is_rect(),
        r@.width == width,
        r@.height == height,
{
    let mut result = Lines::new(width, height);
    let mut i: usize = 0;
    while i < data.len()
        invariant
            i <= data.len(),
            points_fit(data@, width as nat, height as nat),
            result@ == scattered(data@, width as nat, height as nat, i as nat),
            result@.is_rect(),
            result@.width == width,
            result@.height == height,
        decreases data.len() - i,
    {
        let (x, y, c) = data[i];
        assert(result@.cells[y as int].len() == width);
        result.set(x, y, if c == NEWLINE { SPACE } else { c });
        i += 1;
    }
    result
}

/// The number of bytes that a character takes in UTF-8.
pub open spec fn utf8_len_of_char(c: char) -> nat {
    let v = c as int;
    if v < 0x80 {
        1
    } else if v < 0x800 {
        2
    } else if v < 0x10000 {
        3
    } else {
        4
    }
}

/// The number of bytes that a text takes in UTF-8.
pub open spec fn utf8_len(text: Seq<char>) -> nat
    decreases text.len(),
{
    if text.len() == 0 {
        0
    } else {
        utf8_len(text.drop_last()) + utf8_len_of_char(text.last())
    }
}

/// The cells of a label of the x axis: one for each character, a blank for a line break,
/// and of a character beyond U+FFFF the low sixteen bits of its number.
pub open spec fn label_cells(label: Seq<char>) -> Seq<u16> {
    label.map_values(|c: char| if c == '\n' { SPACE } else { low_unit(c) })
}

/// The labels of the x axis while they are drawn, column by column.
pub struct XLabels {
    /// The first column of row 0 and of row 1 that is free again.
    pub free_from: (nat, nat),
    /// The row that the next label goes to.
    pub next_row: nat,
    /// The entry of the series whose label was drawn last.
    pub last: Option<int>,
    /// What is drawn so far.
    pub canvas: Canvas,
}

/// The labels of the x axis after column `x`. A label starts at the column of its entry
/// and goes to the row whose turn it is, and the rows take turns. No label is drawn for
/// an entry twice, nor where the row is not free yet. A label that would reach the
/// plot's edge, by its length in bytes, is left out, and its row passes its turn. After a
/// label, `margin` columns of its row stay free.
pub open spec fn x_labels_step(
    before: XLabels,
    x: int,
    labels: Seq<Seq<char>>,
    width: nat,
    margin: nat,
) -> XLabels {
    let entry = column_entry(x, labels.len(), width);
    let label = labels[entry];
    let free_from = if before.next_row == 0 { before.free_from.0 } else { before.free_from.1 };
    let end = x + utf8_len(label) + margin;
    if x < free_from || before.last == Some(entry) {
        before
    } else if utf8_len(label) + x >= width {
        XLabels { next_row: (1 - before.next_row) as nat, ..before }
    } else {
        XLabels {
            free_from: if before.next_row == 0 {
                (end as nat, before.free_from.1)
            } else {
                (before.free_from.0, end as nat)
            },
            next_row: (1 - before.next_row) as nat,
            last: Some(entry),
            canvas: before.canvas.write(x, before.next_row as int, label_cells(label)),
        }
    }
}

/// The labels of the x axis after the first `n` columns.
pub open spec fn x_labels_upto(labels: Seq<Seq<char>>, width: nat, margin: nat, n: nat) -> XLabels
    decreases n,
{
    if n == 0 {
        XLabels { free_from: (0, 0), next_row: 0, last: None, canvas: Canvas::blank(width, 2) }
    } else {
        x_labels_step(x_labels_upto(labels, width, margin, (n - 1) as nat), n - 1, labels, width, margin)
    }
}

/// The labels of the x axis of a plot `width` wide: two rows.
pub open spec fn x_labels(labels: Seq<Seq<char>>, width: nat, margin: nat) -> Canvas {
    x_labels_upto(labels, width, margin, width).canvas
}

/// Writes `units` into row `y` of the canvas from column `x` on.
fn write_units(canvas: &mut Lines, x: usize, y: usize, units: &Vec<u16>)
    requires
        old(canvas)@.is_rect(),
        y < old(canvas)@.height,
        x + units.len() <= old(canvas)@.width,
    ensures
        final(canvas)@ == old(canvas)@.write(x as int, y as int, units@),
        final(canvas)@.is_rect(),
{
    let mut k: usize = 0;
    let width = canvas.get_width();
    assert(canvas@.cells[y as int].len() == canvas@.width);
    assert(canvas@.cells =~~= old(canvas)@.write(x as int, y as int, units@.take(0)).cells);
    while k < units.len()
        invariant
            k <= units.len(),
            y < old(canvas)@.height,
            x + units.len() <= old(canvas)@.width,
            width == old(canvas)@.width,
            old(canvas)@.is_rect(),
            canvas@.is_rect(),
            canvas@ == old(canvas)@.write(x as int, y as int, units@.take(k as int)),
        decreases units.len() - k,
    {
        assert(canvas@.cells[y as int].len() == canvas@.width);
        let ghost before = canvas@;
        canvas.set(x + k, y, units[k]);
        k += 1;
        assert(canvas@.cells =~~= old(canvas)@.write(x as int, y as int, units@.take(k as int)).cells);
    }
    assert(units@.take(units.len() as int) =~= units@);
}

/// The cells of a label and its length in bytes.
fn cells_of_label(label: &str) -> (r: (Vec<u16>, u128))
    ensures
        r.0@ == label_cells(label@),
        r.1 == utf8_len(label@),
        r.1 <= 4 * usize::MAX,
{
    let chars = chars_of(label);
    let mut cells: Vec<u16> = Vec::new();
    let mut bytes: u128 = 0;
    let mut i: usize = 0;
    while i < chars.len()
        invariant
            i <= chars.len(),
            chars@ == label@,
            cells.len() == i,
            forall|k: int| 0 <= k < i ==> #[trigger] cells@[k] == label_cells(label@)[k],
            bytes == utf8_len(label@.take(i as int)),
            bytes <= 4 * i,
        decreases chars.len() - i,
    {
        assert(label@.take(i + 1).drop_last() =~= label@.take(i as int));
        let v = code_point(chars[i]);
        bytes = bytes + if v < 0x80 { 1 } else if v < 0x800 { 2 } else if v < 0x10000 { 3 } else { 4 };
        cells.push(if chars[i] == '\n' { SPACE } else { low_unit_of(chars[i]) });
        i += 1;
    }
    assert(label@.take(chars.len() as int) =~= label@);
    assert(cells@ =~= label_cells(label@));
    (cells, bytes)
}

/// Draws the labels of the x axis, without the axis.
pub fn draw_x_labels(labels: &Vec<String>, width: usize, margin: usize) -> (r: Lines)
    requires
        width > 0 ==> labels.len() > 0,
    ensures
        r@ == x_labels(labels@.map_values(|label: String| label@), width as nat, margin as nat),
        r@.is_rect(),
        r@.width == width,
        r@.height == 2,
{
    let ghost views = labels@.map_values(|label: String| label@);
    let mut result = Lines::new(width, 2);
    let mut free_from: (usize, usize) = (0, 0);
    let mut lower_next = false;
    let mut last: Option<usize> = None;
    let mut x: usize = 0;
    while x < width
        invariant
            x <= width,
            width > 0 ==> labels.len() > 0,
            views == labels@.map_values(|label: String| label@),
            result@.is_rect(),
            result@.width == width,
            result@.height == 2,
            ({
                let state = x_labels_upto(views, width as nat, margin as nat, x as nat);
                &&& result@ == state.canvas
                &&& state.next_row == if lower_next { 1nat } else { 0nat }
                &&& state.last == match last {
                    Some(entry) => Some(entry as int),
                    None => None,
                }
                &&& free_from.0 == if state.free_from.0 > usize::MAX { usize::MAX as nat } else { state.free_from.0 }
                &&& free_from.1 == if state.free_from.1 > usize::MAX { usize::MAX as nat } else { state.free_from.1 }
            }),
        decreases width - x,
    {
        let entry = entry_of_column(x, labels.len(), width);
        let blocked = x < (if lower_next { free_from.1 } else { free_from.0 }) || last == Some(entry);
        if !blocked {
            let (cells, bytes) = cells_of_label(labels[entry].as_str());
            assert(views[entry as int] == labels[entry as int]@);
            if bytes + x as u128 >= width as u128 {
                lower_next = !lower_next;
            } else {
                proof {
                    lemma_chars_within_bytes(views[entry as int]);
                }
                write_units(&mut result, x, if lower_next { 1 } else { 0 }, &cells);
                last = Some(entry);
                let reach: usize = x + bytes as usize;
                let end: usize = if margin > usize::MAX - reach { usize::MAX } else { reach + margin };
                if lower_next {
                    free_from = (free_from.0, end);
                } else {
                    free_from = (end, free_from.1);
                }
                lower_next = !lower_next;
            }
        }
        x += 1;
    }
    result
}

/// A text has no more characters than bytes.
pub proof fn lemma_chars_within_bytes(text: Seq<char>)
    ensures
        text.len() <= utf8_len(text),
        label_cells(text).len() == text.len(),
    decreases text.len(),
{
    if text.len() > 0 {
        lemma_chars_within_bytes(text.drop_last());
    }
}

} // verus!
