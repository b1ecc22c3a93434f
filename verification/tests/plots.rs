use asciigraph::convert::IntoRatio;
use asciigraph::format::YLabelFormatter;
use asciigraph::graph::plot::{
    draw_label_rows, draw_title, draw_x_labels, draw_y_labels_1d_plot, draw_y_labels_2d_plot, entry_of_column, flatten,
    join_lines, plot_1d, plot_2d,
};
use asciigraph::lines::Lines;
use asciigraph::number::Rational;
use asciigraph::{Color, ColorMode};

fn series(values: &[&str]) -> Vec<(String, Rational)> {
    values.iter().enumerate().map(|(i, v)| (i.to_string(), v.into_ratio())).collect()
}

fn plain(canvas: &Lines) -> String {
    canvas.to_string(&ColorMode::Plain)
}

fn bars(values: &[&str], width: usize, height: usize, low: &str, high: &str, no_overflow_char: bool) -> String {
    plain(&plot_1d(
        &series(values),
        width,
        height,
        &low.into_ratio(),
        &high.into_ratio(),
        no_overflow_char,
        Some(Color::Red),
    ))
}

#[test]
fn columns_show_the_entries_in_order() {
    assert_eq!(entry_of_column(0, 4, 8), 0);
    assert_eq!(entry_of_column(1, 4, 8), 0);
    assert_eq!(entry_of_column(7, 4, 8), 3);
    assert_eq!(entry_of_column(2, 9, 3), 6);
    assert_eq!(entry_of_column(usize::MAX - 1, usize::MAX, usize::MAX), usize::MAX - 1);
}

#[test]
fn bars_are_drawn_to_a_quarter_of_a_row() {
    // range 0 to 4 on four rows: one row for each unit
    assert_eq!(
        bars(&["0", "1", "2", "3", "4", "0.25", "0.5", "0.75", "1.5"], 9, 4, "0", "4", false),
        "    █    \n   ██    \n  ███   ▄\n ████▂▄▆█"
    );
}

#[test]
fn a_value_above_the_range_is_marked() {
    let canvas = plot_1d(&series(&["5", "2"]), 2, 4, &0.into_ratio(), &4.into_ratio(), false, Some(Color::Red));
    assert_eq!(plain(&canvas), "^ \n█ \n██\n██");
    assert_eq!(canvas.get_color(0, 0), Some(Color::Red));
    assert_eq!(canvas.get_color(0, 1), None);
    assert_eq!(canvas.get_color(1, 2), None);
    assert_eq!(canvas.to_string(&ColorMode::TerminalFg), "\x1b[38;2;192;32;32m^\x1b[39m \n█ \n██\n██");
}

#[test]
fn marks_can_be_switched_off() {
    let canvas = plot_1d(&series(&["5", "2"]), 2, 4, &0.into_ratio(), &4.into_ratio(), true, Some(Color::Red));
    assert_eq!(plain(&canvas), "█ \n█ \n██\n██");
    assert_eq!(canvas.get_color(0, 0), None);
}

#[test]
fn a_value_at_or_below_the_range_leaves_its_column_blank() {
    assert_eq!(bars(&["0", "-3", "4"], 3, 2, "0", "4", false), "  █\n  █");
}

#[test]
fn a_value_far_outside_the_range_leaves_its_column_blank() {
    // the position in quarters of a row does not fit into 32 bits
    assert_eq!(bars(&["1e12", "-1e12", "1"], 3, 2, "0", "2", false), "   \n  █");
}

#[test]
fn a_range_that_spans_nothing_shows_nothing() {
    assert_eq!(bars(&["1", "2"], 2, 2, "1", "1", false), "  \n  ");
}

#[test]
fn a_wide_plot_repeats_entries_and_a_narrow_one_leaves_some_out() {
    assert_eq!(bars(&["1", "2"], 4, 2, "0", "2", false), "  ██\n████");
    assert_eq!(bars(&["1", "2", "1", "2"], 2, 2, "0", "2", false), "  \n██");
    assert_eq!(bars(&["1"], 0, 2, "0", "2", false), "\n");
    assert_eq!(bars(&["1"], 2, 0, "0", "2", false), "");
}

#[test]
fn points_are_put_at_their_places() {
    let canvas = plot_2d(&vec![(0, 0, 'a' as u16), (2, 1, 'b' as u16), (1, 1, '\n' as u16), (0, 0, 'c' as u16)], 3, 2);
    assert_eq!(plain(&canvas), "c  \n  b");
    assert_eq!(plain(&plot_2d(&vec![], 2, 1)), "  ");
}

fn x_labels(labels: &[&str], width: usize, margin: usize) -> String {
    plain(&draw_x_labels(&labels.iter().map(|l| l.to_string()).collect(), width, margin))
}

#[test]
fn labels_of_the_x_axis_take_turns_on_two_rows() {
    assert_eq!(x_labels(&["a", "b", "c", "d"], 8, 2), "a   c   \n  b   d ");
    assert_eq!(x_labels(&["0", "1", "2", "3", "4", "5", "6", "7"], 8, 2), "0  3  6 \n 1  4   ");
}

#[test]
fn a_label_that_would_reach_the_edge_is_left_out() {
    // the second label does not fit, and its row passes its turn
    assert_eq!(x_labels(&["abc", "defg", "h"], 6, 1), "abc h \n      ");
    assert_eq!(x_labels(&["abcdef"], 6, 1), "      \n      ");
    assert_eq!(x_labels(&["abcde"], 6, 1), "abcde \n      ");
}

#[test]
fn no_entry_is_labelled_twice() {
    assert_eq!(x_labels(&["a", "b"], 8, 0), "a       \n    b   ");
}

#[test]
fn line_breaks_in_labels_are_blanks() {
    assert_eq!(x_labels(&["a\nb"], 6, 1), "a b   \n      ");
}

#[test]
fn labels_are_measured_in_bytes() {
    // three characters of two bytes each, on seven columns: 6 + 0 < 7
    assert_eq!(x_labels(&["äöü"], 7, 1), "äöü    \n       ");
    assert_eq!(x_labels(&["äöü"], 6, 1), "      \n      ");
}

#[test]
fn no_columns_no_labels() {
    assert_eq!(x_labels(&[], 0, 1), "\n");
}

#[test]
fn labels_of_the_y_axis_go_down_in_equal_steps() {
    let canvas = draw_y_labels_1d_plot(&0.into_ratio(), &10.into_ratio(), 5, 1, &YLabelFormatter::new());
    assert_eq!(plain(&canvas), "10\n 8\n 6\n 4\n 2");
    let canvas = draw_y_labels_1d_plot(&"-1".into_ratio(), &"1".into_ratio(), 4, 2, &YLabelFormatter::new());
    assert_eq!(plain(&canvas), "1\n \n0\n ");
    let canvas = draw_y_labels_1d_plot(&0.into_ratio(), &9.into_ratio(), 6, 3, &YLabelFormatter::new());
    assert_eq!(plain(&canvas), "  9\n   \n   \n4.5\n   \n   ");
}

#[test]
fn labels_of_the_y_axis_do_not_rise() {
    let low = "-3.7".into_ratio();
    let high = "12.25".into_ratio();
    let canvas = draw_y_labels_1d_plot(&low, &high, 9, 1, &YLabelFormatter::new());
    let text = plain(&canvas);
    let values: Vec<f64> = text.split('\n').map(|l| l.trim().parse().unwrap()).collect();
    assert_eq!(values.len(), 9);
    assert_eq!(values[0], 12.25);
    for i in 0..8 {
        assert!(values[i] >= values[i + 1]);
    }
}

#[test]
fn labels_of_the_y_axis_can_have_a_prefix_and_a_suffix() {
    let formatter = YLabelFormatter { prefix: String::from("$"), suffix: String::from("k") };
    let canvas = draw_y_labels_1d_plot(&0.into_ratio(), &10.into_ratio(), 4, 2, &formatter);
    assert_eq!(plain(&canvas), "$10k\n    \n $5k\n    ");
}

#[test]
fn there_is_one_row_of_labels_for_each_row_of_the_plot() {
    for height in 0..12 {
        for margin in 0..4 {
            let canvas = draw_y_labels_1d_plot(&"-2.5".into_ratio(), &7.into_ratio(), height, margin, &YLabelFormatter::new());
            assert_eq!(canvas.get_height(), height);
            assert!(canvas.is_valid());
        }
    }
    // a line break in a prefix or a suffix is drawn as a blank
    let formatter = YLabelFormatter { prefix: String::from("a\n"), suffix: String::from("\nb") };
    let canvas = draw_y_labels_1d_plot(&0.into_ratio(), &10.into_ratio(), 2, 1, &formatter);
    assert_eq!(plain(&canvas), "a 10 b\n a 5 b");
}

#[test]
fn labels_take_one_row_each() {
    assert_eq!(flatten("a\nb\n"), "a b ");
    assert_eq!(flatten(""), "");
    let rows = draw_label_rows(&vec![String::from("ab"), String::new(), String::from("c")]);
    assert_eq!(plain(&rows), "ab\n  \n c");
    // empty labels still take their rows
    let rows = draw_label_rows(&vec![String::new()]);
    assert_eq!((rows.get_width(), rows.get_height()), (0, 1));
    let rows = draw_label_rows(&vec![String::new(), String::new()]);
    assert_eq!((rows.get_width(), rows.get_height()), (0, 2));
    let rows = draw_label_rows(&vec![]);
    assert_eq!((rows.get_width(), rows.get_height()), (0, 0));
    assert_eq!(draw_y_labels_2d_plot(&vec![None]).get_height(), 1);
    assert_eq!(draw_y_labels_2d_plot(&vec![Some(String::from("a\nb")), None]).get_height(), 2);
}

#[test]
fn no_rows_no_labels() {
    let canvas = draw_y_labels_1d_plot(&0.into_ratio(), &9.into_ratio(), 0, 1, &YLabelFormatter::new());
    assert_eq!(canvas.get_height(), 0);
    assert_eq!(canvas.get_width(), 0);
}

#[test]
fn labels_of_rows_stand_flush_right() {
    let labels = vec![Some(String::from("a")), None, Some(String::from("b\nc")), Some(String::new())];
    assert_eq!(plain(&draw_y_labels_2d_plot(&labels)), "  a\n   \nb c\n   ");
    assert_eq!(plain(&draw_y_labels_2d_plot(&vec![])), "");
}

#[test]
fn lines_are_joined_with_line_breaks() {
    assert_eq!(join_lines(&vec![String::from("a"), String::new(), String::from("b")]), "a\n\nb");
    assert_eq!(join_lines(&vec![String::from("a")]), "a");
    assert_eq!(join_lines(&vec![]), "");
}

#[test]
fn a_title_is_centred_line_by_line() {
    let canvas = draw_title("Title\nof it", false, Some(Color::Gold));
    assert_eq!(plain(&canvas), "Title\nof it");
    let canvas = draw_title("Title\nof", false, Some(Color::Gold));
    assert_eq!(plain(&canvas), "Title\n  of ");
    assert_eq!(canvas.get_color(0, 1), Some(Color::Gold));
}

#[test]
fn a_big_title_is_drawn_in_banner_letters() {
    let canvas = draw_title("Hi", true, None);
    assert_eq!(plain(&canvas), "▌ ▐ ▗▖\n▛▀▜ ▗▖\n▌ ▐ ▐▌\n      \n      ");
    assert!(canvas.is_valid());
}
