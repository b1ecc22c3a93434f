use asciigraph::convert::IntoRatio;
use asciigraph::{Color, ColorMode, Graph, SkipValue};

#[test]
fn a_new_plot_has_no_data() {
    let graph = Graph::new(10, 5);
    assert!(!graph.is_valid());
    let graph = Graph::default();
    assert!(!graph.is_valid());
}

#[test]
fn draws_a_small_series() {
    let mut graph = Graph::new(8, 4);
    graph.set_1d_data(&[0, 1, 2, 3, 4, 5, 6, 7]);
    assert!(graph.is_valid());
    assert_eq!(
        graph.draw(),
        "  7│      ▄█\n   │    ▄███\n3.5│  ▂▆████\n   │ ▆██████\n   ╰────────\n    0  3  6 \n     1  4   "
    );
}

#[test]
fn a_value_far_above_the_range_is_marked_not_drawn_to_scale() {
    let mut graph = Graph::new(14, 20);
    graph.set_1d_data(&[0, 1, 1, 0, 2, 0, 1, 2, 0, 0, 0, 1, 0, 1000]);
    graph.set_y_min(-1).set_y_max(3);
    assert!(graph.is_valid());
    let text = graph.draw();
    assert_eq!(
        text,
        "   3│             ^\n    │             █\n 2.6│             █\n    │             █\n 2.2│             █\n    │    █  █     █\n 1.8│    █  █     █\n    │    █  █     █\n 1.4│    █  █     █\n    │    █  █     █\n   1│ ██ █ ██   █ █\n    │ ██ █ ██   █ █\n 0.6│ ██ █ ██   █ █\n    │ ██ █ ██   █ █\n 0.2│ ██ █ ██   █ █\n    │██████████████\n-0.2│██████████████\n    │██████████████\n-0.6│██████████████\n    │██████████████\n    ╰──────────────\n     0  3  6  9    \n      1  4  7  10  "
    );
    let rows: Vec<&str> = text.split('\n').collect();
    assert_eq!(rows[0].chars().last(), Some('^'));
    for row in &rows[1..20] {
        assert_eq!(row.chars().last(), Some('█'));
    }
}

#[test]
fn a_gap_in_the_values_is_left_out() {
    let mut graph = Graph::new(14, 20);
    graph.set_1d_data(&[0, 1, 1, 0, 2, 0, 1, 2, 0, 0, 0, 1, 0, 1000]);
    graph.set_primary_color(Some(Color::Red)).set_color_mode(ColorMode::TerminalFg);
    assert!(graph.is_valid());
    assert_eq!(
        graph.draw(),
        "    1062│              \n        │              \n    1012│             ▄\n        │             █\n   962.5│             █\n\x1b[38;2;192;32;32m~~~~~~~~~~~~~~~~~~~~~~~\x1b[39m\n   2.125│    ▂  ▂     █\n        │    █  █     █\n1.803571│    █  █     █\n        │    █  █     █\n1.482142│    █  █     █\n        │    █  █     █\n1.160714│    █  █     █\n        │ ██ █ ██   █ █\n0.839285│ ██ █ ██   █ █\n        │ ██ █ ██   █ █\n0.517857│ ██ █ ██   █ █\n        │ ██ █ ██   █ █\n0.196428│ ██ █ ██   █ █\n        │██████████████\n        ╰──────────────\n         0  3  6  9    \n          1  4  7  10  "
    );
}

#[test]
fn no_range_is_left_out_of_a_low_plot() {
    let mut graph = Graph::new(14, 18);
    graph.set_1d_data(&[0, 1, 1, 0, 2, 0, 1, 2, 0, 0, 0, 1, 0, 1000]);
    assert!(!graph.draw().contains('~'));
    graph.set_plot_height(19);
    assert!(graph.draw().contains('~'));
    graph.set_skip_range(SkipValue::none());
    assert!(!graph.draw().contains('~'));
    graph.set_skip_range(SkipValue::automatic());
    assert!(graph.draw().contains('~'));
}

#[test]
fn a_range_can_be_left_out_by_hand() {
    let mut graph = Graph::new(6, 20);
    graph.set_1d_data(&[1, 2, 3, 50, 98, 99]);
    graph.set_skip_range(SkipValue::manual(10, 90)).set_y_range(0, 100).set_y_label_margin(4);
    // three values below the range and two above: five rows above, a line, fourteen rows
    // below; the value 50 fills its column below and leaves it blank above
    assert_eq!(
        graph.draw(),
        "     100│     ▄\n        │    ██\n        │    ██\n        │    ██\n      92│    ██\n~~~~~~~~~~~~~~~\n      10│   ███\n        │   ███\n        │   ███\n        │   ███\n7.142857│   ███\n        │   ███\n        │   ███\n        │   ███\n4.285714│   ███\n        │  ▂███\n        │  ████\n        │ █████\n1.428571│▄█████\n        │██████\n        ╰──────\n         0  3  \n          1  4 "
    );
    // a range that reaches beyond the plot's range is not left out
    graph.set_skip_range(SkipValue::manual(-5, 90));
    assert!(!graph.draw().contains('~'));
    graph.set_skip_range(SkipValue::manual(10, 101));
    assert!(!graph.draw().contains('~'));
    // nor is a range that starts above its end
    graph.set_skip_range(SkipValue::manual(90, 10));
    assert!(graph.is_valid());
    assert!(!graph.draw().contains('~'));
    graph.set_skip_range(SkipValue::manual(50, 50));
    assert!(graph.draw().contains('~'));
}

#[test]
fn a_long_series_is_thinned_out() {
    let data: Vec<i32> = (0..256).collect();
    let mut graph = Graph::new(32, 12);
    graph.set_1d_data(&data);
    graph.set_y_max(278).set_y_min(2).set_title("test").set_paddings([1, 1, 2, 2]);
    assert_eq!(
        graph.draw(),
        "                                        \n                  test                  \n  278│                                  \n     │                             ▄▄█  \n  232│                           ▆▆███  \n     │                       ▂▄███████  \n  186│                     ▆▆█████████  \n     │                 ▂▂█████████████  \n  140│               ▄▄███████████████  \n     │           ▂▂▆██████████████████  \n   94│         ▄▄█████████████████████  \n     │       ▆▆███████████████████████  \n   48│   ▄▄███████████████████████████  \n     │ ▆▆█████████████████████████████  \n     ╰────────────────────────────────  \n      0  31  63  95  127  160  207      \n       15  47  79  111  144  191  224   \n                                        "
    );
}

#[test]
fn labels_titles_and_intervals_go_around_the_plot() {
    let mut graph = Graph::new(12, 6);
    graph.set_1d_labeled_data(&[(String::from("a"), 3), (String::from("bb"), 1), (String::from("ccc"), 2)]);
    graph.set_block_width(4).set_title("T\nU").set_y_axis_label("why").set_x_axis_label("ex");
    graph.add_labeled_interval(0, 1, String::from("ab"));
    assert!(graph.is_valid());
    assert_eq!(
        graph.draw(),
        "           T           \n           U           \nwhy                    \n       3│████          \n        │████          \n2.333333│████          \n        │████    ████  \n1.666666│████    ████  \n        │████    ████  \n        ╰────────────ex\n         a       ccc   \n             bb        \n         <───>         "
    );
}

#[test]
fn the_block_width_sets_the_width_of_the_plot() {
    let mut graph = Graph::new(80, 2);
    graph.set_1d_data(&[1, 2, 3]).set_block_width(2).set_pretty_y(1);
    let text = graph.draw();
    let rows: Vec<&str> = text.split('\n').collect();
    assert_eq!(rows[2].chars().filter(|c| *c == '─').count(), 6);
}

#[test]
fn every_line_of_a_plot_is_equally_wide() {
    let mut graph = Graph::new(30, 20);
    graph.set_1d_data(&[3, 1, 4, 1, 5, 9, 2, 6, 5, 3, 5, 8, 9, 7, 9, 3000]);
    graph.set_title("A title that is wider than the plot itself, by far").set_x_axis_label("x").set_y_axis_label("y");
    graph.add_labeled_interval(-2, 3, String::from("early"));
    graph.add_labeled_interval(2, 12, String::from("a long label that is cut"));
    graph.add_labeled_interval(10, 40, String::from("late"));
    graph.set_paddings([1, 2, 3, 4]);
    let text = graph.draw();
    let widths: Vec<usize> = text.split('\n').map(|l| l.chars().count()).collect();
    assert!(widths.len() > 20);
    for w in &widths {
        assert_eq!(*w, widths[0]);
    }
}

#[test]
fn draws_points() {
    let mut graph = Graph::new(1, 1);
    graph.set_2d_data(
        &[(0, 0, 'a'), (1, 1, 'b'), (2, 2, '\n')],
        &[Some(String::from("x")), None, Some(String::from("z"))],
        &[Some(String::from("r0")), None, Some(String::from("r2"))],
    );
    assert!(graph.is_valid());
    assert_eq!(graph.draw(), "r0│a  \n  │ b \nr2│   \n  ╰───\n   x  \n      ");
}

#[test]
fn draws_dots_at_twice_the_resolution() {
    let mut graph = Graph::new(1, 1);
    graph.set_2d_data_high_resolution(
        &[(0, 0), (1, 0), (0, 1), (1, 1), (2, 2), (5, 5), (4, 5), (3, 0), (2, 1), (5, 2), (5, 3)],
        &[None, None, None],
        &[None, None, None],
    );
    assert!(graph.is_valid());
    assert_eq!(graph.draw(), "│█▞ \n│ ▘▐\n│  ▄\n╰───\n    \n    ");
}

#[test]
fn every_quarter_pattern_has_its_glyph() {
    let mut dots = vec![];
    for pattern in 0..16usize {
        let (x, y) = (2 * (pattern % 4), 2 * (pattern / 4));
        if pattern & 8 != 0 {
            dots.push((x, y));
        }
        if pattern & 4 != 0 {
            dots.push((x + 1, y));
        }
        if pattern & 2 != 0 {
            dots.push((x, y + 1));
        }
        if pattern & 1 != 0 {
            dots.push((x + 1, y + 1));
        }
    }
    let mut graph = Graph::new(1, 1);
    graph.set_2d_data_high_resolution(&dots, &[None, None, None, None], &[None, None, None, None]);
    let text = graph.draw();
    let rows: Vec<&str> = text.split('\n').collect();
    assert_eq!(&rows[..4], &["│ ▗▖▄", "│▝▐▞▟", "│▘▚▌▙", "│▀▜▛█"]);
}

#[test]
fn points_need_labels_for_every_column_and_row() {
    let mut graph = Graph::new(1, 1);
    graph.set_2d_data(&[(0, 0, 'a')], &[None, None], &[None]);
    assert!(graph.is_valid());
    // the labels set the size of the plot; a size set afterwards does not fit them
    graph.set_plot_width(3);
    assert!(!graph.is_valid());
    graph.set_plot_width(2).set_plot_height(2);
    assert!(!graph.is_valid());
    let mut graph = Graph::new(1, 1);
    graph.set_2d_data(&[], &[], &[]);
    assert!(!graph.is_valid());
}

#[test]
fn points_must_lie_within_the_plot() {
    let mut graph = Graph::new(1, 1);
    graph.set_2d_data(&[(1, 0, 'a')], &[None, None], &[None]);
    assert!(graph.is_valid());
    graph.set_2d_data(&[(2, 0, 'a')], &[None, None], &[None]);
    assert!(!graph.is_valid());
    graph.set_2d_data(&[(0, 1, 'a')], &[None, None], &[None]);
    assert!(!graph.is_valid());
}

#[test]
fn an_empty_series_cannot_be_drawn() {
    let mut graph = Graph::new(10, 5);
    let nothing: [i32; 0] = [];
    graph.set_1d_data(&nothing);
    assert!(!graph.is_valid());
}

#[test]
fn bounds_must_be_in_order() {
    let mut graph = Graph::new(10, 5);
    graph.set_1d_data(&[1, 2]).set_y_range(3, 2);
    assert!(!graph.is_valid());
    graph.set_y_range(2, 2);
    assert!(graph.is_valid());
    graph.set_y_min("2.5").set_y_max("2.4");
    assert!(!graph.is_valid());
}

#[test]
fn a_range_that_spans_nothing_shows_no_bars() {
    let mut graph = Graph::new(3, 2);
    graph.set_1d_data(&[1, 2, 3]).set_y_range(2, 2);
    assert_eq!(graph.draw(), "2│   \n │   \n ╰───\n  0  \n   1 ");
}

#[test]
fn intervals_must_not_end_before_they_start() {
    let mut graph = Graph::new(10, 5);
    graph.set_1d_data(&[1, 2]);
    graph.add_labeled_interval(5, 5, String::from("x"));
    assert!(graph.is_valid());
    let with = graph.draw();
    assert_eq!(with.split('\n').last().map(|row| row.trim()), Some(""));
    graph.add_labeled_interval(5, 4, String::from("y"));
    assert!(!graph.is_valid());
}

#[test]
fn a_plot_too_wide_for_the_machine_cannot_be_drawn() {
    let mut graph = Graph::new(10, 5);
    graph.set_1d_data(&[1, 2]).set_block_width(usize::MAX);
    assert!(!graph.is_valid());
}

#[test]
fn values_can_be_given_as_numerals() {
    let mut graph = Graph::new(4, 2);
    graph.set_1d_data(&["0.5", "1.5", "oops", "2"]).set_y_range("0", "2");
    assert_eq!(graph.draw(), "2│ ▄ █\n │▄█ █\n ╰────\n  0   \n   1  ");
    let exact = "0.1".into_ratio();
    graph.set_y_min(exact);
    assert!(graph.is_valid());
}

#[test]
fn paddings_can_be_set_one_by_one() {
    let mut graph = Graph::new(1, 1);
    graph.set_2d_data(&[(0, 0, 'a')], &[None], &[None]);
    graph.set_x_label_margin(0);
    let bare = graph.draw();
    assert_eq!(bare, "│a\n╰─\n  \n  ");
    graph.set_padding_top(1).set_padding_bottom(2).set_padding_left(3).set_padding_right(4);
    assert_eq!(graph.draw(), "         \n   │a    \n   ╰─    \n         \n         \n         \n         ");
    graph.set_paddings([0, 0, 1, 0]);
    assert_eq!(graph.draw(), " │a\n ╰─\n   \n   ");
}

#[test]
fn titles_can_be_colored_and_big() {
    let mut graph = Graph::new(1, 1);
    graph.set_2d_data(&[(0, 0, 'a')], &[None], &[None]);
    graph.set_title("t").set_title_color(Some(Color::Blue)).set_color_mode(ColorMode::Html { prefix: String::new() });
    assert_eq!(graph.draw(), " <span class=\"blue\">t</span>\n│a\n╰─\n  \n  ");
    graph.set_big_title(true).set_color_mode(ColorMode::Plain);
    assert_eq!(graph.draw(), " ▌ \n▀▛▀\n ▙▄\n   \n   \n │a\n ╰─\n   \n   ");
}
