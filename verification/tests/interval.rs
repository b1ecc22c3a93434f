use asciigraph::interval::{can_push, draw_labeled_intervals, push, Interval};
use asciigraph::utils::from_v16;
use asciigraph::ColorMode;

fn placed(start: i32, end: i32, label: &str, width: usize, len: usize) -> Interval {
    let mut interval = Interval::new(start, end, String::from(label));
    interval.adjust_coordinate(width, len);
    interval
}

fn full(start: i32, end: i32, label: &str) -> String {
    from_v16(&placed(start, end, label, 100, 100).render_full())
}

#[test]
fn validity_is_start_before_end() {
    assert!(Interval::new(1, 2, String::new()).is_valid());
    assert!(Interval::new(-5, -5, String::new()).is_valid());
    assert!(!Interval::new(3, 2, String::new()).is_valid());
}

#[test]
fn an_interval_of_one_entry_is_valid_and_draws_nothing() {
    let interval = Interval::new(5, 5, String::from("x"));
    assert!(interval.is_valid());
    let interval = placed(5, 5, "x", 20, 20);
    assert_eq!(interval.render_full(), Vec::<u16>::new());
    let canvas = draw_labeled_intervals(&vec![interval], 20);
    assert_eq!(canvas.get_height(), 1);
    assert_eq!(canvas.to_string(&ColorMode::Plain), " ".repeat(20));
}

#[test]
fn labels_lose_their_control_characters() {
    let interval = Interval::new(0, 1, String::from("a\nb\tc\r"));
    assert_eq!(from_v16(&interval.label_to_v16()), "a b c ");
    assert_eq!(Interval::new(0, 1, String::from("é😀")).label_to_v16(), vec![0xE9, 0xD83D, 0xDE00]);
}

#[test]
fn full_arrow_centres_the_label() {
    // 10 columns, label of 2: 6 dashes, 3 and 3
    assert_eq!(full(0, 9, "ab"), "<───ab───>");
    // 9 columns: 5 dashes, the larger half behind the label
    assert_eq!(full(0, 8, "ab"), "<──ab───>");
    // exactly the label and four more
    assert_eq!(full(0, 5, "ab"), "<─ab─>");
}

#[test]
fn full_arrow_cuts_a_long_label() {
    // 12 columns, label of 10: no room for the label and four more
    assert_eq!(full(0, 11, "abcdefghij"), "<─abcde...─>");
    assert_eq!(full(0, 7, "abcdefghi"), "<─a...─>");
}

#[test]
fn full_arrow_without_room_is_bare() {
    // a label of 8 is not cut
    assert_eq!(full(0, 9, "abcdefgh"), "<────────>");
    assert_eq!(full(0, 4, "ab"), "<───>");
    assert_eq!(full(0, 1, "ab"), "<>");
    // 7 columns are too few to cut a long label
    assert_eq!(full(0, 6, "abcdefghi"), "<─────>");
    assert_eq!(full(3, 3, "ab"), "");
}

#[test]
fn half_arrow_to_the_left() {
    // columns 0..=9 are visible
    let interval = placed(-5, 9, "ab", 100, 100);
    assert_eq!(from_v16(&interval.render_half(true, 100)), "ab───────>");
    let interval = placed(-5, 9, "abcdefghijkl", 100, 100);
    assert_eq!(from_v16(&interval.render_half(true, 100)), "abcde...─>");
    let interval = placed(-5, 4, "abcdefghijkl", 100, 100);
    assert_eq!(from_v16(&interval.render_half(true, 100)), "────>");
    let interval = placed(-5, 0, "ab", 100, 100);
    assert_eq!(from_v16(&interval.render_half(true, 100)), ">");
}

#[test]
fn half_arrow_to_the_right() {
    // columns 90..100 are visible
    let interval = placed(90, 150, "ab", 100, 100);
    assert_eq!(from_v16(&interval.render_half(false, 100)), "<───────ab");
    let interval = placed(90, 150, "abcdefghijkl", 100, 100);
    assert_eq!(from_v16(&interval.render_half(false, 100)), "<─abcde...");
    let interval = placed(99, 150, "ab", 100, 100);
    assert_eq!(from_v16(&interval.render_half(false, 100)), "<");
}

#[test]
fn columns_follow_the_width_of_the_plot() {
    // 50 entries on 100 columns: entry 10 is at column 20, entry 19 at column 38
    assert_eq!(from_v16(&placed(10, 19, "", 100, 50).render_full()).chars().count(), 19);
    // 200 entries on 100 columns: entries 10 to 19 fall on columns 5 to 9
    assert_eq!(from_v16(&placed(10, 19, "", 100, 200).render_full()).chars().count(), 5);
    // an end far behind the data counts as twice the number of entries
    let interval = placed(0, 1000, "", 10, 20);
    assert_eq!(from_v16(&interval.render_full()).chars().count(), 21);
}

#[test]
fn masks_take_the_columns_of_an_interval() {
    let mut mask = vec![false; 10];
    let a = placed(2, 4, "", 10, 10);
    let b = placed(4, 6, "", 10, 10);
    let c = placed(5, 30, "", 10, 10);
    assert!(can_push(&mask, &a));
    push(&mut mask, &a);
    assert_eq!(mask, vec![false, false, true, true, true, false, false, false, false, false]);
    assert!(!can_push(&mask, &b));
    assert!(can_push(&mask, &c));
    push(&mut mask, &c);
    assert_eq!(mask, vec![false, false, true, true, true, true, true, true, true, true]);
}

#[test]
fn intervals_go_to_the_first_row_with_room() {
    let intervals = vec![
        placed(0, 9, "a", 30, 30),
        placed(5, 14, "b", 30, 30),
        placed(10, 19, "c", 30, 30),
        placed(8, 12, "d", 30, 30),
        placed(20, 29, "e", 30, 30),
    ];
    let canvas = draw_labeled_intervals(&intervals, 30);
    assert_eq!(
        canvas.to_string(&ColorMode::Plain),
        "<───a────><───c────><───e────>\n     <───b────>               \n        <─d─>                 "
    );
    assert!(canvas.is_valid());
}

#[test]
fn intervals_outside_the_plot_are_left_out() {
    let intervals = vec![placed(-9, -2, "before", 10, 10), placed(10, 15, "behind", 10, 10)];
    let canvas = draw_labeled_intervals(&intervals, 10);
    assert_eq!(canvas.to_string(&ColorMode::Plain), "          ");
    let canvas = draw_labeled_intervals(&vec![], 4);
    assert_eq!(canvas.to_string(&ColorMode::Plain), "    ");
}

#[test]
fn intervals_that_leave_the_plot_are_drawn_in_part() {
    let intervals = vec![placed(-3, 3, "l", 12, 12), placed(8, 20, "r", 12, 12)];
    let canvas = draw_labeled_intervals(&intervals, 12);
    assert_eq!(canvas.to_string(&ColorMode::Plain), "l──>    <──r");
}
