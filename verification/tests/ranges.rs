use asciigraph::convert::IntoRatio;
use asciigraph::format::format_ratio;
use asciigraph::graph::range::{
    count_distinct, get_min_max_diff, get_where_to_skip, prettify_y_labels, ratio_of_subplots, spread_flat_range,
    unwrap_y_min_max, Side,
};
use asciigraph::graph::sample::pick_meaningful_values;
use asciigraph::number::Rational;

fn series(values: &[&str]) -> Vec<(String, Rational)> {
    values.iter().enumerate().map(|(i, v)| (i.to_string(), v.into_ratio())).collect()
}

fn s(n: &Rational) -> String {
    format_ratio(n)
}

fn pair(range: (Rational, Rational)) -> (String, String) {
    (s(&range.0), s(&range.1))
}

#[test]
fn bounds_of_the_data_are_its_least_and_greatest_value() {
    // the widest gap is from 4 to 16
    let (low, high, gap) = get_min_max_diff(&series(&["0", "16", "4", "2"]), 10);
    assert_eq!((s(&low), s(&high), s(&gap)), (String::from("0"), String::from("16"), String::from("12")));
    let (low, high, gap) = get_min_max_diff(&series(&["-3.5", "7", "-1"]), 0);
    assert_eq!((s(&low), s(&high), s(&gap)), (String::from("-3.5"), String::from("7"), String::from("8")));
}

#[test]
fn equal_values_have_equal_bounds() {
    let (low, high, gap) = get_min_max_diff(&series(&["5", "5", "5"]), 10);
    assert_eq!((s(&low), s(&high), s(&gap)), (String::from("5"), String::from("5"), String::from("0")));
    let (low, high, gap) = get_min_max_diff(&series(&["-3"]), 4);
    assert_eq!((s(&low), s(&high), s(&gap)), (String::from("-3"), String::from("-3"), String::from("0")));
}

#[test]
fn only_bounds_that_span_nothing_are_moved_apart() {
    // a quarter of the height on either side
    assert_eq!(pair(spread_flat_range(&5.into_ratio(), &5.into_ratio(), 10)), (String::from("2.5"), String::from("7.5")));
    assert_eq!(pair(spread_flat_range(&(-3).into_ratio(), &(-3).into_ratio(), 4)), (String::from("-4"), String::from("-2")));
    assert_eq!(pair(spread_flat_range(&5.into_ratio(), &5.into_ratio(), 0)), (String::from("5"), String::from("5")));
    assert_eq!(pair(spread_flat_range(&0.into_ratio(), &16.into_ratio(), 10)), (String::from("0"), String::from("16")));
    assert_eq!(pair(spread_flat_range(&"4.9".into_ratio(), &5.into_ratio(), 10)), (String::from("4.9"), String::from("5")));
}

#[test]
fn no_data_has_the_range_from_zero_to_one() {
    let (low, high, gap) = get_min_max_diff(&vec![], 10);
    assert_eq!((s(&low), s(&high), s(&gap)), (String::from("0"), String::from("1"), String::from("0")));
}

#[test]
fn the_widest_gap_is_between_neighbours_in_order() {
    let (_, _, gap) = get_min_max_diff(&series(&["10", "1", "7", "1", "3.5"]), 10);
    assert_eq!(s(&gap), "3.5");
}

#[test]
fn given_bounds_are_kept() {
    let low = 0.into_ratio();
    let high = 10.into_ratio();
    let both = unwrap_y_min_max(&Some(2.into_ratio()), &Some(3.into_ratio()), &low, &high);
    assert_eq!(pair(both), (String::from("2"), String::from("3")));
    let none = unwrap_y_min_max(&None, &None, &low, &high);
    assert_eq!(pair(none), (String::from("0"), String::from("10")));
}

#[test]
fn a_missing_bound_follows_the_data() {
    let low = 0.into_ratio();
    let high = 10.into_ratio();
    assert_eq!(pair(unwrap_y_min_max(&Some(4.into_ratio()), &None, &low, &high)), (String::from("4"), String::from("10")));
    assert_eq!(pair(unwrap_y_min_max(&None, &Some(4.into_ratio()), &low, &high)), (String::from("0"), String::from("4")));
}

#[test]
fn a_bound_beyond_the_data_moves_the_other_by_one() {
    let low = 0.into_ratio();
    let high = 10.into_ratio();
    assert_eq!(pair(unwrap_y_min_max(&Some(10.into_ratio()), &None, &low, &high)), (String::from("10"), String::from("11")));
    assert_eq!(pair(unwrap_y_min_max(&Some(12.into_ratio()), &None, &low, &high)), (String::from("12"), String::from("13")));
    assert_eq!(pair(unwrap_y_min_max(&None, &Some(0.into_ratio()), &low, &high)), (String::from("-1"), String::from("0")));
    assert_eq!(pair(unwrap_y_min_max(&None, &Some((-5).into_ratio()), &low, &high)), (String::from("-6"), String::from("-5")));
}

fn pretty(low: &str, high: &str, height: usize, snap: Option<(bool, bool, &str)>) -> (String, String) {
    pair(prettify_y_labels(
        &low.into_ratio(),
        &high.into_ratio(),
        height,
        snap.map(|(a, b, step)| (a, b, step.into_ratio())),
    ))
}

#[test]
fn labels_snap_to_the_granularity() {
    // the step from row to row is 49.99, close to 10 times the granularity 5:
    // the lower bound goes to 0, the span to 10 rows of 50
    assert_eq!(pretty("-0.1", "499.8", 10, Some((true, true, "5"))), (String::from("0"), String::from("500")));
    // a step of 7.01 over a granularity of 1: seven
    assert_eq!(pretty("0.2", "70.3", 10, Some((true, true, "1"))), (String::from("0"), String::from("70")));
}

#[test]
fn labels_stay_without_a_granularity() {
    assert_eq!(pretty("-0.1", "499.8", 10, None), (String::from("-0.1"), String::from("499.8")));
    assert_eq!(pretty("-0.1", "499.8", 10, Some((true, true, "0"))), (String::from("-0.1"), String::from("499.8")));
    assert_eq!(pretty("-0.1", "499.8", 0, Some((true, true, "5"))), (String::from("-0.1"), String::from("499.8")));
}

#[test]
fn labels_stay_where_a_bound_may_not_move() {
    assert_eq!(pretty("-0.1", "499.8", 10, Some((true, false, "5"))), (String::from("-0.1"), String::from("499.8")));
    assert_eq!(pretty("-0.1", "499.8", 10, Some((false, true, "5"))), (String::from("-0.1"), String::from("499.8")));
    assert_eq!(pretty("10", "509.8", 10, Some((false, true, "5"))), (String::from("10"), String::from("509.8")));
    assert_eq!(pretty("10", "509.8", 10, Some((false, false, "5"))), (String::from("10"), String::from("509.8")));
}

#[test]
fn labels_stay_where_the_step_is_off_the_grid() {
    // a step of 1.25 granularities is between one and two
    assert_eq!(pretty("0", "12.5", 10, Some((true, true, "1"))), (String::from("0"), String::from("12.5")));
    // a step of less than the granularity
    assert_eq!(pretty("0", "5", 10, Some((true, true, "1"))), (String::from("0"), String::from("5")));
    // one sixteenth off is still on the grid
    assert_eq!(pretty("0", "10.6", 10, Some((true, true, "1"))), (String::from("0"), String::from("10")));
}

#[test]
fn labels_stay_where_snapping_would_leave_no_span() {
    // one row, a step just below the granularity, and a lower bound that moves up by
    // nearly half of it: what is left of the span rounds to nothing
    assert_eq!(pretty("0.5", "1.45", 1, Some((true, true, "1"))), (String::from("0.5"), String::from("1.45")));
}

#[test]
fn distinct_values_are_counted_once() {
    let data = series(&["1", "2", "2", "3", "1", "5"]);
    assert_eq!(count_distinct(&data, Side::Below, &3.into_ratio()), 2);
    assert_eq!(count_distinct(&data, Side::UpTo, &3.into_ratio()), 3);
    assert_eq!(count_distinct(&data, Side::Above, &1.into_ratio()), 3);
    assert_eq!(count_distinct(&data, Side::Above, &5.into_ratio()), 0);
    assert_eq!(count_distinct(&vec![], Side::UpTo, &5.into_ratio()), 0);
}

#[test]
fn shares_follow_the_majority() {
    assert_eq!(ratio_of_subplots(3, 3), (3, 3));
    assert_eq!(ratio_of_subplots(4, 3), (3, 3));
    // one and a half times as many are enough
    assert_eq!(ratio_of_subplots(3, 2), (4, 2));
    assert_eq!(ratio_of_subplots(2, 3), (2, 4));
    assert_eq!(ratio_of_subplots(4, 2), (4, 2));
    assert_eq!(ratio_of_subplots(2, 4), (2, 4));
    assert_eq!(ratio_of_subplots(1, 0), (4, 2));
    assert_eq!(ratio_of_subplots(0, 1), (2, 4));
    assert_eq!(ratio_of_subplots(0, 0), (3, 3));
    assert_eq!(ratio_of_subplots(usize::MAX, usize::MAX - 1), (3, 3));
}

#[test]
fn the_widest_gap_is_skipped() {
    // values 0, 1, 2 and 1000: the gap from 2 to 1000, margins 2/16 below and 998/16 above
    let (low, from, to, high, parts) = get_where_to_skip(&series(&["0", "1", "1000", "2", "0"]));
    assert_eq!(s(&low), "-0.125");
    assert_eq!(s(&from), "2.125");
    assert_eq!(s(&to), "937.625");
    assert_eq!(s(&high), "1062");
    assert_eq!(parts, (4, 2));
}

#[test]
fn of_gaps_of_one_width_the_lowest_is_skipped() {
    let (low, from, to, high, parts) = get_where_to_skip(&series(&["0", "10", "20"]));
    // the gap from 0 to 10; nothing below it, so its margin is a sixteenth of the gap
    assert_eq!(s(&low), "-0.625");
    assert_eq!(s(&from), "0.625");
    assert_eq!(s(&to), "9.375");
    assert_eq!(s(&high), "20.625");
    assert_eq!(parts, (2, 4));
}

#[test]
fn equal_values_leave_no_range_to_skip() {
    let (low, from, to, high, parts) = get_where_to_skip(&series(&["7", "7", "7"]));
    assert_eq!((s(&low), s(&from), s(&to), s(&high)), (String::from("7"), String::from("7"), String::from("7"), String::from("7")));
    assert_eq!(parts, (4, 2));
}

fn values(data: &Vec<(String, Rational)>) -> Vec<String> {
    data.iter().map(|(_, v)| s(v)).collect()
}

fn labels(data: &Vec<(String, Rational)>) -> Vec<String> {
    data.iter().map(|(l, _)| l.clone()).collect()
}

#[test]
fn thinning_keeps_the_extremes_of_every_bucket() {
    let data = series(&["5", "1", "9", "3", "2", "8", "8", "0", "4", "4", "4", "4"]);
    // width 6: three buckets of four entries
    let picked = pick_meaningful_values(&data, 6);
    assert_eq!(values(&picked), vec!["1", "9", "8", "0", "4", "4"]);
    assert_eq!(labels(&picked), vec!["1", "2", "5", "7", "8", "8"]);
}

#[test]
fn thinning_takes_the_first_of_equal_extremes() {
    let data = series(&["7", "3", "7", "3", "1", "1", "2", "2"]);
    let picked = pick_meaningful_values(&data, 4);
    assert_eq!(labels(&picked), vec!["0", "1", "4", "6"]);
}

#[test]
fn thinning_for_a_narrow_plot_keeps_one_bucket() {
    let data = series(&["5", "1", "9", "3"]);
    assert_eq!(values(&pick_meaningful_values(&data, 1)), vec!["1", "9"]);
    assert_eq!(values(&pick_meaningful_values(&data, 0)), vec!["1", "9"]);
    // an odd width counts as the even one below it
    assert_eq!(values(&pick_meaningful_values(&data, 5)), vec!["5", "1", "9", "3"]);
}

#[test]
fn every_bucket_keeps_its_least_and_greatest() {
    let raw: Vec<i64> = (0..200).map(|i| (i * i * 7919 + i * 31) % 1000 - 500).collect();
    let data: Vec<(String, Rational)> = raw.iter().map(|v| (v.to_string(), v.into_ratio())).collect();
    let width = 20;
    let picked = pick_meaningful_values(&data, width);
    assert_eq!(picked.len(), 20);
    for bucket in 0..10 {
        let from = bucket * 200 / 10;
        let to = (bucket + 1) * 200 / 10;
        let least = raw[from..to].iter().min().unwrap().to_string();
        let greatest = raw[from..to].iter().max().unwrap().to_string();
        let kept = [picked[2 * bucket].0.clone(), picked[2 * bucket + 1].0.clone()];
        assert!(kept.contains(&least));
        assert!(kept.contains(&greatest));
    }
}
