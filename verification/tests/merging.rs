use asciigraph::merge;
use asciigraph::{merge_horiz, merge_vert, Alignment, Color, ColorMode};

fn find_difference(result: &String, answer: &String) -> String {
    let lines_r: Vec<&str> = result.split('\n').collect();
    let lines_a: Vec<&str> = answer.split('\n').collect();
    let mut diffs = vec![];
    for i in 0..(lines_r.len().min(lines_a.len())) {
        if lines_r[i] != lines_a[i] {
            diffs.push(format!("{i}: {:?}, {:?}\n", lines_r[i], lines_a[i]));
        }
    }
    let diffs = diffs.concat();
    format!("\n\nresult\n\n{result}\n\nanswer\n\n{answer}\n\ndiffs\n\n{diffs}\n\n")
}

#[test]
fn merge_test() {
    let sqr1 = "****
****
****
****"
        .to_string();

    let sqr2 = "******
******
******
******
******
******"
        .to_string();

    let mut test_cases = vec![];

    test_cases.push((
        merge::merge_horiz(&sqr1, &sqr1, 0),
        "********
********
********
********"
            .to_string(),
    ));

    test_cases.push((
        merge::merge_horiz(&sqr1, &sqr1, 2),
        "****  ****
****  ****
****  ****
****  ****"
            .to_string(),
    ));

    test_cases.push((
        merge::merge_vert(&sqr1, &sqr1, 0, merge::Alignment::Left),
        "****
****
****
****
****
****
****
****"
            .to_string(),
    ));

    test_cases.push((
        merge::merge_vert(&sqr1, &sqr1, 2, merge::Alignment::Left),
        "****
****
****
****
    
    
****
****
****
****"
            .to_string(),
    ));

    test_cases.push((
        merge::merge_vert(&sqr1, &sqr2, 0, merge::Alignment::Left),
        "****  
****  
****  
****  
******
******
******
******
******
******"
            .to_string(),
    ));

    test_cases.push((
        merge::merge_vert(&sqr2, &sqr1, 0, merge::Alignment::Left),
        "******
******
******
******
******
******
****  
****  
****  
****  "
            .to_string(),
    ));

    test_cases.push((
        merge::merge_vert(&sqr1, &sqr2, 2, merge::Alignment::Left),
        "****  
****  
****  
****  
      
      
******
******
******
******
******
******"
            .to_string(),
    ));

    test_cases.push((
        merge::merge_vert(&sqr2, &sqr1, 2, merge::Alignment::Left),
        "******
******
******
******
******
******
      
      
****  
****  
****  
****  "
            .to_string(),
    ));

    test_cases.push((
        merge::merge_vert(&sqr2, &sqr1, 0, merge::Alignment::Center),
        "******
******
******
******
******
******
 **** 
 **** 
 **** 
 **** "
            .to_string(),
    ));

    test_cases.push((
        merge::merge_vert(&sqr2, &sqr1, 0, merge::Alignment::Right),
        "******
******
******
******
******
******
  ****
  ****
  ****
  ****"
            .to_string(),
    ));

    test_cases.push((
        merge::merge_vert(&sqr1, &sqr2, 0, merge::Alignment::Center),
        " **** 
 **** 
 **** 
 **** 
******
******
******
******
******
******"
            .to_string(),
    ));

    test_cases.push((
        merge::merge_vert(&sqr1, &sqr2, 0, merge::Alignment::Right),
        "  ****
  ****
  ****
  ****
******
******
******
******
******
******"
            .to_string(),
    ));

    let mut failures = Vec::with_capacity(test_cases.len());

    for (result, answer) in test_cases.iter() {
        if result != answer {
            failures.push(find_difference(&result, &answer));
        }
    }

    if failures.len() > 0 {
        panic!("{} out of {} cases have failed!!!\n\n{}", failures.len(), test_cases.len(), failures.concat());
    }
}

#[test]
fn two_squares_side_by_side_with_a_margin() {
    let square = "████\n████\n████\n████";
    let merged = merge_horiz(square, square, ColorMode::Plain, Alignment::First, 2);
    let lines: Vec<&str> = merged.split('\n').collect();
    assert_eq!(lines.len(), 4);
    for line in lines {
        assert_eq!(line.chars().count(), 10);
        assert_eq!(line, "████  ████");
    }
}

#[test]
fn plain_merge_leaves_the_other_text_where_one_is_empty() {
    let text = String::from("ab\ncd");
    let empty = String::new();
    assert_eq!(merge::merge_horiz(&text, &empty, 3), "ab\ncd");
    assert_eq!(merge::merge_horiz(&empty, &text, 3), "ab\ncd");
    assert_eq!(merge::merge_vert(&text, &empty, 3, merge::Alignment::Center), "ab\ncd");
    assert_eq!(merge::merge_vert(&empty, &text, 3, merge::Alignment::Center), "ab\ncd");
}

#[test]
fn plain_merge_sets_the_shorter_text_at_the_bottom() {
    let tall = String::from("a\nb\nc");
    let short = String::from("x");
    assert_eq!(merge::merge_horiz(&tall, &short, 1), "a  \nb  \nc x");
    assert_eq!(merge::merge_horiz(&short, &tall, 1), "  a\n  b\nx c");
}

#[test]
fn merge_horiz_places_the_shorter_plot() {
    assert_eq!(merge_horiz("a\nb\nc", "x", ColorMode::Plain, Alignment::First, 1), "a x\nb  \nc  ");
    assert_eq!(merge_horiz("a\nb\nc", "x", ColorMode::Plain, Alignment::Center, 1), "a  \nb x\nc  ");
    assert_eq!(merge_horiz("a\nb\nc", "x", ColorMode::Plain, Alignment::Last, 0), "a \nb \ncx");
    assert_eq!(merge_horiz("x", "a\nb\nc", ColorMode::Plain, Alignment::Last, 2), "   a\n   b\nx  c");
}

#[test]
fn merge_vert_places_the_narrower_plot() {
    assert_eq!(merge_vert("abc", "x", ColorMode::Plain, Alignment::First, 1), "abc\n   \nx  ");
    assert_eq!(merge_vert("abc", "x", ColorMode::Plain, Alignment::Center, 0), "abc\n x ");
    assert_eq!(merge_vert("abc", "x", ColorMode::Plain, Alignment::Last, 0), "abc\n  x");
    assert_eq!(merge_vert("x", "abcd", ColorMode::Plain, Alignment::Center, 0), "  x \nabcd");
}

#[test]
fn merging_colored_plots_keeps_their_colors() {
    let red = ColorMode::TerminalFg.apply_colors(String::from("ab"), vec![Some(Color::Red), None]);
    let merged = merge_vert(&red, "wxyz", ColorMode::TerminalFg, Alignment::Last, 0);
    assert_eq!(merged, "  \x1b[38;2;192;32;32ma\x1b[39mb\nwxyz");
    let merged = merge_horiz(&red, "w\nx", ColorMode::TerminalFg, Alignment::First, 1);
    assert_eq!(merged, "\x1b[38;2;192;32;32ma\x1b[39mb w\n   x");
}
