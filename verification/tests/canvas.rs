use asciigraph::lines::{count_chars, Lines};
use asciigraph::utils::{from_v16, into_v16};
use asciigraph::{Alignment, Color, ColorMode};

fn plain(canvas: &Lines) -> String {
    canvas.to_string(&ColorMode::Plain)
}

fn from_plain(text: &str) -> Lines {
    Lines::from_string(text, Alignment::First, &ColorMode::Plain)
}

#[test]
fn blank_canvas_is_spaces() {
    let canvas = Lines::new(3, 2);
    assert_eq!(canvas.get_width(), 3);
    assert_eq!(canvas.get_height(), 2);
    assert!(canvas.is_valid());
    assert_eq!(plain(&canvas), "   \n   ");
    assert_eq!(canvas.get(2, 1), ' ' as u16);
    assert_eq!(canvas.get_color(2, 1), None);
}

#[test]
fn empty_canvas_has_no_cells() {
    let canvas = Lines::empty();
    assert_eq!(canvas.get_width(), 0);
    assert_eq!(canvas.get_height(), 0);
    assert!(canvas.is_valid());
    assert_eq!(plain(&canvas), "");
}

#[test]
fn empty_text_gives_the_empty_canvas() {
    let canvas = Lines::from_string("", Alignment::Center, &ColorMode::Plain);
    assert_eq!(canvas.get_width(), 0);
    assert_eq!(canvas.get_height(), 0);
    let canvas = from_plain("\n");
    assert_eq!(canvas.get_width(), 0);
    assert_eq!(canvas.get_height(), 2);
    assert_eq!(plain(&canvas), "\n");
}

#[test]
fn from_string_pads_to_the_widest_line() {
    let canvas = Lines::from_string("a\nbcd\nef", Alignment::Center, &ColorMode::Plain);
    assert_eq!(canvas.get_width(), 3);
    assert_eq!(canvas.get_height(), 3);
    assert!(canvas.is_valid());
    assert_eq!(plain(&canvas), " a \nbcd\n ef");
    let canvas = Lines::from_string("a\nbcd\nef", Alignment::Last, &ColorMode::Plain);
    assert_eq!(plain(&canvas), "  a\nbcd\n ef");
    let canvas = Lines::from_string("a\nbcd\nef", Alignment::First, &ColorMode::Plain);
    assert_eq!(plain(&canvas), "a  \nbcd\nef ");
}

#[test]
fn from_string_drops_carriage_returns() {
    let canvas = from_plain("a\r\nbcd");
    assert_eq!(plain(&canvas), "a  \nbcd");
    assert_eq!(into_v16("a\rb"), vec![97, 98]);
}

#[test]
fn from_string_measures_colored_text_by_what_shows() {
    let colored = "\x1b[38;2;192;32;32mab\x1b[39m\nxyz";
    let canvas = Lines::from_string(colored, Alignment::First, &ColorMode::TerminalFg);
    assert_eq!(canvas.get_width(), 3);
    assert_eq!(canvas.get_height(), 2);
    assert!(!canvas.is_valid());
    assert_eq!(plain(&canvas), "\x1b[38;2;192;32;32mab\x1b[39m \nxyz");
    let canvas = Lines::from_string(colored, Alignment::First, &ColorMode::Plain);
    assert_eq!(canvas.get_width(), 24);
    assert!(canvas.is_valid());
}

#[test]
fn visible_width_skips_color_sequences() {
    let line = into_v16("\x1b[38;2;1;2;3mab\x1b[39mc");
    assert_eq!(count_chars(&line, &ColorMode::TerminalFg), 3);
    assert_eq!(count_chars(&line, &ColorMode::TerminalBg), 3);
    assert_eq!(count_chars(&line, &ColorMode::Plain), line.len());
    assert_eq!(count_chars(&line, &ColorMode::Html { prefix: String::new() }), line.len());
}

#[test]
fn visible_width_counts_what_is_no_color_sequence() {
    // escape, then something else than '[': both count
    assert_eq!(count_chars(&into_v16("\x1bX"), &ColorMode::TerminalFg), 2);
    // escape twice: the first counts, the second may still start a sequence
    assert_eq!(count_chars(&into_v16("\x1b\x1b[3m"), &ColorMode::TerminalFg), 1);
    // escape, '[', then something else than '3': all three count
    assert_eq!(count_chars(&into_v16("\x1b[4"), &ColorMode::TerminalFg), 3);
    // escape, '[', escape: two count, the third may start a sequence
    assert_eq!(count_chars(&into_v16("\x1b[\x1b[39m"), &ColorMode::TerminalFg), 2);
    // a sequence that never ends swallows the rest
    assert_eq!(count_chars(&into_v16("ab\x1b[3xyz"), &ColorMode::TerminalFg), 2);
    // a background sequence is not recognized
    assert_eq!(count_chars(&into_v16("\x1b[48;2;1;2;3ma"), &ColorMode::TerminalFg), 14);
    assert_eq!(count_chars(&[], &ColorMode::TerminalFg), 0);
}

#[test]
fn set_and_get() {
    let mut canvas = Lines::new(2, 2);
    canvas.set(1, 0, 'x' as u16);
    canvas.set_color(1, 0, Some(Color::Gold));
    assert_eq!(canvas.get(1, 0), 'x' as u16);
    assert_eq!(canvas.get(0, 0), ' ' as u16);
    assert_eq!(canvas.get_color(1, 0), Some(Color::Gold));
    assert_eq!(canvas.get_color(1, 1), None);
    assert_eq!(plain(&canvas), " x\n  ");
}

#[test]
fn crop_cuts_at_the_edge() {
    let canvas = from_plain("abcd\nefgh\nijkl");
    assert_eq!(plain(&canvas.crop(1, 1, 2, 2)), "fg\njk");
    assert_eq!(plain(&canvas.crop(2, 1, 10, 10)), "gh\nkl");
    let nothing = canvas.crop(4, 3, 2, 2);
    assert_eq!(nothing.get_width(), 0);
    assert_eq!(nothing.get_height(), 0);
    let mut colored = from_plain("ab");
    colored.set_color(1, 0, Some(Color::Blue));
    assert_eq!(colored.crop(1, 0, 1, 1).get_color(0, 0), Some(Color::Blue));
}

#[test]
fn blit_copies_cells_and_colors() {
    let canvas = Lines::new(4, 3);
    let mut stamp = from_plain("ab\ncd");
    stamp.set_color(0, 0, Some(Color::Red));
    let result = canvas.blit(&stamp, 1, 1, None);
    assert_eq!(plain(&result), "    \n ab \n cd ");
    assert_eq!(result.get_color(1, 1), Some(Color::Red));
    assert_eq!(result.get_color(2, 1), None);
    assert!(result.is_valid());
}

#[test]
fn blit_skips_transparent_cells_and_clips() {
    let canvas = from_plain("....\n....");
    let stamp = from_plain("a b\nc d");
    assert_eq!(plain(&canvas.blit(&stamp, 0, 0, Some(' '))), "a.b.\nc.d.");
    assert_eq!(plain(&canvas.blit(&stamp, 0, 0, None)), "a b.\nc d.");
    assert_eq!(plain(&canvas.blit(&stamp, 2, 1, None)), "....\n..a ");
    assert_eq!(plain(&canvas.blit(&stamp, 4, 0, None)), "....\n....");
    assert_eq!(plain(&canvas.blit(&stamp, 0, 2, None)), "....\n....");
}

#[test]
fn merge_vertically_aligns_the_narrower() {
    let wide = from_plain("*****");
    let narrow = from_plain("ab");
    assert_eq!(plain(&narrow.merge_vertically(&wide, Alignment::First)), "ab   \n*****");
    assert_eq!(plain(&narrow.merge_vertically(&wide, Alignment::Last)), "   ab\n*****");
    // an odd split puts the larger half in front
    assert_eq!(plain(&narrow.merge_vertically(&wide, Alignment::Center)), "  ab \n*****");
    assert_eq!(plain(&wide.merge_vertically(&narrow, Alignment::Center)), "*****\n  ab ");
    let merged = wide.merge_vertically(&narrow, Alignment::Last);
    assert_eq!(merged.get_width(), 5);
    assert_eq!(merged.get_height(), 2);
    assert!(merged.is_valid());
}

#[test]
fn merge_horizontally_aligns_the_shorter() {
    let tall = from_plain("*\n*\n*\n*");
    let short = from_plain("a");
    assert_eq!(plain(&short.merge_horizontally(&tall, Alignment::First)), "a*\n *\n *\n *");
    assert_eq!(plain(&short.merge_horizontally(&tall, Alignment::Last)), " *\n *\n *\na*");
    // an odd split puts the larger half above
    assert_eq!(plain(&short.merge_horizontally(&tall, Alignment::Center)), " *\n *\na*\n *");
    assert_eq!(plain(&tall.merge_horizontally(&short, Alignment::Center)), "* \n* \n*a\n* ");
    let same = from_plain("x\ny");
    assert_eq!(plain(&same.merge_horizontally(&same, Alignment::Center)), "xx\nyy");
    let merged = tall.merge_horizontally(&short, Alignment::First);
    assert_eq!(merged.get_width(), 2);
    assert_eq!(merged.get_height(), 4);
    assert!(merged.is_valid());
}

#[test]
fn merging_with_the_empty_canvas_changes_nothing() {
    let canvas = from_plain("ab\ncd");
    let empty = Lines::empty();
    for alignment in [Alignment::First, Alignment::Last, Alignment::Center] {
        assert_eq!(plain(&canvas.merge_vertically(&empty, alignment)), "ab\ncd");
        assert_eq!(plain(&empty.merge_vertically(&canvas, alignment)), "ab\ncd");
        assert_eq!(plain(&canvas.merge_horizontally(&empty, alignment)), "ab\ncd");
        assert_eq!(plain(&empty.merge_horizontally(&canvas, alignment)), "ab\ncd");
        assert_eq!(canvas.merge_horizontally(&empty, alignment).get_width(), 2);
        assert_eq!(canvas.merge_vertically(&empty, alignment).get_height(), 2);
    }
}

#[test]
fn padding_goes_around() {
    let canvas = from_plain("ab");
    assert_eq!(plain(&canvas.add_padding([1, 2, 3, 4])), "         \n   ab    \n         \n         ");
    assert_eq!(plain(&canvas.add_padding([0, 0, 0, 0])), "ab");
    let padded = Lines::empty().add_padding([1, 0, 2, 0]);
    assert_eq!(padded.get_width(), 2);
    assert_eq!(padded.get_height(), 1);
}

#[test]
fn border_draws_corners_only_where_two_sides_meet() {
    let canvas = from_plain("ab\ncd");
    assert_eq!(plain(&canvas.add_border([true, true, true, true])), "╭──╮\n│ab│\n│cd│\n╰──╯");
    assert_eq!(plain(&canvas.add_border([false, true, true, false])), "│ab\n│cd\n╰──");
    assert_eq!(plain(&canvas.add_border([true, false, false, true])), "──╮\nab│\ncd│");
    assert_eq!(plain(&canvas.add_border([true, false, false, false])), "──\nab\ncd");
    assert_eq!(plain(&canvas.add_border([false, false, true, false])), "│ab\n│cd");
    assert_eq!(plain(&canvas.add_border([false, false, false, false])), "ab\ncd");
    assert_eq!(plain(&canvas.add_border([true, true, false, false])), "──\nab\ncd\n──");
    assert!(canvas.add_border([true, true, true, true]).is_valid());
}

#[test]
fn colors_are_written_as_runs() {
    let mut canvas = from_plain("abcd");
    canvas.set_color(1, 0, Some(Color::Red));
    canvas.set_color(2, 0, Some(Color::Red));
    assert_eq!(canvas.to_string(&ColorMode::TerminalFg), "a\x1b[38;2;192;32;32mbc\x1b[39md");
    assert_eq!(canvas.to_string(&ColorMode::TerminalBg), "a\x1b[48;2;192;32;32mbc\x1b[49md");
    assert_eq!(
        canvas.to_string(&ColorMode::Html { prefix: String::from("c-") }),
        "a<span class=\"c-red\">bc</span>d"
    );
    assert_eq!(plain(&canvas), "abcd");
}

#[test]
fn a_run_of_color_is_closed_at_the_end_of_a_line() {
    let mut canvas = from_plain("ab\ncd");
    canvas.set_color_all(Some(Color::Blue));
    assert_eq!(
        canvas.to_string(&ColorMode::TerminalFg),
        "\x1b[38;2;32;32;192mab\x1b[39m\n\x1b[38;2;32;32;192mcd\x1b[39m"
    );
    canvas.set_color(1, 0, Some(Color::Green));
    assert_eq!(
        canvas.to_string(&ColorMode::TerminalFg),
        "\x1b[38;2;32;32;192ma\x1b[39m\x1b[38;2;32;192;32mb\x1b[39m\n\x1b[38;2;32;32;192mcd\x1b[39m"
    );
    canvas.set_color_all(None);
    assert_eq!(canvas.to_string(&ColorMode::TerminalFg), "ab\ncd");
}

#[test]
fn characters_beyond_the_basic_plane_take_two_cells() {
    let canvas = from_plain("a😀");
    assert_eq!(canvas.get_width(), 3);
    assert_eq!(plain(&canvas), "a😀");
    let mut colored = from_plain("a😀b");
    colored.set_color(1, 0, Some(Color::Red));
    colored.set_color(2, 0, Some(Color::Red));
    assert_eq!(colored.to_string(&ColorMode::TerminalFg), "a\x1b[38;2;192;32;32m😀\x1b[39mb");
}

#[test]
fn a_surrogate_without_its_partner_becomes_the_replacement_character() {
    assert_eq!(from_v16(&vec![0x61, 0xD83D]), "a\u{FFFD}");
    assert_eq!(from_v16(&vec![0xDE00, 0x61]), "\u{FFFD}a");
    assert_eq!(from_v16(&vec![0xD83D, 0xDE00]), "😀");
    assert_eq!(from_v16(&vec![0xD83D, 0xD83D, 0xDE00]), "\u{FFFD}😀");
    assert_eq!(from_v16(&vec![]), "");
    let mut canvas = Lines::new(2, 1);
    canvas.set(0, 0, 0xD83D);
    canvas.set(1, 0, 'z' as u16);
    assert_eq!(plain(&canvas), "\u{FFFD}z");
}
