use asciigraph::lines::count_chars;
use asciigraph::utils::into_v16;
use asciigraph::{Color, ColorMode};

const ALL: [Color; 18] = [
    Color::Black,
    Color::Dark,
    Color::Gray,
    Color::Lightgray,
    Color::White,
    Color::Red,
    Color::Green,
    Color::Blue,
    Color::Brown,
    Color::Slateblue,
    Color::Seagreen,
    Color::Aqua,
    Color::Emerald,
    Color::Violet,
    Color::Turquoise,
    Color::Pink,
    Color::Grassgreen,
    Color::Gold,
];

fn start(color: Color, mode: &ColorMode) -> String {
    let mut buffer = vec!['>'];
    color.append_start_marker(&mut buffer, mode);
    buffer.into_iter().collect()
}

fn end(color: Color, mode: &ColorMode) -> String {
    let mut buffer = vec!['>'];
    color.append_end_marker(&mut buffer, mode);
    buffer.into_iter().collect()
}

#[test]
fn the_palette_has_fixed_triples() {
    let expected: [(u8, u8, u8); 18] = [
        (0, 0, 0),
        (64, 64, 64),
        (128, 128, 128),
        (192, 192, 192),
        (255, 255, 255),
        (192, 32, 32),
        (32, 192, 32),
        (32, 32, 192),
        (192, 128, 32),
        (64, 64, 192),
        (32, 192, 192),
        (64, 192, 255),
        (64, 192, 64),
        (192, 64, 255),
        (64, 255, 192),
        (255, 64, 192),
        (192, 255, 64),
        (255, 192, 64),
    ];
    for (color, rgb) in ALL.iter().zip(expected.iter()) {
        assert_eq!(color.get_rgb(), *rgb);
    }
}

#[test]
fn names_are_lower_case() {
    let expected = [
        "black", "dark", "gray", "lightgray", "white", "red", "green", "blue", "brown", "slateblue", "seagreen",
        "aqua", "emerald", "violet", "turquoise", "pink", "grassgreen", "gold",
    ];
    for (color, name) in ALL.iter().zip(expected.iter()) {
        assert_eq!(color.get_name(), *name);
    }
}

#[test]
fn colors_are_found_by_name() {
    for color in ALL.iter() {
        assert_eq!(Color::from_name(color.get_name()), Ok(*color));
    }
    assert_eq!(Color::from_name("Light Gray"), Ok(Color::Lightgray));
    assert_eq!(Color::from_name("SEA_GREEN"), Ok(Color::Seagreen));
    assert_eq!(Color::from_name("slate-blue"), Ok(Color::Slateblue));
    assert_eq!("gold".parse::<Color>(), Ok(Color::Gold));
    assert_eq!(Color::from_name("Light Grey"), Err(String::from("lightgrey")));
    assert_eq!(Color::from_name(""), Err(String::new()));
}

#[test]
fn color_modes_are_found_by_name() {
    assert!(matches!(ColorMode::from_name("none"), Ok(ColorMode::Plain)));
    assert!(matches!(ColorMode::from_name("Terminal FG"), Ok(ColorMode::TerminalFg)));
    assert!(matches!(ColorMode::from_name("terminal_bg"), Ok(ColorMode::TerminalBg)));
    assert!(matches!("HTML".parse::<ColorMode>(), Ok(ColorMode::Html { prefix }) if prefix.is_empty()));
    assert!(matches!(ColorMode::from_name("Plain"), Err(name) if name == "plain"));
}

#[test]
fn start_markers() {
    assert_eq!(start(Color::Aqua, &ColorMode::TerminalFg), ">\x1b[38;2;64;192;255m");
    assert_eq!(start(Color::Black, &ColorMode::TerminalFg), ">\x1b[38;2;0;0;0m");
    assert_eq!(start(Color::Aqua, &ColorMode::TerminalBg), ">\x1b[48;2;64;192;255m");
    assert_eq!(start(Color::Aqua, &ColorMode::Html { prefix: String::from("p_") }), "><span class=\"p_aqua\">");
    assert_eq!(start(Color::Lightgray, &ColorMode::Html { prefix: String::new() }), "><span class=\"lightgray\">");
    assert_eq!(start(Color::Aqua, &ColorMode::Plain), ">");
}

#[test]
fn end_markers() {
    assert_eq!(end(Color::Aqua, &ColorMode::TerminalFg), ">\x1b[39m");
    assert_eq!(end(Color::Aqua, &ColorMode::TerminalBg), ">\x1b[49m");
    assert_eq!(end(Color::Aqua, &ColorMode::Html { prefix: String::from("p_") }), "></span>");
    assert_eq!(end(Color::Aqua, &ColorMode::Plain), ">");
}

#[test]
fn apply_colors_marks_every_change() {
    let colors = vec![None, Some(Color::Red), Some(Color::Red), Some(Color::Blue), None, Some(Color::Gold)];
    assert_eq!(
        ColorMode::TerminalFg.apply_colors(String::from("abcdef"), colors.clone()),
        "a\x1b[38;2;192;32;32mbc\x1b[39m\x1b[38;2;32;32;192md\x1b[39me\x1b[38;2;255;192;64mf\x1b[39m"
    );
    assert_eq!(
        ColorMode::Html { prefix: String::from("x") }.apply_colors(String::from("abcdef"), colors.clone()),
        "a<span class=\"xred\">bc</span><span class=\"xblue\">d</span>e<span class=\"xgold\">f</span>"
    );
    assert_eq!(ColorMode::Plain.apply_colors(String::from("abcdef"), colors), "abcdef");
}

#[test]
fn apply_colors_without_colors_changes_nothing() {
    assert_eq!(ColorMode::TerminalBg.apply_colors(String::from("ab"), vec![None, None]), "ab");
    assert_eq!(ColorMode::TerminalFg.apply_colors(String::new(), vec![]), "");
    // in the plain mode the colors are not looked at
    assert_eq!(ColorMode::Plain.apply_colors(String::from("ab"), vec![]), "ab");
}

#[test]
fn colored_text_is_as_wide_as_the_text() {
    let text = "plot ▆█ 😀 of x";
    let n = text.chars().count();
    let palette = [None, Some(Color::Red), Some(Color::Red), None, Some(Color::Aqua), Some(Color::White)];
    for shift in 0..palette.len() {
        let colors: Vec<Option<Color>> = (0..n).map(|i| palette[(i * 7 + shift) % palette.len()]).collect();
        let colored = ColorMode::TerminalFg.apply_colors(String::from(text), colors);
        assert_eq!(count_chars(&into_v16(&colored), &ColorMode::TerminalFg), into_v16(text).len());
    }
}

#[test]
fn background_sequences_are_counted_as_text() {
    let colored = ColorMode::TerminalBg.apply_colors(String::from("a"), vec![Some(Color::Red)]);
    assert_eq!(colored, "\x1b[48;2;192;32;32ma\x1b[49m");
    assert_eq!(count_chars(&into_v16(&colored), &ColorMode::TerminalBg), 23);
}
