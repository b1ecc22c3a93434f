use asciigraph::error::{Error, JsonType};
use asciigraph::json::{Json, JsonNumber};
use asciigraph::Graph;

fn whole(n: i64) -> Json {
    Json::Number(JsonNumber { positive: n >= 0, mantissa: n.unsigned_abs(), exponent: 0 })
}

fn dec(mantissa: u64, exponent: i16) -> Json {
    Json::Number(JsonNumber { positive: true, mantissa, exponent })
}

fn text(s: &str) -> Json {
    Json::Text(String::from(s))
}

fn object(entries: Vec<(&str, Json)>) -> Json {
    Json::Object(entries.into_iter().map(|(k, v)| (String::from(k), v)).collect())
}

fn data() -> (&'static str, Json) {
    ("1d_data", Json::Array(vec![whole(0), whole(1), whole(2), whole(3), whole(4), whole(5), whole(6), whole(7)]))
}

fn error_of(json: Json) -> Error {
    match Graph::from_json(&json) {
        Ok(_) => panic!("the description was read"),
        Err(e) => e,
    }
}

#[test]
fn an_array_is_a_series() {
    let graph = Graph::from_json(&Json::Array(vec![whole(1), dec(25, -1), text("3.5")])).unwrap();
    assert!(graph.is_valid());
    let mut same = Graph::default();
    same.set_1d_data(&["1", "2.5", "3.5"]);
    assert_eq!(graph.draw(), same.draw());
}

#[test]
fn an_object_sets_what_its_keys_name() {
    let graph = Graph::from_json(&object(vec![
        data(),
        ("plot_width", whole(8)),
        ("plot_height", whole(4)),
    ]))
    .unwrap();
    assert_eq!(
        graph.draw(),
        "  7│      ▄█\n   │    ▄███\n3.5│  ▂▆████\n   │ ▆██████\n   ╰────────\n    0  3  6 \n     1  4   "
    );
}

#[test]
fn every_key_is_read() {
    let described = Graph::from_json(&object(vec![
        (
            "1d_labeled_data",
            Json::Array(vec![
                Json::Array(vec![text("a"), whole(3)]),
                Json::Array(vec![text("bb"), text("1")]),
                Json::Array(vec![text("ccc"), dec(20, -1)]),
            ]),
        ),
        ("y_min", whole(0)),
        ("y_max", whole(4)),
        ("y_range", Json::Array(vec![whole(1), dec(35, -1)])),
        ("pretty_y", dec(25, -2)),
        ("plot_width", whole(30)),
        ("plot_height", whole(6)),
        ("x_label_margin", whole(1)),
        ("y_label_margin", whole(3)),
        ("block_width", whole(4)),
        ("paddings", Json::Array(vec![whole(1), whole(0), whole(2), whole(0)])),
        ("title", text("T")),
        ("x_axis_label", text("ex")),
        ("y_axis_label", text("why")),
        ("big_title", Json::Boolean(false)),
        ("title_color", text("Red")),
        ("primary_color", text("light gray")),
        ("color_mode", text("terminal fg")),
        ("skip_range", Json::Null),
        ("y_label_prefix", text("<")),
        ("y_label_suffix", text(">")),
        ("labeled_intervals", Json::Array(vec![Json::Array(vec![whole(0), whole(1), text("ab")])])),
    ]))
    .unwrap();
    let mut built = Graph::default();
    built.set_1d_labeled_data(&[(String::from("a"), "3"), (String::from("bb"), "1"), (String::from("ccc"), "2")]);
    built.set_y_range("1", "3.5").set_pretty_y("0.25").set_plot_width(30).set_plot_height(6);
    built.set_x_label_margin(1).set_y_label_margin(3).set_block_width(4).set_paddings([1, 0, 2, 0]);
    built.set_title("T").set_x_axis_label("ex").set_y_axis_label("why").set_big_title(false);
    built.set_title_color(Some(asciigraph::Color::Red)).set_primary_color(Some(asciigraph::Color::Lightgray));
    built.set_color_mode(asciigraph::ColorMode::TerminalFg).set_skip_range(asciigraph::SkipValue::none());
    built.set_y_label_formatter(asciigraph::format::YLabelFormatter {
        prefix: String::from("<"),
        suffix: String::from(">"),
    });
    built.add_labeled_interval(0, 1, String::from("ab"));
    assert!(described.is_valid());
    assert_eq!(described.draw(), built.draw());
    assert!(described.draw().contains("<3.5>"));
    assert!(described.draw().contains("\x1b[38;2;192;32;32mT\x1b[39m"));
}

#[test]
fn a_range_to_leave_out_can_be_described() {
    let graph = Graph::from_json(&object(vec![
        ("1d_data", Json::Array(vec![whole(1), whole(2), whole(3), whole(50), whole(98), whole(99)])),
        ("plot_width", whole(6)),
        ("plot_height", whole(20)),
        ("y_range", Json::Array(vec![whole(0), whole(100)])),
        ("skip_range", Json::Array(vec![whole(10), whole(90)])),
    ]))
    .unwrap();
    assert!(graph.draw().contains("~~~"));
}

#[test]
fn what_is_neither_object_nor_array_describes_nothing() {
    match error_of(text("plot")) {
        Error::JsonTypeError { key: None, expected: JsonType::Object, got: JsonType::Text } => {},
        e => panic!("{e:?}"),
    }
    match error_of(Json::Null) {
        Error::JsonTypeError { key: None, expected: JsonType::Object, got: JsonType::Null } => {},
        e => panic!("{e:?}"),
    }
}

#[test]
fn unknown_keys_are_errors() {
    match error_of(object(vec![data(), ("plot_widht", whole(8))])) {
        Error::UnknownKey(key) => assert_eq!(key, "plot_widht"),
        e => panic!("{e:?}"),
    }
}

#[test]
fn values_of_the_wrong_type_are_errors() {
    match error_of(object(vec![("plot_width", text("8"))])) {
        Error::JsonTypeError { key: Some(key), expected: JsonType::Integer, got: JsonType::Text } => {
            assert_eq!(key, "plot_width")
        },
        e => panic!("{e:?}"),
    }
    match error_of(object(vec![("plot_height", whole(-1))])) {
        Error::JsonTypeError { key: Some(_), expected: JsonType::Integer, got: JsonType::Number } => {},
        e => panic!("{e:?}"),
    }
    match error_of(object(vec![("block_width", dec(15, -1))])) {
        Error::JsonTypeError { key: Some(_), expected: JsonType::Integer, got: JsonType::Number } => {},
        e => panic!("{e:?}"),
    }
    match error_of(object(vec![("x_label_margin", whole(1 << 32))])) {
        Error::JsonTypeError { key: Some(_), expected: JsonType::Integer, got: JsonType::Number } => {},
        e => panic!("{e:?}"),
    }
    match error_of(object(vec![("title", whole(1))])) {
        Error::JsonTypeError { key: Some(key), expected: JsonType::Text, got: JsonType::Number } => {
            assert_eq!(key, "title")
        },
        e => panic!("{e:?}"),
    }
    match error_of(object(vec![("big_title", text("yes"))])) {
        Error::JsonTypeError { key: Some(_), expected: JsonType::Boolean, got: JsonType::Text } => {},
        e => panic!("{e:?}"),
    }
    match error_of(object(vec![("1d_data", object(vec![]))])) {
        Error::JsonTypeError { key: Some(_), expected: JsonType::Array(inner), got: JsonType::Object } => {
            assert_eq!(*inner, JsonType::Number)
        },
        e => panic!("{e:?}"),
    }
    match error_of(object(vec![("y_min", Json::Boolean(true))])) {
        Error::JsonTypeError { key: None, expected: JsonType::Number, got: JsonType::Boolean } => {},
        e => panic!("{e:?}"),
    }
    match error_of(object(vec![("paddings", Json::Array(vec![whole(1), text("2")]))])) {
        Error::JsonTypeError { key: Some(_), expected: JsonType::Integer, got: JsonType::Text } => {},
        e => panic!("{e:?}"),
    }
    match error_of(object(vec![("skip_range", text("none"))])) {
        Error::JsonTypeError { key: Some(_), expected: JsonType::Array(inner), got: JsonType::Text } => {
            assert_eq!(*inner, JsonType::Number)
        },
        e => panic!("{e:?}"),
    }
    match error_of(object(vec![("labeled_intervals", Json::Array(vec![Json::Array(vec![whole(0), text("1"), text("l")])]))])) {
        Error::JsonTypeError { key: Some(_), expected: JsonType::Integer, got: JsonType::Text } => {},
        e => panic!("{e:?}"),
    }
    match error_of(object(vec![("1d_labeled_data", Json::Array(vec![Json::Array(vec![whole(0), whole(1)])]))])) {
        Error::JsonTypeError { key: Some(_), expected: JsonType::Text, got: JsonType::Number } => {},
        e => panic!("{e:?}"),
    }
}

#[test]
fn arrays_of_the_wrong_length_are_errors() {
    match error_of(object(vec![("y_range", Json::Array(vec![whole(1)]))])) {
        Error::JsonArrayLengthError { key: Some(key), expected: 2, got: 1 } => assert_eq!(key, "y_range"),
        e => panic!("{e:?}"),
    }
    match error_of(object(vec![("y_range", whole(1))])) {
        Error::JsonArrayLengthError { key: Some(_), expected: 2, got: 0 } => {},
        e => panic!("{e:?}"),
    }
    match error_of(object(vec![("paddings", Json::Array(vec![whole(1), whole(2), whole(3)]))])) {
        Error::JsonArrayLengthError { key: Some(_), expected: 4, got: 3 } => {},
        e => panic!("{e:?}"),
    }
    match error_of(object(vec![("skip_range", Json::Array(vec![]))])) {
        Error::JsonArrayLengthError { key: Some(_), expected: 2, got: 0 } => {},
        e => panic!("{e:?}"),
    }
    match error_of(object(vec![("labeled_intervals", Json::Array(vec![Json::Array(vec![whole(0), whole(1)])]))])) {
        Error::JsonArrayLengthError { key: Some(_), expected: 3, got: 2 } => {},
        e => panic!("{e:?}"),
    }
    match error_of(object(vec![("1d_labeled_data", Json::Array(vec![Json::Array(vec![text("a")])]))])) {
        Error::JsonArrayLengthError { key: Some(_), expected: 2, got: 1 } => {},
        e => panic!("{e:?}"),
    }
}

#[test]
fn numerals_that_cannot_be_read_are_errors() {
    assert!(matches!(error_of(Json::Array(vec![whole(1), text("one")])), Error::HmathError(_)));
    assert!(matches!(error_of(object(vec![("y_max", text(""))])), Error::HmathError(_)));
}

#[test]
fn numerals_with_a_long_exponent_are_errors() {
    match error_of(Json::Array(vec![whole(1), text("1e-2147483648")])) {
        Error::ExponentTooLong(numeral) => assert_eq!(numeral, "1e-2147483648"),
        e => panic!("{e:?}"),
    }
    match error_of(object(vec![("y_min", text("2e999999"))])) {
        Error::ExponentTooLong(numeral) => assert_eq!(numeral, "2e999999"),
        e => panic!("{e:?}"),
    }
    // every exponent that a JSON number can have is read
    let least = Json::Number(JsonNumber { positive: true, mantissa: 0, exponent: i16::MIN });
    let graph = Graph::from_json(&Json::Array(vec![least, dec(1, 3)])).unwrap();
    assert!(graph.is_valid());
}

#[test]
fn a_range_that_starts_above_its_end_is_ignored() {
    let graph = Graph::from_json(&object(vec![
        ("1d_data", Json::Array(vec![whole(1), whole(2), whole(3), whole(50), whole(98), whole(99)])),
        ("plot_width", whole(6)),
        ("plot_height", whole(20)),
        ("y_range", Json::Array(vec![whole(0), whole(100)])),
        ("skip_range", Json::Array(vec![whole(90), whole(10)])),
    ]))
    .unwrap();
    assert!(graph.is_valid());
    assert!(!graph.draw().contains('~'));
}

#[test]
fn names_of_colors_and_modes_must_be_known() {
    match error_of(object(vec![("title_color", text("Light Grey"))])) {
        Error::InvalidColorName(name) => assert_eq!(name, "lightgrey"),
        e => panic!("{e:?}"),
    }
    match error_of(object(vec![("primary_color", text("rot"))])) {
        Error::InvalidColorName(name) => assert_eq!(name, "rot"),
        e => panic!("{e:?}"),
    }
    match error_of(object(vec![("color_mode", text("ANSI"))])) {
        Error::InvalidColorMode(name) => assert_eq!(name, "ansi"),
        e => panic!("{e:?}"),
    }
}

#[test]
fn the_first_error_is_reported() {
    match error_of(object(vec![("plot_width", text("8")), ("nonsense", whole(1))])) {
        Error::JsonTypeError { .. } => {},
        e => panic!("{e:?}"),
    }
}

#[test]
fn whole_numbers_have_no_exponent() {
    assert_eq!(whole(5).as_u32(), Some(5));
    assert_eq!(whole(-5).as_u32(), None);
    assert_eq!(whole(-5).as_i32(), Some(-5));
    assert_eq!(whole(i32::MIN as i64).as_i32(), Some(i32::MIN));
    assert_eq!(whole(i32::MAX as i64 + 1).as_i32(), None);
    assert_eq!(whole(u32::MAX as i64).as_u32(), Some(u32::MAX));
    assert_eq!(dec(5, 1).as_u32(), None);
    assert_eq!(dec(50, -1).as_i32(), None);
    assert_eq!(text("5").as_u32(), None);
    assert_eq!(text("5").as_str(), Some("5"));
    assert_eq!(whole(5).as_str(), None);
    assert_eq!(Json::Array(vec![]).get_type(), JsonType::Array(Box::new(JsonType::Any)));
}
