use asciigraph::convert::{or_zero, IntoRatio};
use asciigraph::format::{format_ratio, DefaultFormatter, NumberFormatter, YLabelFormatter};

fn shown<T: IntoRatio>(value: T) -> String {
    format_ratio(&value.into_ratio())
}

#[test]
fn whole_numbers_of_every_type() {
    assert_eq!(shown(-7i8), "-7");
    assert_eq!(shown(300i16), "300");
    assert_eq!(shown(-70000i32), "-70000");
    assert_eq!(shown(i32::MIN), "-2.147e9");
    assert_eq!(shown(123456789i64), "123456789");
    assert_eq!(shown(i64::MIN), "-9.223e18");
    assert_eq!(shown(-5i128), "-5");
    assert_eq!(shown(i128::MIN), "-1.701e38");
    assert_eq!(shown(-12isize), "-12");
    assert_eq!(shown(255u8), "255");
    assert_eq!(shown(65535u16), "65535");
    assert_eq!(shown(4000000000u32), "4e9");
    assert_eq!(shown(u64::MAX), "1.844e19");
    assert_eq!(shown(u128::MAX), "3.402e38");
    assert_eq!(shown(17usize), "17");
    assert_eq!(shown(0), "0");
}

#[test]
fn numerals_are_read_exactly() {
    assert_eq!(shown("3.2"), "3.2");
    assert_eq!(shown(String::from("-0.125")), "-0.125");
    assert_eq!(shown("1e3"), "1000");
    assert_eq!(shown("12.5e-1"), "1.25");
    assert_eq!(shown("0.1").len(), 3);
}

#[test]
fn text_that_is_no_numeral_counts_as_zero() {
    assert_eq!(shown("abc"), "0");
    assert_eq!(shown(""), "0");
    assert_eq!(shown("1/3"), "0");
    assert_eq!(format_ratio(&or_zero(None)), "0");
    assert_eq!(format_ratio(&or_zero(Some(5.into_ratio()))), "5");
}

#[test]
fn numerals_with_a_long_exponent_count_as_zero() {
    assert_eq!(shown("1e-2147483648"), "0");
    assert_eq!(shown("1e2147483647"), "0");
    assert_eq!(shown(String::from("25E123456")), "0");
    assert_eq!(shown("1e-123456"), "0");
    // five characters behind the mark, and a sign, are read
    assert_eq!(shown("125e-2"), "1.25");
    assert_eq!(shown("1e-99999"), "1e-99999");
    assert_eq!(shown("25e12"), "2.5e13");
    assert_eq!(shown("1E3"), "1000");
    // to the base sixteen an `e` is a digit
    assert_eq!(shown("0x1e000000"), "503316480");
    assert_eq!(shown("0xe"), "14");
}

#[test]
fn a_number_converts_to_itself() {
    let third = "0.75".into_ratio();
    assert_eq!(format_ratio(&third.into_ratio()), "0.75");
}

#[test]
fn small_numbers_are_written_with_their_fraction() {
    assert_eq!(shown("0.5"), "0.5");
    assert_eq!(shown("3.14159265358979"), "3.141592");
    assert_eq!(shown("999.9999"), "999.9999");
    assert_eq!(shown("-999.5"), "-999.5");
    assert_eq!(shown("0.000001234"), "0.000001");
    assert_eq!(shown(100), "100");
}

#[test]
fn numbers_from_a_thousand_on_lose_their_fraction() {
    assert_eq!(shown(1000), "1000");
    assert_eq!(shown("1000.999"), "1000");
    assert_eq!(shown("-1000.7"), "-1000");
    assert_eq!(shown("123456789.9"), "123456789");
    assert_eq!(shown(999999999), "999999999");
    assert_eq!(shown(-999999999), "-999999999");
}

#[test]
fn numbers_from_a_billion_on_are_written_with_an_exponent() {
    assert_eq!(shown(1000000000), "1e9");
    assert_eq!(shown(-1000000000), "-1e9");
    assert_eq!(shown("-1234567890123"), "-1.234e12");
    assert_eq!(shown("1e30"), "1e30");
    assert_eq!(shown("98765e20"), "9.876e24");
}

#[test]
fn the_default_formatter_writes_labels() {
    assert_eq!(DefaultFormatter.f(&"2.5".into_ratio()), "2.5");
    assert_eq!(DefaultFormatter.f(&2000000000.into_ratio()), "2e9");
    let formatter = YLabelFormatter { prefix: String::from("~"), suffix: String::from(" m") };
    assert_eq!(formatter.f(&"2.5".into_ratio()), "~2.5 m");
    assert_eq!(YLabelFormatter::new().f(&"2.5".into_ratio()), "2.5");
}
