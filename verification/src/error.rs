use vstd::prelude::*;
use hmath::ConversionError;

verus! {

/// The type of a JSON value, as errors name it.
#[derive(Debug, PartialEq, Eq)]
pub enum JsonType {
    Any,
    Null,
    Boolean,
    Integer,
    Number,
    Text,
    Array(Box<JsonType>),
    Object,
}

/// What can be wrong with the description of a plot.
#[derive(Debug)]
#[allow(inconsistent_fields)]
pub enum Error {
    /// The value under `key`, or the whole description where there is no key, has the
    /// type `got` and not the type `expected`.
    JsonTypeError { key: Option<String>, expected: JsonType, got: JsonType },
    /// A text is no numeral.
    HmathError(ConversionError),
    /// A numeral cannot be read because its exponent is too long.
    ExponentTooLong(String),
    /// The description holds a key that means nothing.
    UnknownKey(String),
    /// The array under `key` has `got` members and not `expected`.
    JsonArrayLengthError { key: Option<String>, expected: usize, got: usize },
    /// No color has this name.
    InvalidColorName(String),
    /// No color mode has this name.
    InvalidColorMode(String),
}

/// An error as a mathematical value.
#[allow(inconsistent_fields)]
pub enum ErrorView {
    JsonTypeError { key: Option<Seq<char>>, expected: JsonType, got: JsonType },
    HmathError,
    ExponentTooLong(Seq<char>),
    UnknownKey(Seq<char>),
    JsonArrayLengthError { key: Option<Seq<char>>, expected: nat, got: nat },
    InvalidColorName(Seq<char>),
    InvalidColorMode(Seq<char>),
}

impl View for Error {
    type V = ErrorView;

    open spec fn view(&self) -> ErrorView {
        match self {
            Error::JsonTypeError { key, expected, got } => ErrorView::JsonTypeError {
                key: match key {
                    Some(key) => Some(key@),
                    None => None,
                },
                expected: *expected,
                got: *got,
            },
            Error::HmathError(_) => ErrorView::HmathError,
            Error::ExponentTooLong(text) => ErrorView::ExponentTooLong(text@),
            Error::UnknownKey(key) => ErrorView::UnknownKey(key@),
            Error::JsonArrayLengthError { key, expected, got } => ErrorView::JsonArrayLengthError {
                key: match key {
                    Some(key) => Some(key@),
                    None => None,
                },
                expected: *expected as nat,
                got: *got as nat,
            },
            Error::InvalidColorName(name) => ErrorView::InvalidColorName(name@),
            Error::InvalidColorMode(name) => ErrorView::InvalidColorMode(name@),
        }
    }
}

} // verus!
