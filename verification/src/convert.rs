use vstd::prelude::*;
use crate::number::{parsed_number, readable, Rational};

verus! {

/// What can be turned into an exact number.
pub trait IntoRatio {
    /// Whether the value can be turned into a number: every value of the integer and
    /// text types can.
    spec fn convertible(&self) -> bool;

    /// The number that the value stands for.
    spec fn ratio(&self) -> real;

    /// The value as an exact number.
    fn into_ratio(&self) -> (r: Rational)
        requires
            self.convertible(),
        ensures
            r.wf(),
            r@ == self.ratio(),
    ;
}

/// The number that a text stands for: what the numeral in it says, and zero where the
/// text is no numeral or cannot be read because its exponent is too long.
pub open spec fn number_of_text(text: Seq<char>) -> real {
    match parsed_number(text) {
        Some(value) if readable(text) => value,
        _ => 0real,
    }
}

/// The number that was read, or zero where none was.
pub fn or_zero(parsed: Option<Rational>) -> (r: Rational)
    requires
        parsed matches Some(number) ==> number.wf(),
    ensures
        r.wf(),
        r@ == match parsed {
            Some(number) => number@,
            None => 0real,
        },
{
    match parsed {
        Some(number) => number,
        None => Rational::from_i32(0),
    }
}

/// The whole number `n`.
pub fn ratio_of_i128(n: i128) -> (r: Rational)
    ensures
        r.wf(),
        r@ == n as real,
{
    if n == i128::MIN {
        Rational::from_i128(n + 1).sub(&Rational::from_i128(1))
    } else {
        Rational::from_i128(n)
    }
}

impl IntoRatio for i8 {
    open spec fn convertible(&self) -> bool {
        true
    }

    open spec fn ratio(&self) -> real {
        *self as real
    }

    fn into_ratio(&self) -> (r: Rational) {
        ratio_of_i128(*self as i128)
    }
}

impl IntoRatio for i16 {
    open spec fn convertible(&self) -> bool {
        true
    }

    open spec fn ratio(&self) -> real {
        *self as real
    }

    fn into_ratio(&self) -> (r: Rational) {
        ratio_of_i128(*self as i128)
    }
}

impl IntoRatio for i32 {
    open spec fn convertible(&self) -> bool {
        true
    }

    open spec fn ratio(&self) -> real {
        *self as real
    }

    fn into_ratio(&self) -> (r: Rational) {
        ratio_of_i128(*self as i128)
    }
}

impl IntoRatio for i64 {
    open spec fn convertible(&self) -> bool {
        true
    }

    open spec fn ratio(&self) -> real {
        *self as real
    }

    fn into_ratio(&self) -> (r: Rational) {
        ratio_of_i128(*self as i128)
    }
}

impl IntoRatio for i128 {
    open spec fn convertible(&self) -> bool {
        true
    }

    open spec fn ratio(&self) -> real {
        *self as real
    }

    fn into_ratio(&self) -> (r: Rational) {
        ratio_of_i128(*self)
    }
}

impl IntoRatio for isize {
    open spec fn convertible(&self) -> bool {
        true
    }

    open spec fn ratio(&self) -> real {
        *self as real
    }

    fn into_ratio(&self) -> (r: Rational) {
        ratio_of_i128(*self as i128)
    }
}

impl IntoRatio for u8 {
    open spec fn convertible(&self) -> bool {
        true
    }

    open spec fn ratio(&self) -> real {
        *self as real
    }

    fn into_ratio(&self) -> (r: Rational) {
        Rational::from_u128(*self as u128)
    }
}

impl IntoRatio for u16 {
    open spec fn convertible(&self) -> bool {
        true
    }

    open spec fn ratio(&self) -> real {
        *self as real
    }

    fn into_ratio(&self) -> (r: Rational) {
        Rational::from_u128(*self as u128)
    }
}

impl IntoRatio for u32 {
    open spec fn convertible(&self) -> bool {
        true
    }

    open spec fn ratio(&self) -> real {
        *self as real
    }

    fn into_ratio(&self) -> (r: Rational) {
        Rational::from_u128(*self as u128)
    }
}

impl IntoRatio for u64 {
    open spec fn convertible(&self) -> bool {
        true
    }

    open spec fn ratio(&self) -> real {
        *self as real
    }

    fn into_ratio(&self) -> (r: Rational) {
        Rational::from_u128(*self as u128)
    }
}

impl IntoRatio for u128 {
    open spec fn convertible(&self) -> bool {
        true
    }

    open spec fn ratio(&self) -> real {
        *self as real
    }

    fn into_ratio(&self) -> (r: Rational) {
        Rational::from_u128(*self)
    }
}

impl IntoRatio for usize {
    open spec fn convertible(&self) -> bool {
        true
    }

    open spec fn ratio(&self) -> real {
        *self as real
    }

    fn into_ratio(&self) -> (r: Rational) {
        Rational::from_u128(*self as u128)
    }
}

impl IntoRatio for Rational {
    open spec fn convertible(&self) -> bool {
        self.wf()
    }

    open spec fn ratio(&self) -> real {
        self@
    }

    fn into_ratio(&self) -> (r: Rational) {
        self.clone()
    }
}

impl IntoRatio for String {
    open spec fn convertible(&self) -> bool {
        true
    }

    open spec fn ratio(&self) -> real {
        number_of_text(self@)
    }

    fn into_ratio(&self) -> (r: Rational) {
        match Rational::read(self.as_str()) {
            Some(Ok(number)) => or_zero(Some(number)),
            _ => or_zero(None),
        }
    }
}

impl IntoRatio for &str {
    open spec fn convertible(&self) -> bool {
        true
    }

    open spec fn ratio(&self) -> real {
        number_of_text(self@)
    }

    fn into_ratio(&self) -> (r: Rational) {
        match Rational::read(self) {
            Some(Ok(number)) => or_zero(Some(number)),
            _ => or_zero(None),
        }
    }
}

} // verus!
