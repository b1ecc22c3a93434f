use vstd::prelude::*;
use hmath::{BigInt, ConversionError, Ratio};
use crate::utils::{chars_of, decimal};

verus! {

/// The number that little-endian digits to the base 2^32 stand for.
pub open spec fn limbs_value(limbs: Seq<u32>) -> nat
    decreases limbs.len(),
{
    if limbs.len() == 0 {
        0
    } else {
        limbs[0] as nat + 0x1_0000_0000 * limbs_value(limbs.drop_first())
    }
}

/// The digits are there and have no leading zero.
pub open spec fn canonical(limbs: Seq<u32>) -> bool {
    limbs.len() >= 1 && (limbs.len() > 1 ==> limbs.last() != 0)
}

/// No number above one divides both `a` and `b`.
pub open spec fn coprime(a: nat, b: nat) -> bool {
    forall|d: nat| d > 1 ==> !(#[trigger] (a % d) == 0 && b % d == 0)
}

/// The whole number that `x` has when what follows the point is cut off.
pub open spec fn truncation(x: real) -> int {
    if x >= 0real {
        x.floor()
    } else {
        -((-x).floor())
    }
}

/// The whole number next to `x`; of the two next to a half, the one farther from zero.
pub open spec fn rounding(x: real) -> int {
    if x >= 0real {
        (x + 1real / 2real).floor()
    } else {
        -((-x + 1real / 2real).floor())
    }
}

/// Whether `x` is a whole number.
pub open spec fn is_whole(x: real) -> bool {
    x.floor() as real == x
}

/// The absolute value of `x`.
pub open spec fn magnitude(x: real) -> real {
    if x >= 0real { x } else { -x }
}

/// The decimal numeral of a whole number, with a minus sign where it is negative.
pub open spec fn int_decimal(v: int) -> Seq<char> {
    if v < 0 {
        seq!['-'] + decimal((-v) as nat)
    } else {
        decimal(v as nat)
    }
}

/// What `Ratio::to_approx_string` writes for the number `value` and the length `max_len`:
/// a decimal numeral of about that many characters, close to the number.
pub uninterp spec fn approx_string(value: real, max_len: nat) -> Seq<char>;

/// What `BigInt::to_scientific_notation` writes for the whole number `value` with at most
/// `digits` digits: the leading digits, `e` and the power of ten.
pub uninterp spec fn scientific_string(value: int, digits: nat) -> Seq<char>;

/// What `Ratio::from_string` reads from a text: the number that the numeral stands for,
/// or nothing where the text is no numeral.
pub uninterp spec fn parsed_number(text: Seq<char>) -> Option<real>;

/// The most characters, a sign not counted, that the exponent of a numeral may have to
/// be read. A longer exponent asks for a power of ten that no machine computes in
/// reasonable time, or for none that 32 bits hold.
pub const MAX_EXPONENT_LEN: usize = 5;

/// Whether the character marks the exponent of a numeral.
pub open spec fn is_exponent_mark(c: char) -> bool {
    c == 'e' || c == 'E'
}

/// Whether the exponent of the text starts behind position `at`: the first exponent mark
/// of the text stands there.
pub open spec fn exponent_starts(text: Seq<char>, at: int) -> bool {
    &&& 0 <= at < text.len()
    &&& is_exponent_mark(text[at])
    &&& forall|j: int| 0 <= j < at ==> !is_exponent_mark(#[trigger] text[j])
}

/// The number of characters behind the mark at `at`, a minus sign right behind the mark
/// not counted.
pub open spec fn exponent_len(text: Seq<char>, at: int) -> int {
    text.len() - at - 1 - if at + 1 < text.len() && text[at + 1] == '-' { 1int } else { 0int }
}

/// The first character of the text that is no minus sign, no zero and no point.
pub open spec fn first_other(text: Seq<char>) -> Option<char>
    decreases text.len(),
{
    if text.len() == 0 {
        None
    } else if text[0] == '-' || text[0] == '0' || text[0] == '.' {
        first_other(text.skip(1))
    } else {
        Some(text[0])
    }
}

/// Whether the text is written to the base sixteen: behind zeros comes an `x`. In such a
/// text an `e` is a digit, and there is no exponent.
pub open spec fn is_hexadecimal(text: Seq<char>) -> bool {
    first_other(text) == Some('x') || first_other(text) == Some('X')
}

/// Whether every exponent mark of the text, if it has one, is followed by at most
/// `MAX_EXPONENT_LEN` characters.
pub open spec fn exponent_is_short(text: Seq<char>) -> bool {
    forall|at: int| #[trigger] exponent_starts(text, at) ==> exponent_len(text, at) <= MAX_EXPONENT_LEN
}

/// Whether the text can be read as a numeral: it is written to the base sixteen, or has
/// no exponent, or one of at most `MAX_EXPONENT_LEN` characters.
pub open spec fn readable(text: Seq<char>) -> bool {
    is_hexadecimal(text) || exponent_is_short(text)
}

/// Whether the text is written to the base sixteen.
fn starts_hexadecimal(chars: &Vec<char>) -> (r: bool)
    ensures
        r == is_hexadecimal(chars@),
{
    let mut i: usize = 0;
    assert(chars@.skip(0) =~= chars@);
    while i < chars.len() && (chars[i] == '-' || chars[i] == '0' || chars[i] == '.')
        invariant
            i <= chars.len(),
            first_other(chars@) == first_other(chars@.skip(i as int)),
        decreases chars.len() - i,
    {
        assert(chars@.skip(i as int).skip(1) =~= chars@.skip(i + 1));
        i += 1;
    }
    i < chars.len() && (chars[i] == 'x' || chars[i] == 'X')
}

/// Whether the text can be read as a numeral: see `readable`.
pub fn is_readable(s: &str) -> (r: bool)
    ensures
        r == readable(s@),
{
    let chars = chars_of(s);
    if starts_hexadecimal(&chars) {
        return true;
    }
    let mut i: usize = 0;
    while i < chars.len() && !(chars[i] == 'e' || chars[i] == 'E')
        invariant
            i <= chars.len(),
            chars@ == s@,
            forall|j: int| 0 <= j < i ==> !is_exponent_mark(#[trigger] s@[j]),
        decreases chars.len() - i,
    {
        i += 1;
    }
    if i == chars.len() {
        assert forall|at: int| #[trigger] exponent_starts(s@, at) implies exponent_len(s@, at)
            <= MAX_EXPONENT_LEN by {
            assert(!is_exponent_mark(s@[at]));
        }
        return true;
    }
    assert(exponent_starts(s@, i as int));
    assert forall|at: int| #[trigger] exponent_starts(s@, at) implies at == i by {
        if at < i {
            assert(!is_exponent_mark(s@[at]));
        }
        if at > i {
            assert(is_exponent_mark(s@[i as int]));
        }
    }
    let signed = i + 1 < chars.len() && chars[i + 1] == '-';
    let len = chars.len() - i - 1 - if signed { 1 } else { 0 };
    len <= MAX_EXPONENT_LEN
}

/// A whole number is whole, and cutting it off leaves it as it is.
pub proof fn lemma_whole(k: int)
    ensures
        is_whole(k as real),
        truncation(k as real) == k,
        (k as real).floor() == k,
{
}

/// `hmath::ConversionError`: why a text could not be read as a number.
#[verifier::external_type_specification]
#[verifier::external_body]
pub struct ExConversionError(ConversionError);

/// An exact rational number of any size: a numerator with its sign over a positive
/// denominator, both as little-endian digits to the base 2^32, in lowest terms.
#[derive(Debug)]
pub struct Rational {
    numer: Vec<u32>,
    negative: bool,
    denom: Vec<u32>,
}

impl View for Rational {
    type V = real;

    closed spec fn view(&self) -> real {
        self.num() as real / self.den() as real
    }
}

impl Clone for Rational {
    fn clone(&self) -> (r: Self)
        ensures
            r@ == self@,
            r.wf() == self.wf(),
    {
        let r = Rational { numer: self.numer.clone(), negative: self.negative, denom: self.denom.clone() };
        assert(r.numer@ =~= self.numer@);
        assert(r.denom@ =~= self.denom@);
        r
    }
}

impl Rational {
    /// The numerator, with the sign.
    pub closed spec fn num(&self) -> int {
        if self.negative {
            -(limbs_value(self.numer@) as int)
        } else {
            limbs_value(self.numer@) as int
        }
    }

    /// The denominator.
    pub closed spec fn den(&self) -> int {
        limbs_value(self.denom@) as int
    }

    /// The number is in the one form that stands for its value: digits without leading
    /// zeros, a positive denominator, lowest terms, and zero as plus zero over one.
    pub closed spec fn wf(&self) -> bool {
        &&& canonical(self.numer@)
        &&& canonical(self.denom@)
        &&& self.den() > 0
        &&& (self.num() == 0 ==> !self.negative && self.den() == 1)
        &&& coprime(limbs_value(self.numer@), limbs_value(self.denom@))
    }

    /// `Ratio::from_i128`: the whole number `n`.
    #[verifier::external_body]
    pub(crate) fn from_i128(n: i128) -> (r: Rational)
        requires
            n > i128::MIN,
        ensures
            r.wf(),
            r@ == n as real,
    {
        let (denom, _, numer, negative) = Ratio::from_i128(n).into_raw();
        Rational { numer, negative, denom }
    }

    /// `Ratio::from` of a `u128`: the whole number `n`.
    #[verifier::external_body]
    pub(crate) fn from_u128(n: u128) -> (r: Rational)
        ensures
            r.wf(),
            r@ == n as real,
    {
        let (denom, _, numer, negative) = Ratio::from(n).into_raw();
        Rational { numer, negative, denom }
    }

    /// The whole number `n`.
    pub fn from_i32(n: i32) -> (r: Rational)
        ensures
            r.wf(),
            r@ == n as real,
    {
        Rational::from_i128(n as i128)
    }

    /// The whole number `n`.
    pub fn from_usize(n: usize) -> (r: Rational)
        ensures
            r.wf(),
            r@ == n as real,
    {
        Rational::from_u128(n as u128)
    }

    /// `Ratio::add_rat`: the sum.
    #[verifier::external_body]
    pub(crate) fn add(&self, other: &Rational) -> (r: Rational)
        requires
            self.wf(),
            other.wf(),
        ensures
            r.wf(),
            r@ == self@ + other@,
    {
        let a = Ratio::from_raw(self.denom.clone(), false, self.numer.clone(), self.negative);
        let b = Ratio::from_raw(other.denom.clone(), false, other.numer.clone(), other.negative);
        let (denom, _, numer, negative) = a.add_rat(&b).into_raw();
        Rational { numer, negative, denom }
    }

    /// `Ratio::sub_rat`: the difference.
    #[verifier::external_body]
    pub(crate) fn sub(&self, other: &Rational) -> (r: Rational)
        requires
            self.wf(),
            other.wf(),
        ensures
            r.wf(),
            r@ == self@ - other@,
    {
        let a = Ratio::from_raw(self.denom.clone(), false, self.numer.clone(), self.negative);
        let b = Ratio::from_raw(other.denom.clone(), false, other.numer.clone(), other.negative);
        let (denom, _, numer, negative) = a.sub_rat(&b).into_raw();
        Rational { numer, negative, denom }
    }

    /// `Ratio::mul_rat`: the product.
    #[verifier::external_body]
    pub(crate) fn mul(&self, other: &Rational) -> (r: Rational)
        requires
            self.wf(),
            other.wf(),
        ensures
            r.wf(),
            r@ == self@ * other@,
    {
        let a = Ratio::from_raw(self.denom.clone(), false, self.numer.clone(), self.negative);
        let b = Ratio::from_raw(other.denom.clone(), false, other.numer.clone(), other.negative);
        let (denom, _, numer, negative) = a.mul_rat(&b).into_raw();
        Rational { numer, negative, denom }
    }

    /// `Ratio::div_rat`: the quotient, where the divisor is not zero.
    #[verifier::external_body]
    pub(crate) fn div(&self, other: &Rational) -> (r: Rational)
        requires
            self.wf(),
            other.wf(),
            other@ != 0real,
        ensures
            r.wf(),
            r@ == self@ / other@,
    {
        let a = Ratio::from_raw(self.denom.clone(), false, self.numer.clone(), self.negative);
        let b = Ratio::from_raw(other.denom.clone(), false, other.numer.clone(), other.negative);
        let (denom, _, numer, negative) = a.div_rat(&b).into_raw();
        Rational { numer, negative, denom }
    }

    /// `Ratio::lt_rat`: whether this number is below `other`.
    #[verifier::external_body]
    pub(crate) fn lt(&self, other: &Rational) -> (r: bool)
        requires
            self.wf(),
            other.wf(),
        ensures
            r == (self@ < other@),
    {
        let a = Ratio::from_raw(self.denom.clone(), false, self.numer.clone(), self.negative);
        let b = Ratio::from_raw(other.denom.clone(), false, other.numer.clone(), other.negative);
        a.lt_rat(&b)
    }

    /// `Ratio::is_zero`: whether the number is zero.
    #[verifier::external_body]
    pub(crate) fn is_zero(&self) -> (r: bool)
        requires
            self.wf(),
        ensures
            r == (self@ == 0real),
    {
        Ratio::from_raw(self.denom.clone(), false, self.numer.clone(), self.negative).is_zero()
    }

    /// `Ratio::abs`: the absolute value.
    #[verifier::external_body]
    pub(crate) fn abs(&self) -> (r: Rational)
        requires
            self.wf(),
        ensures
            r.wf(),
            r@ == magnitude(self@),
    {
        let a = Ratio::from_raw(self.denom.clone(), false, self.numer.clone(), self.negative);
        let (denom, _, numer, negative) = a.abs().into_raw();
        Rational { numer, negative, denom }
    }

    /// `Ratio::truncate`: the number without what follows the point.
    #[verifier::external_body]
    pub(crate) fn truncate(&self) -> (r: Rational)
        requires
            self.wf(),
        ensures
            r.wf(),
            r@ == truncation(self@) as real,
    {
        let a = Ratio::from_raw(self.denom.clone(), false, self.numer.clone(), self.negative);
        let (denom, _, numer, negative) = a.truncate().into_raw();
        Rational { numer, negative, denom }
    }

    /// `Ratio::round`: the whole number next to this one, a half going away from zero.
    #[verifier::external_body]
    pub(crate) fn round(&self) -> (r: Rational)
        requires
            self.wf(),
        ensures
            r.wf(),
            r@ == rounding(self@) as real,
    {
        let a = Ratio::from_raw(self.denom.clone(), false, self.numer.clone(), self.negative);
        let (denom, _, numer, negative) = a.round().into_raw();
        Rational { numer, negative, denom }
    }

    /// `i32::try_from` of a `&Ratio`: the number without what follows the point, where
    /// that is within the range of `i32`.
    #[verifier::external_body]
    pub(crate) fn to_i32(&self) -> (r: Option<i32>)
        requires
            self.wf(),
        ensures
            r == (if i32::MIN <= truncation(self@) <= i32::MAX {
                Some(truncation(self@) as i32)
            } else {
                None::<i32>
            }),
    {
        let a = Ratio::from_raw(self.denom.clone(), false, self.numer.clone(), self.negative);
        i32::try_from(&a).ok()
    }

    /// `Ratio::to_approx_string`.
    #[verifier::external_body]
    pub(crate) fn to_approx_string(&self, max_len: usize) -> (r: String)
        requires
            self.wf(),
        ensures
            r@ == approx_string(self@, max_len as nat),
    {
        Ratio::from_raw(self.denom.clone(), false, self.numer.clone(), self.negative).to_approx_string(max_len)
    }

    /// `BigInt::to_string`, on the numerator of a whole number: its decimal numeral.
    #[verifier::external_body]
    pub(crate) fn whole_to_string(&self) -> (r: String)
        requires
            self.wf(),
            is_whole(self@),
        ensures
            r@ == int_decimal(truncation(self@)),
    {
        BigInt::from_raw(self.numer.clone(), self.negative).to_string()
    }

    /// `BigInt::to_scientific_notation`, on the numerator of a whole number.
    #[verifier::external_body]
    pub(crate) fn whole_to_scientific_notation(&self, digits: usize) -> (r: String)
        requires
            self.wf(),
            is_whole(self@),
        ensures
            r@ == scientific_string(truncation(self@), digits as nat),
    {
        BigInt::from_raw(self.numer.clone(), self.negative).to_scientific_notation(digits)
    }

    /// `Ratio::from_string`: the number that a numeral stands for, where the text is one,
    /// and else what is wrong with the text. Texts with a long exponent are left out: on
    /// an exponent that 32 bits do not hold with its sign turned the call fails, and on
    /// a large one it does not come back. The exponent is what stands behind the first
    /// `e` of a text that is not written to the base sixteen.
    #[verifier::external_body]
    pub(crate) fn from_string(s: &str) -> (r: Result<Rational, ConversionError>)
        requires
            readable(s@),
        ensures
            match r {
                Ok(number) => number.wf() && parsed_number(s@) == Some(number@),
                Err(_) => parsed_number(s@) is None,
            },
    {
        match Ratio::from_string(s) {
            Ok(ratio) => {
                let (denom, _, numer, negative) = ratio.into_raw();
                Ok(Rational { numer, negative, denom })
            },
            Err(e) => Err(e),
        }
    }

    /// Reads a numeral: nothing where the text cannot be read because its exponent is too
    /// long (see `readable`); else the number that the numeral stands for, or what is
    /// wrong with the text.
    pub fn read(s: &str) -> (r: Option<Result<Rational, ConversionError>>)
        ensures
            match r {
                None => !readable(s@),
                Some(Ok(number)) => readable(s@) && number.wf() && parsed_number(s@) == Some(number@),
                Some(Err(_)) => readable(s@) && parsed_number(s@) is None,
            },
    {
        if is_readable(s) {
            Some(Rational::from_string(s))
        } else {
            None
        }
    }
}

} // verus!
