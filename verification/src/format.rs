use vstd::prelude::*;
use vstd::string::StringExecFns;
use crate::number::{lemma_whole, approx_string, int_decimal, magnitude, scientific_string, truncation, Rational};

verus! {

/// A way to write a number as a label of the y axis.
pub trait NumberFormatter {
    /// The label of the number `value`.
    spec fn formatted(&self, value: real) -> Seq<char>;

    /// Writes the label of `n`.
    fn f(&self, n: &Rational) -> (r: String)
        requires
            n.wf(),
        ensures
            r@ == self.formatted(n@),
    ;
}

/// The labels that plots carry unless told otherwise: see `label_of`.
pub struct DefaultFormatter;

/// The label of a number: below a thousand in size, a short decimal numeral; from there
/// up to a billion, the whole part; beyond that, the whole part in scientific notation
/// with four digits.
pub open spec fn label_of(value: real) -> Seq<char> {
    if magnitude(value) < 1000real {
        approx_string(value, 8)
    } else {
        let whole = truncation(value);
        if -1_000_000_000 < whole < 1_000_000_000 {
            int_decimal(whole)
        } else {
            scientific_string(whole, 4)
        }
    }
}

impl NumberFormatter for DefaultFormatter {
    open spec fn formatted(&self, value: real) -> Seq<char> {
        label_of(value)
    }

    fn f(&self, n: &Rational) -> (r: String) {
        format_ratio(n)
    }
}

/// Writes the label of `n`.
pub fn format_ratio(n: &Rational) -> (r: String)
    requires
        n.wf(),
    ensures
        r@ == label_of(n@),
{
    let thousand = Rational::from_i32(1000);
    if n.abs().lt(&thousand) {
        n.to_approx_string(8)
    } else {
        let whole = n.truncate();
        let billion = Rational::from_i32(1_000_000_000);
        proof {
            lemma_whole(truncation(n@));
        }
        if whole.abs().lt(&billion) {
            whole.whole_to_string()
        } else {
            whole.whole_to_scientific_notation(4)
        }
    }
}

/// The labels of the y axis of a plot: those of `label_of`, each between a prefix and a
/// suffix, such as a sign of a currency or a unit.
#[derive(Clone, Debug)]
pub struct YLabelFormatter {
    pub prefix: String,
    pub suffix: String,
}

impl YLabelFormatter {
    /// Labels without a prefix or a suffix.
    pub fn new() -> (r: Self)
        ensures
            r.prefix@.len() == 0,
            r.suffix@.len() == 0,
    {
        YLabelFormatter { prefix: String::new(), suffix: String::new() }
    }
}

impl NumberFormatter for YLabelFormatter {
    open spec fn formatted(&self, value: real) -> Seq<char> {
        self.prefix@ + label_of(value) + self.suffix@
    }

    fn f(&self, n: &Rational) -> (r: String) {
        let mut label = self.prefix.clone();
        label.append(format_ratio(n).as_str());
        label.append(self.suffix.as_str());
        label
    }
}

} // verus!
