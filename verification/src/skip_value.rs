use vstd::prelude::*;
use crate::convert::IntoRatio;
use crate::number::Rational;

verus! {

/// Whether a plot leaves a range of values out, to spend no rows on an empty stretch
/// between the bulk of the data and a few values far from it.
#[derive(Clone, Debug)]
pub enum SkipValue {
    /// Nothing is left out.
    Disabled,
    /// The plot looks for a range to leave out.
    Automatic,
    /// The range from `from` to `to` is left out.
    Manual { from: Rational, to: Rational },
}

/// A skip policy as a mathematical value.
pub enum SkipView {
    Disabled,
    Automatic,
    Manual { from: real, to: real },
}

impl View for SkipValue {
    type V = SkipView;

    open spec fn view(&self) -> SkipView {
        match self {
            SkipValue::Disabled => SkipView::Disabled,
            SkipValue::Automatic => SkipView::Automatic,
            SkipValue::Manual { from, to } => SkipView::Manual { from: from@, to: to@ },
        }
    }
}

impl SkipValue {
    /// The bounds of a manual range are well-formed numbers.
    pub open spec fn wf(&self) -> bool {
        match self {
            SkipValue::Manual { from, to } => from.wf() && to.wf(),
            _ => true,
        }
    }

    /// Leaves nothing out.
    pub fn none() -> (r: Self)
        ensures
            r@ == SkipView::Disabled,
            r.wf(),
    {
        SkipValue::Disabled
    }

    /// Lets the plot decide whether to leave a range out.
    pub fn automatic() -> (r: Self)
        ensures
            r@ == SkipView::Automatic,
            r.wf(),
    {
        SkipValue::Automatic
    }

    /// Leaves the range from `from` to `to` out. A range that starts above its end is
    /// kept as it is given, and the plot leaves nothing out for it.
    pub fn manual<T: IntoRatio, U: IntoRatio>(from: T, to: U) -> (r: Self)
        requires
            from.convertible(),
            to.convertible(),
        ensures
            r@ == (SkipView::Manual { from: from.ratio(), to: to.ratio() }),
            r.wf(),
    {
        SkipValue::Manual { from: from.into_ratio(), to: to.into_ratio() }
    }

    /// Whether the plot decides.
    pub fn is_automatic(&self) -> (r: bool)
        ensures
            r == (self@ is Automatic),
    {
        match self {
            SkipValue::Automatic => true,
            _ => false,
        }
    }
}

} // verus!
