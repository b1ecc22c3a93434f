use vstd::prelude::*;

verus! {

/// Where the smaller of two rectangles goes when they are stacked or set side by side.
///
/// For a vertical stack `First` is the left edge and `Last` the right edge; for a
/// horizontal row `First` is the top and `Last` the bottom.
#[derive(Clone, Copy, Debug, PartialEq, Eq, Structural)]
pub enum Alignment {
    First,
    Last,
    Center,
}

impl Alignment {
    /// The blank cells put before a part that is `slack` cells smaller than the whole.
    /// A centred part gets the larger half in front when `slack` is odd.
    pub open spec fn lead(self, slack: nat) -> nat {
        match self {
            Alignment::First => 0,
            Alignment::Last => slack,
            Alignment::Center => slack / 2 + slack % 2,
        }
    }

    /// The blank cells put after the part: what `lead` leaves of `slack`.
    pub open spec fn trail(self, slack: nat) -> nat {
        (slack - self.lead(slack)) as nat
    }

    /// Splits `slack` blank cells into those before and those after the part.
    pub fn split(self, slack: usize) -> (r: (usize, usize))
        ensures
            r.0 == self.lead(slack as nat),
            r.1 == self.trail(slack as nat),
            r.0 + r.1 == slack,
    {
        match self {
            Alignment::First => (0, slack),
            Alignment::Last => (slack, 0),
            Alignment::Center => (slack / 2 + slack % 2, slack / 2),
        }
    }
}

} // verus!
