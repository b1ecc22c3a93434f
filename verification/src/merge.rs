use vstd::prelude::*;
use crate::color::{ColorMode, ColorModeView};
use crate::graph::merge::{merged_horiz, merged_vert};

verus! {

/// Where the narrower of two blocks of plain text goes when one is set above the other.
#[derive(Clone, Copy, Debug, PartialEq, Eq, Structural)]
pub enum Alignment {
    Left,
    Right,
    Center,
}

impl Alignment {
    /// The same placement, as the canvas names it.
    pub open spec fn placement(self) -> crate::alignment::Alignment {
        match self {
            Alignment::Left => crate::alignment::Alignment::First,
            Alignment::Right => crate::alignment::Alignment::Last,
            Alignment::Center => crate::alignment::Alignment::Center,
        }
    }
}

/// One block of plain text above another, with `margin` blank rows between them. An empty
/// text leaves the other as it is.
pub open spec fn stacked(text1: Seq<char>, text2: Seq<char>, margin: nat, alignment: Alignment) -> Seq<char> {
    if text1.len() == 0 {
        text2
    } else if text2.len() == 0 {
        text1
    } else {
        merged_vert(text1, text2, ColorModeView::Plain, alignment.placement(), margin)
    }
}

/// Two blocks of plain text side by side, with `margin` blank columns between them; the
/// shorter one stands at the bottom. An empty text leaves the other as it is.
pub open spec fn abreast(text1: Seq<char>, text2: Seq<char>, margin: nat) -> Seq<char> {
    if text1.len() == 0 {
        text2
    } else if text2.len() == 0 {
        text1
    } else {
        merged_horiz(text1, text2, ColorModeView::Plain, crate::alignment::Alignment::Last, margin)
    }
}

/// Sets one block of plain text above another.
pub fn merge_vert(str1: &String, str2: &String, margin: usize, alignment: Alignment) -> (r: String)
    ensures
        r@ == stacked(str1@, str2@, margin as nat, alignment),
{
    if str1.as_str().is_empty() {
        return str2.clone();
    }
    if str2.as_str().is_empty() {
        return str1.clone();
    }
    let placement = match alignment {
        Alignment::Left => crate::alignment::Alignment::First,
        Alignment::Right => crate::alignment::Alignment::Last,
        Alignment::Center => crate::alignment::Alignment::Center,
    };
    crate::graph::merge::merge_vert(str1.as_str(), str2.as_str(), ColorMode::Plain, placement, margin)
}

/// Sets two blocks of plain text side by side.
pub fn merge_horiz(str1: &String, str2: &String, margin: usize) -> (r: String)
    ensures
        r@ == abreast(str1@, str2@, margin as nat),
{
    if str1.as_str().is_empty() {
        return str2.clone();
    }
    if str2.as_str().is_empty() {
        return str1.clone();
    }
    crate::graph::merge::merge_horiz(
        str1.as_str(),
        str2.as_str(),
        ColorMode::Plain,
        crate::alignment::Alignment::Last,
        margin,
    )
}

} // verus!
