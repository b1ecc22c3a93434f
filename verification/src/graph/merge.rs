use vstd::prelude::*;
use crate::alignment::Alignment;
use crate::color::{ColorMode, ColorModeView};
use crate::lines::{Canvas, Lines};

verus! {

/// Two texts side by side, `margin` blank columns between them; the shorter one is placed
/// beside the taller as `alignment` says.
pub open spec fn merged_horiz(
    text1: Seq<char>,
    text2: Seq<char>,
    color_mode: ColorModeView,
    alignment: Alignment,
    margin: nat,
) -> Seq<char> {
    Canvas::from_text(text1, Alignment::First, color_mode).add_padding(0, 0, 0, margin).merge_horizontally(
        Canvas::from_text(text2, Alignment::First, color_mode),
        alignment,
    ).text(ColorModeView::Plain)
}

/// One text above the other, `margin` blank rows between them; the narrower one is placed
/// as `alignment` says.
pub open spec fn merged_vert(
    text1: Seq<char>,
    text2: Seq<char>,
    color_mode: ColorModeView,
    alignment: Alignment,
    margin: nat,
) -> Seq<char> {
    Canvas::from_text(text1, Alignment::First, color_mode).add_padding(0, margin, 0, 0).merge_vertically(
        Canvas::from_text(text2, Alignment::First, color_mode),
        alignment,
    ).text(ColorModeView::Plain)
}

/// Sets two plots side by side.
///
/// `color_mode` is the mode in which both were drawn, so that their color sequences are
/// not counted as columns; for other text it is `ColorMode::Plain`. The two must have been
/// drawn in the same mode, and plots drawn as markup cannot be merged: their width is not
/// measured.
pub fn merge_horiz(str1: &str, str2: &str, color_mode: ColorMode, alignment: Alignment, margin: usize) -> (r: String)
    ensures
        r@ == merged_horiz(str1@, str2@, color_mode@, alignment, margin as nat),
{
    let l1 = Lines::from_string(str1, Alignment::First, &color_mode).add_padding([0, 0, 0, margin]);
    let l2 = Lines::from_string(str2, Alignment::First, &color_mode);
    l1.merge_horizontally(&l2, alignment).to_string(&ColorMode::Plain)
}

/// Sets one plot above another. See `merge_horiz` for `color_mode`.
pub fn merge_vert(str1: &str, str2: &str, color_mode: ColorMode, alignment: Alignment, margin: usize) -> (r: String)
    ensures
        r@ == merged_vert(str1@, str2@, color_mode@, alignment, margin as nat),
{
    let l1 = Lines::from_string(str1, Alignment::First, &color_mode).add_padding([0, margin, 0, 0]);
    let l2 = Lines::from_string(str2, Alignment::First, &color_mode);
    l1.merge_vertically(&l2, alignment).to_string(&ColorMode::Plain)
}

} // verus!
