//! Character-cell plots of numeric series, and the text canvas they are composed on.
//!
//! Numbers are exact rationals: pass decimal strings where binary floating point would
//! round, for example `"3.2"` for a bound of the y axis.

pub mod alignment;
pub mod color;
pub mod utils;
pub mod lines;
pub mod merge;
pub mod width;
pub mod interval;
pub mod number;
pub mod format;
pub mod convert;
pub mod skip_value;
pub mod error;
pub mod json;
pub mod graph;

pub use alignment::Alignment;
pub use color::{Color, ColorMode};
pub use graph::{merge_horiz, merge_vert, Graph};
pub use skip_value::SkipValue;
