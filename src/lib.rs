//! Styled terminal text written with as few ANSI escape sequences as
//! possible: a style algebra, a delta engine that picks the least escape code
//! between two styles, and a run encoder that applies it along a sequence of
//! styled fragments.
use vstd::prelude::*;

pub mod ansi;
pub mod difference;
pub mod display;
pub mod iter;
pub mod style;
pub mod write;

pub use difference::{BoolColoring, BoolStyle, Difference, StyleDelta, UpdateCommand};
pub use display::{
    AnsiByteString, AnsiByteStrings, AnsiGenericString, AnsiGenericStrings, AnsiString,
    AnsiStrings, OSControl, StyleUpdate,
};
pub use style::{Color, Coloring, FormatFlags, Style};
pub use iter::{ContentIter, StyleIter, WriteIter};
pub use write::{AnyWrite, Content};

verus! {

} // verus!
