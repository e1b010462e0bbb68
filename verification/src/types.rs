//! Common types: rectangles, paper orientation, barcode kinds, line styles.

use vstd::prelude::*;
use vstd::std_specs::convert::FromSpecImpl;
use crate::text::{ascii_lower_seq, chars_equal, chars_of, lower_chars};

verus! {

/// A rectangle, in units of 0.1 mm.
#[derive(Debug, Clone, Copy, PartialEq, Eq, Structural)]
pub struct Rect {
    pub top: i32,
    pub left: i32,
    pub width: i32,
    pub height: i32,
}

impl Rect {
    /// A rectangle from its four fields.
    pub fn new(top: i32, left: i32, width: i32, height: i32) -> (r: Rect)
        ensures
            r == (Rect { top, left, width, height }),
    {
        Rect { top, left, width, height }
    }
}

/// Paper orientation.
#[derive(Debug, Clone, Copy, PartialEq, Eq, Structural)]
pub enum Orient {
    Portrait,
    Landscape,
    Roll,
}

/// The orientation a number selects: 2 landscape, 3 roll, anything else
/// portrait.
pub open spec fn orient_of(n: i32) -> Orient {
    if n == 2 {
        Orient::Landscape
    } else if n == 3 {
        Orient::Roll
    } else {
        Orient::Portrait
    }
}

impl From<i32> for Orient {
    fn from(n: i32) -> (r: Orient) {
        if n == 2 {
            Orient::Landscape
        } else if n == 3 {
            Orient::Roll
        } else {
            Orient::Portrait
        }
    }
}

impl FromSpecImpl<i32> for Orient {
    open spec fn obeys_from_spec() -> bool {
        true
    }

    open spec fn from_spec(n: i32) -> Orient {
        orient_of(n)
    }
}

/// Barcode symbologies.
#[derive(Debug, Clone, Copy, PartialEq, Eq, Structural)]
pub enum BarcodeType {
    QRCode,
    Code128,
    Code39,
    EAN13,
    EAN8,
    UpcA,
    UpcE,
    PDF417,
    DataMatrix,
}

/// Line styles.
#[derive(Debug, Clone, Copy, PartialEq, Eq, Structural)]
pub enum LineStyle {
    Solid,
    Dashed,
    Dotted,
}

impl Default for LineStyle {
    fn default() -> (r: LineStyle)
        ensures
            r == LineStyle::Solid,
    {
        LineStyle::Solid
    }
}

/// The style a name selects, ignoring ASCII case: `dashed`, `dotted`, and
/// solid for anything else.
pub open spec fn line_style_of(s: Seq<char>) -> LineStyle {
    if ascii_lower_seq(s) == "dashed"@ {
        LineStyle::Dashed
    } else if ascii_lower_seq(s) == "dotted"@ {
        LineStyle::Dotted
    } else {
        LineStyle::Solid
    }
}

impl LineStyle {
    /// Parses a style name.
    pub fn parse(s: &str) -> (r: LineStyle)
        ensures
            r == line_style_of(s@),
    {
        let lower = lower_chars(&chars_of(s));
        if chars_equal(&lower, "dashed") {
            LineStyle::Dashed
        } else if chars_equal(&lower, "dotted") {
            LineStyle::Dotted
        } else {
            LineStyle::Solid
        }
    }
}

} // verus!
