//! Print items: the pieces of content a task prints.

use vstd::prelude::*;
use crate::json::Number;
use crate::style::{PrintStyle, StyleView};
use crate::types::{BarcodeType, LineStyle, Rect};

verus! {

/// The kinds of print item.
#[derive(Debug, Clone, Copy, PartialEq, Eq, Structural)]
pub enum ItemKind {
    Text,
    Html,
    Table,
    Image,
    Barcode,
    Pdf,
    Line,
    Rect,
}

/// One piece of printed content. Lengths are in 0.1 mm; a line's width
/// keeps the JSON number it was given.
#[derive(Debug)]
pub enum PrintItem {
    Text { bounds: Rect, style: PrintStyle, text: String },
    Html { bounds: Rect, style: PrintStyle, html: String },
    Table { bounds: Rect, style: PrintStyle, html: String },
    /// `src` is a `data:...;base64,` URL, a local path, or a URL.
    Image { bounds: Rect, style: PrintStyle, src: String },
    Barcode { bounds: Rect, style: PrintStyle, btype: BarcodeType, value: String },
    /// `content` is base64 PDF data or a URL.
    Pdf { bounds: Rect, style: PrintStyle, content: String },
    Line {
        x1: i32,
        y1: i32,
        x2: i32,
        y2: i32,
        style: PrintStyle,
        line_style: LineStyle,
        line_width: Number,
    },
    Rect { bounds: Rect, style: PrintStyle, line_style: LineStyle, line_width: Number },
    /// A page break: prints nothing, starts a new page.
    PageBreak,
}

/// The mathematical form of a print item.
pub enum ItemView {
    Text { bounds: Rect, style: StyleView, text: Seq<char> },
    Html { bounds: Rect, style: StyleView, html: Seq<char> },
    Table { bounds: Rect, style: StyleView, html: Seq<char> },
    Image { bounds: Rect, style: StyleView, src: Seq<char> },
    Barcode { bounds: Rect, style: StyleView, btype: BarcodeType, value: Seq<char> },
    Pdf { bounds: Rect, style: StyleView, content: Seq<char> },
    Line {
        x1: i32,
        y1: i32,
        x2: i32,
        y2: i32,
        style: StyleView,
        line_style: LineStyle,
        line_width: Number,
    },
    Rect { bounds: Rect, style: StyleView, line_style: LineStyle, line_width: Number },
    PageBreak,
}

impl View for PrintItem {
    type V = ItemView;

    open spec fn view(&self) -> ItemView {
        match *self {
            PrintItem::Text { bounds, style, text } => ItemView::Text {
                bounds,
                style: style@,
                text: text@,
            },
            PrintItem::Html { bounds, style, html } => ItemView::Html {
                bounds,
                style: style@,
                html: html@,
            },
            PrintItem::Table { bounds, style, html } => ItemView::Table {
                bounds,
                style: style@,
                html: html@,
            },
            PrintItem::Image { bounds, style, src } => ItemView::Image {
                bounds,
                style: style@,
                src: src@,
            },
            PrintItem::Barcode { bounds, style, btype, value } => ItemView::Barcode {
                bounds,
                style: style@,
                btype,
                value: value@,
            },
            PrintItem::Pdf { bounds, style, content } => ItemView::Pdf {
                bounds,
                style: style@,
                content: content@,
            },
            PrintItem::Line { x1, y1, x2, y2, style, line_style, line_width } => ItemView::Line {
                x1,
                y1,
                x2,
                y2,
                style: style@,
                line_style,
                line_width,
            },
            PrintItem::Rect { bounds, style, line_style, line_width } => ItemView::Rect {
                bounds,
                style: style@,
                line_style,
                line_width,
            },
            PrintItem::PageBreak => ItemView::PageBreak,
        }
    }
}

/// The kind an item reports; a page break reports `Text`.
pub open spec fn kind_of(it: ItemView) -> ItemKind {
    match it {
        ItemView::Text { .. } => ItemKind::Text,
        ItemView::Html { .. } => ItemKind::Html,
        ItemView::Table { .. } => ItemKind::Table,
        ItemView::Image { .. } => ItemKind::Image,
        ItemView::Barcode { .. } => ItemKind::Barcode,
        ItemView::Pdf { .. } => ItemKind::Pdf,
        ItemView::Line { .. } => ItemKind::Line,
        ItemView::Rect { .. } => ItemKind::Rect,
        ItemView::PageBreak => ItemKind::Text,
    }
}

/// The style of an item, if it has one.
pub open spec fn style_of(it: ItemView) -> Option<StyleView> {
    match it {
        ItemView::Text { style, .. } => Some(style),
        ItemView::Html { style, .. } => Some(style),
        ItemView::Table { style, .. } => Some(style),
        ItemView::Image { style, .. } => Some(style),
        ItemView::Barcode { style, .. } => Some(style),
        ItemView::Pdf { style, .. } => Some(style),
        ItemView::Line { style, .. } => Some(style),
        ItemView::Rect { style, .. } => Some(style),
        ItemView::PageBreak => None,
    }
}

/// The item with its style replaced.
pub open spec fn with_style(it: ItemView, st: StyleView) -> ItemView {
    match it {
        ItemView::Text { bounds, text, .. } => ItemView::Text { bounds, style: st, text },
        ItemView::Html { bounds, html, .. } => ItemView::Html { bounds, style: st, html },
        ItemView::Table { bounds, html, .. } => ItemView::Table { bounds, style: st, html },
        ItemView::Image { bounds, src, .. } => ItemView::Image { bounds, style: st, src },
        ItemView::Barcode { bounds, btype, value, .. } => ItemView::Barcode {
            bounds,
            style: st,
            btype,
            value,
        },
        ItemView::Pdf { bounds, content, .. } => ItemView::Pdf { bounds, style: st, content },
        ItemView::Line { x1, y1, x2, y2, line_style, line_width, .. } => ItemView::Line {
            x1,
            y1,
            x2,
            y2,
            style: st,
            line_style,
            line_width,
        },
        ItemView::Rect { bounds, line_style, line_width, .. } => ItemView::Rect {
            bounds,
            style: st,
            line_style,
            line_width,
        },
        ItemView::PageBreak => ItemView::PageBreak,
    }
}

/// Putting an item's own style back leaves the item as it was.
pub proof fn lemma_with_style_same(it: ItemView)
    requires
        style_of(it) is Some,
    ensures
        with_style(it, style_of(it)->0) == it,
{
}

/// Whether a line's extent overflows `i32` (its bounds cannot be computed).
pub open spec fn bounds_overflow(it: ItemView) -> bool {
    match it {
        ItemView::Line { x1, y1, x2, y2, .. } => !(-i32::MAX <= x1 - x2 <= i32::MAX) || !(-i32::MAX
            <= y1 - y2 <= i32::MAX),
        _ => false,
    }
}

/// The absolute value of an integer.
pub open spec fn abs(x: int) -> int {
    if x < 0 {
        -x
    } else {
        x
    }
}

/// The smaller of two integers.
pub open spec fn min(a: int, b: int) -> int {
    if a <= b {
        a
    } else {
        b
    }
}

/// The rectangle an item covers: its bounds, or for a line the box spanned
/// by its two ends; a page break covers none.
pub open spec fn bounds_of(it: ItemView) -> Option<Rect> {
    match it {
        ItemView::Text { bounds, .. } => Some(bounds),
        ItemView::Html { bounds, .. } => Some(bounds),
        ItemView::Table { bounds, .. } => Some(bounds),
        ItemView::Image { bounds, .. } => Some(bounds),
        ItemView::Barcode { bounds, .. } => Some(bounds),
        ItemView::Pdf { bounds, .. } => Some(bounds),
        ItemView::Rect { bounds, .. } => Some(bounds),
        ItemView::Line { x1, y1, x2, y2, .. } => Some(
            Rect {
                top: min(y1 as int, y2 as int) as i32,
                left: min(x1 as int, x2 as int) as i32,
                width: abs(x1 - x2) as i32,
                height: abs(y1 - y2) as i32,
            },
        ),
        ItemView::PageBreak => None,
    }
}

impl PrintItem {
    /// A copy of the item.
    pub fn duplicate(&self) -> (r: PrintItem)
        ensures
            r@ == self@,
    {
        match self {
            PrintItem::Text { bounds, style, text } => PrintItem::Text { bounds: *bounds, style: style.duplicate(), text: text.clone() },
            PrintItem::Html { bounds, style, html } => PrintItem::Html { bounds: *bounds, style: style.duplicate(), html: html.clone() },
            PrintItem::Table { bounds, style, html } => PrintItem::Table { bounds: *bounds, style: style.duplicate(), html: html.clone() },
            PrintItem::Image { bounds, style, src } => PrintItem::Image { bounds: *bounds, style: style.duplicate(), src: src.clone() },
            PrintItem::Barcode { bounds, style, btype, value } => {
                PrintItem::Barcode { bounds: *bounds, style: style.duplicate(), btype: *btype, value: value.clone() }
            },
            PrintItem::Pdf { bounds, style, content } => PrintItem::Pdf { bounds: *bounds, style: style.duplicate(), content: content.clone() },
            PrintItem::Line { x1, y1, x2, y2, style, line_style, line_width } => PrintItem::Line {
                x1: *x1,
                y1: *y1,
                x2: *x2,
                y2: *y2,
                style: style.duplicate(),
                line_style: *line_style,
                line_width: *line_width,
            },
            PrintItem::Rect { bounds, style, line_style, line_width } => {
                PrintItem::Rect { bounds: *bounds, style: style.duplicate(), line_style: *line_style, line_width: *line_width }
            },
            PrintItem::PageBreak => PrintItem::PageBreak,
        }
    }

    /// The kind of the item.
    pub fn kind(&self) -> (k: ItemKind)
        ensures
            k == kind_of(self@),
    {
        match self {
            PrintItem::Text { .. } => ItemKind::Text,
            PrintItem::Html { .. } => ItemKind::Html,
            PrintItem::Table { .. } => ItemKind::Table,
            PrintItem::Image { .. } => ItemKind::Image,
            PrintItem::Barcode { .. } => ItemKind::Barcode,
            PrintItem::Pdf { .. } => ItemKind::Pdf,
            PrintItem::Line { .. } => ItemKind::Line,
            PrintItem::Rect { .. } => ItemKind::Rect,
            PrintItem::PageBreak => ItemKind::Text,
        }
    }

    /// The item's style, to change it in place; a page break has none.
    pub fn style_mut(&mut self) -> (r: Option<&mut PrintStyle>)
        ensures
            match r {
                Some(st) => style_of(old(self)@) == Some(st@) && final(self)@ == with_style(
                    old(self)@,
                    final(st)@,
                ),
                None => style_of(old(self)@) is None && final(self)@ == old(self)@,
            },
    {
        match self {
            PrintItem::Text { style, .. } => Some(style),
            PrintItem::Html { style, .. } => Some(style),
            PrintItem::Table { style, .. } => Some(style),
            PrintItem::Image { style, .. } => Some(style),
            PrintItem::Barcode { style, .. } => Some(style),
            PrintItem::Pdf { style, .. } => Some(style),
            PrintItem::Line { style, .. } => Some(style),
            PrintItem::Rect { style, .. } => Some(style),
            PrintItem::PageBreak => None,
        }
    }

    /// The rectangle the item covers.
    pub fn bounds(&self) -> (r: Option<Rect>)
        requires
            !bounds_overflow(self@),
        ensures
            r == bounds_of(self@),
    {
        match self {
            PrintItem::Text { bounds, .. } => Some(*bounds),
            PrintItem::Html { bounds, .. } => Some(*bounds),
            PrintItem::Table { bounds, .. } => Some(*bounds),
            PrintItem::Image { bounds, .. } => Some(*bounds),
            PrintItem::Barcode { bounds, .. } => Some(*bounds),
            PrintItem::Pdf { bounds, .. } => Some(*bounds),
            PrintItem::Rect { bounds, .. } => Some(*bounds),
            PrintItem::Line { x1, y1, x2, y2, .. } => {
                let dx = *x1 - *x2;
                let dy = *y1 - *y2;
                Some(
                    Rect {
                        top: if *y1 <= *y2 {
                            *y1
                        } else {
                            *y2
                        },
                        left: if *x1 <= *x2 {
                            *x1
                        } else {
                            *x2
                        },
                        width: if dx < 0 {
                            -dx
                        } else {
                            dx
                        },
                        height: if dy < 0 {
                            -dy
                        } else {
                            dy
                        },
                    },
                )
            },
            PrintItem::PageBreak => None,
        }
    }
}

} // verus!
