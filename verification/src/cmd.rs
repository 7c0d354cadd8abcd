//! The display list: what one render pass asks the drawing surface to paint.
//!
//! The engine never touches a drawing surface; it emits a list of commands
//! that a host plays back in order.  All coordinates are in half-pixel units,
//! twice the pixel value: the half-pixel offsets that crisp single-pixel
//! strokes require are then exact integers, and an odd coordinate names a
//! pixel center.  Text is painted with a middle baseline in the fixed text
//! color; every other color is named from the palette below.

use vstd::prelude::*;

use crate::cell::{CellText, CellTextV};
use crate::schema::Align;

verus! {

/// A named color of the fixed palette; the host maps each name to its paint.
#[derive(Debug, Clone, Copy, PartialEq, Eq, Structural)]
pub enum PaintColor {
    /// The whole widget's backdrop.
    Background,
    /// The content area inside the margin.
    ContentArea,
    /// Gridline strokes.
    GridLine,
    /// The translucent recency overlay.
    Overlay,
    /// Bid-side depth bars.
    BidBar,
    /// Ask-side depth bars.
    AskBar,
    /// Sparkline segments below, above and at the first sample's value.
    SparkRed,
    SparkGreen,
    SparkGray,
}

/// One drawing command, in half-pixel coordinates.
#[derive(Debug, Clone, PartialEq, Eq)]
pub enum DrawCmd {
    /// Fill the rectangle with a solid or translucent color.
    FillRect { x: i64, y: i64, w: i64, h: i64, color: PaintColor },
    /// Stroke one line segment.
    Line { x1: i64, y1: i64, x2: i64, y2: i64, color: PaintColor },
    /// Paint middle-baseline text anchored at (`x`, `y`).
    Text { content: CellText, x: i64, y: i64, align: Align },
    /// Push the graphics state and clip to the rectangle.
    ClipBegin { x: i64, y: i64, w: i64, h: i64 },
    /// Pop the graphics state, releasing the clip.
    ClipEnd,
}

/// The mathematical value of a drawing command: text by its characters.
pub enum DrawCmdV {
    FillRect { x: i64, y: i64, w: i64, h: i64, color: PaintColor },
    Line { x1: i64, y1: i64, x2: i64, y2: i64, color: PaintColor },
    Text { content: CellTextV, x: i64, y: i64, align: Align },
    ClipBegin { x: i64, y: i64, w: i64, h: i64 },
    ClipEnd,
}

impl View for DrawCmd {
    type V = DrawCmdV;

    open spec fn view(&self) -> DrawCmdV {
        match self {
            DrawCmd::FillRect { x, y, w, h, color } => DrawCmdV::FillRect {
                x: *x,
                y: *y,
                w: *w,
                h: *h,
                color: *color,
            },
            DrawCmd::Line { x1, y1, x2, y2, color } => DrawCmdV::Line {
                x1: *x1,
                y1: *y1,
                x2: *x2,
                y2: *y2,
                color: *color,
            },
            DrawCmd::Text { content, x, y, align } => DrawCmdV::Text {
                content: content@,
                x: *x,
                y: *y,
                align: *align,
            },
            DrawCmd::ClipBegin { x, y, w, h } => DrawCmdV::ClipBegin {
                x: *x,
                y: *y,
                w: *w,
                h: *h,
            },
            DrawCmd::ClipEnd => DrawCmdV::ClipEnd,
        }
    }
}

/// The commands' mathematical values, in order.
pub open spec fn views_of(cmds: Seq<DrawCmd>) -> Seq<DrawCmdV> {
    cmds.map_values(|c: DrawCmd| c@)
}

/// Taking views commutes with appending one command.
pub proof fn lemma_views_push(s: Seq<DrawCmd>, c: DrawCmd)
    ensures
        views_of(s.push(c)) =~= views_of(s).push(c@),
{
}

/// Taking views commutes with concatenation.
pub proof fn lemma_views_concat(a: Seq<DrawCmd>, b: Seq<DrawCmd>)
    ensures
        views_of(a + b) =~= views_of(a) + views_of(b),
{
}

} // verus!
