//! The shape primitives the renderer consumes: immutable value data produced
//! by the UI layer once per frame, one tagged variant per geometric primitive.

use vstd::prelude::*;
use crate::color::{Color, Stroke};
use crate::geom::{Pos, Rect, Rounding};
use crate::texture::TextureId;

verus! {

/// One glyph of a laid-out text row: where it sits relative to the row, and
/// which sub-rectangle of the font atlas holds its ink.
#[derive(Clone, Copy, PartialEq, Eq, Structural, Debug)]
pub struct Glyph {
    /// Position within the row's coordinate space.
    pub pos: Pos,
    /// Offset from that position to the top-left of the blitted rectangle.
    pub offset: Pos,
    /// Top-left of the glyph's source rectangle in the atlas.
    pub uv_min: Pos,
    /// Bottom-right of the glyph's source rectangle in the atlas.
    pub uv_max: Pos,
    /// Size of the destination rectangle on the surface.
    pub size: Pos,
}

impl Glyph {
    pub open spec fn wf(self) -> bool {
        self.pos.wf() && self.offset.wf() && self.uv_min.wf() && self.uv_max.wf()
            && self.size.wf()
    }
}

/// One laid-out row of a text shape.
#[derive(Clone, PartialEq, Eq, Debug)]
pub struct Row {
    /// The row's bounding rectangle; an underline runs along its bottom edge.
    pub rect: Rect,
    pub glyphs: Vec<Glyph>,
}

impl Row {
    pub open spec fn wf(self) -> bool {
        self.rect.wf() && forall|i: int| 0 <= i < self.glyphs@.len() ==> self.glyphs@[i].wf()
    }
}

/// A shape primitive. Group order is the z-order for overlapping ink.
pub enum Shape {
    /// Draws nothing.
    Empty,
    /// Child shapes painted in order.
    Group { shapes: Vec<Shape> },
    Circle { center: Pos, radius: i64, fill: Color, stroke: Stroke },
    /// A single open segment; stroked only.
    LineSegment { a: Pos, b: Pos, stroke: Stroke },
    /// An open or closed polyline; a closed one is filled before stroking.
    Path { points: Vec<Pos>, closed: bool, fill: Color, stroke: Stroke },
    /// A rectangle with four independent corner radii.
    Rect { rect: Rect, rounding: Rounding, fill: Color, stroke: Stroke },
    /// Styled text: glyph blits from a font atlas, plus an optional underline
    /// per row.
    Text { pos: Pos, rows: Vec<Row>, underline: Stroke, atlas: TextureId },
    /// A triangle mesh, reproduced as flat fills.
    Mesh { vertices: Vec<Pos>, indices: Vec<u32>, texture: TextureId },
    /// A quadratic Bézier curve through one control point.
    QuadraticBezier { start: Pos, control: Pos, end: Pos, closed: bool, fill: Color, stroke: Stroke },
    /// A cubic Bézier curve through two control points.
    CubicBezier {
        start: Pos,
        control1: Pos,
        control2: Pos,
        end: Pos,
        closed: bool,
        fill: Color,
        stroke: Stroke,
    },
}

impl Shape {
    /// Every coordinate of the shape lies within the coordinate bound, so the
    /// few sums the dispatcher forms cannot overflow.
    pub open spec fn wf(self) -> bool
        decreases self, 0int,
    {
        match self {
            Shape::Empty => true,
            Shape::Group { shapes } => shapes_wf(shapes@, shapes@.len() as int),
            Shape::Circle { center, radius, .. } => center.wf() && 0 <= radius
                <= crate::geom::COORD_LIMIT,
            Shape::LineSegment { a, b, .. } => a.wf() && b.wf(),
            Shape::Path { points, .. } => forall|i: int|
                0 <= i < points@.len() ==> points@[i].wf(),
            Shape::Rect { rect, rounding, .. } => rect.wf() && rounding.wf(),
            Shape::Text { pos, rows, .. } => pos.wf() && forall|i: int|
                0 <= i < rows@.len() ==> rows@[i].wf(),
            Shape::Mesh { vertices, .. } => forall|i: int|
                0 <= i < vertices@.len() ==> vertices@[i].wf(),
            Shape::QuadraticBezier { start, control, end, .. } => start.wf() && control.wf()
                && end.wf(),
            Shape::CubicBezier { start, control1, control2, end, .. } => start.wf()
                && control1.wf() && control2.wf() && end.wf(),
        }
    }
}

/// The first `upto` shapes of a group are well-formed.
pub open spec fn shapes_wf(shapes: Seq<Shape>, upto: int) -> bool
    decreases shapes, upto,
{
    if upto <= 0 {
        true
    } else {
        shapes_wf(shapes, upto - 1) && (upto <= shapes.len() ==> shapes[upto - 1].wf())
    }
}

/// Each of the first `upto` shapes of a well-formed group is well-formed.
pub proof fn lemma_shapes_wf_index(shapes: Seq<Shape>, upto: int, i: int)
    requires
        shapes_wf(shapes, upto),
        0 <= i < upto,
        i < shapes.len(),
    ensures
        shapes[i].wf(),
    decreases upto,
{
    if i < upto - 1 {
        lemma_shapes_wf_index(shapes, upto - 1, i);
    }
}

/// A clip rectangle and the shape whose ink it confines.
pub struct ClippedShape {
    pub clip: Rect,
    pub shape: Shape,
}

impl ClippedShape {
    pub open spec fn wf(self) -> bool {
        self.clip.wf() && self.shape.wf()
    }
}

} // verus!
