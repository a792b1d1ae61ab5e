//! The shape dispatcher: for each primitive, the exact sequence of surface
//! operations that renders it, as a specification, and the executable emitter
//! proved to produce that sequence.

use vstd::prelude::*;
use crate::color::{Color, Stroke};
use crate::geom::{Pos, Rect, Rounding};
use crate::ops::CanvasOp;
use crate::shape::{lemma_shapes_wf_index, shapes_wf, Glyph, Row, Shape};
use crate::texture::TextureId;

verus! {

/// A circle: one full arc, filled then stroked.
pub open spec fn circle_ops(center: Pos, radius: i64, fill: Color, stroke: Stroke) -> Seq<
    CanvasOp,
> {
    seq![
        CanvasOp::BeginPath,
        CanvasOp::SetLineWidth { width: stroke.width },
        CanvasOp::SetStrokeColor { color: stroke.color },
        CanvasOp::SetFillColor { color: fill },
        CanvasOp::Arc { center, radius, start_quarter: 0, end_quarter: 4 },
        CanvasOp::Fill,
        CanvasOp::Stroke,
    ]
}

/// A line segment: a single open path, stroked only.
pub open spec fn line_ops(a: Pos, b: Pos, stroke: Stroke) -> Seq<CanvasOp> {
    seq![
        CanvasOp::BeginPath,
        CanvasOp::MoveTo { p: a },
        CanvasOp::SetLineWidth { width: stroke.width },
        CanvasOp::SetStrokeColor { color: stroke.color },
        CanvasOp::LineTo { p: b },
        CanvasOp::Stroke,
    ]
}

/// Straight segments through `points[1 .. upto]`, in order.
pub open spec fn polyline_ops(points: Seq<Pos>, upto: int) -> Seq<CanvasOp>
    decreases upto,
{
    if upto <= 1 {
        Seq::empty()
    } else {
        polyline_ops(points, upto - 1) + seq![CanvasOp::LineTo { p: points[upto - 1] }]
    }
}

/// A polyline through the ordered points; a closed one is additionally closed
/// and filled before the stroke. Fewer than two points draw nothing.
pub open spec fn path_ops(points: Seq<Pos>, closed: bool, fill: Color, stroke: Stroke) -> Seq<
    CanvasOp,
> {
    if points.len() < 2 {
        Seq::empty()
    } else {
        seq![
            CanvasOp::BeginPath,
            CanvasOp::SetLineWidth { width: stroke.width },
            CanvasOp::SetStrokeColor { color: stroke.color },
            CanvasOp::MoveTo { p: points[0] },
        ] + polyline_ops(points, points.len() as int) + (if closed {
            seq![CanvasOp::SetFillColor { color: fill }, CanvasOp::ClosePath, CanvasOp::Fill]
        } else {
            Seq::empty()
        }) + seq![CanvasOp::Stroke]
    }
}

/// A rounded rectangle: four quarter-circle arcs connected by straight edges,
/// walked clockwise from the top edge just right of the north-west corner,
/// filled then stroked.
pub open spec fn rect_ops(rect: Rect, rounding: Rounding, fill: Color, stroke: Stroke) -> Seq<
    CanvasOp,
> {
    seq![
        CanvasOp::BeginPath,
        CanvasOp::SetLineWidth { width: stroke.width },
        CanvasOp::SetStrokeColor { color: stroke.color },
        CanvasOp::SetFillColor { color: fill },
        CanvasOp::MoveTo { p: Pos { x: (rect.min.x + rounding.nw) as i64, y: rect.min.y } },
        CanvasOp::LineTo { p: Pos { x: (rect.max.x - rounding.ne) as i64, y: rect.min.y } },
        CanvasOp::Arc {
            center: Pos {
                x: (rect.max.x - rounding.ne) as i64,
                y: (rect.min.y + rounding.ne) as i64,
            },
            radius: rounding.ne,
            start_quarter: -1i64,
            end_quarter: 0,
        },
        CanvasOp::LineTo { p: Pos { x: rect.max.x, y: (rect.max.y - rounding.se) as i64 } },
        CanvasOp::Arc {
            center: Pos {
                x: (rect.max.x - rounding.se) as i64,
                y: (rect.max.y - rounding.se) as i64,
            },
            radius: rounding.se,
            start_quarter: 0,
            end_quarter: 1,
        },
        CanvasOp::LineTo { p: Pos { x: (rect.min.x + rounding.sw) as i64, y: rect.max.y } },
        CanvasOp::Arc {
            center: Pos {
                x: (rect.min.x + rounding.sw) as i64,
                y: (rect.max.y - rounding.sw) as i64,
            },
            radius: rounding.sw,
            start_quarter: 1,
            end_quarter: 2,
        },
        CanvasOp::LineTo { p: Pos { x: rect.min.x, y: (rect.min.y + rounding.nw) as i64 } },
        CanvasOp::Arc {
            center: Pos {
                x: (rect.min.x + rounding.nw) as i64,
                y: (rect.min.y + rounding.nw) as i64,
            },
            radius: rounding.nw,
            start_quarter: 2,
            end_quarter: 3,
        },
        CanvasOp::Fill,
        CanvasOp::Stroke,
    ]
}

/// One glyph blit: the glyph's source rectangle in the atlas, cropped, drawn
/// at glyph position + glyph offset + shape origin.
pub open spec fn glyph_op(g: Glyph, origin: Pos, atlas: TextureId) -> CanvasOp {
    CanvasOp::DrawImage {
        texture: atlas,
        src_pos: g.uv_min,
        src_size: Pos {
            x: (g.uv_max.x - g.uv_min.x) as i64,
            y: (g.uv_max.y - g.uv_min.y) as i64,
        },
        dst_pos: Pos {
            x: (g.pos.x + g.offset.x + origin.x) as i64,
            y: (g.pos.y + g.offset.y + origin.y) as i64,
        },
        dst_size: g.size,
    }
}

/// The blits of the first `upto` glyphs of a row.
pub open spec fn glyphs_ops(glyphs: Seq<Glyph>, origin: Pos, atlas: TextureId, upto: int) -> Seq<
    CanvasOp,
>
    decreases upto,
{
    if upto <= 0 {
        Seq::empty()
    } else {
        glyphs_ops(glyphs, origin, atlas, upto - 1) + (if upto <= glyphs.len() {
            seq![glyph_op(glyphs[upto - 1], origin, atlas)]
        } else {
            Seq::empty()
        })
    }
}

/// One row: its glyph blits, then, when the underline stroke is not "none", a
/// line segment along the row's bottom edge.
pub open spec fn row_ops(row: Row, origin: Pos, underline: Stroke, atlas: TextureId) -> Seq<
    CanvasOp,
> {
    glyphs_ops(row.glyphs@, origin, atlas, row.glyphs@.len() as int) + (if underline.is_none() {
        Seq::empty()
    } else {
        line_ops(
            Pos { x: row.rect.min.x, y: row.rect.max.y },
            Pos { x: row.rect.max.x, y: row.rect.max.y },
            underline,
        )
    })
}

/// The first `upto` rows of a text shape, in order.
pub open spec fn rows_ops(
    rows: Seq<Row>,
    origin: Pos,
    underline: Stroke,
    atlas: TextureId,
    upto: int,
) -> Seq<CanvasOp>
    decreases upto,
{
    if upto <= 0 {
        Seq::empty()
    } else {
        rows_ops(rows, origin, underline, atlas, upto - 1) + (if upto <= rows.len() {
            row_ops(rows[upto - 1], origin, underline, atlas)
        } else {
            Seq::empty()
        })
    }
}

/// A text run: every row in order.
pub open spec fn text_ops(pos: Pos, rows: Seq<Row>, underline: Stroke, atlas: TextureId) -> Seq<
    CanvasOp,
> {
    rows_ops(rows, pos, underline, atlas, rows.len() as int)
}

/// One mesh triangle, filled flat. A triangle with an index past the vertex
/// list is malformed geometry and degrades to a no-op.
pub open spec fn triangle_ops(vertices: Seq<Pos>, indices: Seq<u32>, t: int) -> Seq<CanvasOp> {
    let i0 = indices[3 * t] as int;
    let i1 = indices[3 * t + 1] as int;
    let i2 = indices[3 * t + 2] as int;
    if i0 < vertices.len() && i1 < vertices.len() && i2 < vertices.len() {
        seq![
            CanvasOp::BeginPath,
            CanvasOp::MoveTo { p: vertices[i0] },
            CanvasOp::LineTo { p: vertices[i1] },
            CanvasOp::LineTo { p: vertices[i2] },
            CanvasOp::ClosePath,
            CanvasOp::Fill,
        ]
    } else {
        Seq::empty()
    }
}

/// The first `upto` complete triangles of a mesh.
pub open spec fn triangles_ops(vertices: Seq<Pos>, indices: Seq<u32>, upto: int) -> Seq<CanvasOp>
    decreases upto,
{
    if upto <= 0 {
        Seq::empty()
    } else {
        triangles_ops(vertices, indices, upto - 1) + (if 3 * upto <= indices.len() {
            triangle_ops(vertices, indices, upto - 1)
        } else {
            Seq::empty()
        })
    }
}

/// A mesh: each complete index triple as a flat-filled triangle (an incomplete
/// trailing triple is ignored), then the capability warning.
pub open spec fn mesh_ops(vertices: Seq<Pos>, indices: Seq<u32>) -> Seq<CanvasOp> {
    triangles_ops(vertices, indices, indices.len() as int / 3) + seq![
        CanvasOp::WarnMeshUnsupported,
    ]
}

/// A quadratic Bézier curve; a closed one is closed and filled before the
/// stroke.
pub open spec fn quad_ops(
    start: Pos,
    control: Pos,
    end: Pos,
    closed: bool,
    fill: Color,
    stroke: Stroke,
) -> Seq<CanvasOp> {
    seq![
        CanvasOp::BeginPath,
        CanvasOp::SetLineWidth { width: stroke.width },
        CanvasOp::SetStrokeColor { color: stroke.color },
        CanvasOp::MoveTo { p: start },
    ] + (if closed {
        seq![CanvasOp::SetFillColor { color: fill }]
    } else {
        Seq::empty()
    }) + seq![CanvasOp::QuadraticCurveTo { control, end }] + (if closed {
        seq![CanvasOp::ClosePath, CanvasOp::Fill]
    } else {
        Seq::empty()
    }) + seq![CanvasOp::Stroke]
}

/// A cubic Bézier curve; a closed one is closed and filled before the stroke.
pub open spec fn cubic_ops(
    start: Pos,
    control1: Pos,
    control2: Pos,
    end: Pos,
    closed: bool,
    fill: Color,
    stroke: Stroke,
) -> Seq<CanvasOp> {
    seq![
        CanvasOp::BeginPath,
        CanvasOp::SetLineWidth { width: stroke.width },
        CanvasOp::SetStrokeColor { color: stroke.color },
        CanvasOp::MoveTo { p: start },
    ] + (if closed {
        seq![CanvasOp::SetFillColor { color: fill }]
    } else {
        Seq::empty()
    }) + seq![CanvasOp::CubicCurveTo { control1, control2, end }] + (if closed {
        seq![CanvasOp::ClosePath, CanvasOp::Fill]
    } else {
        Seq::empty()
    }) + seq![CanvasOp::Stroke]
}

/// The operations that render one shape: the dispatcher's specification.
pub open spec fn shape_ops(s: Shape) -> Seq<CanvasOp>
    decreases s, 0int,
{
    match s {
        Shape::Empty => Seq::empty(),
        Shape::Group { shapes } => group_ops(shapes@, shapes@.len() as int),
        Shape::Circle { center, radius, fill, stroke } => circle_ops(center, radius, fill, stroke),
        Shape::LineSegment { a, b, stroke } => line_ops(a, b, stroke),
        Shape::Path { points, closed, fill, stroke } => path_ops(points@, closed, fill, stroke),
        Shape::Rect { rect, rounding, fill, stroke } => rect_ops(rect, rounding, fill, stroke),
        Shape::Text { pos, rows, underline, atlas } => text_ops(pos, rows@, underline, atlas),
        Shape::Mesh { vertices, indices, texture } => mesh_ops(vertices@, indices@),
        Shape::QuadraticBezier { start, control, end, closed, fill, stroke } => quad_ops(
            start,
            control,
            end,
            closed,
            fill,
            stroke,
        ),
        Shape::CubicBezier { start, control1, control2, end, closed, fill, stroke } => cubic_ops(
            start,
            control1,
            control2,
            end,
            closed,
            fill,
            stroke,
        ),
    }
}

/// The operations of the first `upto` shapes of a group, in order: the order
/// is the z-order for overlapping ink.
pub open spec fn group_ops(shapes: Seq<Shape>, upto: int) -> Seq<CanvasOp>
    decreases shapes, upto,
{
    if upto <= 0 {
        Seq::empty()
    } else {
        group_ops(shapes, upto - 1) + (if upto <= shapes.len() {
            shape_ops(shapes[upto - 1])
        } else {
            Seq::empty()
        })
    }
}

/// Where a path-building operation leaves the pen, given where it found it.
pub open spec fn op_pen_after(op: CanvasOp, cur: (int, int)) -> (int, int) {
    match op {
        CanvasOp::MoveTo { p } => (p.x as int, p.y as int),
        CanvasOp::LineTo { p } => (p.x as int, p.y as int),
        CanvasOp::Arc { center, radius, start_quarter, end_quarter } => crate::ops::arc_point(
            center,
            radius,
            end_quarter as int,
        ),
        CanvasOp::QuadraticCurveTo { control, end } => (end.x as int, end.y as int),
        CanvasOp::CubicCurveTo { control1, control2, end } => (end.x as int, end.y as int),
        _ => cur,
    }
}

/// The pen position after the first `i` operations, starting from `start`.
pub open spec fn pen_at(ops: Seq<CanvasOp>, i: int, start: (int, int)) -> (int, int)
    decreases i,
{
    if i <= 0 {
        start
    } else {
        op_pen_after(ops[i - 1], pen_at(ops, i - 1, start))
    }
}

/// Every arc in the sequence begins exactly where the pen stands when the arc
/// is reached: the path has no jumps at its arcs.
pub open spec fn arcs_contiguous(ops: Seq<CanvasOp>, start: (int, int)) -> bool {
    forall|i: int|
        0 <= i < ops.len() && ops[i] is Arc ==> crate::ops::arc_point(
            ops[i]->Arc_center,
            ops[i]->Arc_radius,
            ops[i]->Arc_start_quarter as int,
        ) == pen_at(ops, i, start)
}

/// The number of arc operations in the sequence.
pub open spec fn arc_count(ops: Seq<CanvasOp>) -> int
    decreases ops.len(),
{
    if ops.len() == 0 {
        0
    } else {
        arc_count(ops.drop_last()) + (if ops.last() is Arc {
            1int
        } else {
            0int
        })
    }
}

/// The total turning of all arcs in the sequence, in quarter turns.
pub open spec fn arc_turn_quarters(ops: Seq<CanvasOp>) -> int
    decreases ops.len(),
{
    if ops.len() == 0 {
        0
    } else {
        arc_turn_quarters(ops.drop_last()) + (match ops.last() {
            CanvasOp::Arc { start_quarter, end_quarter, .. } => end_quarter - start_quarter,
            _ => 0,
        })
    }
}

/// For every rectangle whose per-corner radii are non-negative and
/// non-overlapping along each edge, the rounded-rectangle boundary path is
/// closed — each arc begins where the pen stands, and after the last arc the
/// pen is back at the path's starting point — and its four arc segments total
/// exactly one full turn: four quarter turns, 2π.
pub proof fn lemma_rect_path_closed_and_full_turn(
    rect: Rect,
    rounding: Rounding,
    fill: Color,
    stroke: Stroke,
)
    requires
        rect.wf(),
        rounding.wf(),
        rounding.fits(rect),
    ensures
        ({
            let ops = rect_ops(rect, rounding, fill, stroke);
            let start = ((rect.min.x + rounding.nw) as int, rect.min.y as int);
            &&& ops[4] == (CanvasOp::MoveTo {
                p: Pos { x: (rect.min.x + rounding.nw) as i64, y: rect.min.y },
            })
            &&& arcs_contiguous(ops, start)
            &&& pen_at(ops, ops.len() as int, start) == start
            &&& arc_count(ops) == 4
            &&& arc_turn_quarters(ops) == 4
        }),
{
    let ops = rect_ops(rect, rounding, fill, stroke);
    let start = ((rect.min.x + rounding.nw) as int, rect.min.y as int);
    reveal_with_fuel(pen_at, 17);
    reveal_with_fuel(arc_count, 17);
    reveal_with_fuel(arc_turn_quarters, 17);
    assert(crate::ops::quarter_cos(-1) == 0 && crate::ops::quarter_sin(-1) == -1);
    assert(crate::ops::quarter_cos(0) == 1 && crate::ops::quarter_sin(0) == 0);
    assert(crate::ops::quarter_cos(1) == 0 && crate::ops::quarter_sin(1) == 1);
    assert(crate::ops::quarter_cos(2) == -1 && crate::ops::quarter_sin(2) == 0);
    assert(crate::ops::quarter_cos(3) == 0 && crate::ops::quarter_sin(3) == -1);
    // Walk the pen around the boundary, one operation at a time.
    assert(pen_at(ops, 5, start) == start);
    assert(pen_at(ops, 6, start) == (rect.max.x - rounding.ne, rect.min.y as int));
    assert(pen_at(ops, 7, start) == (rect.max.x as int, rect.min.y + rounding.ne));
    assert(pen_at(ops, 8, start) == (rect.max.x as int, rect.max.y - rounding.se));
    assert(pen_at(ops, 9, start) == (rect.max.x - rounding.se, rect.max.y as int));
    assert(pen_at(ops, 10, start) == (rect.min.x + rounding.sw, rect.max.y as int));
    assert(pen_at(ops, 11, start) == (rect.min.x as int, rect.max.y - rounding.sw));
    assert(pen_at(ops, 12, start) == (rect.min.x as int, rect.min.y + rounding.nw));
    assert(pen_at(ops, 13, start) == start);
    assert(pen_at(ops, 15, start) == start);
    assert forall|i: int| 0 <= i < ops.len() && ops[i] is Arc implies crate::ops::arc_point(
        ops[i]->Arc_center,
        ops[i]->Arc_radius,
        ops[i]->Arc_start_quarter as int,
    ) == pen_at(ops, i, start) by {
        assert(i == 6 || i == 8 || i == 10 || i == 12);
    }
    assert(arc_count(ops) == 4);
    assert(arc_turn_quarters(ops) == 4);
}

/// No operation in the sequence touches the clip scope or the transform.
pub open spec fn scope_free(ops: Seq<CanvasOp>) -> bool {
    forall|i: int| 0 <= i < ops.len() ==> !crate::ops::is_scope_op(#[trigger] ops[i])
}

/// Two scope-free sequences concatenate to a scope-free sequence.
proof fn lemma_scope_free_concat(a: Seq<CanvasOp>, b: Seq<CanvasOp>)
    requires
        scope_free(a),
        scope_free(b),
    ensures
        scope_free(a + b),
{
    assert forall|i: int| 0 <= i < (a + b).len() implies !crate::ops::is_scope_op((a + b)[i]) by {
        if i < a.len() {
            assert((a + b)[i] == a[i]);
        } else {
            assert((a + b)[i] == b[i - a.len()]);
        }
    }
}

/// The dispatcher's output for one shape never touches the clip scope or the
/// transform: it contains no save, restore, clip, or scale operation, so a
/// shape's ink can never escape the clip rectangle established around it.
pub proof fn lemma_shape_ops_scope_free(s: Shape)
    ensures
        scope_free(shape_ops(s)),
    decreases s, 0int,
{
    match s {
        Shape::Group { shapes } => {
            lemma_group_ops_scope_free(shapes@, shapes@.len() as int);
        },
        Shape::Path { points, closed, fill, stroke } => {
            if points@.len() >= 2 {
                lemma_polyline_ops_scope_free(points@, points@.len() as int);
                let l1 = seq![
                    CanvasOp::BeginPath,
                    CanvasOp::SetLineWidth { width: stroke.width },
                    CanvasOp::SetStrokeColor { color: stroke.color },
                    CanvasOp::MoveTo { p: points@[0] },
                ];
                let poly = polyline_ops(points@, points@.len() as int);
                let mid = if closed {
                    seq![
                        CanvasOp::SetFillColor { color: fill },
                        CanvasOp::ClosePath,
                        CanvasOp::Fill,
                    ]
                } else {
                    Seq::empty()
                };
                let tail = seq![CanvasOp::Stroke];
                lemma_scope_free_concat(l1, poly);
                lemma_scope_free_concat(l1 + poly, mid);
                lemma_scope_free_concat(l1 + poly + mid, tail);
            }
        },
        Shape::Text { pos, rows, underline, atlas } => {
            lemma_rows_ops_scope_free(rows@, pos, underline, atlas, rows@.len() as int);
        },
        Shape::Mesh { vertices, indices, texture } => {
            lemma_triangles_ops_scope_free(vertices@, indices@, indices@.len() as int / 3);
            lemma_scope_free_concat(
                triangles_ops(vertices@, indices@, indices@.len() as int / 3),
                seq![CanvasOp::WarnMeshUnsupported],
            );
        },
        _ => {},
    }
}

proof fn lemma_polyline_ops_scope_free(points: Seq<Pos>, upto: int)
    ensures
        scope_free(polyline_ops(points, upto)),
    decreases upto,
{
    if upto > 1 {
        lemma_polyline_ops_scope_free(points, upto - 1);
        lemma_scope_free_concat(
            polyline_ops(points, upto - 1),
            seq![CanvasOp::LineTo { p: points[upto - 1] }],
        );
    }
}

proof fn lemma_glyphs_ops_scope_free(glyphs: Seq<Glyph>, origin: Pos, atlas: TextureId, upto: int)
    ensures
        scope_free(glyphs_ops(glyphs, origin, atlas, upto)),
    decreases upto,
{
    if upto > 0 {
        lemma_glyphs_ops_scope_free(glyphs, origin, atlas, upto - 1);
        lemma_scope_free_concat(
            glyphs_ops(glyphs, origin, atlas, upto - 1),
            if upto <= glyphs.len() {
                seq![glyph_op(glyphs[upto - 1], origin, atlas)]
            } else {
                Seq::empty()
            },
        );
    }
}

proof fn lemma_rows_ops_scope_free(
    rows: Seq<Row>,
    origin: Pos,
    underline: Stroke,
    atlas: TextureId,
    upto: int,
)
    ensures
        scope_free(rows_ops(rows, origin, underline, atlas, upto)),
    decreases upto,
{
    if upto > 0 {
        lemma_rows_ops_scope_free(rows, origin, underline, atlas, upto - 1);
        let one = if upto <= rows.len() {
            row_ops(rows[upto - 1], origin, underline, atlas)
        } else {
            Seq::empty()
        };
        if upto <= rows.len() {
            let row = rows[upto - 1];
            lemma_glyphs_ops_scope_free(row.glyphs@, origin, atlas, row.glyphs@.len() as int);
            lemma_scope_free_concat(
                glyphs_ops(row.glyphs@, origin, atlas, row.glyphs@.len() as int),
                if underline.is_none() {
                    Seq::empty()
                } else {
                    line_ops(
                        Pos { x: row.rect.min.x, y: row.rect.max.y },
                        Pos { x: row.rect.max.x, y: row.rect.max.y },
                        underline,
                    )
                },
            );
        }
        lemma_scope_free_concat(rows_ops(rows, origin, underline, atlas, upto - 1), one);
    }
}

proof fn lemma_triangles_ops_scope_free(vertices: Seq<Pos>, indices: Seq<u32>, upto: int)
    ensures
        scope_free(triangles_ops(vertices, indices, upto)),
    decreases upto,
{
    if upto > 0 {
        lemma_triangles_ops_scope_free(vertices, indices, upto - 1);
        lemma_scope_free_concat(
            triangles_ops(vertices, indices, upto - 1),
            if 3 * upto <= indices.len() {
                triangle_ops(vertices, indices, upto - 1)
            } else {
                Seq::empty()
            },
        );
    }
}

/// The operations of a group's shapes, taken together, touch no clip scope
/// either.
pub proof fn lemma_group_ops_scope_free(shapes: Seq<Shape>, upto: int)
    ensures
        scope_free(group_ops(shapes, upto)),
    decreases shapes, upto,
{
    if upto > 0 {
        lemma_group_ops_scope_free(shapes, upto - 1);
        if upto <= shapes.len() {
            lemma_shape_ops_scope_free(shapes[upto - 1]);
        }
        lemma_scope_free_concat(
            group_ops(shapes, upto - 1),
            if upto <= shapes.len() {
                shape_ops(shapes[upto - 1])
            } else {
                Seq::empty()
            },
        );
    }
}

fn push_circle_ops(center: Pos, radius: i64, fill: Color, stroke: Stroke, out: &mut Vec<CanvasOp>)
    ensures
        final(out)@ == old(out)@ + circle_ops(center, radius, fill, stroke),
{
    out.push(CanvasOp::BeginPath);
    out.push(CanvasOp::SetLineWidth { width: stroke.width });
    out.push(CanvasOp::SetStrokeColor { color: stroke.color });
    out.push(CanvasOp::SetFillColor { color: fill });
    out.push(CanvasOp::Arc { center, radius, start_quarter: 0, end_quarter: 4 });
    out.push(CanvasOp::Fill);
    out.push(CanvasOp::Stroke);
    proof {
        assert(out@ =~= old(out)@ + circle_ops(center, radius, fill, stroke));
    }
}

fn push_line_ops(a: Pos, b: Pos, stroke: Stroke, out: &mut Vec<CanvasOp>)
    ensures
        final(out)@ == old(out)@ + line_ops(a, b, stroke),
{
    out.push(CanvasOp::BeginPath);
    out.push(CanvasOp::MoveTo { p: a });
    out.push(CanvasOp::SetLineWidth { width: stroke.width });
    out.push(CanvasOp::SetStrokeColor { color: stroke.color });
    out.push(CanvasOp::LineTo { p: b });
    out.push(CanvasOp::Stroke);
    proof {
        assert(out@ =~= old(out)@ + line_ops(a, b, stroke));
    }
}

fn push_path_ops(points: &Vec<Pos>, closed: bool, fill: Color, stroke: Stroke, out: &mut Vec<CanvasOp>)
    ensures
        final(out)@ == old(out)@ + path_ops(points@, closed, fill, stroke),
{
    let n = points.len();
    if n < 2 {
        proof {
            assert(out@ =~= old(out)@ + path_ops(points@, closed, fill, stroke));
        }
        return ;
    }
    out.push(CanvasOp::BeginPath);
    out.push(CanvasOp::SetLineWidth { width: stroke.width });
    out.push(CanvasOp::SetStrokeColor { color: stroke.color });
    out.push(CanvasOp::MoveTo { p: points[0] });
    let ghost head = out@;
    let mut i: usize = 1;
    while i < n
        invariant
            n == points@.len(),
            1 <= i <= n,
            out@ == head + polyline_ops(points@, i as int),
        decreases n - i,
    {
        out.push(CanvasOp::LineTo { p: points[i] });
        proof {
            assert(out@ =~= head + polyline_ops(points@, i + 1 as int));
        }
        i = i + 1;
    }
    if closed {
        out.push(CanvasOp::SetFillColor { color: fill });
        out.push(CanvasOp::ClosePath);
        out.push(CanvasOp::Fill);
    }
    out.push(CanvasOp::Stroke);
    proof {
        assert(out@ =~= old(out)@ + path_ops(points@, closed, fill, stroke));
    }
}

fn push_rect_ops(rect: Rect, rounding: Rounding, fill: Color, stroke: Stroke, out: &mut Vec<CanvasOp>)
    requires
        rect.wf(),
        rounding.wf(),
    ensures
        final(out)@ == old(out)@ + rect_ops(rect, rounding, fill, stroke),
{
    out.push(CanvasOp::BeginPath);
    out.push(CanvasOp::SetLineWidth { width: stroke.width });
    out.push(CanvasOp::SetStrokeColor { color: stroke.color });
    out.push(CanvasOp::SetFillColor { color: fill });
    out.push(CanvasOp::MoveTo { p: Pos { x: rect.min.x + rounding.nw, y: rect.min.y } });
    out.push(CanvasOp::LineTo { p: Pos { x: rect.max.x - rounding.ne, y: rect.min.y } });
    out.push(
        CanvasOp::Arc {
            center: Pos { x: rect.max.x - rounding.ne, y: rect.min.y + rounding.ne },
            radius: rounding.ne,
            start_quarter: -1,
            end_quarter: 0,
        },
    );
    out.push(CanvasOp::LineTo { p: Pos { x: rect.max.x, y: rect.max.y - rounding.se } });
    out.push(
        CanvasOp::Arc {
            center: Pos { x: rect.max.x - rounding.se, y: rect.max.y - rounding.se },
            radius: rounding.se,
            start_quarter: 0,
            end_quarter: 1,
        },
    );
    out.push(CanvasOp::LineTo { p: Pos { x: rect.min.x + rounding.sw, y: rect.max.y } });
    out.push(
        CanvasOp::Arc {
            center: Pos { x: rect.min.x + rounding.sw, y: rect.max.y - rounding.sw },
            radius: rounding.sw,
            start_quarter: 1,
            end_quarter: 2,
        },
    );
    out.push(CanvasOp::LineTo { p: Pos { x: rect.min.x, y: rect.min.y + rounding.nw } });
    out.push(
        CanvasOp::Arc {
            center: Pos { x: rect.min.x + rounding.nw, y: rect.min.y + rounding.nw },
            radius: rounding.nw,
            start_quarter: 2,
            end_quarter: 3,
        },
    );
    out.push(CanvasOp::Fill);
    out.push(CanvasOp::Stroke);
    proof {
        assert(out@ =~= old(out)@ + rect_ops(rect, rounding, fill, stroke));
    }
}

fn push_row_ops(row: &Row, origin: Pos, underline: Stroke, atlas: TextureId, out: &mut Vec<CanvasOp>)
    requires
        row.wf(),
        origin.wf(),
    ensures
        final(out)@ == old(out)@ + row_ops(*row, origin, underline, atlas),
{
    let n = row.glyphs.len();
    let ghost base = out@;
    let mut i: usize = 0;
    while i < n
        invariant
            n == row.glyphs@.len(),
            i <= n,
            row.wf(),
            origin.wf(),
            out@ == base + glyphs_ops(row.glyphs@, origin, atlas, i as int),
        decreases n - i,
    {
        let g = row.glyphs[i];
        out.push(
            CanvasOp::DrawImage {
                texture: atlas,
                src_pos: g.uv_min,
                src_size: Pos { x: g.uv_max.x - g.uv_min.x, y: g.uv_max.y - g.uv_min.y },
                dst_pos: Pos {
                    x: g.pos.x + g.offset.x + origin.x,
                    y: g.pos.y + g.offset.y + origin.y,
                },
                dst_size: g.size,
            },
        );
        proof {
            assert(out@ =~= base + glyphs_ops(row.glyphs@, origin, atlas, i + 1 as int));
        }
        i = i + 1;
    }
    let is_none = underline.width == 0 && underline.color.r == 0 && underline.color.g == 0
        && underline.color.b == 0 && underline.color.a == 0;
    if !is_none {
        push_line_ops(
            Pos { x: row.rect.min.x, y: row.rect.max.y },
            Pos { x: row.rect.max.x, y: row.rect.max.y },
            underline,
            out,
        );
    }
    proof {
        assert(out@ =~= old(out)@ + row_ops(*row, origin, underline, atlas));
    }
}

fn push_text_ops(pos: Pos, rows: &Vec<Row>, underline: Stroke, atlas: TextureId, out: &mut Vec<CanvasOp>)
    requires
        pos.wf(),
        forall|i: int| 0 <= i < rows@.len() ==> rows@[i].wf(),
    ensures
        final(out)@ == old(out)@ + text_ops(pos, rows@, underline, atlas),
{
    let n = rows.len();
    let ghost base = out@;
    let mut i: usize = 0;
    while i < n
        invariant
            n == rows@.len(),
            i <= n,
            pos.wf(),
            forall|j: int| 0 <= j < rows@.len() ==> rows@[j].wf(),
            out@ == base + rows_ops(rows@, pos, underline, atlas, i as int),
        decreases n - i,
    {
        push_row_ops(&rows[i], pos, underline, atlas, out);
        proof {
            assert(out@ =~= base + rows_ops(rows@, pos, underline, atlas, i + 1 as int));
        }
        i = i + 1;
    }
}

fn push_mesh_ops(vertices: &Vec<Pos>, indices: &Vec<u32>, out: &mut Vec<CanvasOp>)
    ensures
        final(out)@ == old(out)@ + mesh_ops(vertices@, indices@),
{
    let nidx = indices.len();
    let ntri = nidx / 3;
    let ghost base = out@;
    let mut t: usize = 0;
    while t < ntri
        invariant
            nidx == indices@.len(),
            ntri == nidx / 3,
            t <= ntri,
            out@ == base + triangles_ops(vertices@, indices@, t as int),
        decreases ntri - t,
    {
        proof {
            assert(3 * (t as int) + 2 < nidx as int);
        }
        let i0 = indices[3 * t] as usize;
        let i1 = indices[3 * t + 1] as usize;
        let i2 = indices[3 * t + 2] as usize;
        if i0 < vertices.len() && i1 < vertices.len() && i2 < vertices.len() {
            out.push(CanvasOp::BeginPath);
            out.push(CanvasOp::MoveTo { p: vertices[i0] });
            out.push(CanvasOp::LineTo { p: vertices[i1] });
            out.push(CanvasOp::LineTo { p: vertices[i2] });
            out.push(CanvasOp::ClosePath);
            out.push(CanvasOp::Fill);
        }
        proof {
            assert(out@ =~= base + triangles_ops(vertices@, indices@, t + 1 as int));
        }
        t = t + 1;
    }
    out.push(CanvasOp::WarnMeshUnsupported);
    proof {
        assert(out@ =~= old(out)@ + mesh_ops(vertices@, indices@));
    }
}

fn push_quad_ops(
    start: Pos,
    control: Pos,
    end: Pos,
    closed: bool,
    fill: Color,
    stroke: Stroke,
    out: &mut Vec<CanvasOp>,
)
    ensures
        final(out)@ == old(out)@ + quad_ops(start, control, end, closed, fill, stroke),
{
    out.push(CanvasOp::BeginPath);
    out.push(CanvasOp::SetLineWidth { width: stroke.width });
    out.push(CanvasOp::SetStrokeColor { color: stroke.color });
    out.push(CanvasOp::MoveTo { p: start });
    if closed {
        out.push(CanvasOp::SetFillColor { color: fill });
    }
    out.push(CanvasOp::QuadraticCurveTo { control, end });
    if closed {
        out.push(CanvasOp::ClosePath);
        out.push(CanvasOp::Fill);
    }
    out.push(CanvasOp::Stroke);
    proof {
        assert(out@ =~= old(out)@ + quad_ops(start, control, end, closed, fill, stroke));
    }
}

fn push_cubic_ops(
    start: Pos,
    control1: Pos,
    control2: Pos,
    end: Pos,
    closed: bool,
    fill: Color,
    stroke: Stroke,
    out: &mut Vec<CanvasOp>,
)
    ensures
        final(out)@ == old(out)@ + cubic_ops(start, control1, control2, end, closed, fill, stroke),
{
    out.push(CanvasOp::BeginPath);
    out.push(CanvasOp::SetLineWidth { width: stroke.width });
    out.push(CanvasOp::SetStrokeColor { color: stroke.color });
    out.push(CanvasOp::MoveTo { p: start });
    if closed {
        out.push(CanvasOp::SetFillColor { color: fill });
    }
    out.push(CanvasOp::CubicCurveTo { control1, control2, end });
    if closed {
        out.push(CanvasOp::ClosePath);
        out.push(CanvasOp::Fill);
    }
    out.push(CanvasOp::Stroke);
    proof {
        assert(out@ =~= old(out)@ + cubic_ops(start, control1, control2, end, closed, fill, stroke));
    }
}

/// Appends to `out` the operations that render `shape`: the polymorphic
/// dispatch over the shape variants, recursing into groups in z-order.
/// Malformed geometry degrades to a no-op for that primitive; no input aborts
/// the frame.
pub fn paint_shape(shape: &Shape, out: &mut Vec<CanvasOp>)
    requires
        shape.wf(),
    ensures
        final(out)@ == old(out)@ + shape_ops(*shape),
    decreases *shape, 0int,
{
    match shape {
        Shape::Empty => {
            proof {
                assert(out@ =~= old(out)@ + shape_ops(*shape));
            }
        },
        Shape::Group { shapes } => {
            let n = shapes.len();
            let ghost base = out@;
            let mut i: usize = 0;
            while i < n
                invariant
                    *shape == (Shape::Group { shapes: *shapes }),
                    n == shapes@.len(),
                    i <= n,
                    shapes_wf(shapes@, n as int),
                    out@ == base + group_ops(shapes@, i as int),
                decreases n - i,
            {
                proof {
                    lemma_shapes_wf_index(shapes@, n as int, i as int);
                    broadcast use vstd::std_specs::vec::group_vec_axioms;
                    assert(decreases_to!(*shape => (*shape)->Group_shapes));
                    assert((*shape)->Group_shapes == *shapes);
                    assert(decreases_to!(*shapes => shapes@));
                    assert(decreases_to!(shapes@ => shapes@[i as int]));
                }
                paint_shape(&shapes[i], out);
                proof {
                    assert(out@ =~= base + group_ops(shapes@, i + 1 as int));
                }
                i = i + 1;
            }
        },
        Shape::Circle { center, radius, fill, stroke } => {
            push_circle_ops(*center, *radius, *fill, *stroke, out);
        },
        Shape::LineSegment { a, b, stroke } => {
            push_line_ops(*a, *b, *stroke, out);
        },
        Shape::Path { points, closed, fill, stroke } => {
            push_path_ops(points, *closed, *fill, *stroke, out);
        },
        Shape::Rect { rect, rounding, fill, stroke } => {
            push_rect_ops(*rect, *rounding, *fill, *stroke, out);
        },
        Shape::Text { pos, rows, underline, atlas } => {
            push_text_ops(*pos, rows, *underline, *atlas, out);
        },
        Shape::Mesh { vertices, indices, texture } => {
            push_mesh_ops(vertices, indices, out);
        },
        Shape::QuadraticBezier { start, control, end, closed, fill, stroke } => {
            push_quad_ops(*start, *control, *end, *closed, *fill, *stroke, out);
        },
        Shape::CubicBezier { start, control1, control2, end, closed, fill, stroke } => {
            push_cubic_ops(*start, *control1, *control2, *end, *closed, *fill, *stroke, out);
        },
    }
}

} // verus!
