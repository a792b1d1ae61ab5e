use canvas_paint::color::{Color, Stroke};
use canvas_paint::dispatch::paint_shape;
use canvas_paint::geom::{Pos, Rect, Rounding};
use canvas_paint::ops::CanvasOp;
use canvas_paint::shape::Shape;
use canvas_paint::texture::TextureId;

#[test]
fn it_works() {
    let result = 2 + 2;
    assert_eq!(result, 4);
}

fn ops_of(shape: &Shape) -> Vec<CanvasOp> {
    let mut out = Vec::new();
    paint_shape(shape, &mut out);
    out
}

const RED: Color = Color { r: 255, g: 0, b: 0, a: 255 };
const BLUE: Color = Color { r: 0, g: 0, b: 255, a: 255 };
const NONE: Stroke = Stroke { width: 0, color: Color { r: 0, g: 0, b: 0, a: 0 } };

#[test]
fn empty_shape_is_a_no_op() {
    assert_eq!(ops_of(&Shape::Empty), vec![]);
}

// A single horizontal segment with an opaque red stroke of width 2: one open
// path from (0,0) to (10,0), stroked only.
#[test]
fn line_segment_scenario() {
    let shape = Shape::LineSegment {
        a: Pos { x: 0, y: 0 },
        b: Pos { x: 10, y: 0 },
        stroke: Stroke { width: 2, color: RED },
    };
    assert_eq!(
        ops_of(&shape),
        vec![
            CanvasOp::BeginPath,
            CanvasOp::MoveTo { p: Pos { x: 0, y: 0 } },
            CanvasOp::SetLineWidth { width: 2 },
            CanvasOp::SetStrokeColor { color: RED },
            CanvasOp::LineTo { p: Pos { x: 10, y: 0 } },
            CanvasOp::Stroke,
        ]
    );
}

// A closed 4-point square path filled opaque blue with no stroke: the interior
// is filled blue, and the path is closed before the fill.
#[test]
fn closed_square_path_scenario() {
    let shape = Shape::Path {
        points: vec![
            Pos { x: 0, y: 0 },
            Pos { x: 10, y: 0 },
            Pos { x: 10, y: 10 },
            Pos { x: 0, y: 10 },
        ],
        closed: true,
        fill: BLUE,
        stroke: NONE,
    };
    assert_eq!(
        ops_of(&shape),
        vec![
            CanvasOp::BeginPath,
            CanvasOp::SetLineWidth { width: 0 },
            CanvasOp::SetStrokeColor { color: NONE.color },
            CanvasOp::MoveTo { p: Pos { x: 0, y: 0 } },
            CanvasOp::LineTo { p: Pos { x: 10, y: 0 } },
            CanvasOp::LineTo { p: Pos { x: 10, y: 10 } },
            CanvasOp::LineTo { p: Pos { x: 0, y: 10 } },
            CanvasOp::SetFillColor { color: BLUE },
            CanvasOp::ClosePath,
            CanvasOp::Fill,
            CanvasOp::Stroke,
        ]
    );
}

#[test]
fn path_with_one_point_is_a_no_op() {
    let shape = Shape::Path {
        points: vec![Pos { x: 3, y: 4 }],
        closed: true,
        fill: BLUE,
        stroke: NONE,
    };
    assert_eq!(ops_of(&shape), vec![]);
}

#[test]
fn circle_fills_then_strokes_one_full_arc() {
    let shape = Shape::Circle {
        center: Pos { x: 5, y: 6 },
        radius: 7,
        fill: BLUE,
        stroke: Stroke { width: 1, color: RED },
    };
    assert_eq!(
        ops_of(&shape),
        vec![
            CanvasOp::BeginPath,
            CanvasOp::SetLineWidth { width: 1 },
            CanvasOp::SetStrokeColor { color: RED },
            CanvasOp::SetFillColor { color: BLUE },
            CanvasOp::Arc {
                center: Pos { x: 5, y: 6 },
                radius: 7,
                start_quarter: 0,
                end_quarter: 4,
            },
            CanvasOp::Fill,
            CanvasOp::Stroke,
        ]
    );
}

// The rounded rectangle walks its boundary clockwise: four arcs of one
// quarter turn each, connected by edges, and the path ends where it began.
#[test]
fn rect_path_is_closed_with_four_quarter_arcs() {
    let shape = Shape::Rect {
        rect: Rect { min: Pos { x: 10, y: 20 }, max: Pos { x: 110, y: 70 } },
        rounding: Rounding { nw: 5, ne: 6, se: 7, sw: 8 },
        fill: BLUE,
        stroke: Stroke { width: 1, color: RED },
    };
    let ops = ops_of(&shape);
    assert_eq!(ops.len(), 15);
    assert_eq!(ops[4], CanvasOp::MoveTo { p: Pos { x: 15, y: 20 } });
    let arcs: Vec<&CanvasOp> = ops
        .iter()
        .filter(|op| matches!(op, CanvasOp::Arc { .. }))
        .collect();
    assert_eq!(arcs.len(), 4);
    let mut turn = 0;
    for a in &arcs {
        if let CanvasOp::Arc { start_quarter, end_quarter, .. } = a {
            turn += end_quarter - start_quarter;
        }
    }
    // Four quarter turns: one full revolution.
    assert_eq!(turn, 4);
    // The north-west arc ends back at the starting point.
    if let CanvasOp::Arc { center, radius, end_quarter, .. } = arcs[3] {
        assert_eq!((*center, *radius, *end_quarter), (Pos { x: 15, y: 25 }, 5, 3));
    } else {
        panic!("expected an arc");
    }
    assert_eq!(ops[13], CanvasOp::Fill);
    assert_eq!(ops[14], CanvasOp::Stroke);
}

#[test]
fn group_paints_children_in_z_order() {
    let a = Shape::LineSegment {
        a: Pos { x: 0, y: 0 },
        b: Pos { x: 1, y: 1 },
        stroke: Stroke { width: 1, color: RED },
    };
    let b = Shape::Circle {
        center: Pos { x: 2, y: 2 },
        radius: 1,
        fill: BLUE,
        stroke: NONE,
    };
    let expect: Vec<CanvasOp> = ops_of(&a).into_iter().chain(ops_of(&b)).collect();
    let group = Shape::Group {
        shapes: vec![
            Shape::LineSegment {
                a: Pos { x: 0, y: 0 },
                b: Pos { x: 1, y: 1 },
                stroke: Stroke { width: 1, color: RED },
            },
            Shape::Circle {
                center: Pos { x: 2, y: 2 },
                radius: 1,
                fill: BLUE,
                stroke: NONE,
            },
        ],
    };
    assert_eq!(ops_of(&group), expect);
}

#[test]
fn mesh_fills_triangles_flat_and_warns() {
    let shape = Shape::Mesh {
        vertices: vec![Pos { x: 0, y: 0 }, Pos { x: 4, y: 0 }, Pos { x: 0, y: 4 }],
        indices: vec![0, 1, 2],
        texture: TextureId::Managed(0),
    };
    assert_eq!(
        ops_of(&shape),
        vec![
            CanvasOp::BeginPath,
            CanvasOp::MoveTo { p: Pos { x: 0, y: 0 } },
            CanvasOp::LineTo { p: Pos { x: 4, y: 0 } },
            CanvasOp::LineTo { p: Pos { x: 0, y: 4 } },
            CanvasOp::ClosePath,
            CanvasOp::Fill,
            CanvasOp::WarnMeshUnsupported,
        ]
    );
}

// Malformed geometry degrades to a no-op for that primitive: an index past the
// vertex list skips that triangle, and an incomplete trailing triple is
// ignored, but the capability warning still comes.
#[test]
fn mesh_with_bad_indices_degrades_to_no_op() {
    let shape = Shape::Mesh {
        vertices: vec![Pos { x: 0, y: 0 }],
        indices: vec![0, 9, 0, 0, 0],
        texture: TextureId::Managed(0),
    };
    assert_eq!(ops_of(&shape), vec![CanvasOp::WarnMeshUnsupported]);
}

#[test]
fn quadratic_bezier_open_strokes_only() {
    let shape = Shape::QuadraticBezier {
        start: Pos { x: 0, y: 0 },
        control: Pos { x: 5, y: 9 },
        end: Pos { x: 10, y: 0 },
        closed: false,
        fill: BLUE,
        stroke: Stroke { width: 3, color: RED },
    };
    assert_eq!(
        ops_of(&shape),
        vec![
            CanvasOp::BeginPath,
            CanvasOp::SetLineWidth { width: 3 },
            CanvasOp::SetStrokeColor { color: RED },
            CanvasOp::MoveTo { p: Pos { x: 0, y: 0 } },
            CanvasOp::QuadraticCurveTo { control: Pos { x: 5, y: 9 }, end: Pos { x: 10, y: 0 } },
            CanvasOp::Stroke,
        ]
    );
}

#[test]
fn cubic_bezier_closed_fills_before_stroking() {
    let shape = Shape::CubicBezier {
        start: Pos { x: 0, y: 0 },
        control1: Pos { x: 2, y: 8 },
        control2: Pos { x: 8, y: 8 },
        end: Pos { x: 10, y: 0 },
        closed: true,
        fill: BLUE,
        stroke: Stroke { width: 1, color: RED },
    };
    assert_eq!(
        ops_of(&shape),
        vec![
            CanvasOp::BeginPath,
            CanvasOp::SetLineWidth { width: 1 },
            CanvasOp::SetStrokeColor { color: RED },
            CanvasOp::MoveTo { p: Pos { x: 0, y: 0 } },
            CanvasOp::SetFillColor { color: BLUE },
            CanvasOp::CubicCurveTo {
                control1: Pos { x: 2, y: 8 },
                control2: Pos { x: 8, y: 8 },
                end: Pos { x: 10, y: 0 },
            },
            CanvasOp::ClosePath,
            CanvasOp::Fill,
            CanvasOp::Stroke,
        ]
    );
}
