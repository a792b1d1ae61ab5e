//! The drawing surface's operation alphabet. The renderer's output is a
//! sequence of these operations; an unverified executor plays them against a
//! real 2D context one for one.

use vstd::prelude::*;
use crate::color::Color;
use crate::geom::{Pos, Rect};
use crate::texture::TextureId;

verus! {

/// One operation on the 2D drawing surface.
///
/// Arc angles are in quarter turns measured from the positive x axis toward
/// the positive y axis (downward on the surface): a full circle sweeps from
/// quarter 0 to quarter 4.
#[derive(Clone, PartialEq, Debug)]
pub enum CanvasOp {
    /// Push the surface state (clip, transform, styles).
    Save,
    /// Pop the surface state.
    Restore,
    BeginPath,
    ClosePath,
    MoveTo { p: Pos },
    LineTo { p: Pos },
    Arc { center: Pos, radius: i64, start_quarter: i64, end_quarter: i64 },
    QuadraticCurveTo { control: Pos, end: Pos },
    CubicCurveTo { control1: Pos, control2: Pos, end: Pos },
    /// Append an axis-aligned rectangle outline to the current path.
    PathRect { rect: Rect },
    /// Restrict the clip region to the current path.
    Clip,
    SetFillColor { color: Color },
    SetStrokeColor { color: Color },
    SetLineWidth { width: u32 },
    /// Fill the current path with the current fill color.
    Fill,
    /// Stroke the current path with the current stroke color and line width.
    Stroke,
    /// Blit the source rectangle of a cached texture to the destination
    /// rectangle of the surface.
    DrawImage {
        texture: TextureId,
        src_pos: Pos,
        src_size: Pos,
        dst_pos: Pos,
        dst_size: Pos,
    },
    /// Scale the transform by the device pixel ratio, both axes.
    ScaleByRatio,
    /// Scale the transform by the inverse of the device pixel ratio.
    ScaleByInverseRatio,
    /// Create the off-screen bitmap surface for a texture, sized in physical
    /// pixels.
    CreateSurface { texture: TextureId, width: u32, height: u32 },
    /// Discard a texture's off-screen surface.
    FreeSurface { texture: TextureId },
    /// Load the PNG data URI asynchronously and, once decoded, draw it onto
    /// the texture's surface at the given offset.
    LoadSurface { texture: TextureId, uri: String, x: u32, y: u32 },
    /// The mesh primitive is reproduced as flat triangle fills only; report
    /// the capability gap without aborting the frame.
    WarnMeshUnsupported,
}

/// Cosine of a quarter-turn angle.
pub open spec fn quarter_cos(q: int) -> int {
    let m = q % 4;
    if m == 0 { 1 } else if m == 2 { -1 } else { 0 }
}

/// Sine of a quarter-turn angle, positive toward the bottom of the surface.
pub open spec fn quarter_sin(q: int) -> int {
    let m = q % 4;
    if m == 1 { 1 } else if m == 3 { -1 } else { 0 }
}

/// The point of the circle around `center` with radius `radius` at the
/// quarter-turn angle `q`.
pub open spec fn arc_point(center: Pos, radius: i64, q: int) -> (int, int) {
    (center.x + radius * quarter_cos(q), center.y + radius * quarter_sin(q))
}

/// Whether an operation puts ink on the surface.
pub open spec fn is_ink(op: CanvasOp) -> bool {
    match op {
        CanvasOp::Fill => true,
        CanvasOp::Stroke => true,
        CanvasOp::DrawImage { .. } => true,
        _ => false,
    }
}

/// Whether an operation changes the clip scope or the transform: the
/// operations the orchestrator alone may emit, so that a shape can never
/// escape the clip rectangle established for it.
pub open spec fn is_scope_op(op: CanvasOp) -> bool {
    match op {
        CanvasOp::Save => true,
        CanvasOp::Restore => true,
        CanvasOp::Clip => true,
        CanvasOp::ScaleByRatio => true,
        CanvasOp::ScaleByInverseRatio => true,
        _ => false,
    }
}

/// The net number of device-pixel-ratio scalings an operation applies.
pub open spec fn scale_step(op: CanvasOp) -> int {
    match op {
        CanvasOp::ScaleByRatio => 1,
        CanvasOp::ScaleByInverseRatio => -1,
        _ => 0,
    }
}

/// The net scaling a whole operation sequence applies to the transform.
pub open spec fn scale_net(ops: Seq<CanvasOp>) -> int
    decreases ops.len(),
{
    if ops.len() == 0 {
        0
    } else {
        scale_net(ops.drop_last()) + scale_step(ops.last())
    }
}

/// `scale_net` distributes over concatenation.
pub proof fn lemma_scale_net_concat(a: Seq<CanvasOp>, b: Seq<CanvasOp>)
    ensures
        scale_net(a + b) == scale_net(a) + scale_net(b),
    decreases b.len(),
{
    if b.len() == 0 {
        assert(a + b =~= a);
    } else {
        lemma_scale_net_concat(a, b.drop_last());
        assert((a + b).drop_last() =~= a + b.drop_last());
    }
}

} // verus!
