use canvas_paint::color::{color_hex, Color, Stroke};
use canvas_paint::dispatch::paint_shape;
use canvas_paint::geom::{Pos, Rect};
use canvas_paint::ops::CanvasOp;
use canvas_paint::render::Renderer;
use canvas_paint::shape::{ClippedShape, Glyph, Row, Shape};
use canvas_paint::texture::{ImageData, ImageDelta, TextureId, TexturesDelta};

const RED: Color = Color { r: 255, g: 0, b: 0, a: 255 };

#[test]
fn color_hex_is_lowercase_rrggbbaa() {
    assert_eq!(color_hex(Color { r: 255, g: 0, b: 0, a: 255 }), "#ff0000ff");
    assert_eq!(color_hex(Color { r: 0, g: 0, b: 0, a: 0 }), "#00000000");
    assert_eq!(color_hex(Color { r: 1, g: 35, b: 69, a: 103 }), "#01234567");
    assert_eq!(color_hex(Color { r: 171, g: 205, b: 239, a: 16 }), "#abcdef10");
}

#[test]
fn stroke_none_draws_nothing_visible() {
    let s = Stroke::none();
    assert_eq!(s.width, 0);
    assert_eq!(s.color, Color { r: 0, g: 0, b: 0, a: 0 });
}

// Text blits each glyph's source rectangle from the atlas to row-relative
// positions offset by the shape origin, and underlines the row when the
// underline stroke is not "none".
#[test]
fn text_blits_glyphs_and_underlines_rows() {
    let atlas = TextureId::Managed(0);
    let shape = Shape::Text {
        pos: Pos { x: 100, y: 200 },
        rows: vec![Row {
            rect: Rect { min: Pos { x: 0, y: 0 }, max: Pos { x: 20, y: 10 } },
            glyphs: vec![Glyph {
                pos: Pos { x: 1, y: 2 },
                offset: Pos { x: 3, y: 4 },
                uv_min: Pos { x: 30, y: 40 },
                uv_max: Pos { x: 38, y: 50 },
                size: Pos { x: 8, y: 10 },
            }],
        }],
        underline: Stroke { width: 1, color: RED },
        atlas,
    };
    let mut out = Vec::new();
    paint_shape(&shape, &mut out);
    assert_eq!(
        out,
        vec![
            CanvasOp::DrawImage {
                texture: atlas,
                src_pos: Pos { x: 30, y: 40 },
                src_size: Pos { x: 8, y: 10 },
                dst_pos: Pos { x: 104, y: 206 },
                dst_size: Pos { x: 8, y: 10 },
            },
            CanvasOp::BeginPath,
            CanvasOp::MoveTo { p: Pos { x: 0, y: 10 } },
            CanvasOp::SetLineWidth { width: 1 },
            CanvasOp::SetStrokeColor { color: RED },
            CanvasOp::LineTo { p: Pos { x: 20, y: 10 } },
            CanvasOp::Stroke,
        ]
    );
}

#[test]
fn text_without_underline_only_blits() {
    let atlas = TextureId::Managed(0);
    let shape = Shape::Text {
        pos: Pos { x: 0, y: 0 },
        rows: vec![Row {
            rect: Rect { min: Pos { x: 0, y: 0 }, max: Pos { x: 20, y: 10 } },
            glyphs: vec![],
        }],
        underline: Stroke::none(),
        atlas,
    };
    let mut out = Vec::new();
    paint_shape(&shape, &mut out);
    assert_eq!(out, vec![]);
}

#[test]
fn clear_fills_the_whole_surface() {
    let r = Renderer::new(20, 20);
    let mut out = Vec::new();
    r.clear(Color { r: 0, g: 0, b: 0, a: 255 }, &mut out);
    assert_eq!(
        out,
        vec![
            CanvasOp::BeginPath,
            CanvasOp::PathRect {
                rect: Rect { min: Pos { x: 0, y: 0 }, max: Pos { x: 20, y: 20 } },
            },
            CanvasOp::SetFillColor { color: Color { r: 0, g: 0, b: 0, a: 255 } },
            CanvasOp::Fill,
        ]
    );
}

// Each clipped shape paints inside its own scoped clip: save, clip to the
// rectangle, the shape's operations, restore — nothing leaks to the next.
#[test]
fn paint_establishes_and_tears_down_the_clip() {
    let r = Renderer::new(100, 100);
    let cs = ClippedShape {
        clip: Rect { min: Pos { x: 5, y: 5 }, max: Pos { x: 50, y: 50 } },
        shape: Shape::LineSegment {
            a: Pos { x: 0, y: 0 },
            b: Pos { x: 10, y: 0 },
            stroke: Stroke { width: 2, color: RED },
        },
    };
    let mut out = Vec::new();
    r.paint(&cs, &mut out);
    assert_eq!(out[0], CanvasOp::BeginPath);
    assert_eq!(out[1], CanvasOp::Save);
    assert_eq!(
        out[2],
        CanvasOp::PathRect { rect: Rect { min: Pos { x: 5, y: 5 }, max: Pos { x: 50, y: 50 } } }
    );
    assert_eq!(out[3], CanvasOp::Clip);
    assert_eq!(*out.last().unwrap(), CanvasOp::Restore);
    for op in &out[4..out.len() - 1] {
        assert!(!matches!(
            op,
            CanvasOp::Save
                | CanvasOp::Restore
                | CanvasOp::Clip
                | CanvasOp::ScaleByRatio
                | CanvasOp::ScaleByInverseRatio
        ));
    }
}

fn solid_image(w: u32, h: u32, c: Color) -> ImageData {
    ImageData::Color { width: w, height: h, pixels: vec![c; (w * h) as usize] }
}

#[test]
fn set_texture_creates_then_loads() {
    let mut r = Renderer::new(100, 100);
    let id = TextureId::User(7);
    let mut out = Vec::new();
    let ok = r.set_texture(
        id,
        &ImageDelta { image: solid_image(2, 3, RED), pos: None },
        &mut out,
    );
    assert!(ok.is_some());
    assert!(r.has_texture(id));
    assert_eq!(out.len(), 2);
    assert_eq!(out[0], CanvasOp::CreateSurface { texture: id, width: 2, height: 3 });
    match &out[1] {
        CanvasOp::LoadSurface { texture, uri, x, y } => {
            assert_eq!(*texture, id);
            assert_eq!((*x, *y), (0, 0));
            assert!(uri.starts_with("data:image/png;base64,"));
        },
        other => panic!("expected a load, got {:?}", other),
    }
}

// A size change frees and recreates the surface: it is never resized in place.
#[test]
fn set_texture_size_change_recreates_the_surface() {
    let mut r = Renderer::new(100, 100);
    let id = TextureId::User(7);
    let mut out = Vec::new();
    r.set_texture(id, &ImageDelta { image: solid_image(2, 3, RED), pos: None }, &mut out);
    let mut out2 = Vec::new();
    r.set_texture(id, &ImageDelta { image: solid_image(4, 4, RED), pos: None }, &mut out2);
    assert_eq!(out2.len(), 3);
    assert_eq!(out2[0], CanvasOp::FreeSurface { texture: id });
    assert_eq!(out2[1], CanvasOp::CreateSurface { texture: id, width: 4, height: 4 });
    assert!(matches!(out2[2], CanvasOp::LoadSurface { .. }));
}

// A partial update — a patch with an offset, typically smaller than the
// texture — reuses the existing surface and draws the patch at the offset,
// compositing onto the existing content: the surface is neither freed nor
// resized.
#[test]
fn set_texture_partial_update_reuses_the_surface() {
    let mut r = Renderer::new(100, 100);
    let id = TextureId::User(7);
    let mut out = Vec::new();
    r.set_texture(id, &ImageDelta { image: solid_image(8, 8, RED), pos: None }, &mut out);
    let mut out2 = Vec::new();
    r.set_texture(id, &ImageDelta { image: solid_image(2, 2, RED), pos: Some((3, 4)) }, &mut out2);
    assert_eq!(out2.len(), 1);
    match &out2[0] {
        CanvasOp::LoadSurface { x, y, .. } => assert_eq!((*x, *y), (3, 4)),
        other => panic!("expected a load, got {:?}", other),
    }
    // The entry kept the texture's 8x8 size: a whole write of that size still
    // reuses the surface.
    let mut out3 = Vec::new();
    r.set_texture(id, &ImageDelta { image: solid_image(8, 8, RED), pos: None }, &mut out3);
    assert_eq!(out3.len(), 1);
    assert!(matches!(out3[0], CanvasOp::LoadSurface { .. }));
}

// A pixel buffer that does not match its claimed dimensions aborts that
// upload only: a failure result, no cache entry, no panic.
#[test]
fn malformed_buffer_aborts_the_upload_only() {
    let mut r = Renderer::new(100, 100);
    let id = TextureId::User(8);
    let mut out = Vec::new();
    let res = r.set_texture(
        id,
        &ImageDelta {
            image: ImageData::Color { width: 2, height: 2, pixels: vec![RED] },
            pos: None,
        },
        &mut out,
    );
    assert!(res.is_none());
    assert!(out.is_empty());
    assert!(!r.has_texture(id));
}

#[test]
fn zero_sized_upload_aborts_that_upload_only() {
    let mut r = Renderer::new(100, 100);
    let id = TextureId::User(9);
    let mut out = Vec::new();
    let res = r.set_texture(
        id,
        &ImageDelta { image: ImageData::Color { width: 0, height: 0, pixels: vec![] }, pos: None },
        &mut out,
    );
    assert!(res.is_none());
    assert!(out.is_empty());
    assert!(!r.has_texture(id));
}

#[test]
fn free_texture_removes_the_entry() {
    let mut r = Renderer::new(100, 100);
    let id = TextureId::Managed(3);
    let mut out = Vec::new();
    r.set_texture(id, &ImageDelta { image: solid_image(1, 1, RED), pos: None }, &mut out);
    assert!(r.has_texture(id));
    let mut out2 = Vec::new();
    r.free_texture(id, &mut out2);
    assert_eq!(out2, vec![CanvasOp::FreeSurface { texture: id }]);
    assert!(!r.has_texture(id));
}

// Uploading an id and freeing it in the same delta, with nothing referencing
// it in between, leaves the cache with no entry for it.
#[test]
fn set_then_free_in_one_delta_leaves_no_entry() {
    let mut r = Renderer::new(100, 100);
    let id = TextureId::User(11);
    let delta = TexturesDelta {
        set: vec![(id, ImageDelta { image: solid_image(2, 2, RED), pos: None })],
        free: vec![id],
    };
    let mut out = Vec::new();
    r.paint_and_update_texture(&Vec::new(), delta, &mut out);
    assert!(!r.has_texture(id));
}

// A frame around an empty shape list with no texture changes only scales and
// unscales: the transform is restored and no ink op is emitted.
#[test]
fn empty_frame_scales_and_unscales_only() {
    let mut r = Renderer::new(20, 20);
    let mut out = Vec::new();
    r.paint_and_update_texture(&Vec::new(), TexturesDelta::empty(), &mut out);
    assert_eq!(out, vec![CanvasOp::ScaleByRatio, CanvasOp::ScaleByInverseRatio]);
}

// The fixed frame order: uploads, scale, clipped shapes, frees, inverse scale.
#[test]
fn frame_applies_uploads_before_painting_and_frees_after() {
    let mut r = Renderer::new(20, 20);
    let id = TextureId::User(1);
    let old_id = TextureId::User(2);
    let mut pre = Vec::new();
    r.set_texture(old_id, &ImageDelta { image: solid_image(1, 1, RED), pos: None }, &mut pre);
    let delta = TexturesDelta {
        set: vec![(id, ImageDelta { image: solid_image(1, 1, RED), pos: None })],
        free: vec![old_id],
    };
    let shapes = vec![ClippedShape {
        clip: Rect { min: Pos { x: 0, y: 0 }, max: Pos { x: 20, y: 20 } },
        shape: Shape::Empty,
    }];
    let mut out = Vec::new();
    r.paint_and_update_texture(&shapes, delta, &mut out);
    assert_eq!(out[0], CanvasOp::CreateSurface { texture: id, width: 1, height: 1 });
    assert!(matches!(out[1], CanvasOp::LoadSurface { .. }));
    assert_eq!(out[2], CanvasOp::ScaleByRatio);
    assert_eq!(out[3], CanvasOp::BeginPath);
    assert_eq!(out[4], CanvasOp::Save);
    assert_eq!(out[6], CanvasOp::Clip);
    assert_eq!(out[7], CanvasOp::Restore);
    assert_eq!(out[8], CanvasOp::FreeSurface { texture: old_id });
    assert_eq!(out[9], CanvasOp::ScaleByInverseRatio);
    assert_eq!(out.len(), 10);
    assert!(r.has_texture(id));
    assert!(!r.has_texture(old_id));
}
