//! The frame orchestrator and its texture cache: applies per-frame texture
//! deltas around painting, establishes a scoped clip per shape, and brackets
//! the batch in device-pixel-ratio scaling.

use vstd::prelude::*;
use crate::color::Color;
use crate::dispatch::{paint_shape, shape_ops};
use crate::geom::{Pos, Rect};
use crate::ops::CanvasOp;
use crate::shape::ClippedShape;
use crate::texture::{
    data_uri_of, encode_image_data, image_rgba, ImageDelta, TexturesDelta, TextureId,
};

verus! {

/// One cached texture: its off-screen surface's size in physical pixels. The
/// surface itself lives with the unverified executor, keyed by the same id.
#[derive(Clone, Copy, PartialEq, Eq, Structural, Debug)]
pub struct TextureEntry {
    pub width: u32,
    pub height: u32,
}

/// The mapping an association list of cache entries stands for; a later entry
/// for the same id overrides an earlier one.
pub open spec fn tex_map(pairs: Seq<(TextureId, TextureEntry)>) -> Map<TextureId, TextureEntry>
    decreases pairs.len(),
{
    if pairs.len() == 0 {
        Map::empty()
    } else {
        tex_map(pairs.drop_last()).insert(pairs.last().0, pairs.last().1)
    }
}

/// No id occurs twice in the list.
pub open spec fn unique_ids(pairs: Seq<(TextureId, TextureEntry)>) -> bool {
    forall|i: int, j: int| 0 <= i < j < pairs.len() ==> pairs[i].0 != pairs[j].0
}

/// An id is in the map exactly when some list entry carries it.
proof fn lemma_tex_map_contains(pairs: Seq<(TextureId, TextureEntry)>, id: TextureId)
    ensures
        tex_map(pairs).contains_key(id) <==> exists|i: int|
            0 <= i < pairs.len() && pairs[i].0 == id,
    decreases pairs.len(),
{
    if pairs.len() > 0 {
        lemma_tex_map_contains(pairs.drop_last(), id);
        if pairs.last().0 == id {
            assert(pairs[pairs.len() - 1].0 == id);
        } else if tex_map(pairs).contains_key(id) {
            let i = choose|i: int| 0 <= i < pairs.drop_last().len() && pairs.drop_last()[i].0 == id;
            assert(pairs[i].0 == id);
        } else {
            assert forall|i: int| 0 <= i < pairs.len() implies pairs[i].0 != id by {
                if i < pairs.len() - 1 {
                    assert(pairs.drop_last()[i].0 != id);
                }
            }
        }
    }
}

/// With unique ids, the map sends each listed id to its listed entry.
proof fn lemma_tex_map_lookup(pairs: Seq<(TextureId, TextureEntry)>, i: int)
    requires
        unique_ids(pairs),
        0 <= i < pairs.len(),
    ensures
        tex_map(pairs).contains_key(pairs[i].0),
        tex_map(pairs)[pairs[i].0] == pairs[i].1,
    decreases pairs.len(),
{
    if i < pairs.len() - 1 {
        assert(unique_ids(pairs.drop_last()));
        assert(pairs.drop_last()[i] == pairs[i]);
        lemma_tex_map_lookup(pairs.drop_last(), i);
        assert(pairs[i].0 != pairs.last().0);
    }
}

/// Overwriting the entry at a listed id updates the map at that id alone.
proof fn lemma_tex_map_update(pairs: Seq<(TextureId, TextureEntry)>, i: int, e: TextureEntry)
    requires
        unique_ids(pairs),
        0 <= i < pairs.len(),
    ensures
        tex_map(pairs.update(i, (pairs[i].0, e))) == tex_map(pairs).insert(pairs[i].0, e),
        unique_ids(pairs.update(i, (pairs[i].0, e))),
    decreases pairs.len(),
{
    let id = pairs[i].0;
    let u = pairs.update(i, (id, e));
    assert forall|a: int, b: int| 0 <= a < b < u.len() implies u[a].0 != u[b].0 by {
        assert(pairs[a].0 != pairs[b].0);
    }
    if i == pairs.len() - 1 {
        assert(u.drop_last() =~= pairs.drop_last());
        assert(tex_map(u) =~= tex_map(pairs).insert(id, e));
    } else {
        assert(unique_ids(pairs.drop_last()));
        assert(pairs.drop_last()[i] == pairs[i]);
        lemma_tex_map_update(pairs.drop_last(), i, e);
        assert(u.drop_last() =~= pairs.drop_last().update(i, (id, e)));
        assert(u.last() == pairs.last());
        assert(pairs.last().0 != id);
        assert(tex_map(u) =~= tex_map(pairs).insert(id, e));
    }
}

/// Removing the one entry that carries an id removes that id from the map.
proof fn lemma_tex_map_remove(pairs: Seq<(TextureId, TextureEntry)>, i: int)
    requires
        unique_ids(pairs),
        0 <= i < pairs.len(),
    ensures
        tex_map(pairs.remove(i)) == tex_map(pairs).remove(pairs[i].0),
        unique_ids(pairs.remove(i)),
    decreases pairs.len(),
{
    let id = pairs[i].0;
    let u = pairs.remove(i);
    assert forall|a: int, b: int| 0 <= a < b < u.len() implies u[a].0 != u[b].0 by {
        let pa = if a < i {
            a
        } else {
            a + 1
        };
        let pb = if b < i {
            b
        } else {
            b + 1
        };
        assert(u[a] == pairs[pa] && u[b] == pairs[pb]);
        assert(pairs[pa].0 != pairs[pb].0);
    }
    if i == pairs.len() - 1 {
        assert(u =~= pairs.drop_last());
        lemma_tex_map_contains(pairs.drop_last(), id);
        assert forall|j: int| 0 <= j < pairs.drop_last().len() implies pairs.drop_last()[j].0
            != id by {
            assert(pairs[j].0 != pairs[i].0);
        }
        assert(!tex_map(pairs.drop_last()).contains_key(id));
        assert(tex_map(u) =~= tex_map(pairs).remove(id));
    } else {
        assert(unique_ids(pairs.drop_last()));
        assert(pairs.drop_last()[i] == pairs[i]);
        lemma_tex_map_remove(pairs.drop_last(), i);
        assert(u.drop_last() =~= pairs.drop_last().remove(i));
        assert(u.last() == pairs.last());
        assert(pairs.last().0 != id);
        assert(tex_map(u) =~= tex_map(pairs).remove(id));
    }
}

/// Appending an entry for a new id inserts it into the map.
proof fn lemma_tex_map_push(pairs: Seq<(TextureId, TextureEntry)>, id: TextureId, e: TextureEntry)
    requires
        unique_ids(pairs),
        forall|i: int| 0 <= i < pairs.len() ==> pairs[i].0 != id,
    ensures
        tex_map(pairs.push((id, e))) == tex_map(pairs).insert(id, e),
        unique_ids(pairs.push((id, e))),
{
    assert(pairs.push((id, e)).drop_last() =~= pairs);
    let u = pairs.push((id, e));
    assert forall|a: int, b: int| 0 <= a < b < u.len() implies u[a].0 != u[b].0 by {
        if b < u.len() - 1 {
            assert(pairs[a].0 != pairs[b].0);
        } else {
            assert(pairs[a].0 != id);
        }
    }
}

/// The renderer: the texture side table and the backing surface's size in
/// physical pixels. It turns shape lists and texture deltas into surface
/// operation sequences; an unverified executor plays those against the real
/// surface.
pub struct Renderer {
    textures: Vec<(TextureId, TextureEntry)>,
    width: u32,
    height: u32,
}

impl Renderer {
    /// The cache's ids are unique, so it stands for a map.
    pub closed spec fn wf(self) -> bool {
        unique_ids(self.textures@)
    }

    /// The texture side table as a map from id to entry.
    pub closed spec fn texture_table(self) -> Map<TextureId, TextureEntry> {
        tex_map(self.textures@)
    }

    pub closed spec fn spec_surface_width(self) -> u32 {
        self.width
    }

    pub closed spec fn spec_surface_height(self) -> u32 {
        self.height
    }

    /// A renderer for a backing surface of the given size in physical pixels,
    /// with an empty texture cache.
    pub fn new(width: u32, height: u32) -> (r: Renderer)
        ensures
            r.wf(),
            r.texture_table() == Map::<TextureId, TextureEntry>::empty(),
            r.spec_surface_width() == width,
            r.spec_surface_height() == height,
    {
        Renderer { textures: Vec::new(), width, height }
    }

    /// The index of the cache entry for an id, if one exists.
    fn find_texture(&self, id: TextureId) -> (r: Option<usize>)
        ensures
            match r {
                Some(i) => i < self.textures@.len() && self.textures@[i as int].0 == id,
                None => forall|j: int| 0 <= j < self.textures@.len() ==> self.textures@[j].0 != id,
            },
    {
        let n = self.textures.len();
        let mut i: usize = 0;
        while i < n
            invariant
                n == self.textures@.len(),
                i <= n,
                forall|j: int| 0 <= j < i ==> self.textures@[j].0 != id,
            decreases n - i,
        {
            if self.textures[i].0 == id {
                return Some(i);
            }
            i = i + 1;
        }
        None
    }

    /// Whether the cache holds an entry for the id. After a `free`, lookups
    /// for that id miss cleanly.
    pub fn has_texture(&self, id: TextureId) -> (r: bool)
        requires
            self.wf(),
        ensures
            r == self.texture_table().contains_key(id),
    {
        proof {
            lemma_tex_map_contains(self.textures@, id);
        }
        match self.find_texture(id) {
            Some(i) => {
                proof {
                    lemma_tex_map_lookup(self.textures@, i as int);
                }
                true
            },
            None => false,
        }
    }

    /// Fills the whole surface with the color: a known background for the
    /// frame's painting. The path is begun fresh, so no residual subpath from
    /// earlier drawing can join the fill.
    pub fn clear(&self, color: Color, out: &mut Vec<CanvasOp>)
        ensures
            final(out)@ == old(out)@ + clear_ops(
                self.spec_surface_width(),
                self.spec_surface_height(),
                color,
            ),
    {
        out.push(CanvasOp::BeginPath);
        out.push(
            CanvasOp::PathRect {
                rect: Rect {
                    min: Pos { x: 0, y: 0 },
                    max: Pos { x: self.width as i64, y: self.height as i64 },
                },
            },
        );
        out.push(CanvasOp::SetFillColor { color });
        out.push(CanvasOp::Fill);
        proof {
            assert(out@ =~= old(out)@ + clear_ops(
                self.spec_surface_width(),
                self.spec_surface_height(),
                color,
            ));
        }
    }

    /// Paints one clipped shape: a scoped clip to its rectangle is established
    /// before and torn down after, so no ink of this shape can land outside
    /// its clip rectangle, and the clip scope never leaks to the next shape.
    pub fn paint(&self, shape: &ClippedShape, out: &mut Vec<CanvasOp>)
        requires
            shape.wf(),
        ensures
            final(out)@ == old(out)@ + clipped_ops(*shape),
    {
        out.push(CanvasOp::BeginPath);
        out.push(CanvasOp::Save);
        out.push(CanvasOp::PathRect { rect: shape.clip });
        out.push(CanvasOp::Clip);
        paint_shape(&shape.shape, out);
        out.push(CanvasOp::Restore);
        proof {
            assert(out@ =~= old(out)@ + clipped_ops(*shape));
        }
    }
}

/// The entry a whole-texture write leaves behind: the bitmap's own size.
pub open spec fn entry_of(image: crate::texture::ImageData) -> TextureEntry {
    TextureEntry { width: image.spec_width(), height: image.spec_height() }
}

/// The cache entry an accepted upload leaves behind. A partial patch — one
/// with an offset — into an existing surface keeps that surface and its size;
/// anything else sizes the entry to the bitmap.
pub open spec fn applied_entry(had: Option<TextureEntry>, d: ImageDelta) -> TextureEntry {
    match (d.pos, had) {
        (Some(p), Some(e)) => e,
        _ => entry_of(d.image),
    }
}

/// The offset at which an upload patches its texture: the delta's offset, or
/// the origin for a whole-texture write.
pub open spec fn delta_pos(d: ImageDelta) -> (u32, u32) {
    match d.pos {
        Some(p) => p,
        None => (0u32, 0u32),
    }
}

/// The texture table after the delta's `set` entries are applied in order.
pub open spec fn apply_sets(
    m: Map<TextureId, TextureEntry>,
    sets: Seq<(TextureId, ImageDelta)>,
) -> Map<TextureId, TextureEntry>
    decreases sets.len(),
{
    if sets.len() == 0 {
        m
    } else {
        let m1 = if crate::texture::encodable(sets[0].1.image) {
            let had = if m.contains_key(sets[0].0) {
                Some(m[sets[0].0])
            } else {
                None
            };
            m.insert(sets[0].0, applied_entry(had, sets[0].1))
        } else {
            m
        };
        apply_sets(m1, sets.skip(1))
    }
}

/// The texture table after the delta's `free` entries are applied in order.
pub open spec fn apply_frees(
    m: Map<TextureId, TextureEntry>,
    frees: Seq<TextureId>,
) -> Map<TextureId, TextureEntry>
    decreases frees.len(),
{
    if frees.len() == 0 {
        m
    } else {
        apply_frees(m.remove(frees[0]), frees.skip(1))
    }
}

/// The operation that starts the asynchronous load of an upload's data URI
/// into the texture's surface, at the delta's offset.
pub open spec fn is_load_op(op: CanvasOp, id: TextureId, d: ImageDelta) -> bool {
    &&& op is LoadSurface
    &&& op->LoadSurface_texture == id
    &&& op->LoadSurface_uri@ == data_uri_of(
        d.image.spec_width(),
        d.image.spec_height(),
        image_rgba(d.image),
    )
    &&& op->LoadSurface_x == delta_pos(d).0
    &&& op->LoadSurface_y == delta_pos(d).1
}

/// How many operations one accepted upload emits, given what the cache held:
/// a load alone onto an existing surface — a partial patch composites onto it
/// whatever its size, and a whole write of the same size overwrites it in
/// place; create and load for a new id; free, recreate and load only when a
/// whole write changes the size, since a surface is never resized in place.
pub open spec fn upload_len(had: Option<TextureEntry>, d: ImageDelta) -> int {
    match had {
        Some(e) => if d.pos is Some || (e.width == d.image.spec_width() && e.height
            == d.image.spec_height()) {
            1int
        } else {
            3int
        },
        None => 2int,
    }
}

/// The exact operations of one accepted upload, given what the cache held for
/// the id.
pub open spec fn upload_ops_match(
    had: Option<TextureEntry>,
    id: TextureId,
    d: ImageDelta,
    ops: Seq<CanvasOp>,
) -> bool {
    let w = d.image.spec_width();
    let h = d.image.spec_height();
    ops.len() == upload_len(had, d) && is_load_op(ops.last(), id, d) && (match had {
        Some(e) => d.pos is Some || e.width == w && e.height == h || (ops[0]
            == (CanvasOp::FreeSurface { texture: id }) && ops[1] == (CanvasOp::CreateSurface {
            texture: id,
            width: w,
            height: h,
        })),
        None => ops[0] == (CanvasOp::CreateSurface { texture: id, width: w, height: h }),
    })
}

/// The exact operations of a whole `set` phase: each accepted upload's
/// operations in list order, each judged against the cache state its
/// predecessors left; a rejected upload emits nothing.
pub open spec fn uploads_match(
    m: Map<TextureId, TextureEntry>,
    sets: Seq<(TextureId, ImageDelta)>,
    ops: Seq<CanvasOp>,
) -> bool
    decreases sets.len(),
{
    if sets.len() == 0 {
        ops.len() == 0
    } else {
        let id = sets[0].0;
        let d = sets[0].1;
        if crate::texture::encodable(d.image) {
            let had = if m.contains_key(id) {
                Some(m[id])
            } else {
                None
            };
            let k = upload_len(had, d);
            &&& ops.len() >= k
            &&& upload_ops_match(had, id, d, ops.take(k))
            &&& uploads_match(m.insert(id, applied_entry(had, d)), sets.skip(1), ops.skip(k))
        } else {
            uploads_match(m, sets.skip(1), ops)
        }
    }
}

/// The painting phase: each clipped shape's operations, in list order.
pub open spec fn paints_ops(shapes: Seq<ClippedShape>) -> Seq<CanvasOp>
    decreases shapes.len(),
{
    if shapes.len() == 0 {
        Seq::empty()
    } else {
        clipped_ops(shapes[0]) + paints_ops(shapes.skip(1))
    }
}

/// The free phase: one surface discard per freed id, in list order.
pub open spec fn frees_ops(frees: Seq<TextureId>) -> Seq<CanvasOp>
    decreases frees.len(),
{
    if frees.len() == 0 {
        Seq::empty()
    } else {
        seq![CanvasOp::FreeSurface { texture: frees[0] }] + frees_ops(frees.skip(1))
    }
}

/// A whole frame's operations, split at `k` after the upload phase: uploads
/// first, then the device-pixel-ratio scaling, the clipped shapes in order,
/// the frees, and the inverse scaling — in that fixed order.
pub open spec fn frame_split(
    m: Map<TextureId, TextureEntry>,
    shapes: Seq<ClippedShape>,
    sets: Seq<(TextureId, ImageDelta)>,
    frees: Seq<TextureId>,
    ops: Seq<CanvasOp>,
    k: int,
) -> bool {
    &&& 0 <= k <= ops.len()
    &&& uploads_match(m, sets, ops.take(k))
    &&& ops.skip(k) == seq![CanvasOp::ScaleByRatio] + paints_ops(shapes) + frees_ops(frees)
        + seq![CanvasOp::ScaleByInverseRatio]
}

impl Renderer {
    /// Uploads one texture: encodes the bitmap as a PNG data URI, creates or
    /// reuses the id's off-screen surface, and starts the asynchronous load
    /// that draws the bitmap at the delta's offset. A partial patch — a delta
    /// with an offset — composites onto the existing surface, which keeps its
    /// size; only a whole write of a different size frees and recreates the
    /// surface, since one is never resized in place. A malformed bitmap (a
    /// pixel buffer that does not match the dimensions, a zero dimension, or
    /// an unsupported size) aborts this upload alone and changes nothing.
    pub fn set_texture(
        &mut self,
        id: TextureId,
        image_delta: &ImageDelta,
        out: &mut Vec<CanvasOp>,
    ) -> (r: Option<()>)
        requires
            old(self).wf(),
        ensures
            final(self).wf(),
            final(self).spec_surface_width() == old(self).spec_surface_width(),
            final(self).spec_surface_height() == old(self).spec_surface_height(),
            r is Some <==> crate::texture::encodable(image_delta.image),
            r is Some ==> final(self).texture_table() == old(self).texture_table().insert(
                id,
                applied_entry(
                    if old(self).texture_table().contains_key(id) {
                        Some(old(self).texture_table()[id])
                    } else {
                        None
                    },
                    *image_delta,
                ),
            ),
            r is Some ==> old(out)@.is_prefix_of(final(out)@) && upload_ops_match(
                if old(self).texture_table().contains_key(id) {
                    Some(old(self).texture_table()[id])
                } else {
                    None
                },
                id,
                *image_delta,
                final(out)@.skip(old(out)@.len() as int),
            ),
            r is None ==> final(self).texture_table() == old(self).texture_table() && final(out)@
                == old(out)@,
    {
        let uri = match encode_image_data(&image_delta.image) {
            Some(u) => u,
            None => {
                return None;
            },
        };
        let w = image_delta.image.width();
        let h = image_delta.image.height();
        let (x, y) = match image_delta.pos {
            Some(p) => p,
            None => (0u32, 0u32),
        };
        let ghost had = if self.texture_table().contains_key(id) {
            Some(self.texture_table()[id])
        } else {
            None
        };
        let ghost len0 = out@.len();
        match self.find_texture(id) {
            Some(i) => {
                proof {
                    lemma_tex_map_lookup(self.textures@, i as int);
                }
                let old_entry = self.textures[i].1;
                if image_delta.pos.is_some() || (old_entry.width == w && old_entry.height == h) {
                    out.push(CanvasOp::LoadSurface { texture: id, uri, x, y });
                    proof {
                        assert(self.texture_table() =~= self.texture_table().insert(
                            id,
                            applied_entry(Some(old_entry), *image_delta),
                        ));
                        assert(old(out)@.is_prefix_of(out@));
                        assert(out@.skip(len0 as int) =~= seq![out@.last()]);
                    }
                } else {
                    out.push(CanvasOp::FreeSurface { texture: id });
                    out.push(CanvasOp::CreateSurface { texture: id, width: w, height: h });
                    out.push(CanvasOp::LoadSurface { texture: id, uri, x, y });
                    let ghost pairs0 = self.textures@;
                    self.textures[i] = (id, TextureEntry { width: w, height: h });
                    proof {
                        lemma_tex_map_update(pairs0, i as int, TextureEntry { width: w, height: h });
                        assert(self.textures@ =~= pairs0.update(
                            i as int,
                            (id, TextureEntry { width: w, height: h }),
                        ));
                        assert(old(out)@.is_prefix_of(out@));
                        let appended = out@.skip(len0 as int);
                        assert(appended =~= seq![out@[len0 as int], out@[len0 as int + 1], out@[len0 as int + 2]]);
                    }
                }
                Some(())
            },
            None => {
                proof {
                    lemma_tex_map_contains(self.textures@, id);
                }
                out.push(CanvasOp::CreateSurface { texture: id, width: w, height: h });
                out.push(CanvasOp::LoadSurface { texture: id, uri, x, y });
                let ghost pairs0 = self.textures@;
                self.textures.push((id, TextureEntry { width: w, height: h }));
                proof {
                    lemma_tex_map_push(pairs0, id, TextureEntry { width: w, height: h });
                    assert(old(out)@.is_prefix_of(out@));
                    let appended = out@.skip(len0 as int);
                    assert(appended =~= seq![out@[len0 as int], out@[len0 as int + 1]]);
                }
                Some(())
            },
        }
    }

    /// Releases a texture: its entry leaves the cache, so later lookups for
    /// the id miss cleanly, and the executor discards the surface.
    pub fn free_texture(&mut self, id: TextureId, out: &mut Vec<CanvasOp>)
        requires
            old(self).wf(),
        ensures
            final(self).wf(),
            final(self).spec_surface_width() == old(self).spec_surface_width(),
            final(self).spec_surface_height() == old(self).spec_surface_height(),
            final(self).texture_table() == old(self).texture_table().remove(id),
            final(out)@ == old(out)@ + seq![CanvasOp::FreeSurface { texture: id }],
    {
        match self.find_texture(id) {
            Some(i) => {
                proof {
                    lemma_tex_map_remove(self.textures@, i as int);
                }
                self.textures.remove(i);
            },
            None => {
                proof {
                    lemma_tex_map_contains(self.textures@, id);
                    assert(self.texture_table() =~= self.texture_table().remove(id));
                }
            },
        }
        out.push(CanvasOp::FreeSurface { texture: id });
        proof {
            assert(out@ =~= old(out)@ + seq![CanvasOp::FreeSurface { texture: id }]);
        }
    }

    /// Applies the `set` entries from index `i` on, in order.
    fn upload_all(
        &mut self,
        sets: &Vec<(TextureId, ImageDelta)>,
        i: usize,
        out: &mut Vec<CanvasOp>,
    )
        requires
            old(self).wf(),
            i <= sets@.len(),
        ensures
            final(self).wf(),
            final(self).spec_surface_width() == old(self).spec_surface_width(),
            final(self).spec_surface_height() == old(self).spec_surface_height(),
            final(self).texture_table() == apply_sets(
                old(self).texture_table(),
                sets@.skip(i as int),
            ),
            old(out)@.is_prefix_of(final(out)@),
            uploads_match(
                old(self).texture_table(),
                sets@.skip(i as int),
                final(out)@.skip(old(out)@.len() as int),
            ),
        decreases sets@.len() - i,
    {
        if i == sets.len() {
            proof {
                assert(sets@.skip(i as int) =~= Seq::<(TextureId, ImageDelta)>::empty());
                assert(out@.skip(out@.len() as int) =~= Seq::<CanvasOp>::empty());
            }
            return ;
        }
        let ghost m0 = self.texture_table();
        let ghost len0 = out@.len();
        let id = sets[i].0;
        let r = self.set_texture(id, &sets[i].1, out);
        let ghost mid = out@;
        self.upload_all(sets, i + 1, out);
        proof {
            let rest = sets@.skip(i as int);
            assert(rest[0] == sets@[i as int]);
            assert(rest.skip(1) =~= sets@.skip(i + 1 as int));
            let appended = out@.skip(len0 as int);
            let seg1 = mid.skip(len0 as int);
            // The recursion only appends, so the first upload's segment is a
            // prefix of everything appended here.
            assert(mid.is_prefix_of(out@));
            assert(appended.take(seg1.len() as int) =~= seg1);
            assert(appended.skip(seg1.len() as int) =~= out@.skip(mid.len() as int));
            if crate::texture::encodable(sets@[i as int].1.image) {
                let had = if m0.contains_key(id) {
                    Some(m0[id])
                } else {
                    None
                };
                let k = upload_len(had, sets@[i as int].1);
                assert(seg1.len() == k);
            } else {
                assert(seg1.len() == 0);
                assert(appended =~= out@.skip(mid.len() as int));
            }
        }
    }

    /// Discards the freed textures from index `i` on, in order.
    fn free_all(&mut self, frees: &Vec<TextureId>, i: usize, out: &mut Vec<CanvasOp>)
        requires
            old(self).wf(),
            i <= frees@.len(),
        ensures
            final(self).wf(),
            final(self).spec_surface_width() == old(self).spec_surface_width(),
            final(self).spec_surface_height() == old(self).spec_surface_height(),
            final(self).texture_table() == apply_frees(
                old(self).texture_table(),
                frees@.skip(i as int),
            ),
            final(out)@ == old(out)@ + frees_ops(frees@.skip(i as int)),
        decreases frees@.len() - i,
    {
        if i == frees.len() {
            proof {
                assert(frees@.skip(i as int) =~= Seq::<TextureId>::empty());
                assert(out@ =~= out@ + frees_ops(frees@.skip(i as int)));
            }
            return ;
        }
        self.free_texture(frees[i], out);
        self.free_all(frees, i + 1, out);
        proof {
            let rest = frees@.skip(i as int);
            assert(rest[0] == frees@[i as int]);
            assert(rest.skip(1) =~= frees@.skip(i + 1 as int));
            assert(out@ =~= old(out)@ + frees_ops(frees@.skip(i as int)));
        }
    }

    /// Paints the clipped shapes from index `i` on, in list order.
    fn paint_all(&self, shapes: &Vec<ClippedShape>, i: usize, out: &mut Vec<CanvasOp>)
        requires
            i <= shapes@.len(),
            forall|j: int| 0 <= j < shapes@.len() ==> (#[trigger] shapes@[j]).wf(),
        ensures
            final(out)@ == old(out)@ + paints_ops(shapes@.skip(i as int)),
        decreases shapes@.len() - i,
    {
        if i == shapes.len() {
            proof {
                assert(shapes@.skip(i as int) =~= Seq::<ClippedShape>::empty());
                assert(out@ =~= out@ + paints_ops(shapes@.skip(i as int)));
            }
            return ;
        }
        self.paint(&shapes[i], out);
        self.paint_all(shapes, i + 1, out);
        proof {
            let rest = shapes@.skip(i as int);
            assert(rest[0] == shapes@[i as int]);
            assert(rest.skip(1) =~= shapes@.skip(i + 1 as int));
            assert(out@ =~= old(out)@ + paints_ops(shapes@.skip(i as int)));
        }
    }

    /// One frame: applies all uploads, scales the transform by the device
    /// pixel ratio, paints every clipped shape in order under its own scoped
    /// clip, applies all frees, and restores the transform by the inverse
    /// scaling — in that fixed order. The texture table ends exactly as the
    /// delta prescribes: `set` entries inserted, then `free` entries removed.
    pub fn paint_and_update_texture(
        &mut self,
        shapes: &Vec<ClippedShape>,
        textures_delta: TexturesDelta,
        out: &mut Vec<CanvasOp>,
    )
        requires
            old(self).wf(),
            forall|j: int| 0 <= j < shapes@.len() ==> (#[trigger] shapes@[j]).wf(),
        ensures
            final(self).wf(),
            final(self).spec_surface_width() == old(self).spec_surface_width(),
            final(self).spec_surface_height() == old(self).spec_surface_height(),
            final(self).texture_table() == apply_frees(
                apply_sets(old(self).texture_table(), textures_delta.set@),
                textures_delta.free@,
            ),
            old(out)@.is_prefix_of(final(out)@),
            exists|k: int|
                frame_split(
                    old(self).texture_table(),
                    shapes@,
                    textures_delta.set@,
                    textures_delta.free@,
                    final(out)@.skip(old(out)@.len() as int),
                    k,
                ),
    {
        let TexturesDelta { set, free } = textures_delta;
        let ghost m0 = self.texture_table();
        let ghost len0 = out@.len();
        self.upload_all(&set, 0, out);
        let ghost mid = out@;
        let ghost k = out@.len() - len0;
        out.push(CanvasOp::ScaleByRatio);
        self.paint_all(shapes, 0, out);
        self.free_all(&free, 0, out);
        out.push(CanvasOp::ScaleByInverseRatio);
        proof {
            assert(set@.skip(0) =~= set@);
            assert(free@.skip(0) =~= free@);
            assert(shapes@.skip(0) =~= shapes@);
            let ops = out@.skip(len0 as int);
            assert(mid.is_prefix_of(out@));
            assert(ops.take(k) =~= mid.skip(len0 as int));
            assert(ops.skip(k) =~= seq![CanvasOp::ScaleByRatio] + paints_ops(shapes@) + frees_ops(
                free@,
            ) + seq![CanvasOp::ScaleByInverseRatio]);
            assert(frame_split(m0, shapes@, set@, free@, ops, k));
            assert(old(out)@.is_prefix_of(out@));
        }
    }
}

/// Clearing the surface: a fresh path holding the full surface rectangle,
/// filled.
pub open spec fn clear_ops(width: u32, height: u32, color: Color) -> Seq<CanvasOp> {
    seq![
        CanvasOp::BeginPath,
        CanvasOp::PathRect {
            rect: Rect { min: Pos { x: 0, y: 0 }, max: Pos { x: width as i64, y: height as i64 } },
        },
        CanvasOp::SetFillColor { color },
        CanvasOp::Fill,
    ]
}

/// One clipped shape's operations: the scoped clip around the shape's own
/// operations.
pub open spec fn clipped_ops(cs: ClippedShape) -> Seq<CanvasOp> {
    seq![
        CanvasOp::BeginPath,
        CanvasOp::Save,
        CanvasOp::PathRect { rect: cs.clip },
        CanvasOp::Clip,
    ] + shape_ops(cs.shape) + seq![CanvasOp::Restore]
}

/// A clipped shape's ink can never land outside its clip rectangle: its
/// operations open with the scoped clip to that rectangle, close with the
/// restore that tears it down, and everything in between — all of the shape's
/// own operations — neither saves, restores, clips, nor scales, so every ink
/// operation of the shape runs under exactly that clip.
pub proof fn lemma_clipped_shape_ink_confined(cs: ClippedShape)
    ensures
        ({
            let ops = clipped_ops(cs);
            &&& ops.len() >= 5
            &&& ops[0] == CanvasOp::BeginPath
            &&& ops[1] == CanvasOp::Save
            &&& ops[2] == (CanvasOp::PathRect { rect: cs.clip })
            &&& ops[3] == CanvasOp::Clip
            &&& ops.last() == CanvasOp::Restore
            &&& forall|i: int|
                4 <= i < ops.len() - 1 ==> !crate::ops::is_scope_op(#[trigger] ops[i])
        }),
{
    crate::dispatch::lemma_shape_ops_scope_free(cs.shape);
    let ops = clipped_ops(cs);
    let body = shape_ops(cs.shape);
    assert forall|i: int| 4 <= i < ops.len() - 1 implies !crate::ops::is_scope_op(ops[i]) by {
        assert(ops[i] == body[i - 4]);
    }
}

/// Uploading a texture id and freeing it in the same delta, with nothing
/// referencing it in between, leaves the cache with no entry for that id after
/// the frame applies the delta: the frees run last, and nothing re-adds an id
/// after its free.
pub proof fn lemma_set_then_free_leaves_no_entry(
    m: Map<TextureId, TextureEntry>,
    sets: Seq<(TextureId, ImageDelta)>,
    frees: Seq<TextureId>,
    id: TextureId,
)
    requires
        frees.contains(id),
    ensures
        !apply_frees(apply_sets(m, sets), frees).contains_key(id),
{
    lemma_apply_frees_removes(apply_sets(m, sets), frees, id);
}

/// Freeing an id removes it, whatever else the free list holds.
proof fn lemma_apply_frees_removes(
    m: Map<TextureId, TextureEntry>,
    frees: Seq<TextureId>,
    id: TextureId,
)
    requires
        frees.contains(id),
    ensures
        !apply_frees(m, frees).contains_key(id),
    decreases frees.len(),
{
    let j = choose|j: int| 0 <= j < frees.len() && frees[j] == id;
    if frees[0] == id {
        lemma_apply_frees_no_new(m.remove(id), frees.skip(1), id);
    } else {
        assert(frees.skip(1)[j - 1] == id);
        lemma_apply_frees_removes(m.remove(frees[0]), frees.skip(1), id);
    }
}

/// The free phase never adds an id to the cache.
proof fn lemma_apply_frees_no_new(
    m: Map<TextureId, TextureEntry>,
    frees: Seq<TextureId>,
    id: TextureId,
)
    requires
        !m.contains_key(id),
    ensures
        !apply_frees(m, frees).contains_key(id),
    decreases frees.len(),
{
    if frees.len() > 0 {
        lemma_apply_frees_no_new(m.remove(frees[0]), frees.skip(1), id);
    }
}

/// A scope-free operation sequence applies no net scaling.
proof fn lemma_scope_free_scale_net(ops: Seq<CanvasOp>)
    requires
        crate::dispatch::scope_free(ops),
    ensures
        crate::ops::scale_net(ops) == 0,
    decreases ops.len(),
{
    if ops.len() > 0 {
        assert(crate::dispatch::scope_free(ops.drop_last())) by {
            assert forall|i: int|
                0 <= i < ops.drop_last().len() implies !crate::ops::is_scope_op(
                #[trigger] ops.drop_last()[i],
            ) by {
                assert(ops.drop_last()[i] == ops[i]);
            }
        }
        lemma_scope_free_scale_net(ops.drop_last());
        assert(!crate::ops::is_scope_op(ops[ops.len() - 1]));
    }
}

/// The upload phase applies no net scaling: its operations only create, free,
/// and load texture surfaces.
proof fn lemma_uploads_scale_net(
    m: Map<TextureId, TextureEntry>,
    sets: Seq<(TextureId, ImageDelta)>,
    ops: Seq<CanvasOp>,
)
    requires
        uploads_match(m, sets, ops),
    ensures
        crate::ops::scale_net(ops) == 0,
    decreases sets.len(),
{
    if sets.len() == 0 {
        assert(ops =~= Seq::<CanvasOp>::empty());
    } else {
        let id = sets[0].0;
        let d = sets[0].1;
        if crate::texture::encodable(d.image) {
            let had = if m.contains_key(id) {
                Some(m[id])
            } else {
                None
            };
            let k = upload_len(had, d);
            let seg = ops.take(k);
            lemma_uploads_scale_net(m.insert(id, applied_entry(had, d)), sets.skip(1), ops.skip(k));
            assert(crate::dispatch::scope_free(seg)) by {
                assert forall|i: int|
                    0 <= i < seg.len() implies !crate::ops::is_scope_op(#[trigger] seg[i]) by {
                    if i == seg.len() - 1 {
                        assert(seg[i] == seg.last());
                    }
                }
            }
            lemma_scope_free_scale_net(seg);
            crate::ops::lemma_scale_net_concat(seg, ops.skip(k));
            assert(ops =~= seg + ops.skip(k));
        } else {
            lemma_uploads_scale_net(m, sets.skip(1), ops);
        }
    }
}

/// The painting phase applies no net scaling: each clipped shape saves and
/// restores around scope-free shape operations.
proof fn lemma_paints_scale_net(shapes: Seq<ClippedShape>)
    ensures
        crate::ops::scale_net(paints_ops(shapes)) == 0,
    decreases shapes.len(),
{
    if shapes.len() > 0 {
        reveal_with_fuel(crate::ops::scale_net, 6);
        lemma_paints_scale_net(shapes.skip(1));
        let cs = shapes[0];
        let head = seq![
            CanvasOp::BeginPath,
            CanvasOp::Save,
            CanvasOp::PathRect { rect: cs.clip },
            CanvasOp::Clip,
        ];
        let body = shape_ops(cs.shape);
        let tail = seq![CanvasOp::Restore];
        crate::dispatch::lemma_shape_ops_scope_free(cs.shape);
        lemma_scope_free_scale_net(body);
        crate::ops::lemma_scale_net_concat(head, body);
        crate::ops::lemma_scale_net_concat(head + body, tail);
        crate::ops::lemma_scale_net_concat(clipped_ops(cs), paints_ops(shapes.skip(1)));
        assert(crate::ops::scale_net(head) == 0);
        assert(crate::ops::scale_net(tail) == 0);
    }
}

/// The free phase applies no net scaling.
proof fn lemma_frees_scale_net(frees: Seq<TextureId>)
    ensures
        crate::ops::scale_net(frees_ops(frees)) == 0,
    decreases frees.len(),
{
    if frees.len() > 0 {
        reveal_with_fuel(crate::ops::scale_net, 3);
        lemma_frees_scale_net(frees.skip(1));
        crate::ops::lemma_scale_net_concat(
            seq![CanvasOp::FreeSurface { texture: frees[0] }],
            frees_ops(frees.skip(1)),
        );
    }
}

/// The device-pixel-ratio scaling is self-inverse over a frame: whatever the
/// shapes and the delta, the frame's operations scale by the ratio exactly
/// once and by its inverse exactly once, in that order, and nothing else
/// touches the transform, so the transform ends as it began.
pub proof fn lemma_frame_scale_self_inverse(
    m: Map<TextureId, TextureEntry>,
    shapes: Seq<ClippedShape>,
    sets: Seq<(TextureId, ImageDelta)>,
    frees: Seq<TextureId>,
    ops: Seq<CanvasOp>,
    k: int,
)
    requires
        frame_split(m, shapes, sets, frees, ops, k),
    ensures
        crate::ops::scale_net(ops) == 0,
{
    reveal_with_fuel(crate::ops::scale_net, 3);
    lemma_uploads_scale_net(m, sets, ops.take(k));
    lemma_paints_scale_net(shapes);
    lemma_frees_scale_net(frees);
    let sc = seq![CanvasOp::ScaleByRatio];
    let inv = seq![CanvasOp::ScaleByInverseRatio];
    let paints = paints_ops(shapes);
    let fr = frees_ops(frees);
    crate::ops::lemma_scale_net_concat(sc, paints);
    crate::ops::lemma_scale_net_concat(sc + paints, fr);
    crate::ops::lemma_scale_net_concat(sc + paints + fr, inv);
    crate::ops::lemma_scale_net_concat(ops.take(k), ops.skip(k));
    assert(ops =~= ops.take(k) + ops.skip(k));
    assert(crate::ops::scale_net(sc) == 1);
    assert(crate::ops::scale_net(inv) == -1);
}

/// After a clear and a frame with no shapes and no texture changes, every
/// sampled pixel keeps the cleared color: such a frame's operations are
/// exactly the scaling and its inverse — no fill, stroke, or blit, no ink at
/// all.
pub proof fn lemma_empty_frame_adds_no_ink(
    m: Map<TextureId, TextureEntry>,
    ops: Seq<CanvasOp>,
    k: int,
)
    requires
        frame_split(
            m,
            Seq::<ClippedShape>::empty(),
            Seq::<(TextureId, ImageDelta)>::empty(),
            Seq::<TextureId>::empty(),
            ops,
            k,
        ),
    ensures
        ops =~= seq![CanvasOp::ScaleByRatio, CanvasOp::ScaleByInverseRatio],
        forall|i: int| 0 <= i < ops.len() ==> !crate::ops::is_ink(#[trigger] ops[i]),
{
    assert(ops.take(k).len() == 0);
    assert(k == 0);
    assert(ops =~= ops.skip(0));
    assert(ops =~= seq![CanvasOp::ScaleByRatio, CanvasOp::ScaleByInverseRatio]);
}

/// A clear followed by a frame with no shapes and no texture changes leaves
/// every sampled pixel at the cleared color: the two traces together are
/// exactly the full-surface fill with that color and the balanced pair of
/// scalings, which touch no pixel.
pub proof fn lemma_clear_then_empty_frame(
    width: u32,
    height: u32,
    color: Color,
    m: Map<TextureId, TextureEntry>,
    frame: Seq<CanvasOp>,
    k: int,
)
    requires
        frame_split(
            m,
            Seq::<ClippedShape>::empty(),
            Seq::<(TextureId, ImageDelta)>::empty(),
            Seq::<TextureId>::empty(),
            frame,
            k,
        ),
    ensures
        clear_ops(width, height, color) + frame =~= seq![
            CanvasOp::BeginPath,
            CanvasOp::PathRect {
                rect: Rect {
                    min: Pos { x: 0, y: 0 },
                    max: Pos { x: width as i64, y: height as i64 },
                },
            },
            CanvasOp::SetFillColor { color },
            CanvasOp::Fill,
            CanvasOp::ScaleByRatio,
            CanvasOp::ScaleByInverseRatio,
        ],
{
    lemma_empty_frame_adds_no_ink(m, frame, k);
}

} // verus!
