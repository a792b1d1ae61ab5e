//! Texture identities and bitmap image data: the values that flow through the
//! texture cache and its per-frame deltas.

use vstd::prelude::*;
use crate::color::Color;

verus! {

/// An opaque texture identifier. Equality defines cache keys.
#[derive(Clone, Copy, PartialEq, Eq, Structural, Debug, Hash)]
pub enum TextureId {
    /// Allocated by the UI layer that produces the shape lists (the font
    /// atlases live here).
    Managed(u64),
    /// Supplied by the user of that layer.
    User(u64),
}

/// A raw bitmap: a full RGBA color image, or a single-channel alpha image that
/// is treated as white with that alpha.
#[derive(Clone, PartialEq, Eq, Debug)]
pub enum ImageData {
    Color { width: u32, height: u32, pixels: Vec<Color> },
    Alpha { width: u32, height: u32, pixels: Vec<u8> },
}

/// Kept small enough that `width * height * 4` fits a `usize` on every
/// machine the surface runs on, and stays within the allocation cap the PNG
/// decode path applies by default, so an encoded bitmap can always be read
/// back.
pub const MAX_IMAGE_DIM: u32 = 8192;

impl ImageData {
    pub open spec fn spec_width(self) -> u32 {
        match self {
            ImageData::Color { width, .. } => width,
            ImageData::Alpha { width, .. } => width,
        }
    }

    pub open spec fn spec_height(self) -> u32 {
        match self {
            ImageData::Color { width, height, pixels } => height,
            ImageData::Alpha { width, height, pixels } => height,
        }
    }

    /// The pixel buffer holds exactly one entry per pixel, and the dimensions
    /// are within the supported range.
    pub open spec fn wf(self) -> bool {
        &&& self.spec_width() <= MAX_IMAGE_DIM
        &&& self.spec_height() <= MAX_IMAGE_DIM
        &&& match self {
            ImageData::Color { width, height, pixels } => pixels@.len() == width * height,
            ImageData::Alpha { width, height, pixels } => pixels@.len() == width * height,
        }
    }

    pub fn width(&self) -> (w: u32)
        ensures
            w == self.spec_width(),
    {
        match self {
            ImageData::Color { width, .. } => *width,
            ImageData::Alpha { width, .. } => *width,
        }
    }

    pub fn height(&self) -> (h: u32)
        ensures
            h == self.spec_height(),
    {
        match self {
            ImageData::Color { height, .. } => *height,
            ImageData::Alpha { height, .. } => *height,
        }
    }
}

/// One texture's change for a frame: a bitmap, and an optional offset at which
/// the bitmap patches the existing texture (a whole-texture write when absent).
#[derive(Clone, PartialEq, Eq, Debug)]
pub struct ImageDelta {
    pub image: ImageData,
    pub pos: Option<(u32, u32)>,
}

/// The per-frame texture changes: `set` entries are applied before any shape
/// is painted, `free` entries after all shapes are painted.
#[derive(Clone, PartialEq, Eq, Debug)]
pub struct TexturesDelta {
    pub set: Vec<(TextureId, ImageDelta)>,
    pub free: Vec<TextureId>,
}

impl TexturesDelta {
    pub fn empty() -> (d: TexturesDelta)
        ensures
            d.set@.len() == 0,
            d.free@.len() == 0,
    {
        TexturesDelta { set: Vec::new(), free: Vec::new() }
    }
}

/// The RGBA bytes of a sequence of colors, four bytes per pixel, red first,
/// alpha last.
pub open spec fn rgba_bytes(pixels: Seq<Color>) -> Seq<u8>
    decreases pixels.len(),
{
    if pixels.len() == 0 {
        Seq::empty()
    } else {
        rgba_bytes(pixels.drop_last()) + seq![
            pixels.last().r,
            pixels.last().g,
            pixels.last().b,
            pixels.last().a,
        ]
    }
}

/// White with the given alpha, premultiplied: the color an alpha-channel
/// bitmap pixel stands for.
pub open spec fn white_with_alpha(a: u8) -> Color {
    Color { r: a, g: a, b: a, a: a }
}

/// The RGBA bytes of a bitmap: color pixels flattened in order; alpha pixels
/// first turned white-with-that-alpha.
pub open spec fn image_rgba(image: ImageData) -> Seq<u8> {
    match image {
        ImageData::Color { pixels, .. } => rgba_bytes(pixels@),
        ImageData::Alpha { pixels, .. } => rgba_bytes(pixels@.map_values(|a: u8| white_with_alpha(a))),
    }
}

/// Flattens a bitmap into its RGBA byte buffer.
pub fn image_to_rgba(image: &ImageData) -> (buf: Vec<u8>)
    requires
        image.wf(),
    ensures
        buf@ == image_rgba(*image),
        buf@.len() == image.spec_width() * image.spec_height() * 4,
{
    let mut buf: Vec<u8> = Vec::new();
    match image {
        ImageData::Color { width, height, pixels } => {
            let n = pixels.len();
            let mut i: usize = 0;
            while i < n
                invariant
                    n == pixels@.len(),
                    i <= n,
                    buf@ == rgba_bytes(pixels@.take(i as int)),
                decreases n - i,
            {
                let p = pixels[i];
                buf.push(p.r);
                buf.push(p.g);
                buf.push(p.b);
                buf.push(p.a);
                proof {
                    assert(pixels@.take(i + 1 as int).drop_last() =~= pixels@.take(i as int));
                    assert(pixels@.take(i + 1 as int).last() == pixels@[i as int]);
                }
                i = i + 1;
            }
            proof {
                assert(pixels@.take(n as int) =~= pixels@);
            }
        },
        ImageData::Alpha { width, height, pixels } => {
            let ghost colors = pixels@.map_values(|a: u8| white_with_alpha(a));
            let n = pixels.len();
            let mut i: usize = 0;
            while i < n
                invariant
                    n == pixels@.len(),
                    colors == pixels@.map_values(|a: u8| white_with_alpha(a)),
                    i <= n,
                    buf@ == rgba_bytes(colors.take(i as int)),
                decreases n - i,
            {
                let a = pixels[i];
                buf.push(a);
                buf.push(a);
                buf.push(a);
                buf.push(a);
                proof {
                    assert(colors.take(i + 1 as int).drop_last() =~= colors.take(i as int));
                    assert(colors.take(i + 1 as int).last() == white_with_alpha(pixels@[i as int]));
                }
                i = i + 1;
            }
            proof {
                assert(colors.take(n as int) =~= colors);
            }
        },
    }
    proof {
        lemma_rgba_bytes_len(
            match image {
                ImageData::Color { pixels, .. } => pixels@,
                ImageData::Alpha { pixels, .. } => pixels@.map_values(|a: u8| white_with_alpha(a)),
            },
        );
    }
    buf
}

/// Four bytes come out per pixel.
pub proof fn lemma_rgba_bytes_len(pixels: Seq<Color>)
    ensures
        rgba_bytes(pixels).len() == pixels.len() * 4,
    decreases pixels.len(),
{
    if pixels.len() > 0 {
        lemma_rgba_bytes_len(pixels.drop_last());
    }
}

/// The PNG encoding of an RGBA buffer with the given dimensions.
pub uninterp spec fn png_bytes_of(width: u32, height: u32, rgba: Seq<u8>) -> Seq<u8>;

/// The dimensions and RGBA bytes a PNG decoder reads back from a byte string,
/// or nothing when the bytes are not a PNG image.
pub uninterp spec fn png_decode_of(bytes: Seq<u8>) -> Option<(u32, u32, Seq<u8>)>;

/// The base64 text (standard alphabet) of a byte string.
pub uninterp spec fn base64_of(bytes: Seq<u8>) -> Seq<char>;

/// The bytes a base64 decoder (standard alphabet) reads back from a text, or
/// nothing when the text is not valid base64.
pub uninterp spec fn base64_decode_of(text: Seq<char>) -> Option<Seq<u8>>;

/// Relies on image::write_buffer_with_format with the PNG format: the encoder
/// writes a deterministic function of the dimensions and the buffer, it
/// accepts exactly the buffers of matching length with both dimensions
/// positive (a zero dimension is rejected, never written), and PNG is
/// lossless, so decoding what it wrote yields the buffer back exactly — for
/// images within the decoder's default allocation cap of half a gibibyte,
/// which is the bound in the last clause; a larger image still encodes, but
/// the capped decode path refuses it.
/// The length precondition is the encoder's own demand; it panics otherwise.
#[verifier::external_body]
fn png_encode(width: u32, height: u32, rgba: &Vec<u8>) -> (r: Option<Vec<u8>>)
    requires
        rgba@.len() == width * height * 4,
    ensures
        width > 0 && height > 0 ==> r is Some,
        r is Some ==> width > 0 && height > 0,
        r matches Some(b) ==> b@ == png_bytes_of(width, height, rgba@),
        r matches Some(b) ==> (width * height * 4 <= 0x2000_0000 ==> png_decode_of(b@) == Some(
            (width, height, rgba@),
        )),
{
    let mut cursor = std::io::Cursor::new(Vec::new());
    let ok = image::write_buffer_with_format(
        &mut cursor,
        rgba.as_slice(),
        width,
        height,
        image::ColorType::Rgba8,
        image::ImageFormat::Png,
    ).is_ok();
    if ok {
        Some(cursor.into_inner())
    } else {
        None
    }
}

/// Relies on image::load_from_memory_with_format with the PNG format: it
/// returns the decoded dimensions and pixels, and an error (never a panic) on
/// bytes that are not a PNG image.
#[verifier::external_body]
fn png_decode(bytes: &Vec<u8>) -> (r: Option<(u32, u32, Vec<u8>)>)
    ensures
        match (r, png_decode_of(bytes@)) {
            (Some(t), Some(s)) => t.0 == s.0 && t.1 == s.1 && t.2@ == s.2,
            (None, None) => true,
            _ => false,
        },
{
    match image::load_from_memory_with_format(bytes.as_slice(), image::ImageFormat::Png) {
        Ok(img) => {
            let rgba = img.to_rgba8();
            let width = rgba.width();
            let height = rgba.height();
            Some((width, height, rgba.into_raw()))
        },
        Err(_) => None,
    }
}

/// Relies on base64::encode (standard alphabet): text that base64::decode
/// reads back to exactly the input bytes.
#[verifier::external_body]
fn base64_encode(bytes: &Vec<u8>) -> (r: String)
    ensures
        r@ == base64_of(bytes@),
        base64_decode_of(r@) == Some(bytes@),
{
    base64::encode(bytes.as_slice())
}

/// Relies on base64::decode (standard alphabet): the bytes the text encodes,
/// and an error (never a panic) on text that is not valid base64.
#[verifier::external_body]
fn base64_decode(text: &str) -> (r: Option<Vec<u8>>)
    ensures
        match (r, base64_decode_of(text@)) {
            (Some(b), Some(s)) => b@ == s,
            (None, None) => true,
            _ => false,
        },
{
    match base64::decode(text) {
        Ok(b) => Some(b),
        Err(_) => None,
    }
}

/// The data URI that uploads a bitmap: the PNG bytes of its RGBA buffer,
/// base64-encoded, behind the PNG data-URI prefix.
pub open spec fn data_uri_of(width: u32, height: u32, rgba: Seq<u8>) -> Seq<char> {
    "data:image/png;base64,"@ + base64_of(png_bytes_of(width, height, rgba))
}

/// What decoding a data URI yields: the PNG decode of the base64 decode of
/// what follows the prefix, or nothing when the prefix or either decoder
/// rejects the text.
pub open spec fn spec_decode_data_uri(uri: Seq<char>) -> Option<(u32, u32, Seq<u8>)> {
    let prefix = "data:image/png;base64,"@;
    if uri.len() >= prefix.len() && uri.subrange(0, prefix.len() as int) == prefix {
        match base64_decode_of(uri.subrange(prefix.len() as int, uri.len() as int)) {
            Some(png) => png_decode_of(png),
            None => None,
        }
    } else {
        None
    }
}

/// Whether the upload transport can carry a bitmap: the pixel buffer holds
/// exactly one entry per pixel, both dimensions are positive, and the bitmap
/// is within the supported size.
pub open spec fn encodable(image: ImageData) -> bool {
    image.wf() && image.spec_width() > 0 && image.spec_height() > 0
}

/// Encodes a bitmap as a PNG data URI for the asynchronous upload transport.
/// A malformed bitmap — a pixel buffer that does not match the dimensions, a
/// zero dimension, or an unsupported size — aborts this upload only, with no
/// encoding; every other bitmap is owed a URI that decodes back to exactly its
/// RGBA buffer.
pub fn encode_image_data(image: &ImageData) -> (r: Option<String>)
    ensures
        r is Some <==> encodable(*image),
        r matches Some(uri) ==> uri@ == data_uri_of(
            image.spec_width(),
            image.spec_height(),
            image_rgba(*image),
        ),
        r matches Some(uri) ==> spec_decode_data_uri(uri@) == Some(
            (image.spec_width(), image.spec_height(), image_rgba(*image)),
        ),
{
    let w = image.width();
    let h = image.height();
    if w == 0 || h == 0 || w > MAX_IMAGE_DIM || h > MAX_IMAGE_DIM {
        return None;
    }
    proof {
        assert(w * h <= 0x400_0000) by (nonlinear_arith)
            requires
                0 < w <= 8192,
                0 < h <= 8192,
        ;
    }
    let len_ok = match image {
        ImageData::Color { pixels, .. } => pixels.len() == (w as usize) * (h as usize),
        ImageData::Alpha { pixels, .. } => pixels.len() == (w as usize) * (h as usize),
    };
    if !len_ok {
        return None;
    }
    let buf = image_to_rgba(image);
    proof {
        assert(w * h * 4 <= 0x2000_0000) by (nonlinear_arith)
            requires
                0 < w <= 8192,
                0 < h <= 8192,
        ;
    }
    let png = match png_encode(w, h, &buf) {
        Some(p) => p,
        None => {
            proof {
                assert(false);
            }
            vstd::pervasive::unreached()
        },
    };
    let b64 = base64_encode(&png);
    let uri = String::from_str("data:image/png;base64,").concat(b64.as_str());
    proof {
        let prefix = "data:image/png;base64,"@;
        assert(uri@.subrange(0, prefix.len() as int) =~= prefix);
        assert(uri@.subrange(prefix.len() as int, uri@.len() as int) =~= b64@);
    }
    Some(uri)
}

/// Decodes a PNG data URI back to the dimensions and RGBA bytes it carries.
pub fn decode_data_uri(uri: &str) -> (r: Option<(u32, u32, Vec<u8>)>)
    ensures
        match (r, spec_decode_data_uri(uri@)) {
            (Some(t), Some(s)) => t.0 == s.0 && t.1 == s.1 && t.2@ == s.2,
            (None, None) => true,
            _ => false,
        },
{
    proof {
        reveal_strlit("data:image/png;base64,");
    }
    let n = uri.unicode_len();
    if n < 22 {
        return None;
    }
    let head = uri.substring_char(0, 22);
    let prefix = String::from_str("data:image/png;base64,");
    if !(head.to_owned() == prefix) {
        return None;
    }
    let rest = uri.substring_char(22, n);
    proof {
        assert(uri@.subrange(0, 22) == "data:image/png;base64,"@);
        assert(rest@ == uri@.subrange(22, uri@.len() as int));
    }
    let png = match base64_decode(rest) {
        Some(p) => p,
        None => {
            return None;
        },
    };
    png_decode(&png)
}

/// The upload transport is an identity round trip: encoding a bitmap through
/// the PNG and base64 pipeline and decoding the resulting data URI yields
/// exactly the bitmap's RGBA buffer, whatever its contents and dimensions.
pub fn encode_decode_image(image: &ImageData) -> (r: Option<(u32, u32, Vec<u8>)>)
    requires
        encodable(*image),
    ensures
        r is Some,
        r matches Some(t) ==> t.0 == image.spec_width() && t.1 == image.spec_height() && t.2@
            == image_rgba(*image),
{
    let uri = match encode_image_data(image) {
        Some(u) => u,
        None => {
            proof {
                assert(false);
            }
            vstd::pervasive::unreached()
        },
    };
    decode_data_uri(uri.as_str())
}

} // verus!
