use canvas_paint::color::Color;
use canvas_paint::texture::{
    decode_data_uri, encode_decode_image, encode_image_data, image_to_rgba, ImageData,
};

fn solid_image(w: u32, h: u32, c: Color) -> ImageData {
    ImageData::Color { width: w, height: h, pixels: vec![c; (w * h) as usize] }
}

#[test]
fn color_image_flattens_to_rgba_bytes() {
    let img = ImageData::Color {
        width: 2,
        height: 1,
        pixels: vec![
            Color { r: 1, g: 2, b: 3, a: 4 },
            Color { r: 5, g: 6, b: 7, a: 8 },
        ],
    };
    assert_eq!(image_to_rgba(&img), vec![1, 2, 3, 4, 5, 6, 7, 8]);
}

// A single-channel alpha bitmap is treated as white with that alpha,
// premultiplied.
#[test]
fn alpha_image_becomes_white_with_alpha() {
    let img = ImageData::Alpha { width: 1, height: 2, pixels: vec![0, 200] };
    assert_eq!(image_to_rgba(&img), vec![0, 0, 0, 0, 200, 200, 200, 200]);
}

// The round trip through the upload pipeline is the identity: a solid-color
// buffer comes back exactly, pixel for pixel.
#[test]
fn png_base64_round_trip_is_identity() {
    let img = solid_image(3, 2, Color { r: 10, g: 250, b: 5, a: 255 });
    let (w, h, bytes) = encode_decode_image(&img).unwrap();
    assert_eq!((w, h), (3, 2));
    assert_eq!(bytes, image_to_rgba(&img));
}

#[test]
fn round_trip_keeps_every_distinct_pixel() {
    let img = ImageData::Color {
        width: 2,
        height: 2,
        pixels: vec![
            Color { r: 1, g: 2, b: 3, a: 255 },
            Color { r: 4, g: 5, b: 6, a: 255 },
            Color { r: 7, g: 8, b: 9, a: 255 },
            Color { r: 10, g: 11, b: 12, a: 255 },
        ],
    };
    let (w, h, bytes) = encode_decode_image(&img).unwrap();
    assert_eq!((w, h), (2, 2));
    assert_eq!(bytes, image_to_rgba(&img));
}

// The data URI really is what the platform's loader expects: decoding its
// base64 payload with the outside decoders yields a PNG with the same pixels.
#[test]
fn data_uri_decodes_with_the_outside_crates() {
    let img = solid_image(4, 3, Color { r: 9, g: 30, b: 200, a: 128 });
    let uri = encode_image_data(&img).unwrap();
    let payload = uri.strip_prefix("data:image/png;base64,").unwrap();
    let png = base64::decode(payload).unwrap();
    let decoded = image::load_from_memory_with_format(&png, image::ImageFormat::Png).unwrap();
    let rgba = decoded.to_rgba8();
    assert_eq!(rgba.dimensions(), (4, 3));
    assert_eq!(rgba.into_raw(), image_to_rgba(&img));
}

#[test]
fn decode_rejects_text_without_the_prefix() {
    assert!(decode_data_uri("data:text/plain;base64,AAAA").is_none());
    assert!(decode_data_uri("nonsense").is_none());
}

#[test]
fn decode_rejects_invalid_base64() {
    assert!(decode_data_uri("data:image/png;base64,!!!").is_none());
}

#[test]
fn decode_rejects_non_png_payload() {
    let not_png = base64::encode(b"hello");
    let mut uri = String::from("data:image/png;base64,");
    uri.push_str(&not_png);
    assert!(decode_data_uri(&uri).is_none());
}

#[test]
fn zero_sized_image_cannot_encode() {
    let img = ImageData::Color { width: 0, height: 0, pixels: vec![] };
    assert!(encode_image_data(&img).is_none());
}

#[test]
fn mismatched_buffer_cannot_encode() {
    let img = ImageData::Alpha { width: 3, height: 3, pixels: vec![7, 7] };
    assert!(encode_image_data(&img).is_none());
}
