use badge_canvas::background::generate_grid_background;
use badge_canvas::canvas::{PixelBuf, Rgba};
use badge_canvas::compose::{composite_badges, overlay_badge};
use badge_canvas::decode::{decode_badge_image, select_middle_frame, RawImage, SkipReason};
use badge_canvas::encode::{encode_canvas, OutputFormat};
use badge_canvas::models::DecodedBadge;
use badge_canvas::position::parse_layout_markup;

use image::codecs::gif::GifEncoder;
use image::{Frame, RgbaImage};

fn solid_buf(w: usize, h: usize, p: Rgba) -> PixelBuf {
    let mut pixels = Vec::new();
    for _ in 0..w * h {
        pixels.push(p);
    }
    PixelBuf { width: w, height: h, pixels }
}

fn png_bytes_of_buf(buf: &PixelBuf) -> Vec<u8> {
    encode_canvas(buf, OutputFormat::Png).expect("png encoding")
}

#[test]
fn png_round_trip_is_lossless() {
    // Encoding the canvas as PNG and decoding it back yields
    // pixel-identical RGBA data.
    let canvas = generate_grid_background("ececec");
    let bytes = png_bytes_of_buf(&canvas);
    let back = decode_badge_image(&bytes).expect("png decodes");
    assert_eq!(back.width, canvas.width);
    assert_eq!(back.height, canvas.height);
    assert_eq!(back.pixels, canvas.pixels);
}

#[test]
fn jpeg_round_trip_keeps_dimensions_and_gross_color() {
    let canvas = generate_grid_background("ececec");
    let bytes = encode_canvas(&canvas, OutputFormat::Jpeg).expect("jpeg encoding");
    let back = image::load_from_memory_with_format(&bytes, image::ImageFormat::Jpeg)
        .expect("jpeg decodes")
        .to_rgba8();
    assert_eq!(back.width(), 440);
    assert_eq!(back.height(), 100);
    // Lossy: only check the broad color region near the accent.
    let p = back.get_pixel(5, 5);
    assert!(p.0[0] > 180 && p.0[1] > 180 && p.0[2] > 180);
}

#[test]
fn middle_frame_index_policy() {
    // 5 frames select index 2; 4 frames also select index 2.
    let mk = |tag: u8| RawImage { width: 1, height: 1, bytes: vec![tag, 0, 0, 255] };
    let five = vec![mk(0), mk(1), mk(2), mk(3), mk(4)];
    assert_eq!(select_middle_frame(five).unwrap().bytes[0], 2);
    let four = vec![mk(0), mk(1), mk(2), mk(3)];
    assert_eq!(select_middle_frame(four).unwrap().bytes[0], 2);
    assert!(select_middle_frame(Vec::new()).is_none());
}

#[test]
fn animated_input_uses_middle_frame() {
    // A five-frame animation decodes to exactly its third frame.
    let reds: [u8; 5] = [10, 60, 110, 160, 210];
    let mut bytes: Vec<u8> = Vec::new();
    {
        let mut enc = GifEncoder::new(&mut bytes);
        for r in reds {
            let img = RgbaImage::from_pixel(1, 1, image::Rgba([r, 0, 0, 255]));
            enc.encode_frame(Frame::new(img)).expect("gif frame");
        }
    }
    let decoded = decode_badge_image(&bytes).expect("gif decodes");
    assert_eq!(decoded.width, 1);
    assert_eq!(decoded.height, 1);
    assert_eq!(decoded.pixels[0].r, 110);
}

#[test]
fn unsupported_content_is_skippable() {
    let garbage = vec![0u8, 1, 2, 3, 4, 5, 6, 7, 8, 9];
    assert_eq!(decode_badge_image(&garbage), Err(SkipReason::UnsupportedFormat));
    // A PNG signature over truncated content fails as a decode error.
    let truncated = vec![0x89u8, 0x50, 0x4e, 0x47, 0x0d, 0x0a, 0x1a, 0x0a, 0, 0];
    assert_eq!(decode_badge_image(&truncated), Err(SkipReason::DecodeFailed));
}

#[test]
fn overlay_blends_and_clips() {
    let mut canvas = generate_grid_background("ececec");
    let red = solid_buf(2, 2, Rgba { r: 200, g: 10, b: 10, a: 255 });
    overlay_badge(&mut canvas, &red, 4, 6);
    // Opaque source replaces the destination inside the badge.
    assert_eq!(canvas.get(4, 6), Rgba { r: 200, g: 10, b: 10, a: 255 });
    assert_eq!(canvas.get(5, 7), Rgba { r: 200, g: 10, b: 10, a: 255 });
    // Outside the badge the canvas is untouched.
    assert_eq!(canvas.get(6, 6), Rgba { r: 0xEC, g: 0xEC, b: 0xEC, a: 0xFF });

    // A badge partly off the canvas is clipped, not an error.
    let mut canvas = generate_grid_background("ececec");
    overlay_badge(&mut canvas, &red, -1, -1);
    assert_eq!(canvas.get(0, 0), Rgba { r: 200, g: 10, b: 10, a: 255 });

    // Half-transparent source blends toward the destination.
    let mut canvas = solid_buf(440, 100, Rgba { r: 0, g: 0, b: 0, a: 255 });
    let half = solid_buf(1, 1, Rgba { r: 255, g: 255, b: 255, a: 128 });
    overlay_badge(&mut canvas, &half, 0, 0);
    let p = canvas.get(0, 0);
    assert_eq!(p.r, 128);
    assert_eq!(p.a, 255);
}

#[test]
fn one_bad_badge_does_not_abort_the_run() {
    // Three badges: two decode, one's download failed. The two valid
    // ones composite and the run still produces an encoded image.
    let blue = solid_buf(1, 1, Rgba { r: 0, g: 0, b: 250, a: 255 });
    let green = solid_buf(1, 1, Rgba { r: 0, g: 250, b: 0, a: 255 });
    let payloads: Vec<Option<Vec<u8>>> = vec![
        Some(png_bytes_of_buf(&blue)),
        None,  // unreachable image_url: no bytes
        Some(png_bytes_of_buf(&green)),
    ];
    let positions: [(i64, i64); 3] = [(3, 4), (100, 50), (30, 40)];
    let mut decoded: Vec<DecodedBadge> = Vec::new();
    let mut skipped = 0;
    for (k, payload) in payloads.iter().enumerate() {
        match payload {
            Some(bytes) => match decode_badge_image(bytes) {
                Ok(image) => decoded.push(DecodedBadge {
                    id: format!("badge-{}-0", k),
                    image,
                    x: positions[k].0,
                    y: positions[k].1,
                }),
                Err(_) => skipped += 1,
            },
            None => skipped += 1,
        }
    }
    assert_eq!(decoded.len(), 2);
    assert_eq!(skipped, 1);
    let mut canvas = generate_grid_background("ececec");
    composite_badges(&mut canvas, &decoded);
    assert_eq!(canvas.get(3, 4), Rgba { r: 0, g: 0, b: 250, a: 255 });
    assert_eq!(canvas.get(30, 40), Rgba { r: 0, g: 250, b: 0, a: 255 });
    assert!(encode_canvas(&canvas, OutputFormat::Png).is_some());
}

#[test]
fn encoding_succeeds_within_dimension_bounds() {
    // Success is owed for dimensions in 1..=65535; a zero dimension is
    // the one way the encoders can refuse a well-formed buffer.
    let one = solid_buf(1, 1, Rgba { r: 1, g: 2, b: 3, a: 255 });
    assert!(encode_canvas(&one, OutputFormat::Png).is_some());
    assert!(encode_canvas(&one, OutputFormat::Jpeg).is_some());
    let empty = PixelBuf { width: 0, height: 0, pixels: Vec::new() };
    assert!(encode_canvas(&empty, OutputFormat::Png).is_none());
    assert!(encode_canvas(&empty, OutputFormat::Jpeg).is_none());
}

#[test]
fn empty_markup_yields_no_positions() {
    assert_eq!(parse_layout_markup("").len(), 0);
    assert_eq!(parse_layout_markup("<p>no badges here</p>").len(), 0);
}
