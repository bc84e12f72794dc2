//! Fetch-decode policy for one badge: format detection from the byte
//! content, format-dependent decoding (with middle-frame sampling for
//! animated images), and conversion to the pixel-buffer type.

use vstd::prelude::*;
use image::AnimationDecoder;
use crate::canvas::{PixelBuf, Rgba};
use crate::models::{BadgeInfo, DecodedBadge, LayoutEntry, badge_id_seq};
use crate::position::first_layout_match;

verus! {

/// Raw RGBA bytes as handed back by an outside decoder: row-major,
/// four bytes per pixel.
pub struct RawImage {
    pub width: u32,
    pub height: u32,
    pub bytes: Vec<u8>,
}

pub open spec fn raw_view(r: RawImage) -> (nat, nat, Seq<u8>) {
    (r.width as nat, r.height as nat, r.bytes@)
}

pub open spec fn raw_wf(r: RawImage) -> bool {
    r.bytes@.len() == 4 * (r.width as nat) * (r.height as nat)
}

/// The image encodings the badge pipeline distinguishes.
#[derive(Debug, Clone, Copy, PartialEq, Eq, Structural)]
pub enum DetectedFormat {
    Png,
    Gif,
    Other,
}

/// Why one badge was skipped.
#[derive(Debug, Clone, Copy, PartialEq, Eq, Structural)]
pub enum SkipReason {
    FetchFailed,
    UnsupportedFormat,
    DecodeFailed,
}

pub open spec fn has_prefix(b: Seq<u8>, p: Seq<u8>) -> bool {
    p.len() <= b.len() && b.subrange(0, p.len() as int) == p
}

pub open spec fn png_sig() -> Seq<u8> {
    seq![0x89u8, 0x50u8, 0x4eu8, 0x47u8, 0x0du8, 0x0au8, 0x1au8, 0x0au8]
}

pub open spec fn gif87_sig() -> Seq<u8> {
    seq![0x47u8, 0x49u8, 0x46u8, 0x38u8, 0x37u8, 0x61u8]
}

pub open spec fn gif89_sig() -> Seq<u8> {
    seq![0x47u8, 0x49u8, 0x46u8, 0x38u8, 0x39u8, 0x61u8]
}

/// The content starts with the PNG signature.
pub open spec fn is_png(b: Seq<u8>) -> bool {
    has_prefix(b, png_sig())
}

/// The content starts with one of the GIF signatures.
pub open spec fn is_gif(b: Seq<u8>) -> bool {
    has_prefix(b, gif87_sig()) || has_prefix(b, gif89_sig())
}

/// Relies on `image::guess_format`, which matches the start of the
/// content against a table of magic bytes: the PNG signature maps to
/// its PNG format, the two GIF signatures to its GIF format, and no
/// other table entry matches content starting with either signature.
#[verifier::external_body]
fn detect_format(bytes: &Vec<u8>) -> (r: DetectedFormat)
    ensures
        is_png(bytes@) ==> r == DetectedFormat::Png,
        is_gif(bytes@) ==> r == DetectedFormat::Gif,
        !is_png(bytes@) && !is_gif(bytes@) ==> r == DetectedFormat::Other,
{
    match image::guess_format(bytes) {
        Ok(image::ImageFormat::Png) => DetectedFormat::Png,
        Ok(image::ImageFormat::Gif) => DetectedFormat::Gif,
        _ => DetectedFormat::Other,
    }
}

/// What decoding the content as PNG yields: the RGBA buffer with its
/// dimensions, or nothing when the content is not a valid PNG image.
/// Determined by the bytes alone.
pub uninterp spec fn png_rgba_of(b: Seq<u8>) -> Option<(nat, nat, Seq<u8>)>;

/// Relies on `image::load_from_memory_with_format` with the PNG format
/// and `DynamicImage::to_rgba8`: decoding is a function of the bytes
/// alone, and the RGBA buffer holds four bytes per pixel.
#[verifier::external_body]
fn decode_png(bytes: &Vec<u8>) -> (r: Option<RawImage>)
    ensures
        r is Some <==> png_rgba_of(bytes@) is Some,
        r is Some ==> raw_view(r->0) == png_rgba_of(bytes@)->0 && raw_wf(r->0),
{
    match image::load_from_memory_with_format(bytes, image::ImageFormat::Png) {
        Ok(img) => {
            let buf = img.to_rgba8();
            Some(RawImage { width: buf.width(), height: buf.height(), bytes: buf.into_raw() })
        },
        Err(_) => None,
    }
}

/// What decoding the content as GIF yields: the full frame sequence as
/// RGBA buffers, or nothing when the content is not a valid GIF
/// animation.  Determined by the bytes alone.
pub uninterp spec fn gif_frames_of(b: Seq<u8>) -> Option<Seq<(nat, nat, Seq<u8>)>>;

/// Relies on `image::codecs::gif::GifDecoder` and
/// `Frames::collect_frames`: the decoded frame sequence is a function
/// of the bytes alone, each frame an RGBA buffer of four bytes per
/// pixel.
#[verifier::external_body]
fn decode_gif_frames(bytes: &Vec<u8>) -> (r: Option<Vec<RawImage>>)
    ensures
        r is Some <==> gif_frames_of(bytes@) is Some,
        r is Some ==> r->0@.map_values(|f: RawImage| raw_view(f)) == gif_frames_of(bytes@)->0,
        r is Some ==> forall|k: int| 0 <= k < r->0@.len() ==> raw_wf(#[trigger] r->0@[k]),
{
    let cursor = std::io::Cursor::new(bytes.as_slice());
    let decoder = match image::codecs::gif::GifDecoder::new(cursor) {
        Ok(d) => d,
        Err(_) => return None,
    };
    let frames = match decoder.into_frames().collect_frames() {
        Ok(f) => f,
        Err(_) => return None,
    };
    let to_raw = |f: image::Frame| {
        let b = f.into_buffer();
        RawImage { width: b.width(), height: b.height(), bytes: b.into_raw() }
    };
    Some(frames.into_iter().map(to_raw).collect())
}

/// Middle-frame sampling: an animated image is represented by exactly
/// the frame at index `N / 2` (integer division) of its `N` frames.
pub fn select_middle_frame(frames: Vec<RawImage>) -> (r: Option<RawImage>)
    ensures
        frames@.len() == 0 ==> r is None,
        frames@.len() > 0 ==> (r matches Some(f) && f == frames@[frames@.len() as int / 2]),
{
    if frames.len() == 0 {
        None
    } else {
        let mut frames = frames;
        let idx = frames.len() / 2;
        Some(frames.remove(idx))
    }
}

/// The pixels encoded by a raw RGBA byte buffer.
pub open spec fn pixels_of_bytes(b: Seq<u8>) -> Seq<Rgba> {
    Seq::new(
        b.len() / 4,
        |i: int| Rgba { r: b[4 * i], g: b[4 * i + 1], b: b[4 * i + 2], a: b[4 * i + 3] },
    )
}

/// Converts a raw decoded image into a pixel buffer.
pub fn raw_to_pixelbuf(raw: RawImage) -> (r: PixelBuf)
    requires
        raw_wf(raw),
    ensures
        r.wf(),
        r.width == raw.width as nat,
        r.height == raw.height as nat,
        r.pixels@ == pixels_of_bytes(raw.bytes@),
{
    let len = raw.bytes.len();
    let n = len / 4;
    proof {
        assert(len == 4 * (raw.width as nat) * (raw.height as nat));
        assert(n == (raw.width as nat) * (raw.height as nat)) by (nonlinear_arith)
            requires
                len == 4 * (raw.width as nat) * (raw.height as nat),
                n == len / 4,
        ;
    }
    let mut pixels: Vec<Rgba> = Vec::new();
    let mut i: usize = 0;
    while i < n
        invariant
            i <= n,
            4 * n <= len,
            len == raw.bytes@.len(),
            pixels@.len() == i,
            forall|j: int| 0 <= j < i ==> pixels@[j] == pixels_of_bytes(raw.bytes@)[j],
        decreases n - i,
    {
        let p = Rgba {
            r: raw.bytes[4 * i],
            g: raw.bytes[4 * i + 1],
            b: raw.bytes[4 * i + 2],
            a: raw.bytes[4 * i + 3],
        };
        pixels.push(p);
        i = i + 1;
    }
    let r = PixelBuf { width: raw.width as usize, height: raw.height as usize, pixels };
    proof {
        assert(r.pixels@ =~= pixels_of_bytes(raw.bytes@));
    }
    r
}

/// What the decode policy yields for given content: the decoded RGBA
/// image for a PNG, the middle frame for a GIF animation, nothing for
/// any other or undecodable content.
pub open spec fn decoded_view_of(bytes: Seq<u8>) -> Option<(nat, nat, Seq<u8>)> {
    if is_png(bytes) {
        png_rgba_of(bytes)
    } else if is_gif(bytes) {
        match gif_frames_of(bytes) {
            Some(frames) => if frames.len() > 0 {
                Some(frames[frames.len() as int / 2])
            } else {
                None
            },
            None => None,
        }
    } else {
        None
    }
}

/// Decodes fetched badge content under the format policy: PNG decodes
/// directly, an animated GIF is represented by its middle frame, and
/// any other detected format is a skippable error.
pub fn decode_badge_image(bytes: &Vec<u8>) -> (r: Result<PixelBuf, SkipReason>)
    ensures
        !is_png(bytes@) && !is_gif(bytes@) ==> r == Err::<PixelBuf, SkipReason>(
            SkipReason::UnsupportedFormat,
        ),
        (is_png(bytes@) || is_gif(bytes@)) && decoded_view_of(bytes@) is None ==> r
            == Err::<PixelBuf, SkipReason>(SkipReason::DecodeFailed),
        decoded_view_of(bytes@) matches Some(v) ==> r matches Ok(img) && img.wf()
            && img.width as nat == v.0 && img.height as nat == v.1 && img.pixels@
            == pixels_of_bytes(v.2),
{
    match detect_format(bytes) {
        DetectedFormat::Png => {
            match decode_png(bytes) {
                Some(raw) => Ok(raw_to_pixelbuf(raw)),
                None => Err(SkipReason::DecodeFailed),
            }
        },
        DetectedFormat::Gif => {
            match decode_gif_frames(bytes) {
                Some(frames) => {
                    proof {
                        let views = gif_frames_of(bytes@)->0;
                        assert(frames@.len() == views.len());
                        if frames@.len() > 0 {
                            assert(raw_view(frames@[frames@.len() as int / 2]) == views[views.len()
                                as int / 2]);
                        }
                    }
                    match select_middle_frame(frames) {
                        Some(frame) => Ok(raw_to_pixelbuf(frame)),
                        None => Err(SkipReason::DecodeFailed),
                    }
                },
                None => Err(SkipReason::DecodeFailed),
            }
        },
        DetectedFormat::Other => Err(SkipReason::UnsupportedFormat),
    }
}

/// Processes one badge whose content was already fetched: decode under
/// the format policy, then resolve the destination position, preferring
/// the layout-derived position when the layout declares one.
pub fn process_badge(badge: &BadgeInfo, bytes: &Vec<u8>, layout: &Vec<LayoutEntry>) -> (r: Result<
    DecodedBadge,
    SkipReason,
>)
    ensures
        r is Ok <==> decoded_view_of(bytes@) is Some,
        !is_png(bytes@) && !is_gif(bytes@) ==> r == Err::<DecodedBadge, SkipReason>(
            SkipReason::UnsupportedFormat,
        ),
        (is_png(bytes@) || is_gif(bytes@)) && decoded_view_of(bytes@) is None ==> r
            == Err::<DecodedBadge, SkipReason>(SkipReason::DecodeFailed),
        r matches Ok(d) ==> ({
            let v = (decoded_view_of(bytes@))->0;
            let id = badge_id_seq(badge.creator_id as int, badge.creator_badge_index as int);
            &&& d.image.wf()
            &&& d.image.width as nat == v.0
            &&& d.image.height as nat == v.1
            &&& d.image.pixels@ == pixels_of_bytes(v.2)
            &&& d.id@ == id
            &&& match first_layout_match(layout@, id) {
                Some(i) => d.x == layout@[i].x && d.y == layout@[i].y,
                None => d.x == badge.xloc && d.y as int == badge.yloc as int % (
                crate::CANVAS_HEIGHT as int),
            }
        }),
{
    match decode_badge_image(bytes) {
        Ok(image) => {
            let id = badge.to_id_string();
            let (x, y) = crate::position::resolve_position(badge, layout);
            Ok(DecodedBadge { id, image, x, y })
        },
        Err(e) => Err(e),
    }
}

} // verus!
