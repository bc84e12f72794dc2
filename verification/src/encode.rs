//! Output encoding: choosing the output format from the path's
//! extension and serializing the canvas.

use vstd::prelude::*;
use crate::canvas::{PixelBuf, Rgba};

verus! {

/// The output formats the encoder supports.
#[derive(Debug, Clone, Copy, PartialEq, Eq, Structural)]
pub enum OutputFormat {
    Png,
    Jpeg,
}

pub open spec fn ends_with(s: Seq<char>, suffix: Seq<char>) -> bool {
    suffix.len() <= s.len() && s.subrange(s.len() - suffix.len(), s.len() as int) == suffix
}

pub open spec fn png_ext() -> Seq<char> {
    seq!['.', 'p', 'n', 'g']
}

pub open spec fn jpg_ext() -> Seq<char> {
    seq!['.', 'j', 'p', 'g']
}

pub open spec fn jpeg_ext() -> Seq<char> {
    seq!['.', 'j', 'p', 'e', 'g']
}

/// The output format implied by a path: `.png` means PNG, `.jpg` or
/// `.jpeg` means JPEG, anything else is unsupported.
pub open spec fn format_of_path(s: Seq<char>) -> Option<OutputFormat> {
    if ends_with(s, png_ext()) {
        Some(OutputFormat::Png)
    } else if ends_with(s, jpg_ext()) || ends_with(s, jpeg_ext()) {
        Some(OutputFormat::Jpeg)
    } else {
        None
    }
}

/// Whether the characters of `v` end with `suffix`.
fn has_suffix(v: &Vec<char>, suffix: &Vec<char>) -> (r: bool)
    ensures
        r == ends_with(v@, suffix@),
{
    if suffix.len() > v.len() {
        return false;
    }
    let start = v.len() - suffix.len();
    let mut k: usize = 0;
    while k < suffix.len()
        invariant
            k <= suffix@.len(),
            suffix@.len() <= v@.len(),
            v@.len() <= usize::MAX,
            start == v@.len() - suffix@.len(),
            forall|m: int| 0 <= m < k ==> v@[start + m] == suffix@[m],
        decreases suffix@.len() - k,
    {
        if v[start + k] != suffix[k] {
            proof {
                if ends_with(v@, suffix@) {
                    assert(v@.subrange(start as int, v@.len() as int)[k as int] == v@[start + k]);
                }
            }
            return false;
        }
        k = k + 1;
    }
    proof {
        assert(v@.subrange(start as int, v@.len() as int) =~= suffix@);
    }
    true
}

/// Chooses the output format from the output path.  Fails exactly on a
/// path with an unsupported or missing extension.
pub fn choose_format(path: &str) -> (r: Option<OutputFormat>)
    ensures
        r == format_of_path(path@),
{
    let chars = crate::text::chars_vec(path);
    let mut png = Vec::new();
    png.push('.');
    png.push('p');
    png.push('n');
    png.push('g');
    let mut jpg = Vec::new();
    jpg.push('.');
    jpg.push('j');
    jpg.push('p');
    jpg.push('g');
    let mut jpeg = Vec::new();
    jpeg.push('.');
    jpeg.push('j');
    jpeg.push('p');
    jpeg.push('e');
    jpeg.push('g');
    proof {
        assert(png@ =~= png_ext());
        assert(jpg@ =~= jpg_ext());
        assert(jpeg@ =~= jpeg_ext());
    }
    if has_suffix(&chars, &png) {
        Some(OutputFormat::Png)
    } else if has_suffix(&chars, &jpg) || has_suffix(&chars, &jpeg) {
        Some(OutputFormat::Jpeg)
    } else {
        None
    }
}

/// The PNG serialization of an RGBA buffer of the given dimensions.
/// Determined by the buffer and dimensions alone.
pub uninterp spec fn png_bytes_of(w: nat, h: nat, rgba: Seq<u8>) -> Seq<u8>;

/// The JPEG serialization of an RGB buffer of the given dimensions.
/// Determined by the buffer and dimensions alone.
pub uninterp spec fn jpeg_bytes_of(w: nat, h: nat, rgb: Seq<u8>) -> Seq<u8>;

/// Relies on `image::write_buffer_with_format` with the PNG encoder:
/// encoding to an in-memory buffer is a function of the pixel bytes
/// and dimensions alone, and with a matching buffer length it fails
/// only on a zero width or height, so success is owed otherwise.
#[verifier::external_body]
fn encode_png_bytes(w: u32, h: u32, rgba: &Vec<u8>) -> (r: Option<Vec<u8>>)
    requires
        rgba@.len() == 4 * (w as nat) * (h as nat),
    ensures
        r is Some ==> r->0@ == png_bytes_of(w as nat, h as nat, rgba@),
        w >= 1 && h >= 1 ==> r is Some,
{
    let mut cursor = std::io::Cursor::new(Vec::new());
    match image::write_buffer_with_format(
        &mut cursor,
        rgba,
        w,
        h,
        image::ExtendedColorType::Rgba8,
        image::ImageFormat::Png,
    ) {
        Ok(()) => Some(cursor.into_inner()),
        Err(_) => None,
    }
}

/// Relies on `image::write_buffer_with_format` with the JPEG encoder,
/// which takes RGB input: encoding to an in-memory buffer is a function
/// of the pixel bytes and dimensions alone, and with a matching buffer
/// length it fails only on dimensions outside `1 ..= 65535`, so success
/// is owed inside that range.  The length bound matches the encoder's
/// own check on its input buffer.
#[verifier::external_body]
fn encode_jpeg_bytes(w: u32, h: u32, rgb: &Vec<u8>) -> (r: Option<Vec<u8>>)
    requires
        rgb@.len() == 3 * (w as nat) * (h as nat),
    ensures
        r is Some ==> r->0@ == jpeg_bytes_of(w as nat, h as nat, rgb@),
        1 <= w <= 65535 && 1 <= h <= 65535 ==> r is Some,
{
    let mut cursor = std::io::Cursor::new(Vec::new());
    match image::write_buffer_with_format(
        &mut cursor,
        rgb,
        w,
        h,
        image::ExtendedColorType::Rgb8,
        image::ImageFormat::Jpeg,
    ) {
        Ok(()) => Some(cursor.into_inner()),
        Err(_) => None,
    }
}

/// The row-major RGBA byte serialization of a pixel sequence.
pub open spec fn bytes_of_pixels(ps: Seq<Rgba>) -> Seq<u8> {
    Seq::new(
        4 * ps.len(),
        |i: int|
            {
                let p = ps[i / 4];
                if i % 4 == 0 {
                    p.r
                } else if i % 4 == 1 {
                    p.g
                } else if i % 4 == 2 {
                    p.b
                } else {
                    p.a
                }
            },
    )
}

/// The row-major RGB byte serialization of a pixel sequence, alpha
/// dropped.
pub open spec fn rgb_bytes_of_pixels(ps: Seq<Rgba>) -> Seq<u8> {
    Seq::new(
        3 * ps.len(),
        |i: int|
            {
                let p = ps[i / 3];
                if i % 3 == 0 {
                    p.r
                } else if i % 3 == 1 {
                    p.g
                } else {
                    p.b
                }
            },
    )
}

/// Flattens a pixel buffer to raw RGBA bytes.
pub fn pixels_to_rgba_bytes(b: &PixelBuf) -> (r: Vec<u8>)
    ensures
        r@ == bytes_of_pixels(b.pixels@),
{
    let n = b.pixels.len();
    let mut r: Vec<u8> = Vec::new();
    let mut i: usize = 0;
    while i < n
        invariant
            i <= n,
            n == b.pixels@.len(),
            r@.len() == 4 * i,
            forall|j: int| 0 <= j < r@.len() ==> r@[j] == bytes_of_pixels(b.pixels@)[j],
        decreases n - i,
    {
        let p = b.pixels[i];
        r.push(p.r);
        r.push(p.g);
        r.push(p.b);
        r.push(p.a);
        i = i + 1;
        proof {
            assert forall|j: int| 4 * (i - 1) <= j < 4 * i implies r@[j] == bytes_of_pixels(
                b.pixels@,
            )[j] by {
                vstd::arithmetic::div_mod::lemma_fundamental_div_mod_converse(
                    j,
                    4,
                    i - 1,
                    j - 4 * (i - 1),
                );
            }
        }
    }
    proof {
        assert(r@ =~= bytes_of_pixels(b.pixels@));
    }
    r
}

/// Flattens a pixel buffer to raw RGB bytes, dropping alpha.
pub fn pixels_to_rgb_bytes(b: &PixelBuf) -> (r: Vec<u8>)
    ensures
        r@ == rgb_bytes_of_pixels(b.pixels@),
{
    let n = b.pixels.len();
    let mut r: Vec<u8> = Vec::new();
    let mut i: usize = 0;
    while i < n
        invariant
            i <= n,
            n == b.pixels@.len(),
            r@.len() == 3 * i,
            forall|j: int| 0 <= j < r@.len() ==> r@[j] == rgb_bytes_of_pixels(b.pixels@)[j],
        decreases n - i,
    {
        let p = b.pixels[i];
        r.push(p.r);
        r.push(p.g);
        r.push(p.b);
        i = i + 1;
        proof {
            assert forall|j: int| 3 * (i - 1) <= j < 3 * i implies r@[j] == rgb_bytes_of_pixels(
                b.pixels@,
            )[j] by {
                vstd::arithmetic::div_mod::lemma_fundamental_div_mod_converse(
                    j,
                    3,
                    i - 1,
                    j - 3 * (i - 1),
                );
            }
        }
    }
    proof {
        assert(r@ =~= rgb_bytes_of_pixels(b.pixels@));
    }
    r
}

/// Serializes the canvas in the chosen format: PNG from the RGBA
/// pixels, JPEG from the RGB pixels with alpha dropped.  Succeeds for
/// every well-formed canvas whose dimensions both lie in `1 ..= 65535`
/// (which covers the fixed output canvas), so a run that reaches
/// encoding produces its image.
pub fn encode_canvas(canvas: &PixelBuf, format: OutputFormat) -> (r: Option<Vec<u8>>)
    requires
        canvas.wf(),
    ensures
        1 <= canvas.width <= 65535 && 1 <= canvas.height <= 65535 ==> r is Some,
        r is Some && format == OutputFormat::Png ==> r->0@ == png_bytes_of(
            canvas.width as nat,
            canvas.height as nat,
            bytes_of_pixels(canvas.pixels@),
        ),
        r is Some && format == OutputFormat::Jpeg ==> r->0@ == jpeg_bytes_of(
            canvas.width as nat,
            canvas.height as nat,
            rgb_bytes_of_pixels(canvas.pixels@),
        ),
{
    match format {
        OutputFormat::Png => {
            let rgba = pixels_to_rgba_bytes(canvas);
            proof {
                assert(rgba@.len() == 4 * (canvas.width as nat) * (canvas.height as nat))
                    by (nonlinear_arith)
                    requires
                        rgba@.len() == 4 * canvas.pixels@.len(),
                        canvas.pixels@.len() == canvas.width * canvas.height,
                ;
            }
            encode_png_bytes(canvas.width as u32, canvas.height as u32, &rgba)
        },
        OutputFormat::Jpeg => {
            let rgb = pixels_to_rgb_bytes(canvas);
            proof {
                assert(rgb@.len() == 3 * (canvas.width as nat) * (canvas.height as nat))
                    by (nonlinear_arith)
                    requires
                        rgb@.len() == 3 * canvas.pixels@.len(),
                        canvas.pixels@.len() == canvas.width * canvas.height,
                ;
            }
            encode_jpeg_bytes(canvas.width as u32, canvas.height as u32, &rgb)
        },
    }
}

} // verus!
