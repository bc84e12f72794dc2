//! The compositor: source-over alpha blending of decoded badges onto the
//! canvas, clipped to the canvas bounds.

use vstd::prelude::*;
use crate::canvas::{PixelBuf, Rgba, lemma_row_major_index, lemma_row_major_injective};
use crate::models::DecodedBadge;

verus! {

/// One channel of source-over compositing with 8-bit arithmetic,
/// rounded to nearest: `(s*a + d*(255 - a)) / 255`.
pub open spec fn blend_channel(s: int, d: int, a: int) -> int {
    (s * a + d * (255 - a) + 127) / 255
}

/// Source-over blending of a source pixel onto a destination pixel.
/// The result alpha follows the same rule with a full source channel.
pub open spec fn blend(dst: Rgba, src: Rgba) -> Rgba {
    Rgba {
        r: blend_channel(src.r as int, dst.r as int, src.a as int) as u8,
        g: blend_channel(src.g as int, dst.g as int, src.a as int) as u8,
        b: blend_channel(src.b as int, dst.b as int, src.a as int) as u8,
        a: blend_channel(255, dst.a as int, src.a as int) as u8,
    }
}

fn blend_channel_exec(s: u8, d: u8, a: u8) -> (r: u8)
    ensures
        r as int == blend_channel(s as int, d as int, a as int),
{
    proof {
        assert((s as int) * (a as int) <= 65025) by (nonlinear_arith)
            requires
                s <= 255,
                a <= 255,
        ;
        assert((d as int) * (255 - a as int) <= 65025) by (nonlinear_arith)
            requires
                d <= 255,
                a <= 255,
        ;
        assert((s as int) * (a as int) + (d as int) * (255 - a as int) <= 65025)
            by (nonlinear_arith)
            requires
                s <= 255,
                d <= 255,
                a <= 255,
        ;
    }
    let num: u32 = (s as u32) * (a as u32) + (d as u32) * (255 - a as u32) + 127;
    assert(num <= 65152);
    assert(num / 255 <= 255);
    (num / 255) as u8
}

fn blend_exec(dst: Rgba, src: Rgba) -> (r: Rgba)
    ensures
        r == blend(dst, src),
{
    Rgba {
        r: blend_channel_exec(src.r, dst.r, src.a),
        g: blend_channel_exec(src.g, dst.g, src.a),
        b: blend_channel_exec(src.b, dst.b, src.a),
        a: blend_channel_exec(255, dst.a, src.a),
    }
}

/// Whether canvas coordinate `(cx, cy)` falls under a badge of size
/// `bw` by `bh` placed at `(x0, y0)`.
pub open spec fn covers(bw: int, bh: int, x0: int, y0: int, cx: int, cy: int) -> bool {
    x0 <= cx < x0 + bw && y0 <= cy < y0 + bh
}

/// The canvas contents after one badge is overlaid at `(x0, y0)`:
/// covered pixels are blended, everything else is untouched, and pixels
/// of the badge that fall outside the canvas are dropped.
pub open spec fn overlay_spec(cv: Seq<Rgba>, badge: PixelBuf, x0: int, y0: int) -> Seq<Rgba> {
    Seq::new(
        cv.len(),
        |i: int|
            {
                let cx = i % 440;
                let cy = i / 440;
                if covers(badge.width as int, badge.height as int, x0, y0, cx, cy) {
                    blend(cv[i], badge.pixel(cx - x0, cy - y0))
                } else {
                    cv[i]
                }
            },
    )
}

/// Which badge pixels have been written, scanning row-major up to badge
/// row `sy` and, within that row, column `sx`.
pub open spec fn overlay_done(x0: int, y0: int, sx: int, sy: int, cx: int, cy: int) -> bool {
    cy - y0 < sy || (cy - y0 == sy && cx - x0 < sx)
}

/// Overlays one decoded badge onto the canvas at `(x0, y0)` with
/// source-over blending, clipped to the canvas bounds.
pub fn overlay_badge(canvas: &mut PixelBuf, badge: &PixelBuf, x0: i64, y0: i64)
    requires
        old(canvas).wf(),
        old(canvas).width == crate::CANVAS_WIDTH,
        old(canvas).height == crate::CANVAS_HEIGHT,
        badge.wf(),
    ensures
        final(canvas).wf(),
        final(canvas).width == old(canvas).width,
        final(canvas).height == old(canvas).height,
        final(canvas).pixels@ == overlay_spec(old(canvas).pixels@, *badge, x0 as int, y0 as int),
        forall|cx: int, cy: int|
            0 <= cx < 440 && 0 <= cy < 100 ==> final(canvas).pixel(cx, cy) == (if covers(
                badge.width as int,
                badge.height as int,
                x0 as int,
                y0 as int,
                cx,
                cy,
            ) {
                blend(old(canvas).pixel(cx, cy), badge.pixel(cx - x0, cy - y0))
            } else {
                old(canvas).pixel(cx, cy)
            }),
{
    let bw = badge.width;
    let bh = badge.height;
    let mut sy: usize = 0;
    while sy < bh
        invariant
            sy <= bh,
            bw == badge.width,
            bh == badge.height,
            badge.wf(),
            canvas.wf(),
            canvas.width == 440,
            canvas.height == 100,
            canvas.pixels@.len() == old(canvas).pixels@.len(),
            forall|cx: int, cy: int|
                0 <= cx < 440 && 0 <= cy < 100 ==> canvas.pixel(cx, cy) == (if covers(
                    bw as int,
                    bh as int,
                    x0 as int,
                    y0 as int,
                    cx,
                    cy,
                ) && overlay_done(x0 as int, y0 as int, 0, sy as int, cx, cy) {
                    blend(old(canvas).pixel(cx, cy), badge.pixel(cx - x0, cy - y0))
                } else {
                    old(canvas).pixel(cx, cy)
                }),
        decreases bh - sy,
    {
        let mut sx: usize = 0;
        while sx < bw
            invariant
                sx <= bw,
                sy < bh,
                bw == badge.width,
                bh == badge.height,
                badge.wf(),
                canvas.wf(),
                canvas.width == 440,
                canvas.height == 100,
                canvas.pixels@.len() == old(canvas).pixels@.len(),
                forall|cx: int, cy: int|
                    0 <= cx < 440 && 0 <= cy < 100 ==> canvas.pixel(cx, cy) == (if covers(
                        bw as int,
                        bh as int,
                        x0 as int,
                        y0 as int,
                        cx,
                        cy,
                    ) && overlay_done(x0 as int, y0 as int, sx as int, sy as int, cx, cy) {
                        blend(old(canvas).pixel(cx, cy), badge.pixel(cx - x0, cy - y0))
                    } else {
                        old(canvas).pixel(cx, cy)
                    }),
            decreases bw - sx,
        {
            let ghost prev = *canvas;
            let cx128: i128 = x0 as i128 + sx as i128;
            let cy128: i128 = y0 as i128 + sy as i128;
            if 0 <= cx128 && cx128 < 440 && 0 <= cy128 && cy128 < 100 {
                let cxu = cx128 as usize;
                let cyu = cy128 as usize;
                let d = canvas.get(cxu, cyu);
                let s = badge.get(sx, sy);
                let out = blend_exec(d, s);
                canvas.set(cxu, cyu, out);
                proof {
                    lemma_row_major_index(440, 100, cxu as int, cyu as int);
                    assert forall|cx: int, cy: int| 0 <= cx < 440 && 0 <= cy < 100 implies
                        canvas.pixel(cx, cy) == (if covers(
                            bw as int,
                            bh as int,
                            x0 as int,
                            y0 as int,
                            cx,
                            cy,
                        ) && overlay_done(
                            x0 as int,
                            y0 as int,
                            sx as int + 1,
                            sy as int,
                            cx,
                            cy,
                        ) {
                            blend(old(canvas).pixel(cx, cy), badge.pixel(cx - x0, cy - y0))
                        } else {
                            old(canvas).pixel(cx, cy)
                        }) by {
                        lemma_row_major_index(440, 100, cx, cy);
                        lemma_row_major_injective(440, cx, cy, cxu as int, cyu as int);
                        assert(prev.pixel(cx, cy) == (if covers(
                            bw as int,
                            bh as int,
                            x0 as int,
                            y0 as int,
                            cx,
                            cy,
                        ) && overlay_done(x0 as int, y0 as int, sx as int, sy as int, cx, cy) {
                            blend(old(canvas).pixel(cx, cy), badge.pixel(cx - x0, cy - y0))
                        } else {
                            old(canvas).pixel(cx, cy)
                        }));
                        if cx == cxu as int && cy == cyu as int {
                            assert(canvas.pixel(cx, cy) == out);
                            assert(d == prev.pixel(cx, cy));
                        } else {
                            assert(canvas.pixel(cx, cy) == prev.pixel(cx, cy));
                        }
                    }
                }
            } else {
                proof {
                    assert forall|cx: int, cy: int| 0 <= cx < 440 && 0 <= cy < 100 implies
                        canvas.pixel(cx, cy) == (if covers(
                            bw as int,
                            bh as int,
                            x0 as int,
                            y0 as int,
                            cx,
                            cy,
                        ) && overlay_done(
                            x0 as int,
                            y0 as int,
                            sx as int + 1,
                            sy as int,
                            cx,
                            cy,
                        ) {
                            blend(old(canvas).pixel(cx, cy), badge.pixel(cx - x0, cy - y0))
                        } else {
                            old(canvas).pixel(cx, cy)
                        }) by {
                        assert(canvas.pixel(cx, cy) == (if covers(
                            bw as int,
                            bh as int,
                            x0 as int,
                            y0 as int,
                            cx,
                            cy,
                        ) && overlay_done(x0 as int, y0 as int, sx as int, sy as int, cx, cy) {
                            blend(old(canvas).pixel(cx, cy), badge.pixel(cx - x0, cy - y0))
                        } else {
                            old(canvas).pixel(cx, cy)
                        }));
                    }
                }
            }
            sx = sx + 1;
        }
        sy = sy + 1;
    }
    proof {
        assert forall|i: int| 0 <= i < canvas.pixels@.len() implies canvas.pixels@[i]
            == overlay_spec(old(canvas).pixels@, *badge, x0 as int, y0 as int)[i] by {
            let cx = i % 440;
            let cy = i / 440;
            vstd::arithmetic::div_mod::lemma_fundamental_div_mod(i, 440);
            vstd::arithmetic::div_mod::lemma_mod_bound(i, 440);
            assert(0 <= cx < 440);
            assert(canvas.pixels@.len() == 44000) by (nonlinear_arith)
                requires
                    canvas.pixels@.len() == canvas.width * canvas.height,
                    canvas.width == 440,
                    canvas.height == 100,
            ;
            assert(0 <= cy < 100);
            assert(i == cy * 440 + cx);
            assert(canvas.pixel(cx, cy) == canvas.pixels@[i]);
        }
        assert(canvas.pixels@ =~= overlay_spec(old(canvas).pixels@, *badge, x0 as int, y0 as int));
    }
}

/// The canvas contents after every badge in the list is overlaid in
/// order.
pub open spec fn composite_spec(cv: Seq<Rgba>, bs: Seq<DecodedBadge>) -> Seq<Rgba>
    decreases bs.len(),
{
    if bs.len() == 0 {
        cv
    } else {
        overlay_spec(
            composite_spec(cv, bs.drop_last()),
            bs.last().image,
            bs.last().x as int,
            bs.last().y as int,
        )
    }
}

/// Overlays every decoded badge onto the canvas, in list order.
pub fn composite_badges(canvas: &mut PixelBuf, badges: &Vec<DecodedBadge>)
    requires
        old(canvas).wf(),
        old(canvas).width == crate::CANVAS_WIDTH,
        old(canvas).height == crate::CANVAS_HEIGHT,
        forall|k: int| 0 <= k < badges@.len() ==> (#[trigger] badges@[k]).image.wf(),
    ensures
        final(canvas).wf(),
        final(canvas).width == old(canvas).width,
        final(canvas).height == old(canvas).height,
        final(canvas).pixels@ == composite_spec(old(canvas).pixels@, badges@),
{
    let mut k: usize = 0;
    while k < badges.len()
        invariant
            k <= badges@.len(),
            canvas.wf(),
            canvas.width == 440,
            canvas.height == 100,
            forall|j: int| 0 <= j < badges@.len() ==> (#[trigger] badges@[j]).image.wf(),
            canvas.pixels@ == composite_spec(old(canvas).pixels@, badges@.take(k as int)),
        decreases badges@.len() - k,
    {
        let b = &badges[k];
        overlay_badge(canvas, &b.image, b.x, b.y);
        k = k + 1;
        proof {
            assert(badges@.take(k as int).drop_last() =~= badges@.take(k as int - 1));
            assert(badges@.take(k as int).last() == badges@[k as int - 1]);
        }
    }
    proof {
        assert(badges@.take(badges@.len() as int) =~= badges@);
    }
}

} // verus!
