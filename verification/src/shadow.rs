//! The shadow compositor: expands the canvas, lays a blurred, offset,
//! tinted copy of the canvas's silhouette behind it, and composites the
//! original on top.
use vstd::prelude::*;
use crate::color::{Rgba, over, blend, lemma_over_opaque};
use crate::canvas::{Canvas, lemma_row_major_index};
use crate::layout::MAX_DIM;
use crate::options::{ShadowConfig, Background};
use crate::Error;

verus! {

/// Magnitude of an `i32` offset.
pub open spec fn abs_of(v: int) -> int {
    if v >= 0 {
        v
    } else {
        -v
    }
}

fn abs_exec(v: i32) -> (r: u32)
    ensures
        r == abs_of(v as int),
{
    if v >= 0 {
        v as u32
    } else {
        (-(v as i64)) as u32
    }
}

/// The silhouette of `src`, tinted with `tint`, placed at `(sx, sy)` on a
/// transparent canvas of `w` x `h`. Pixel contents are deliberately left
/// unspecified beyond the dimensions: the blur that follows erases them
/// anyway.
fn silhouette(src: &Canvas, w: u32, h: u32, sx: u32, sy: u32, tint: Rgba) -> (r: Canvas)
    requires
        src.wf(),
        w <= MAX_DIM,
        h <= MAX_DIM,
    ensures
        r.wf(),
        r.width == w,
        r.height == h,
{
    let mut pixels: Vec<Rgba> = Vec::new();
    let mut y: u32 = 0;
    while y < h
        invariant
            src.wf(),
            w <= MAX_DIM,
            h <= MAX_DIM,
            y <= h,
            pixels@.len() == y * w,
        decreases h - y,
    {
        let mut x: u32 = 0;
        while x < w
            invariant
                src.wf(),
                w <= MAX_DIM,
                h <= MAX_DIM,
                y < h,
                x <= w,
                pixels@.len() == y * w + x,
            decreases w - x,
        {
            let hit: bool = x >= sx && y >= sy && x - sx < src.width && y - sy < src.height
                && src.get(x - sx, y - sy).a > 0;
            let a: u8 = if hit {
                let srca: u32 = src.get(x - sx, y - sy).a as u32;
                proof {
                    assert(srca * tint.a <= 255 * 255 && (srca * tint.a as int) / 255 <= 255)
                        by (nonlinear_arith)
                        requires 0 <= srca <= 255 && 0 <= tint.a <= 255;
                }
                ((srca * tint.a as u32) / 255) as u8
            } else {
                0
            };
            pixels.push(Rgba { r: tint.r, g: tint.g, b: tint.b, a });
            x += 1;
        }
        proof {
            assert((y + 1) * w == y * w + w) by (nonlinear_arith);
        }
        y += 1;
    }
    proof {
        assert(h * w == w * h) by (nonlinear_arith);
    }
    Canvas { width: w, height: h, pixels }
}

/// One box-blur pass of radius `r` along one axis; pixels outside the
/// canvas count as transparent. Only the dimensions are specified.
fn blur_pass(src: &Canvas, radius: u32, horizontal: bool) -> (r: Canvas)
    requires
        src.wf(),
        radius <= MAX_DIM,
    ensures
        r.wf(),
        r.width == src.width,
        r.height == src.height,
{
    let w = src.width;
    let h = src.height;
    let window: u64 = 2 * radius as u64 + 1;
    let mut pixels: Vec<Rgba> = Vec::new();
    let mut y: u32 = 0;
    while y < h
        invariant
            src.wf(),
            w == src.width,
            h == src.height,
            window == 2 * radius + 1,
            radius <= MAX_DIM,
            y <= h,
            pixels@.len() == y * w,
        decreases h - y,
    {
        let mut x: u32 = 0;
        while x < w
            invariant
                src.wf(),
                w == src.width,
                h == src.height,
                window == 2 * radius + 1,
                radius <= MAX_DIM,
                y < h,
                x <= w,
                pixels@.len() == y * w + x,
            decreases w - x,
        {
            let mut sr: u64 = 0;
            let mut sg: u64 = 0;
            let mut sb: u64 = 0;
            let mut sa: u64 = 0;
            let mut k: u32 = 0;
            while k < 2 * radius + 1
                invariant
                    src.wf(),
                    w == src.width,
                    h == src.height,
                    radius <= MAX_DIM,
                    y < h,
                    x < w,
                    k <= 2 * radius + 1,
                    sr <= k * 255,
                    sg <= k * 255,
                    sb <= k * 255,
                    sa <= k * 255,
                decreases 2 * radius + 1 - k,
            {
                let off: i64 = k as i64 - radius as i64;
                let (px, py): (i64, i64) = if horizontal {
                    (x as i64 + off, y as i64)
                } else {
                    (x as i64, y as i64 + off)
                };
                if px >= 0 && py >= 0 && px < w as i64 && py < h as i64 {
                    let p = src.get(px as u32, py as u32);
                    sr += p.r as u64;
                    sg += p.g as u64;
                    sb += p.b as u64;
                    sa += p.a as u64;
                }
                proof {
                    assert((k + 1) * 255 == k * 255 + 255) by (nonlinear_arith);
                }
                k += 1;
            }
            proof {
                assert((2 * radius as int + 1) * 255 <= 0xffff_ffff) by (nonlinear_arith)
                    requires radius <= 8192;
                assert(sr / window <= 255 && sg / window <= 255 && sb / window <= 255 && sa
                    / window <= 255) by (nonlinear_arith)
                    requires
                        window == 2 * radius as int + 1,
                        0 <= sr <= window * 255,
                        0 <= sg <= window * 255,
                        0 <= sb <= window * 255,
                        0 <= sa <= window * 255;
            }
            pixels.push(
                Rgba {
                    r: (sr / window) as u8,
                    g: (sg / window) as u8,
                    b: (sb / window) as u8,
                    a: (sa / window) as u8,
                },
            );
            x += 1;
        }
        proof {
            assert((y + 1) * w == y * w + w) by (nonlinear_arith);
        }
        y += 1;
    }
    proof {
        assert(h * w == w * h) by (nonlinear_arith);
    }
    Canvas { width: w, height: h, pixels }
}

/// Expands the canvas by the shadow padding and offsets, lays the blurred
/// silhouette behind, and composites the original on top.
///
/// The output is `2 * pad` wider and taller than the input, plus the
/// offset magnitudes, and the original canvas survives unclipped: every
/// opaque input pixel reappears unchanged at its padded position.
pub fn composite(c: &Canvas, sh: &ShadowConfig) -> (r: Result<Canvas, Error>)
    requires
        c.wf(),
    ensures
        r is Ok <==> c.width + 2 * sh.pad_horiz + abs_of(sh.offset_x as int) <= MAX_DIM
            && c.height + 2 * sh.pad_vert + abs_of(sh.offset_y as int) <= MAX_DIM,
        r matches Ok(o) ==> {
            &&& o.wf()
            &&& o.width == c.width + 2 * sh.pad_horiz + abs_of(sh.offset_x as int)
            &&& o.height == c.height + 2 * sh.pad_vert + abs_of(sh.offset_y as int)
            &&& o.width >= c.width + 2 * sh.pad_horiz
            &&& o.height >= c.height + 2 * sh.pad_vert
            &&& forall|x: int, y: int|
                0 <= x < c.width && 0 <= y < c.height && c.at(x, y).a == 255 ==> o.at(
                    fg_x(*c, *sh) + x,
                    fg_y(*c, *sh) + y,
                ) == c.at(x, y)
        },
        r matches Err(e) ==> e is InvalidConfig,
{
    let ax = abs_exec(sh.offset_x);
    let ay = abs_exec(sh.offset_y);
    let ow64: u64 = c.width as u64 + 2 * sh.pad_horiz as u64 + ax as u64;
    let oh64: u64 = c.height as u64 + 2 * sh.pad_vert as u64 + ay as u64;
    if ow64 > MAX_DIM as u64 || oh64 > MAX_DIM as u64 {
        return Err(Error::InvalidConfig);
    }
    let ow: u32 = ow64 as u32;
    let oh: u32 = oh64 as u32;
    let fgx: u32 = sh.pad_horiz + (if sh.offset_x < 0 { ax } else { 0 });
    let fgy: u32 = sh.pad_vert + (if sh.offset_y < 0 { ay } else { 0 });
    let sx: u32 = sh.pad_horiz + (if sh.offset_x >= 0 { ax } else { 0 });
    let sy: u32 = sh.pad_vert + (if sh.offset_y >= 0 { ay } else { 0 });
    let bg: Rgba = match &sh.background {
        Some(Background::Solid(col)) => *col,
        None => Rgba { r: 0, g: 0, b: 0, a: 0 },
    };
    let rad: u32 = if sh.blur_radius > MAX_DIM { MAX_DIM } else { sh.blur_radius };
    let sil = silhouette(c, ow, oh, sx, sy, sh.shadow_color);
    let sil = blur_pass(&sil, rad, true);
    let sil = blur_pass(&sil, rad, false);

    let mut pixels: Vec<Rgba> = Vec::new();
    let mut y: u32 = 0;
    while y < oh
        invariant
            c.wf(),
            sil.wf(),
            sil.width == ow,
            sil.height == oh,
            ow <= MAX_DIM,
            oh <= MAX_DIM,
            fgx + c.width <= ow,
            fgy + c.height <= oh,
            y <= oh,
            pixels@.len() == y * ow,
            forall|xx: int, yy: int|
                0 <= xx < ow && 0 <= yy < y ==> #[trigger] pixels@[yy * ow + xx] == out_pixel(
                    *c,
                    sil,
                    bg,
                    fgx as int,
                    fgy as int,
                    xx,
                    yy,
                ),
        decreases oh - y,
    {
        let mut x: u32 = 0;
        while x < ow
            invariant
                c.wf(),
                sil.wf(),
                sil.width == ow,
                sil.height == oh,
                ow <= MAX_DIM,
                oh <= MAX_DIM,
                fgx + c.width <= ow,
                fgy + c.height <= oh,
                y < oh,
                x <= ow,
                pixels@.len() == y * ow + x,
                forall|xx: int, yy: int|
                    0 <= xx < ow && 0 <= yy < y ==> #[trigger] pixels@[yy * ow + xx] == out_pixel(
                        *c,
                        sil,
                        bg,
                        fgx as int,
                        fgy as int,
                        xx,
                        yy,
                    ),
                forall|xx: int|
                    0 <= xx < x ==> #[trigger] pixels@[y * ow + xx] == out_pixel(
                        *c,
                        sil,
                        bg,
                        fgx as int,
                        fgy as int,
                        xx,
                        y as int,
                    ),
            decreases ow - x,
        {
            let under = blend(sil.get(x, y), bg);
            let p: Rgba = if x >= fgx && y >= fgy && x - fgx < c.width && y - fgy < c.height {
                blend(c.get(x - fgx, y - fgy), under)
            } else {
                under
            };
            pixels.push(p);
            proof {
                lemma_row_major_index(x as int, y as int, ow as int, oh as int);
                assert forall|xx: int, yy: int|
                    0 <= xx < ow && 0 <= yy < y implies #[trigger] (yy * ow + xx) < y * ow
                    + x by {
                    assert(yy * ow + xx < y * ow + x) by (nonlinear_arith)
                        requires 0 <= xx < ow && 0 <= yy < y && 0 <= x;
                }
            }
            x += 1;
        }
        proof {
            assert((y + 1) * ow == y * ow + ow) by (nonlinear_arith);
        }
        y += 1;
    }
    proof {
        assert(oh * ow == ow * oh) by (nonlinear_arith);
    }
    let out = Canvas { width: ow, height: oh, pixels };
    proof {
        assert forall|x: int, y: int|
            0 <= x < c.width && 0 <= y < c.height && c.at(x, y).a == 255 implies out.at(
            fg_x(*c, *sh) + x,
            fg_y(*c, *sh) + y,
        ) == c.at(x, y) by {
            let ox = fg_x(*c, *sh) + x;
            let oy = fg_y(*c, *sh) + y;
            lemma_row_major_index(ox, oy, ow as int, oh as int);
            assert(out.pixels@[oy * ow + ox] == out_pixel(*c, sil, bg, fgx as int, fgy as int, ox, oy));
            lemma_over_opaque(c.at(x, y), over(sil.at(ox, oy), bg));
        }
    }
    Ok(out)
}

/// Where the left edge of the original canvas lands in the expanded one.
pub open spec fn fg_x(c: Canvas, sh: ShadowConfig) -> int {
    sh.pad_horiz + (if sh.offset_x < 0 { abs_of(sh.offset_x as int) } else { 0 })
}

/// Where the top edge of the original canvas lands in the expanded one.
pub open spec fn fg_y(c: Canvas, sh: ShadowConfig) -> int {
    sh.pad_vert + (if sh.offset_y < 0 { abs_of(sh.offset_y as int) } else { 0 })
}

/// One pixel of the composited result: the blurred silhouette over the
/// background fill, with the original canvas alpha-over on top where it
/// lands.
pub open spec fn out_pixel(c: Canvas, sil: Canvas, bg: Rgba, fgx: int, fgy: int, x: int, y: int) -> Rgba {
    let under = over(sil.at(x, y), bg);
    if fgx <= x < fgx + c.width && fgy <= y < fgy + c.height {
        over(c.at(x - fgx, y - fgy), under)
    } else {
        under
    }
}

} // verus!
