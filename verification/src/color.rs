//! RGBA pixels and alpha-over compositing.
use vstd::prelude::*;

verus! {

/// An 8-bit-per-channel RGBA color, the pixel type of every canvas.
/// `a == 0` is fully transparent, `a == 255` fully opaque.
#[derive(Clone, Copy, Debug, PartialEq, Eq, Structural)]
pub struct Rgba {
    pub r: u8,
    pub g: u8,
    pub b: u8,
    pub a: u8,
}

/// The fully transparent pixel.
pub open spec fn transparent() -> Rgba {
    Rgba { r: 0, g: 0, b: 0, a: 0 }
}

impl Rgba {
    pub fn new(r: u8, g: u8, b: u8, a: u8) -> (c: Rgba)
        ensures
            c == (Rgba { r, g, b, a }),
    {
        Rgba { r, g, b, a }
    }

    /// `true` iff the pixel contributes nothing when composited.
    pub fn is_transparent(&self) -> (b: bool)
        ensures
            b == (self.a == 0),
    {
        self.a == 0
    }
}

/// Weight of the background in alpha-over: its alpha scaled by what the
/// foreground lets through.
pub open spec fn over_tail(fa: int, ba: int) -> int {
    ba * (255 - fa) / 255
}

/// Output alpha of alpha-over compositing.
pub open spec fn over_alpha(fa: int, ba: int) -> int {
    fa + over_tail(fa, ba)
}

/// One channel of alpha-over: foreground and background contributions
/// weighted by `fa` and `over_tail`, renormalized by the output alpha.
/// Channels are straight (not premultiplied) 0..=255 values.
pub open spec fn over_channel(fc: int, fa: int, bc: int, ba: int) -> int {
    let oa = over_alpha(fa, ba);
    if oa == 0 {
        0
    } else {
        (fc * fa + bc * over_tail(fa, ba)) / oa
    }
}

/// The alpha-over composite of foreground `f` on background `b`.
pub open spec fn over(f: Rgba, b: Rgba) -> Rgba {
    Rgba {
        r: over_channel(f.r as int, f.a as int, b.r as int, b.a as int) as u8,
        g: over_channel(f.g as int, f.a as int, b.g as int, b.a as int) as u8,
        b: over_channel(f.b as int, f.a as int, b.b as int, b.a as int) as u8,
        a: over_alpha(f.a as int, b.a as int) as u8,
    }
}

/// The arithmetic of `blend` stays inside `u8` and `u32`.
proof fn lemma_over_channel_bounds(fc: int, fa: int, bc: int, ba: int)
    requires
        0 <= fc <= 255,
        0 <= fa <= 255,
        0 <= bc <= 255,
        0 <= ba <= 255,
    ensures
        0 <= over_tail(fa, ba) <= 255 - fa,
        fa <= over_alpha(fa, ba) <= 255,
        0 <= over_channel(fc, fa, bc, ba) <= 255,
{
    let t = over_tail(fa, ba);
    let oa = over_alpha(fa, ba);
    assert(0 <= ba * (255 - fa) / 255 <= 255 - fa) by (nonlinear_arith)
        requires 0 <= ba <= 255 && 0 <= fa <= 255;
    assert(t == ba * (255 - fa) / 255);
    if oa != 0 {
        assert(0 <= fc * fa + bc * t) by (nonlinear_arith)
            requires 0 <= fc && 0 <= fa && 0 <= bc && 0 <= t;
        assert(fc * fa + bc * t <= 255 * oa) by (nonlinear_arith)
            requires
                0 <= fc <= 255 && 0 <= fa <= 255 && 0 <= bc <= 255,
                0 <= t,
                oa == fa + t;
        assert((fc * fa + bc * t) / oa <= 255) by (nonlinear_arith)
            requires 0 < oa && 0 <= fc * fa + bc * t <= 255 * oa;
    }
}

fn over_channel_exec(fc: u8, fa: u8, bc: u8, ba: u8) -> (c: u8)
    ensures
        c == over_channel(fc as int, fa as int, bc as int, ba as int),
{
    proof {
        lemma_over_channel_bounds(fc as int, fa as int, bc as int, ba as int);
    }
    let t: u32 = (ba as u32) * (255 - fa as u32) / 255;
    let oa: u32 = fa as u32 + t;
    proof {
        assert(t == over_tail(fa as int, ba as int));
        assert(fc * fa + bc * t <= 255 * 255 + 255 * 255) by (nonlinear_arith)
            requires 0 <= fc <= 255 && 0 <= fa <= 255 && 0 <= bc <= 255 && 0 <= t <= 255;
    }
    if oa == 0 {
        0
    } else {
        (((fc as u32) * (fa as u32) + (bc as u32) * t) / oa) as u8
    }
}

/// Composites foreground `f` over background `b` with standard alpha-over
/// blending.
pub fn blend(f: Rgba, b: Rgba) -> (c: Rgba)
    ensures
        c == over(f, b),
{
    proof {
        lemma_over_channel_bounds(f.r as int, f.a as int, b.r as int, b.a as int);
    }
    let t: u32 = (b.a as u32) * (255 - f.a as u32) / 255;
    let oa: u8 = (f.a as u32 + t) as u8;
    Rgba {
        r: over_channel_exec(f.r, f.a, b.r, b.a),
        g: over_channel_exec(f.g, f.a, b.g, b.a),
        b: over_channel_exec(f.b, f.a, b.b, b.a),
        a: oa,
    }
}

/// Compositing anything over an opaque background stays opaque.
pub proof fn lemma_over_preserves_opaque(f: Rgba, b: Rgba)
    requires
        b.a == 255,
    ensures
        over(f, b).a == 255,
{
    assert(255 * (255 - f.a) / 255 == 255 - f.a) by (nonlinear_arith)
        requires 0 <= f.a <= 255;
}

/// A fully opaque foreground replaces the background entirely.
pub proof fn lemma_over_opaque(f: Rgba, b: Rgba)
    requires
        f.a == 255,
    ensures
        over(f, b) == f,
{
    assert(over_tail(255, b.a as int) == b.a * 0 / 255);
    assert(b.a * 0 == 0) by (nonlinear_arith);
    assert(over_alpha(255, b.a as int) == 255);
    assert(over_channel(f.r as int, 255, b.r as int, b.a as int) == (f.r * 255 + b.r * 0) / 255);
    assert(b.r * 0 == 0 && b.g * 0 == 0 && b.b * 0 == 0) by (nonlinear_arith);
    assert(f.r * 255 / 255 == f.r as int) by (nonlinear_arith);
    assert(f.g * 255 / 255 == f.g as int) by (nonlinear_arith);
    assert(f.b * 255 / 255 == f.b as int) by (nonlinear_arith);
}

} // verus!
