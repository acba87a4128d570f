//! Pure layout computation: canvas dimensions and drawing origins from the
//! line count, the widest line, and the configuration. No drawing happens
//! here.
use vstd::prelude::*;
use crate::options::RenderConfig;
use crate::Error;

verus! {

/// Horizontal margin on each side of the content, in pixels.
pub const H_MARGIN: u32 = 20;

/// Vertical margin above and below the content, in pixels.
pub const V_MARGIN: u32 = 20;

/// Height of the window-control strip when it is drawn.
pub const CHROME_HEIGHT: u32 = 40;

/// A canvas with window controls is at least this wide, so the three
/// control glyphs always fit.
pub const MIN_CHROME_WIDTH: u32 = 120;

/// Fixed padding inside the line-number gutter.
pub const GUTTER_EXTRA: u32 = 8;

/// Radius of the rounded-corner mask.
pub const CORNER_RADIUS: u32 = 12;

/// Primary font size assumed when the caller names no font.
pub const DEFAULT_FONT_SIZE: u32 = 26;

/// Largest canvas width or height the pipeline accepts.
pub const MAX_DIM: u32 = 8192;

/// Pixel size of the primary font: the first configured entry, or the
/// default size.
pub open spec fn spec_font_size(cfg: RenderConfig) -> int {
    if cfg.font@.len() > 0 {
        cfg.font@[0].1 as int
    } else {
        DEFAULT_FONT_SIZE as int
    }
}

/// Advance width of one glyph cell of the block glyph model.
pub open spec fn spec_glyph_w(cfg: RenderConfig) -> int {
    spec_font_size(cfg) / 2
}

/// Height of one text row: glyph height plus the configured line padding.
pub open spec fn spec_line_h(cfg: RenderConfig) -> int {
    spec_font_size(cfg) + cfg.line_pad
}

/// Number of decimal digits of `n`.
pub open spec fn digits10(n: nat) -> nat
    decreases n,
{
    if n < 10 {
        1
    } else {
        1 + digits10(n / 10)
    }
}

/// The number drawn next to the last line: the first line's number plus the
/// line count, less one.
pub open spec fn spec_last_number(cfg: RenderConfig, n_lines: nat) -> int {
    cfg.line_offset + (if n_lines > 0 { n_lines - 1 } else { 0 })
}

/// Width of the line-number gutter: room for the widest number drawn, plus
/// fixed padding; zero when line numbers are off.
pub open spec fn spec_gutter_w(cfg: RenderConfig, n_lines: nat) -> int {
    if cfg.line_number {
        digits10(spec_last_number(cfg, n_lines) as nat) * spec_glyph_w(cfg) + GUTTER_EXTRA
    } else {
        0
    }
}

/// Height reserved for the window-control strip.
pub open spec fn spec_chrome_h(cfg: RenderConfig) -> int {
    if cfg.window_controls {
        CHROME_HEIGHT as int
    } else {
        0
    }
}

/// Canvas width: widest line in glyph cells, gutter, and both margins, but
/// never narrower than the control strip needs.
pub open spec fn spec_width(cfg: RenderConfig, n_lines: nat, max_cols: nat) -> int {
    let w = max_cols * spec_glyph_w(cfg) + spec_gutter_w(cfg, n_lines) + 2 * H_MARGIN;
    let floor: int = if cfg.window_controls { MIN_CHROME_WIDTH as int } else { 0 };
    if w >= floor {
        w
    } else {
        floor
    }
}

/// Canvas height: one row per line, the chrome strip, and both margins.
pub open spec fn spec_height(cfg: RenderConfig, n_lines: nat) -> int {
    n_lines * spec_line_h(cfg) + spec_chrome_h(cfg) + 2 * V_MARGIN
}

/// Where every element of the canvas is drawn; the output of `layout` and
/// the input of `draw`.
#[derive(Clone, Copy, Debug, PartialEq, Eq, Structural)]
pub struct LayoutPlan {
    pub width: u32,
    pub height: u32,
    /// Advance width of one glyph cell.
    pub glyph_w: u32,
    /// Glyph height, without the line padding.
    pub glyph_h: u32,
    /// Height of one text row.
    pub line_h: u32,
    pub gutter_w: u32,
    pub chrome_h: u32,
    /// Left edge of the first text column.
    pub text_x: u32,
    /// Top edge of the first text row.
    pub text_y: u32,
}

/// `plan` is exactly what `layout` computes for these inputs.
pub open spec fn plan_matches(plan: LayoutPlan, cfg: RenderConfig, n_lines: nat, max_cols: nat) -> bool {
    &&& plan.width == spec_width(cfg, n_lines, max_cols)
    &&& plan.height == spec_height(cfg, n_lines)
    &&& plan.glyph_w == spec_glyph_w(cfg)
    &&& plan.glyph_h == spec_font_size(cfg)
    &&& plan.line_h == spec_line_h(cfg)
    &&& plan.gutter_w == spec_gutter_w(cfg, n_lines)
    &&& plan.chrome_h == spec_chrome_h(cfg)
    &&& plan.text_x == H_MARGIN + spec_gutter_w(cfg, n_lines)
    &&& plan.text_y == V_MARGIN + spec_chrome_h(cfg)
}

/// The inputs produce a canvas within `MAX_DIM` in both directions.
pub open spec fn spec_fits(cfg: RenderConfig, n_lines: nat, max_cols: nat) -> bool {
    &&& n_lines <= MAX_DIM
    &&& max_cols <= MAX_DIM
    &&& 2 <= spec_font_size(cfg) <= MAX_DIM
    &&& spec_line_h(cfg) <= MAX_DIM
    &&& spec_width(cfg, n_lines, max_cols) <= MAX_DIM
    &&& spec_height(cfg, n_lines) <= MAX_DIM
}

/// Powers of ten, for bounding `digits10`.
pub open spec fn pow10(k: nat) -> nat
    decreases k,
{
    if k == 0 {
        1
    } else {
        10 * pow10((k - 1) as nat)
    }
}

/// A number below `pow10(k)` has at most `k` digits.
pub proof fn lemma_digits10_le(n: nat, k: nat)
    requires
        1 <= k,
        n < pow10(k),
    ensures
        digits10(n) <= k,
    decreases k,
{
    if n >= 10 {
        assert(pow10(k) == 10 * pow10((k - 1) as nat));
        assert(n / 10 < pow10((k - 1) as nat)) by (nonlinear_arith)
            requires n < 10 * pow10((k - 1) as nat);
        if k == 1 {
            assert(pow10(1) == 10 * pow10(0));
            assert(false);
        }
        lemma_digits10_le(n / 10, (k - 1) as nat);
    }
}

/// Number of decimal digits of `n`.
pub fn digits10_exec(n: u64) -> (d: u32)
    ensures
        d == digits10(n as nat),
        1 <= d <= 20,
    decreases n,
{
    proof {
        reveal_with_fuel(pow10, 21);
        lemma_digits10_pos(n as nat);
        lemma_digits10_le(n as nat, 20);
    }
    if n < 10 {
        1
    } else {
        proof {
            assert(digits10(n as nat) == 1 + digits10(n as nat / 10));
            lemma_digits10_pos(n as nat / 10);
        }
        1 + digits10_exec(n / 10)
    }
}

/// Computes the layout plan, or `InvalidConfig` exactly when the inputs
/// would produce a canvas larger than `MAX_DIM` in either direction.
pub fn layout(cfg: &RenderConfig, n_lines: usize, max_cols: usize) -> (r: Result<LayoutPlan, Error>)
    ensures
        r is Ok <==> spec_fits(*cfg, n_lines as nat, max_cols as nat),
        r matches Ok(plan) ==> plan_matches(plan, *cfg, n_lines as nat, max_cols as nat),
        r matches Err(e) ==> e is InvalidConfig,
{
    let font_size: u32 = if cfg.font.len() > 0 { cfg.font[0].1 } else { DEFAULT_FONT_SIZE };
    if n_lines > MAX_DIM as usize || max_cols > MAX_DIM as usize || font_size > MAX_DIM
        || font_size < 2 {
        return Err(Error::InvalidConfig);
    }
    let gw: u64 = (font_size / 2) as u64;
    let lh: u64 = font_size as u64 + cfg.line_pad as u64;
    if lh > MAX_DIM as u64 {
        return Err(Error::InvalidConfig);
    }
    let last_no: u64 = cfg.line_offset as u64 + (if n_lines > 0 { (n_lines - 1) as u64 } else { 0 });
    let gutter: u64 = if cfg.line_number {
        let d: u32 = digits10_exec(last_no);
        proof {
            assert(d * gw <= 20 * 4096) by (nonlinear_arith)
                requires d <= 20 && 0 <= gw <= 4096;
        }
        (d as u64) * gw + GUTTER_EXTRA as u64
    } else {
        0
    };
    let chrome: u64 = if cfg.window_controls { CHROME_HEIGHT as u64 } else { 0 };
    proof {
        assert(max_cols * gw <= 8192 * 4096) by (nonlinear_arith)
            requires max_cols <= 8192 && 0 <= gw <= 4096;
        assert(n_lines * lh <= 8192 * 8192) by (nonlinear_arith)
            requires n_lines <= 8192 && 0 <= lh <= 8192;
    }
    let base_w: u64 = (max_cols as u64) * gw + gutter + 2 * H_MARGIN as u64;
    let width: u64 = if cfg.window_controls && base_w < MIN_CHROME_WIDTH as u64 {
        MIN_CHROME_WIDTH as u64
    } else {
        base_w
    };
    let height: u64 = (n_lines as u64) * lh + chrome + 2 * V_MARGIN as u64;
    if width > MAX_DIM as u64 || height > MAX_DIM as u64 {
        return Err(Error::InvalidConfig);
    }
    Ok(LayoutPlan {
        width: width as u32,
        height: height as u32,
        glyph_w: gw as u32,
        glyph_h: font_size,
        line_h: lh as u32,
        gutter_w: gutter as u32,
        chrome_h: chrome as u32,
        text_x: H_MARGIN + gutter as u32,
        text_y: V_MARGIN + chrome as u32,
    })
}

/// Every number has at least one digit.
pub proof fn lemma_digits10_pos(n: nat)
    ensures
        digits10(n) >= 1,
    decreases n,
{
    if n >= 10 {
        lemma_digits10_pos(n / 10);
    }
}

/// Dimension monotonicity: turning on line numbers or window controls —
/// and turning off neither — never shrinks the canvas. `plain` and `rich`
/// agree on everything except those two flags.
pub proof fn lemma_dims_monotone(plain: RenderConfig, rich: RenderConfig, n_lines: nat, max_cols: nat)
    requires
        spec_font_size(plain) == spec_font_size(rich),
        plain.line_pad == rich.line_pad,
        plain.line_offset == rich.line_offset,
        plain.line_number ==> rich.line_number,
        plain.window_controls ==> rich.window_controls,
    ensures
        spec_width(rich, n_lines, max_cols) >= spec_width(plain, n_lines, max_cols),
        spec_height(rich, n_lines) >= spec_height(plain, n_lines),
{
    assert(spec_gutter_w(rich, n_lines) >= spec_gutter_w(plain, n_lines));
    assert(spec_chrome_h(rich) >= spec_chrome_h(plain));
}

/// Enabling line numbers strictly widens a canvas that has no window
/// controls: the gutter always has positive width.
pub proof fn lemma_gutter_strictly_widens(plain: RenderConfig, rich: RenderConfig, n_lines: nat, max_cols: nat)
    requires
        spec_font_size(plain) == spec_font_size(rich),
        plain.line_pad == rich.line_pad,
        plain.line_offset == rich.line_offset,
        !plain.line_number,
        rich.line_number,
        !plain.window_controls,
        !rich.window_controls,
    ensures
        spec_width(rich, n_lines, max_cols) > spec_width(plain, n_lines, max_cols),
{
    lemma_digits10_pos(spec_last_number(rich, n_lines) as nat);
    assert(spec_gutter_w(rich, n_lines) >= GUTTER_EXTRA);
}

} // verus!
