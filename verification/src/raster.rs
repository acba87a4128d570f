//! The rasterizer: turns a layout plan and expanded glyph cells into a
//! canvas. Every pixel of the output is specified by `draw_pixel`, so the
//! whole drawing is a function of the scene alone.
//!
//! Glyphs use a fixed block model: a visible character fills its glyph
//! cell. A font rasterizer can replace the model behind the same layout
//! without touching the contracts.
use vstd::prelude::*;
use crate::color::{Rgba, over, blend, transparent};
use crate::canvas::{Canvas, lemma_row_major_index};
use crate::layout::{LayoutPlan, MAX_DIM, CORNER_RADIUS};
use crate::text::Cell;

verus! {

/// The translucent bar drawn behind highlighted lines.
pub open spec fn highlight_bar_color() -> Rgba {
    Rgba { r: 255, g: 255, b: 255, a: 32 }
}

/// Left edge of the first window-control glyph.
pub const CONTROL_X0: u32 = 20;

/// Distance between the centers of neighboring control glyphs.
pub const CONTROL_SPACING: u32 = 24;

/// Radius of one control glyph.
pub const CONTROL_RADIUS: u32 = 7;

/// The three control glyph colors, left to right.
pub open spec fn control_color_spec(k: int) -> Rgba {
    if k == 0 {
        Rgba { r: 255, g: 95, b: 86, a: 255 }
    } else if k == 1 {
        Rgba { r: 255, g: 189, b: 46, a: 255 }
    } else {
        Rgba { r: 39, g: 201, b: 63, a: 255 }
    }
}

/// Everything `draw` reads: the plan, the prepared glyph cells, and the
/// already-resolved colors and flags.
#[derive(Debug, Clone)]
pub struct Scene {
    pub plan: LayoutPlan,
    /// Background of the whole canvas.
    pub bg: Rgba,
    /// Foreground of the window title.
    pub fg: Rgba,
    /// Expanded (tab-free) glyph cells of every line.
    pub cells: Vec<Vec<Cell>>,
    /// Gutter cells of every line: the padded decimal line number.
    pub numbers: Vec<Vec<Cell>>,
    /// Title cells, drawn centered in the control strip.
    pub title: Vec<Cell>,
    /// Left edge of the first title glyph.
    pub title_x: u32,
    /// Whether each line gets a highlight bar.
    pub highlighted: Vec<bool>,
    pub window_controls: bool,
    pub round_corner: bool,
}

impl Scene {
    /// The scene is internally consistent, so every pixel formula is
    /// well defined.
    pub open spec fn wf(&self) -> bool {
        &&& self.plan.width <= MAX_DIM
        &&& self.plan.height <= MAX_DIM
        &&& 1 <= self.plan.glyph_w <= MAX_DIM
        &&& 1 <= self.plan.line_h <= MAX_DIM
        &&& self.plan.glyph_h <= self.plan.line_h
        &&& self.plan.gutter_w <= self.plan.text_x <= MAX_DIM
        &&& self.plan.text_y <= MAX_DIM
        &&& self.plan.chrome_h <= MAX_DIM
        &&& self.numbers@.len() == self.cells@.len()
        &&& self.highlighted@.len() == self.cells@.len()
        &&& self.cells@.len() <= MAX_DIM
    }
}

/// The text row that `y` falls in, counted from the top of the content.
pub open spec fn line_of(s: Scene, y: int) -> int {
    (y - s.plan.text_y) / (s.plan.line_h as int)
}

/// `y` lies inside the band of some text row.
pub open spec fn in_text_band(s: Scene, y: int) -> bool {
    y >= s.plan.text_y && line_of(s, y) < s.cells@.len()
}

/// `y` hits the glyph box of its row rather than the line padding.
pub open spec fn in_glyph_row(s: Scene, y: int) -> bool {
    (y - s.plan.text_y) % (s.plan.line_h as int) < s.plan.glyph_h
}

/// The visible cell of row `cells` drawn from `x0` that covers `x`, if any.
/// Spaces are invisible in the block glyph model.
pub open spec fn cell_hit(cells: Seq<Cell>, x0: int, gw: int, x: int) -> Option<Cell> {
    if x >= x0 && (x - x0) / gw < cells.len() && cells[(x - x0) / gw].ch != 32 {
        Some(cells[(x - x0) / gw])
    } else {
        None
    }
}

/// The window-control glyph covering `(x, y)`, if any: three filled
/// circles centered in the control strip.
pub open spec fn control_hit(s: Scene, x: int, y: int) -> Option<Rgba> {
    let cy = s.plan.chrome_h as int / 2;
    let r2 = (CONTROL_RADIUS * CONTROL_RADIUS) as int;
    if !s.window_controls {
        None
    } else if circle_hit(x, y, CONTROL_X0 as int, cy, r2) {
        Some(control_color_spec(0))
    } else if circle_hit(x, y, CONTROL_X0 as int + CONTROL_SPACING as int, cy, r2) {
        Some(control_color_spec(1))
    } else if circle_hit(x, y, CONTROL_X0 as int + 2 * CONTROL_SPACING as int, cy, r2) {
        Some(control_color_spec(2))
    } else {
        None
    }
}

/// `(x, y)` lies inside the circle of squared radius `r2` around
/// `(cx, cy)`.
pub open spec fn circle_hit(x: int, y: int, cx: int, cy: int, r2: int) -> bool {
    (x - cx) * (x - cx) + (y - cy) * (y - cy) <= r2
}

/// Top edge of the title glyph row, centered in the control strip.
pub open spec fn title_y(s: Scene) -> int {
    if s.plan.chrome_h >= s.plan.glyph_h {
        (s.plan.chrome_h - s.plan.glyph_h) as int / 2
    } else {
        0
    }
}

/// `(x, y)` falls outside the rounded-rectangle silhouette of the canvas.
pub open spec fn corner_masked(s: Scene, x: int, y: int) -> bool {
    let w = s.plan.width as int;
    let h = s.plan.height as int;
    ||| corner_test(x, y)
    ||| corner_test(w - 1 - x, y)
    ||| corner_test(x, h - 1 - y)
    ||| corner_test(w - 1 - x, h - 1 - y)
}

/// `(a, b)` lies in the top-left corner square but outside the quarter
/// circle of the rounded corner.
pub open spec fn corner_test(a: int, b: int) -> bool {
    let r = CORNER_RADIUS as int;
    a < r && b < r && (r - a) * (r - a) + (r - b) * (r - b) > r * r
}

/// The color of pixel `(x, y)`: background, highlight bar, window
/// controls, title, line numbers and text stacked bottom to top, then the
/// rounded-corner mask.
pub open spec fn draw_pixel(s: Scene, x: int, y: int) -> Rgba {
    let gw = s.plan.glyph_w as int;
    let c0 = s.bg;
    let c1 = if in_text_band(s, y) && s.highlighted@[line_of(s, y)] {
        over(highlight_bar_color(), c0)
    } else {
        c0
    };
    let c2 = if control_hit(s, x, y) is Some {
        control_hit(s, x, y)->0
    } else {
        c1
    };
    let c3 = if s.window_controls && title_y(s) <= y < title_y(s) + s.plan.glyph_h && cell_hit(
        s.title@,
        s.title_x as int,
        gw,
        x,
    ) is Some {
        over(s.fg, c2)
    } else {
        c2
    };
    let c4 = if in_text_band(s, y) && in_glyph_row(s, y) && cell_hit(
        s.numbers@[line_of(s, y)]@,
        (s.plan.text_x - s.plan.gutter_w) as int,
        gw,
        x,
    ) is Some {
        over(cell_hit(s.numbers@[line_of(s, y)]@, (s.plan.text_x - s.plan.gutter_w) as int, gw, x)->0.fg, c3)
    } else {
        c3
    };
    let c5 = if in_text_band(s, y) && in_glyph_row(s, y) && cell_hit(
        s.cells@[line_of(s, y)]@,
        s.plan.text_x as int,
        gw,
        x,
    ) is Some {
        over(cell_hit(s.cells@[line_of(s, y)]@, s.plan.text_x as int, gw, x)->0.fg, c4)
    } else {
        c4
    };
    if s.round_corner && corner_masked(s, x, y) {
        transparent()
    } else {
        c5
    }
}

/// Finds the visible cell of one row of cells that covers `x`, as
/// `cell_hit` says.
fn cell_hit_exec(cells: &Vec<Cell>, x0: u32, gw: u32, x: u32) -> (r: Option<Cell>)
    requires
        1 <= gw,
    ensures
        r == cell_hit(cells@, x0 as int, gw as int, x as int),
{
    if x >= x0 {
        let col = ((x - x0) / gw) as usize;
        if col < cells.len() {
            let c = cells[col];
            if c.ch != 32 {
                return Some(c);
            }
        }
    }
    None
}

/// Tests `circle_hit` on machine integers.
fn circle_hit_exec(x: u32, y: u32, cx: u32, cy: u32, r2: u32) -> (b: bool)
    requires
        x <= MAX_DIM,
        y <= MAX_DIM,
        cx <= MAX_DIM,
        cy <= MAX_DIM,
    ensures
        b == circle_hit(x as int, y as int, cx as int, cy as int, r2 as int),
{
    let dx: i64 = x as i64 - cx as i64;
    let dy: i64 = y as i64 - cy as i64;
    proof {
        assert(dx * dx <= 8192 * 8192 && dy * dy <= 8192 * 8192 && dx * dx >= 0 && dy * dy >= 0)
            by (nonlinear_arith)
            requires -8192 <= dx <= 8192 && -8192 <= dy <= 8192;
    }
    dx * dx + dy * dy <= r2 as i64
}

/// Tests `corner_test` on machine integers.
fn corner_test_exec(a: u32, b: u32) -> (r: bool)
    requires
        a <= 2 * MAX_DIM,
        b <= 2 * MAX_DIM,
    ensures
        r == corner_test(a as int, b as int),
{
    let rad: u32 = CORNER_RADIUS;
    if a < rad && b < rad {
        let da: i64 = (rad - a) as i64;
        let db: i64 = (rad - b) as i64;
        proof {
            assert(da * da <= 144 && db * db <= 144 && da * da >= 0 && db * db >= 0)
                by (nonlinear_arith)
                requires 0 <= da <= 12 && 0 <= db <= 12;
        }
        da * da + db * db > (rad * rad) as i64
    } else {
        false
    }
}

/// Computes `draw_pixel` for one pixel of a well-formed scene.
fn compute_pixel(s: &Scene, x: u32, y: u32) -> (c: Rgba)
    requires
        s.wf(),
        x < s.plan.width,
        y < s.plan.height,
    ensures
        c == draw_pixel(*s, x as int, y as int),
{
    let plan = &s.plan;
    let li: usize = if y >= plan.text_y {
        ((y - plan.text_y) / plan.line_h) as usize
    } else {
        0
    };
    let in_band: bool = y >= plan.text_y && li < s.cells.len();
    let glyph_row: bool = y >= plan.text_y && (y - plan.text_y) % plan.line_h < plan.glyph_h;

    let mut c: Rgba = s.bg;
    if in_band && s.highlighted[li] {
        c = blend(Rgba { r: 255, g: 255, b: 255, a: 32 }, c);
    }
    let cy: u32 = plan.chrome_h / 2;
    let r2: u32 = CONTROL_RADIUS * CONTROL_RADIUS;
    if s.window_controls && circle_hit_exec(x, y, CONTROL_X0, cy, r2) {
        c = Rgba { r: 255, g: 95, b: 86, a: 255 };
    } else if s.window_controls && circle_hit_exec(x, y, CONTROL_X0 + CONTROL_SPACING, cy, r2) {
        c = Rgba { r: 255, g: 189, b: 46, a: 255 };
    } else if s.window_controls && circle_hit_exec(x, y, CONTROL_X0 + 2 * CONTROL_SPACING, cy, r2) {
        c = Rgba { r: 39, g: 201, b: 63, a: 255 };
    }
    let ty: u32 = if plan.chrome_h >= plan.glyph_h {
        (plan.chrome_h - plan.glyph_h) / 2
    } else {
        0
    };
    if s.window_controls && ty <= y && y < ty + plan.glyph_h {
        if cell_hit_exec(&s.title, s.title_x, plan.glyph_w, x).is_some() {
            c = blend(s.fg, c);
        }
    }
    if in_band && glyph_row {
        match cell_hit_exec(&s.numbers[li], plan.text_x - plan.gutter_w, plan.glyph_w, x) {
            Some(cell) => { c = blend(cell.fg, c); },
            None => {},
        }
        match cell_hit_exec(&s.cells[li], plan.text_x, plan.glyph_w, x) {
            Some(cell) => { c = blend(cell.fg, c); },
            None => {},
        }
    }
    if s.round_corner {
        let fx: u32 = plan.width - 1 - x;
        let fy: u32 = plan.height - 1 - y;
        if corner_test_exec(x, y) || corner_test_exec(fx, y) || corner_test_exec(x, fy)
            || corner_test_exec(fx, fy) {
            c = Rgba { r: 0, g: 0, b: 0, a: 0 };
        }
    }
    c
}

/// Draws the scene: a canvas of the planned size whose every pixel is
/// `draw_pixel` of the scene — the drawing is a pure function of the
/// scene.
pub fn draw(s: &Scene) -> (r: Canvas)
    requires
        s.wf(),
    ensures
        r.wf(),
        r.width == s.plan.width,
        r.height == s.plan.height,
        forall|x: int, y: int|
            0 <= x < r.width && 0 <= y < r.height ==> r.at(x, y) == draw_pixel(*s, x, y),
{
    let w = s.plan.width;
    let h = s.plan.height;
    let mut pixels: Vec<Rgba> = Vec::new();
    let mut y: u32 = 0;
    while y < h
        invariant
            s.wf(),
            w == s.plan.width,
            h == s.plan.height,
            y <= h,
            pixels@.len() == y * w,
            forall|xx: int, yy: int|
                0 <= xx < w && 0 <= yy < y ==> pixels@[yy * w + xx] == draw_pixel(*s, xx, yy),
        decreases h - y,
    {
        let mut x: u32 = 0;
        while x < w
            invariant
                s.wf(),
                w == s.plan.width,
                h == s.plan.height,
                y < h,
                x <= w,
                pixels@.len() == y * w + x,
                forall|xx: int, yy: int|
                    0 <= xx < w && 0 <= yy < y ==> pixels@[yy * w + xx] == draw_pixel(*s, xx, yy),
                forall|xx: int| 0 <= xx < x ==> pixels@[y * w + xx] == draw_pixel(*s, xx, y as int),
            decreases w - x,
        {
            let p = compute_pixel(s, x, y);
            pixels.push(p);
            proof {
                lemma_row_major_index(x as int, y as int, w as int, h as int);
                assert forall|xx: int, yy: int|
                    0 <= xx < w && 0 <= yy < y implies #[trigger] (yy * w + xx) < y * w
                    + x by {
                    assert(yy * w + xx < y * w + x) by (nonlinear_arith)
                        requires 0 <= xx < w && 0 <= yy < y && 0 <= x;
                }
            }
            x += 1;
        }
        proof {
            assert((y + 1) * w == y * w + w) by (nonlinear_arith);
        }
        y += 1;
    }
    proof {
        assert(h * w == w * h) by (nonlinear_arith);
    }
    Canvas { width: w, height: h, pixels }
}

/// Round-corner transparency: on a canvas drawn with rounded corners, the
/// four extreme corner pixels are fully transparent, and — on a canvas
/// larger than twice the corner radius each way, over an opaque
/// background — the center pixel is not.
pub proof fn lemma_round_corner_transparency(s: Scene, c: Canvas)
    requires
        s.wf(),
        s.round_corner,
        s.bg.a == 255,
        c.width == s.plan.width,
        c.height == s.plan.height,
        c.width > 2 * CORNER_RADIUS,
        c.height > 2 * CORNER_RADIUS,
        forall|x: int, y: int|
            0 <= x < c.width && 0 <= y < c.height ==> c.at(x, y) == draw_pixel(s, x, y),
    ensures
        c.at(0, 0).a == 0,
        c.at(c.width - 1, 0).a == 0,
        c.at(0, c.height - 1).a == 0,
        c.at(c.width - 1, c.height - 1).a == 0,
        c.at(c.width as int / 2, c.height as int / 2).a == 255,
{
    let w = c.width as int;
    let h = c.height as int;
    assert(corner_test(0, 0));
    assert(corner_masked(s, 0, 0));
    assert(corner_masked(s, w - 1, 0));
    assert(corner_masked(s, 0, h - 1));
    assert(corner_masked(s, w - 1, h - 1));
    let cx = w / 2;
    let cy = h / 2;
    assert(cx >= CORNER_RADIUS && w - 1 - cx >= CORNER_RADIUS);
    assert(cy >= CORNER_RADIUS && h - 1 - cy >= CORNER_RADIUS);
    assert(!corner_masked(s, cx, cy));
    crate::color::lemma_over_preserves_opaque(highlight_bar_color(), s.bg);
    let c1 = if in_text_band(s, cy) && s.highlighted@[line_of(s, cy)] {
        over(highlight_bar_color(), s.bg)
    } else {
        s.bg
    };
    assert(c1.a == 255);
    let c2 = if control_hit(s, cx, cy) is Some {
        control_hit(s, cx, cy)->0
    } else {
        c1
    };
    assert(c2.a == 255);
    crate::color::lemma_over_preserves_opaque(s.fg, c2);
    let gw = s.plan.glyph_w as int;
    let c3 = if s.window_controls && title_y(s) <= cy < title_y(s) + s.plan.glyph_h && cell_hit(
        s.title@,
        s.title_x as int,
        gw,
        cx,
    ) is Some {
        over(s.fg, c2)
    } else {
        c2
    };
    assert(c3.a == 255);
    let c4 = if in_text_band(s, cy) && in_glyph_row(s, cy) && cell_hit(
        s.numbers@[line_of(s, cy)]@,
        (s.plan.text_x - s.plan.gutter_w) as int,
        gw,
        cx,
    ) is Some {
        over(cell_hit(s.numbers@[line_of(s, cy)]@, (s.plan.text_x - s.plan.gutter_w) as int, gw, cx)->0.fg, c3)
    } else {
        c3
    };
    crate::color::lemma_over_preserves_opaque(
        cell_hit(s.numbers@[line_of(s, cy)]@, (s.plan.text_x - s.plan.gutter_w) as int, gw, cx)->0.fg,
        c3,
    );
    assert(c4.a == 255);
    let c5 = if in_text_band(s, cy) && in_glyph_row(s, cy) && cell_hit(
        s.cells@[line_of(s, cy)]@,
        s.plan.text_x as int,
        gw,
        cx,
    ) is Some {
        over(cell_hit(s.cells@[line_of(s, cy)]@, s.plan.text_x as int, gw, cx)->0.fg, c4)
    } else {
        c4
    };
    crate::color::lemma_over_preserves_opaque(
        cell_hit(s.cells@[line_of(s, cy)]@, s.plan.text_x as int, gw, cx)->0.fg,
        c4,
    );
    assert(c5.a == 255);
    assert(draw_pixel(s, cx, cy) == c5);
}

/// Drawing reads only the scene's mathematical content: two scenes that
/// agree on the plan, colors, flags and the views of their cells, gutter
/// rows and title produce the same color at every pixel.
pub proof fn lemma_draw_pixel_congruence(s1: Scene, s2: Scene, x: int, y: int)
    requires
        s1.wf(),
        s1.plan == s2.plan,
        s1.bg == s2.bg,
        s1.fg == s2.fg,
        s1.title_x == s2.title_x,
        s1.window_controls == s2.window_controls,
        s1.round_corner == s2.round_corner,
        s1.title@ == s2.title@,
        s1.highlighted@ == s2.highlighted@,
        s1.cells@.len() == s2.cells@.len(),
        forall|i: int| 0 <= i < s1.cells@.len() ==> #[trigger] s1.cells@[i]@ == s2.cells@[i]@,
        s1.numbers@.len() == s2.numbers@.len(),
        forall|i: int| 0 <= i < s1.numbers@.len() ==> #[trigger] s1.numbers@[i]@ == s2.numbers@[i]@,
    ensures
        draw_pixel(s1, x, y) == draw_pixel(s2, x, y),
{
    assert(line_of(s1, y) == line_of(s2, y));
    assert(in_text_band(s1, y) == in_text_band(s2, y));
    if in_text_band(s1, y) {
        let li = line_of(s1, y);
        assert(0 <= li) by (nonlinear_arith)
            requires
                li == (y - s1.plan.text_y) / (s1.plan.line_h as int),
                y >= s1.plan.text_y,
                s1.plan.line_h >= 1;
        assert(s1.cells@[li]@ == s2.cells@[li]@);
        assert(s1.numbers@[li]@ == s2.numbers@[li]@);
    }
    assert(control_hit(s1, x, y) == control_hit(s2, x, y));
    assert(corner_masked(s1, x, y) == corner_masked(s2, x, y));
}

/// Drawing is pure: two canvases that both satisfy `draw`'s contract for
/// one scene are pixel-for-pixel equal.
pub proof fn lemma_draw_deterministic(s: Scene, a: Canvas, b: Canvas)
    requires
        a.wf(),
        b.wf(),
        a.width == s.plan.width,
        a.height == s.plan.height,
        b.width == s.plan.width,
        b.height == s.plan.height,
        forall|x: int, y: int|
            0 <= x < a.width && 0 <= y < a.height ==> a.at(x, y) == draw_pixel(s, x, y),
        forall|x: int, y: int|
            0 <= x < b.width && 0 <= y < b.height ==> b.at(x, y) == draw_pixel(s, x, y),
    ensures
        a.pixels@ == b.pixels@,
{
    let w = a.width as int;
    let h = a.height as int;
    assert forall|i: int| 0 <= i < a.pixels@.len() implies a.pixels@[i] == b.pixels@[i] by {
        let x = i % w;
        let y = i / w;
        assert(0 <= x < w && 0 <= y < h && y * w + x == i) by (nonlinear_arith)
            requires 0 <= i < w * h && x == i % w && y == i / w && 0 < w;
        assert(a.at(x, y) == draw_pixel(s, x, y));
        assert(b.at(x, y) == draw_pixel(s, x, y));
    }
    assert(a.pixels@ =~= b.pixels@);
}

} // verus!
