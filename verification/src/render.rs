//! The top of the pipeline: resolves options, highlights, lays out, draws,
//! composites the shadow, and encodes.
use vstd::prelude::*;
use crate::color::Rgba;
use crate::canvas::{Canvas, encode_raw};
use crate::highlight::{
    Assets, ThemeHandle, highlight, background_of, foreground_of, catalog_has_lang,
    catalog_has_theme, chars_vec,
};
use crate::layout::{layout, LayoutPlan, H_MARGIN, V_MARGIN, GUTTER_EXTRA, MAX_DIM};
use crate::options::{ImageOptions, RenderConfig, apply_image_options};
use crate::raster::{Scene, draw, CONTROL_X0, CONTROL_SPACING, CONTROL_RADIUS};
use crate::shadow::composite;
use crate::text::{Cell, HighlightedLine, SpanView, expand_line, expand_spec, line_cells, split_lines_spec};
use crate::Error;

verus! {

/// The decimal digits of `n` as code points, most significant first.
pub open spec fn dec_digits(n: nat) -> Seq<u32>
    decreases n,
{
    if n < 10 {
        seq![(48 + n) as u32]
    } else {
        dec_digits(n / 10).push((48 + n % 10) as u32)
    }
}

/// Writes the decimal digits of `n`, as `dec_digits` says.
pub fn dec_digits_exec(n: u64) -> (r: Vec<u32>)
    ensures
        r@ == dec_digits(n as nat),
        1 <= r@.len(),
    decreases n,
{
    if n < 10 {
        let mut v: Vec<u32> = Vec::new();
        v.push(48 + n as u32);
        proof {
            assert(v@ =~= dec_digits(n as nat));
        }
        v
    } else {
        let mut v = dec_digits_exec(n / 10);
        v.push(48 + (n % 10) as u32);
        v
    }
}

/// The cells of a row of code points, each with color `fg`.
pub open spec fn cells_of(chs: Seq<u32>, fg: Rgba) -> Seq<Cell>
    decreases chs.len(),
{
    if chs.len() == 0 {
        Seq::<Cell>::empty()
    } else {
        cells_of(chs.drop_last(), fg).push(Cell { ch: chs.last(), fg })
    }
}

/// `cells_of` pairs each code point with the color.
pub proof fn lemma_cells_of(chs: Seq<u32>, fg: Rgba)
    ensures
        cells_of(chs, fg).len() == chs.len(),
        forall|i: int|
            0 <= i < chs.len() ==> #[trigger] cells_of(chs, fg)[i] == (Cell { ch: chs[i], fg }),
    decreases chs.len(),
{
    if chs.len() > 0 {
        lemma_cells_of(chs.drop_last(), fg);
    }
}

/// Builds the cells of a row of code points.
pub fn cells_of_exec(chs: &Vec<u32>, fg: Rgba) -> (r: Vec<Cell>)
    ensures
        r@ == cells_of(chs@, fg),
{
    let mut r: Vec<Cell> = Vec::new();
    let mut i: usize = 0;
    while i < chs.len()
        invariant
            i <= chs@.len(),
            r@ == cells_of(chs@.take(i as int), fg),
        decreases chs@.len() - i,
    {
        r.push(Cell { ch: chs[i], fg });
        proof {
            assert(chs@.take(i + 1).drop_last() =~= chs@.take(i as int));
            assert(chs@.take(i + 1).last() == chs@[i as int]);
        }
        i += 1;
    }
    proof {
        assert(chs@.take(chs@.len() as int) =~= chs@);
    }
    r
}

/// The gutter row of one line: the number's digit cells, right-aligned
/// to `width` columns behind invisible space cells.
pub open spec fn number_row_spec(no: nat, width: nat, fg: Rgba) -> Seq<Cell> {
    let d = cells_of(dec_digits(no), fg);
    if d.len() < width {
        Seq::new((width - d.len()) as nat, |i: int| Cell { ch: 32u32, fg }) + d
    } else {
        d
    }
}

/// Writes the gutter row of one line, as `number_row_spec` says.
pub fn number_row(no: u64, width: usize, fg: Rgba) -> (r: Vec<Cell>)
    ensures
        r@ == number_row_spec(no as nat, width as nat, fg),
{
    let digits = dec_digits_exec(no);
    let cells = cells_of_exec(&digits, fg);
    proof {
        lemma_cells_of(digits@, fg);
    }
    let pad: usize = if cells.len() < width {
        width - cells.len()
    } else {
        0
    };
    let mut r: Vec<Cell> = Vec::new();
    let mut i: usize = 0;
    while i < pad
        invariant
            i <= pad,
            r@ =~= Seq::new(i as nat, |k: int| Cell { ch: 32u32, fg }),
        decreases pad - i,
    {
        r.push(Cell { ch: 32, fg });
        proof {
            assert(r@ =~= Seq::new((i + 1) as nat, |k: int| Cell { ch: 32u32, fg }));
        }
        i += 1;
    }
    let ghost spaces = r@;
    let mut j: usize = 0;
    while j < cells.len()
        invariant
            j <= cells@.len(),
            r@ =~= spaces + cells@.take(j as int),
        decreases cells@.len() - j,
    {
        r.push(cells[j]);
        proof {
            assert(r@ =~= spaces + cells@.take(j + 1));
        }
        j += 1;
    }
    proof {
        assert(cells@.take(cells@.len() as int) =~= cells@);
        assert(r@ =~= number_row_spec(no as nat, width as nat, fg));
    }
    r
}

/// The code points of a character sequence.
pub open spec fn chars_points(s: Seq<char>) -> Seq<u32> {
    Seq::new(s.len(), |i: int| s[i] as u32)
}

/// The line-number color: the foreground at reduced emphasis.
pub open spec fn dim_of(fg: Rgba) -> Rgba {
    Rgba { r: fg.r, g: fg.g, b: fg.b, a: 128 }
}

/// How many digit columns the gutter of this plan holds.
pub open spec fn gutter_cols_spec(plan: LayoutPlan) -> nat {
    if plan.gutter_w >= GUTTER_EXTRA {
        ((plan.gutter_w - GUTTER_EXTRA) as int / plan.glyph_w as int) as nat
    } else {
        0
    }
}

/// `true` iff `needle` occurs in the vector.
pub fn contains_u32(hay: &Vec<u32>, needle: u32) -> (b: bool)
    ensures
        b == hay@.contains(needle),
{
    let mut i: usize = 0;
    while i < hay.len()
        invariant
            i <= hay@.len(),
            forall|j: int| 0 <= j < i ==> hay@[j] != needle,
        decreases hay@.len() - i,
    {
        if hay[i] == needle {
            return true;
        }
        i += 1;
    }
    proof {
        assert(!hay@.contains(needle));
    }
    false
}

/// Whether a title is drawn: controls on, a title set, and room to the
/// right of the control glyphs.
pub open spec fn title_shown(cfg: RenderConfig, plan: LayoutPlan) -> bool {
    &&& cfg.window_controls
    &&& cfg.window_title is Some
    &&& plan.width > CONTROL_X0 + 2 * CONTROL_SPACING + CONTROL_RADIUS + 4
}

/// How many title characters fit, truncating deterministically to the
/// room right of the control glyphs.
pub open spec fn title_keep(cfg: RenderConfig, plan: LayoutPlan) -> int {
    let ncols = (plan.width - (CONTROL_X0 + 2 * CONTROL_SPACING + CONTROL_RADIUS + 4)) as int
        / plan.glyph_w as int;
    if cfg.window_title->0@.len() < ncols {
        cfg.window_title->0@.len() as int
    } else {
        ncols
    }
}

/// Prepares everything `draw` reads: expanded cells, gutter numbers,
/// title cells, highlight flags and resolved colors.
pub fn build_scene(
    lines: &Vec<HighlightedLine>,
    cfg: &RenderConfig,
    plan: LayoutPlan,
    bg: Rgba,
    fg: Rgba,
) -> (s: Scene)
    requires
        plan.width <= MAX_DIM,
        plan.height <= MAX_DIM,
        1 <= plan.glyph_w <= MAX_DIM,
        1 <= plan.line_h <= MAX_DIM,
        plan.glyph_h <= plan.line_h,
        plan.gutter_w <= plan.text_x <= MAX_DIM,
        plan.text_y <= MAX_DIM,
        plan.chrome_h <= MAX_DIM,
        lines@.len() <= MAX_DIM,
    ensures
        s.wf(),
        s.plan == plan,
        s.bg == bg,
        s.fg == fg,
        s.window_controls == cfg.window_controls,
        s.round_corner == cfg.round_corner,
        s.cells@.len() == lines@.len(),
        forall|i: int|
            0 <= i < lines@.len() ==> #[trigger] s.cells@[i]@ == expand_spec(
                line_cells(lines.deep_view()[i]),
                if cfg.tab_width == 0 {
                    1nat
                } else {
                    cfg.tab_width as nat
                },
            ),
        forall|i: int|
            0 <= i < lines@.len() ==> #[trigger] s.highlighted@[i] == (cfg.line_offset + i
                <= 0xffff_ffff && cfg.highlight_lines@.contains((cfg.line_offset + i) as u32)),
        s.numbers@.len() == lines@.len(),
        forall|i: int|
            0 <= i < lines@.len() ==> #[trigger] s.numbers@[i]@ == number_row_spec(
                (cfg.line_offset + i) as nat,
                gutter_cols_spec(plan),
                dim_of(fg),
            ),
        title_shown(*cfg, plan) ==> {
            &&& s.title@ == cells_of(
                chars_points(cfg.window_title->0@).take(title_keep(*cfg, plan) as int),
                fg,
            )
            &&& s.title_x == CONTROL_X0 + 2 * CONTROL_SPACING + CONTROL_RADIUS + 4 + (
            plan.width - (CONTROL_X0 + 2 * CONTROL_SPACING + CONTROL_RADIUS + 4) - title_keep(
                *cfg,
                plan,
            ) * plan.glyph_w) / 2
        },
        !title_shown(*cfg, plan) ==> s.title@.len() == 0,
{
    let n = lines.len();
    let dim = Rgba { r: fg.r, g: fg.g, b: fg.b, a: 128 };
    let gutter_cols: usize = if plan.gutter_w >= GUTTER_EXTRA {
        ((plan.gutter_w - GUTTER_EXTRA) / plan.glyph_w) as usize
    } else {
        0
    };
    let mut cells: Vec<Vec<Cell>> = Vec::new();
    let mut numbers: Vec<Vec<Cell>> = Vec::new();
    let mut highlighted: Vec<bool> = Vec::new();
    let mut i: usize = 0;
    while i < n
        invariant
            n == lines@.len(),
            n <= MAX_DIM,
            i <= n,
            cells@.len() == i,
            numbers@.len() == i,
            highlighted@.len() == i,
            forall|j: int|
                0 <= j < i ==> #[trigger] cells@[j]@ == expand_spec(
                    line_cells(lines.deep_view()[j]),
                    if cfg.tab_width == 0 {
                        1nat
                    } else {
                        cfg.tab_width as nat
                    },
                ),
            forall|j: int|
                0 <= j < i ==> #[trigger] highlighted@[j] == (cfg.line_offset + j <= 0xffff_ffff
                    && cfg.highlight_lines@.contains((cfg.line_offset + j) as u32)),
            gutter_cols as nat == gutter_cols_spec(plan),
            dim == dim_of(fg),
            forall|j: int|
                0 <= j < i ==> #[trigger] numbers@[j]@ == number_row_spec(
                    (cfg.line_offset + j) as nat,
                    gutter_cols_spec(plan),
                    dim_of(fg),
                ),
        decreases n - i,
    {
        let row = expand_line(&lines[i], cfg.tab_width);
        cells.push(row);
        let no: u64 = cfg.line_offset as u64 + i as u64;
        numbers.push(number_row(no, gutter_cols, dim));
        let hl: bool = if no <= 0xffff_ffff {
            contains_u32(&cfg.highlight_lines, no as u32)
        } else {
            false
        };
        highlighted.push(hl);
        i += 1;
    }
    let mut title_cells: Vec<Cell> = Vec::new();
    let mut title_x: u32 = 0;
    let controls_end: u32 = CONTROL_X0 + 2 * CONTROL_SPACING + CONTROL_RADIUS + 4;
    match &cfg.window_title {
        Some(t) => {
            if cfg.window_controls && plan.width > controls_end {
                let avail: u32 = plan.width - controls_end;
                let ncols: usize = (avail / plan.glyph_w) as usize;
                let tchars = chars_vec(t.as_str());
                let mut pts: Vec<u32> = Vec::new();
                let mut k: usize = 0;
                let keep: usize = if tchars.len() < ncols {
                    tchars.len()
                } else {
                    ncols
                };
                proof {
                    assert(keep as int == title_keep(*cfg, plan));
                }
                while k < keep
                    invariant
                        keep <= tchars@.len(),
                        k <= keep,
                        tchars@ == cfg.window_title->0@,
                        pts@ =~= chars_points(tchars@).take(k as int),
                    decreases keep - k,
                {
                    pts.push(tchars[k] as u32);
                    proof {
                        assert(pts@ =~= chars_points(tchars@).take(k + 1));
                    }
                    k += 1;
                }
                title_cells = cells_of_exec(&pts, fg);
                proof {
                    lemma_cells_of(pts@, fg);
                    assert(pts@ =~= chars_points(cfg.window_title->0@).take(keep as int));
                    assert(keep * plan.glyph_w <= 8192 * 8192) by (nonlinear_arith)
                        requires 0 <= keep <= 8192 && 0 <= plan.glyph_w <= 8192;
                    assert(keep <= avail as int / plan.glyph_w as int ==> keep * plan.glyph_w
                        <= avail) by (nonlinear_arith)
                        requires 0 < plan.glyph_w && 0 <= keep;
                }
                let used: u32 = (keep as u64 * plan.glyph_w as u64) as u32;
                title_x = controls_end + (avail - used) / 2;
            }
        },
        None => {},
    }
    Scene {
        plan,
        bg,
        fg,
        cells,
        numbers,
        title: title_cells,
        title_x,
        highlighted,
        window_controls: cfg.window_controls,
        round_corner: cfg.round_corner,
    }
}

/// One channel byte of a pixel: R, G, B or A by channel index.
pub open spec fn channel_byte(p: Rgba, k: int) -> u8 {
    if k == 0 {
        p.r
    } else if k == 1 {
        p.g
    } else if k == 2 {
        p.b
    } else {
        p.a
    }
}

/// The interleaved RGBA8 serialization of a canvas.
pub open spec fn raw_bytes_spec(c: Canvas) -> Seq<u8> {
    Seq::new((c.width * c.height * 4) as nat, |j: int| channel_byte(c.pixels@[j / 4], j % 4))
}

/// PNG bytes of an RGBA8 buffer: a pure function of the dimensions and
/// pixel bytes.
pub uninterp spec fn png_encoding(width: nat, height: nat, rgba: Seq<u8>) -> Seq<u8>;

/// Relies on image::RgbaImage::from_raw and image::DynamicImage::write_to
/// with ImageFormat::Png: a deterministic, lossless encoding of the RGBA8
/// buffer with fixed compression settings. Encoding into an in-memory
/// buffer fails only on zero dimensions or encoder limits, so any
/// in-range nonzero size succeeds; a PNG stream always opens with the
/// fixed 8-byte signature.
#[verifier::external_body]
fn png_bytes(width: u32, height: u32, data: &Vec<u8>) -> (r: Result<Vec<u8>, String>)
    requires
        data@.len() == width * height * 4,
    ensures
        1 <= width <= MAX_DIM && 1 <= height <= MAX_DIM ==> r is Ok,
        r matches Ok(b) ==> b@ == png_encoding(width as nat, height as nat, data@),
        r matches Ok(b) ==> b@.len() >= 8 && b@[0] == 137 && b@[1] == 80 && b@[2] == 78
            && b@[3] == 71 && b@[4] == 13 && b@[5] == 10 && b@[6] == 26 && b@[7] == 10,
{
    let img = match image::RgbaImage::from_raw(width, height, data.clone()) {
        Some(i) => i,
        None => {
            return Err("buffer size mismatch".to_string());
        },
    };
    let mut bytes: Vec<u8> = Vec::new();
    match image::DynamicImage::ImageRgba8(img).write_to(
        &mut std::io::Cursor::new(&mut bytes),
        image::ImageFormat::Png,
    ) {
        Ok(()) => Ok(bytes),
        Err(e) => Err(e.to_string()),
    }
}

/// Serializes the canvas as PNG. The result is the PNG encoding of the
/// canvas's raw RGBA8 bytes, opening with the 8-byte PNG signature; a
/// well-formed canvas of nonzero size always encodes. A malformed canvas
/// gives `NonRgbaBuffer` and an encoder failure gives `EncodingFailure`.
pub fn encode_png(c: &Canvas) -> (r: Result<Vec<u8>, Error>)
    ensures
        c.wf() && c.width >= 1 && c.height >= 1 ==> r is Ok,
        r matches Ok(b) ==> c.wf() && b@ == png_encoding(
            c.width as nat,
            c.height as nat,
            raw_bytes_spec(*c),
        ),
        r matches Ok(b) ==> b@.len() >= 8 && b@[0] == 137 && b@[1] == 80 && b@[2] == 78
            && b@[3] == 71 && b@[4] == 13 && b@[5] == 10 && b@[6] == 26 && b@[7] == 10,
        r matches Err(e) ==> e is NonRgbaBuffer || e is EncodingFailure,
{
    let raw = match encode_raw(c) {
        Ok(b) => b,
        Err(e) => {
            return Err(e);
        },
    };
    proof {
        assert forall|j: int| 0 <= j < raw@.len() implies raw@[j] == raw_bytes_spec(*c)[j] by {
            let i = j / 4;
            let k = j % 4;
            assert(0 <= i < c.width * c.height && j == 4 * i + k && 0 <= k < 4) by (nonlinear_arith)
                requires 0 <= j < c.width * c.height * 4 && i == j / 4 && k == j % 4;
        }
        assert(raw@ =~= raw_bytes_spec(*c));
    }
    match png_bytes(c.width, c.height, &raw) {
        Ok(b) => Ok(b),
        Err(m) => Err(Error::EncodingFailure(m)),
    }
}

/// Which theme a render call uses: a catalog name, or a pre-parsed
/// shareable handle.
pub enum ThemeSpec {
    Name(String),
    Handle(ThemeHandle),
}

/// One render request: the language token, the theme, and the optional
/// image options.
pub struct FormatOptions {
    pub lang: String,
    pub theme: ThemeSpec,
    pub image_options: Option<ImageOptions>,
}

/// The request names a theme the catalog has, or carries its own handle.
pub open spec fn theme_found(options: FormatOptions, assets: Assets) -> bool {
    match options.theme {
        ThemeSpec::Name(n) => catalog_has_theme(assets.theme_set, n@),
        ThemeSpec::Handle(_) => true,
    }
}

/// The primary font size a request resolves to.
pub open spec fn opts_font_size(o: Option<ImageOptions>) -> int {
    if o is Some && o->0.font is Some && o->0.font->0@.len() > 0 {
        o->0.font->0@[0].1 as int
    } else {
        crate::layout::DEFAULT_FONT_SIZE as int
    }
}

/// The line padding a request resolves to.
pub open spec fn opts_line_pad(o: Option<ImageOptions>) -> int {
    if o is Some && o->0.line_pad is Some {
        o->0.line_pad->0 as int
    } else {
        2
    }
}

/// The chrome strip height a request resolves to.
pub open spec fn opts_chrome_h(o: Option<ImageOptions>) -> int {
    if o is Some && o->0.window_controls is Some && o->0.window_controls->0 {
        crate::layout::CHROME_HEIGHT as int
    } else {
        0
    }
}

/// Whether a request asks for a drop shadow.
pub open spec fn opts_has_shadow(o: Option<ImageOptions>) -> bool {
    o is Some && o->0.shadow_adder is Some
}

/// The canvas height a shadowless request renders to: one row of font
/// height plus padding per line, the chrome strip, and both margins.
pub open spec fn expected_height(o: Option<ImageOptions>, code: Seq<char>) -> int {
    crate::text::split_lines_spec(code).len() * (opts_font_size(o) + opts_line_pad(o))
        + opts_chrome_h(o) + 2 * V_MARGIN
}


/// Whether a request turns the line-number gutter on.
pub open spec fn opts_line_number(o: Option<ImageOptions>) -> bool {
    o is Some && o->0.line_number is Some && o->0.line_number->0
}

/// Whether a request turns the window controls on.
pub open spec fn opts_window_controls(o: Option<ImageOptions>) -> bool {
    o is Some && o->0.window_controls is Some && o->0.window_controls->0
}

/// The first line's number a request resolves to.
pub open spec fn opts_line_offset(o: Option<ImageOptions>) -> int {
    if o is Some && o->0.line_offset is Some {
        o->0.line_offset->0 as int
    } else {
        1
    }
}

/// The tab stop a request resolves to; a stop of zero acts as one.
pub open spec fn opts_tab(o: Option<ImageOptions>) -> nat {
    let t: nat = if o is Some && o->0.tab_width is Some {
        o->0.tab_width->0 as nat
    } else {
        4
    };
    if t == 0 {
        1nat
    } else {
        t
    }
}

/// The glyph cell width a request resolves to.
pub open spec fn opts_glyph_w(o: Option<ImageOptions>) -> int {
    opts_font_size(o) / 2
}

/// The gutter width a request resolves to for `n` lines.
pub open spec fn opts_gutter_w(o: Option<ImageOptions>, n: nat) -> int {
    if opts_line_number(o) {
        crate::layout::digits10(
            (opts_line_offset(o) + if n > 0 { n - 1 } else { 0 }) as nat,
        ) * opts_glyph_w(o) + GUTTER_EXTRA
    } else {
        0
    }
}

/// The canvas width a shadowless request renders to for `n` lines of at
/// most `cols` glyph columns.
pub open spec fn expected_width(o: Option<ImageOptions>, n: nat, cols: int) -> int {
    let w = cols * opts_glyph_w(o) + opts_gutter_w(o, n) + 2 * H_MARGIN;
    let floor: int = if opts_window_controls(o) {
        crate::layout::MIN_CHROME_WIDTH as int
    } else {
        0
    };
    if w >= floor {
        w
    } else {
        floor
    }
}

/// The shadow parameters a request resolves to (meaningful when
/// `opts_has_shadow` holds).
pub open spec fn opts_shadow(o: Option<ImageOptions>) -> crate::options::ShadowConfig {
    crate::options::resolved_shadow_spec(o->0.shadow_adder->0)
}

/// How much wider the shadow makes the canvas.
pub open spec fn shadow_extra_w(o: Option<ImageOptions>) -> int {
    if opts_has_shadow(o) {
        2 * opts_shadow(o).pad_horiz + crate::shadow::abs_of(opts_shadow(o).offset_x as int)
    } else {
        0
    }
}

/// How much taller the shadow makes the canvas.
pub open spec fn shadow_extra_h(o: Option<ImageOptions>) -> int {
    if opts_has_shadow(o) {
        2 * opts_shadow(o).pad_vert + crate::shadow::abs_of(opts_shadow(o).offset_y as int)
    } else {
        0
    }
}

/// The request's inputs produce a canvas within range: `spec_fits`,
/// stated over the request.
pub open spec fn opts_fits(o: Option<ImageOptions>, n: nat, cols: int) -> bool {
    &&& n <= MAX_DIM
    &&& cols <= MAX_DIM
    &&& 2 <= opts_font_size(o) <= MAX_DIM
    &&& opts_font_size(o) + opts_line_pad(o) <= MAX_DIM
    &&& expected_width(o, n, cols) <= MAX_DIM
    &&& n * (opts_font_size(o) + opts_line_pad(o)) + opts_chrome_h(o) + 2 * V_MARGIN <= MAX_DIM
}

/// The theme a request resolves to: the catalog's under the name, or the
/// handle's own.
pub open spec fn req_theme(options: FormatOptions, assets: Assets) -> syntect::highlighting::Theme {
    match options.theme {
        ThemeSpec::Name(n) => crate::highlight::catalog_theme(assets.theme_set, n@),
        ThemeSpec::Handle(h) => h.theme,
    }
}

/// Whether the tokenizer succeeds on this request.
pub open spec fn tokenize_ok(code: Seq<char>, options: FormatOptions, assets: Assets) -> bool {
    crate::highlight::hl_ok(
        assets.syntax_set,
        crate::highlight::catalog_syntax(assets.syntax_set, options.lang@),
        req_theme(options, assets),
        code,
    )
}

/// The trimmed styled lines this request renders.
pub open spec fn styled_lines(code: Seq<char>, options: FormatOptions, assets: Assets) -> Seq<
    Seq<SpanView>,
> {
    crate::highlight::trimmed_lines(
        crate::highlight::hl_spans(
            assets.syntax_set,
            crate::highlight::catalog_syntax(assets.syntax_set, options.lang@),
            req_theme(options, assets),
            code,
        ),
        split_lines_spec(code),
    )
}

/// The widest of these lines, in glyph columns after tab expansion.
pub open spec fn max_cols_spec(lines: Seq<Seq<SpanView>>, tab: nat) -> int
    decreases lines.len(),
{
    if lines.len() == 0 {
        0
    } else {
        let rest = max_cols_spec(lines.drop_last(), tab);
        let w = expand_spec(line_cells(lines.last()), tab).len() as int;
        if w > rest {
            w
        } else {
            rest
        }
    }
}

/// The glyph columns of the widest line of this request.
pub open spec fn render_cols(code: Seq<char>, options: FormatOptions, assets: Assets) -> int {
    max_cols_spec(styled_lines(code, options, assets), opts_tab(options.image_options))
}

/// A render call returns `Ok` exactly under these conditions: the theme
/// and language resolve, the tokenizer succeeds, and the laid-out canvas
/// — shadow included — stays within range.
pub open spec fn render_succeeds(code: Seq<char>, options: FormatOptions, assets: Assets) -> bool {
    let n = split_lines_spec(code).len();
    let cols = render_cols(code, options, assets);
    let o = options.image_options;
    &&& theme_found(options, assets)
    &&& catalog_has_lang(assets.syntax_set, options.lang@)
    &&& tokenize_ok(code, options, assets)
    &&& opts_fits(o, n, cols)
    &&& (opts_has_shadow(o) ==> expected_width(o, n, cols) + shadow_extra_w(o) <= MAX_DIM
        && expected_height(o, code) + shadow_extra_h(o) <= MAX_DIM)
}

/// Renders one request to a canvas: highlight, layout, draw, and the
/// optional shadow. Succeeds exactly when `render_succeeds` holds of the
/// request; `UnknownTheme` comes exactly when a named theme is missing
/// from the catalog, `UnknownLanguage` exactly when the theme resolves
/// but the language token is unknown. A rendered canvas is well formed
/// and its dimensions follow the layout and shadow formulas exactly.
pub fn format(code: &str, options: FormatOptions, assets: &Assets) -> (r: Result<Canvas, Error>)
    ensures
        r is Ok <==> render_succeeds(code@, options, *assets),
        r matches Ok(c) ==> {
            &&& c.wf() && c.width >= 2 * H_MARGIN && c.height >= 2 * V_MARGIN
            &&& c.width == expected_width(
                options.image_options,
                split_lines_spec(code@).len(),
                render_cols(code@, options, *assets),
            ) + shadow_extra_w(options.image_options)
            &&& c.height == expected_height(options.image_options, code@) + shadow_extra_h(
                options.image_options,
            )
        },
        (r matches Err(e) && e is UnknownTheme) <==> !theme_found(options, *assets),
        (r matches Err(e) && e is UnknownLanguage) <==> (theme_found(options, *assets)
            && !catalog_has_lang(assets.syntax_set, options.lang@)),
{
    let ghost opts0 = options.image_options;
    let theme: &syntect::highlighting::Theme = match &options.theme {
        ThemeSpec::Name(n) => {
            match crate::highlight::find_theme(&assets.theme_set, n.as_str()) {
                Some(t) => t,
                None => {
                    return Err(Error::UnknownTheme);
                },
            }
        },
        ThemeSpec::Handle(h) => &h.theme,
    };
    let syntax = match crate::highlight::find_syntax(&assets.syntax_set, options.lang.as_str()) {
        Some(s) => s,
        None => {
            return Err(Error::UnknownLanguage);
        },
    };
    proof {
        assert(*theme == req_theme(options, *assets));
        assert(*syntax == crate::highlight::catalog_syntax(assets.syntax_set, options.lang@));
    }
    let lines = match highlight(code, syntax, theme, &assets.syntax_set) {
        Ok(l) => l,
        Err(e) => {
            return Err(e);
        },
    };
    let cfg: RenderConfig = match options.image_options {
        Some(o) => apply_image_options(o),
        None => apply_image_options(ImageOptions::empty()),
    };
    let ghost n_spec = split_lines_spec(code@).len();
    let ghost cols_spec = render_cols(code@, options, *assets);
    proof {
        assert(crate::layout::spec_font_size(cfg) == opts_font_size(opts0));
        assert(cfg.line_pad == opts_line_pad(opts0));
        assert(crate::layout::spec_chrome_h(cfg) == opts_chrome_h(opts0));
        assert(cfg.line_number == opts_line_number(opts0));
        assert(cfg.window_controls == opts_window_controls(opts0));
        assert(cfg.line_offset == opts_line_offset(opts0));
        assert(cfg.shadow is Some <==> opts_has_shadow(opts0));
        assert(opts_has_shadow(opts0) ==> cfg.shadow->0 == opts_shadow(opts0));
        assert(lines.deep_view() == styled_lines(code@, options, *assets));
        assert(lines.deep_view().len() == n_spec);
    }
    let ghost tabn: nat = if cfg.tab_width == 0 { 1nat } else { cfg.tab_width as nat };
    proof {
        assert(tabn == opts_tab(opts0));
    }
    let mut max_cols: usize = 0;
    let mut i: usize = 0;
    while i < lines.len()
        invariant
            i <= lines@.len(),
            tabn == (if cfg.tab_width == 0 { 1nat } else { cfg.tab_width as nat }),
            max_cols as int == max_cols_spec(lines.deep_view().take(i as int), tabn),
        decreases lines@.len() - i,
    {
        let row = expand_line(&lines[i], cfg.tab_width);
        proof {
            assert(lines.deep_view().take(i + 1).drop_last() =~= lines.deep_view().take(i as int));
            assert(lines.deep_view().take(i + 1).last() == lines.deep_view()[i as int]);
            assert(row@.len() as int == expand_spec(line_cells(lines.deep_view()[i as int]), tabn).len());
        }
        if row.len() > max_cols {
            max_cols = row.len();
        }
        i += 1;
    }
    proof {
        assert(lines.deep_view().take(lines.deep_view().len() as int) =~= lines.deep_view());
        assert(max_cols as int == cols_spec);
    }
    let plan = match layout(&cfg, lines.len(), max_cols) {
        Ok(p) => p,
        Err(e) => {
            proof {
                assert(crate::layout::spec_gutter_w(cfg, n_spec) == opts_gutter_w(opts0, n_spec));
                assert(crate::layout::spec_width(cfg, n_spec, max_cols as nat) == expected_width(
                    opts0,
                    n_spec,
                    cols_spec,
                ));
                assert(crate::layout::spec_height(cfg, n_spec) == expected_height(opts0, code@));
                assert(!opts_fits(opts0, n_spec, cols_spec));
            }
            return Err(e);
        },
    };
    proof {
        assert(max_cols * crate::layout::spec_glyph_w(cfg) >= 0) by (nonlinear_arith)
            requires max_cols >= 0 && crate::layout::spec_glyph_w(cfg) >= 0;
        assert(lines@.len() * crate::layout::spec_line_h(cfg) >= 0) by (nonlinear_arith)
            requires lines@.len() >= 0 && crate::layout::spec_line_h(cfg) >= 0;
        assert(crate::layout::spec_gutter_w(cfg, n_spec) == opts_gutter_w(opts0, n_spec));
        assert(plan.width == expected_width(opts0, n_spec, cols_spec));
        assert(plan.height == expected_height(opts0, code@));
        assert(opts_fits(opts0, n_spec, cols_spec));
    }
    let bg = background_of(theme);
    let fg = foreground_of(theme);
    let scene = build_scene(&lines, &cfg, plan, bg, fg);
    let canvas = draw(&scene);
    match &cfg.shadow {
        Some(sh) => {
            proof {
                assert(*sh == opts_shadow(opts0));
            }
            match composite(&canvas, sh) {
                Ok(c) => Ok(c),
                Err(e) => Err(e),
            }
        },
        None => Ok(canvas),
    }
}

/// Renders one request and serializes it as PNG bytes: succeeds exactly
/// when the render does (an in-range canvas always encodes), every render
/// failure propagates unchanged, and the bytes open with the 8-byte PNG
/// signature.
pub fn format_png(code: &str, options: FormatOptions, assets: &Assets) -> (r: Result<Vec<u8>, Error>)
    ensures
        r is Ok <==> render_succeeds(code@, options, *assets),
        (r matches Err(e) && e is UnknownTheme) <==> !theme_found(options, *assets),
        (r matches Err(e) && e is UnknownLanguage) <==> (theme_found(options, *assets)
            && !catalog_has_lang(assets.syntax_set, options.lang@)),
        r matches Ok(b) ==> b@.len() >= 8 && b@[0] == 137 && b@[1] == 80 && b@[2] == 78
            && b@[3] == 71 && b@[4] == 13 && b@[5] == 10 && b@[6] == 26 && b@[7] == 10,
{
    let canvas = match format(code, options, assets) {
        Ok(c) => c,
        Err(e) => {
            return Err(e);
        },
    };
    encode_png(&canvas)
}

/// Renders one request as the raw interleaved RGBA8 buffer, row-major,
/// top to bottom, four bytes per pixel: succeeds exactly when the render
/// does, every render failure propagates unchanged, and the buffer's
/// length is exactly width x height x 4 of the rendered canvas.
pub fn format_rgba8(code: &str, options: FormatOptions, assets: &Assets) -> (r: Result<
    Vec<u8>,
    Error,
>)
    ensures
        r is Ok <==> render_succeeds(code@, options, *assets),
        (r matches Err(e) && e is UnknownTheme) <==> !theme_found(options, *assets),
        (r matches Err(e) && e is UnknownLanguage) <==> (theme_found(options, *assets)
            && !catalog_has_lang(assets.syntax_set, options.lang@)),
        r matches Ok(b) ==> b@.len() == (expected_width(
            options.image_options,
            split_lines_spec(code@).len(),
            render_cols(code@, options, *assets),
        ) + shadow_extra_w(options.image_options)) * (expected_height(
            options.image_options,
            code@,
        ) + shadow_extra_h(options.image_options)) * 4,
        r matches Ok(b) ==> b@.len() % 4 == 0,
{
    let canvas = match format(code, options, assets) {
        Ok(c) => c,
        Err(e) => {
            return Err(e);
        },
    };
    let b = match encode_raw(&canvas) {
        Ok(b) => b,
        Err(e) => {
            return Err(e);
        },
    };
    proof {
        assert((canvas.width * canvas.height * 4) % 4 == 0) by (nonlinear_arith);
    }
    Ok(b)
}

} // verus!
