//! Caller-facing configuration: every field optional, with explicit defaults
//! applied once at the start of rendering, so the pipeline stays a pure
//! function of one resolved value.
use vstd::prelude::*;
use crate::color::Rgba;

verus! {

/// What stands behind the rendered canvas when a shadow is composited.
/// A closed set of variants so an image background can be added later
/// without breaking the compositing contract.
#[derive(Debug, Clone)]
pub enum Background {
    Solid(Rgba),
}

/// Resolved drop-shadow parameters.
#[derive(Debug, Clone)]
pub struct ShadowConfig {
    /// Fill of the expanded canvas; `None` leaves it fully transparent.
    pub background: Option<Background>,
    pub shadow_color: Rgba,
    /// Box-blur radius in pixels; `0` keeps the silhouette hard-edged.
    pub blur_radius: u32,
    /// Horizontal padding added on each side of the original canvas.
    pub pad_horiz: u32,
    /// Vertical padding added on each side of the original canvas.
    pub pad_vert: u32,
    pub offset_x: i32,
    pub offset_y: i32,
}

/// Resolved rendering parameters; see `apply_image_options` for defaults.
#[derive(Debug, Clone)]
pub struct RenderConfig {
    /// Extra pixels between successive text lines.
    pub line_pad: u32,
    /// Whether the line-number gutter is drawn.
    pub line_number: bool,
    /// (family, size) pairs; the first entry is the primary font. The block
    /// glyph model only reads the primary size.
    pub font: Vec<(String, u32)>,
    /// 1-based (after `line_offset`) numbers of lines drawn over a
    /// translucent highlight bar.
    pub highlight_lines: Vec<u32>,
    /// Whether the window-control strip is drawn above the content.
    pub window_controls: bool,
    /// Title drawn centered in the control strip, clipped to fit.
    pub window_title: Option<String>,
    /// Whether a rounded-rectangle alpha mask is applied to the canvas.
    pub round_corner: bool,
    /// A tab advances the pen to the next multiple of this many columns.
    pub tab_width: u8,
    /// Number given to the first line of the input.
    pub line_offset: u32,
    /// Drop shadow, composited after drawing when present.
    pub shadow: Option<ShadowConfig>,
}

/// Caller-supplied shadow options; `None` fields take the defaults of
/// `default_shadow_config`.
#[derive(Debug, Clone)]
pub struct ShadowOptions {
    pub background: Option<Background>,
    pub shadow_color: Option<Rgba>,
    pub blur_radius: Option<u32>,
    pub pad_horiz: Option<u32>,
    pub pad_vert: Option<u32>,
    pub offset_x: Option<i32>,
    pub offset_y: Option<i32>,
}

/// Caller-supplied image options; `None` fields take the defaults of
/// `default_config`.
#[derive(Debug, Clone)]
pub struct ImageOptions {
    pub line_pad: Option<u32>,
    pub line_number: Option<bool>,
    pub font: Option<Vec<(String, u32)>>,
    pub highlight_lines: Option<Vec<u32>>,
    pub window_controls: Option<bool>,
    pub window_title: Option<String>,
    pub round_corner: Option<bool>,
    pub shadow_adder: Option<ShadowOptions>,
    pub tab_width: Option<u8>,
    pub line_offset: Option<u32>,
}

impl ImageOptions {
    /// Options with every field left to its default.
    pub fn empty() -> (o: ImageOptions)
        ensures
            o == (ImageOptions {
                line_pad: None,
                line_number: None,
                font: None,
                highlight_lines: None,
                window_controls: None,
                window_title: None,
                round_corner: None,
                shadow_adder: None,
                tab_width: None,
                line_offset: None,
            }),
    {
        ImageOptions {
            line_pad: None,
            line_number: None,
            font: None,
            highlight_lines: None,
            window_controls: None,
            window_title: None,
            round_corner: None,
            shadow_adder: None,
            tab_width: None,
            line_offset: None,
        }
    }
}

/// Carries a value through a chain of conditional updates.
pub struct Wrapper<T>(pub T);

impl<T> Wrapper<T> {
    /// Applies `f` to the carried value when `value` is present, otherwise
    /// keeps the value unchanged.
    pub fn apply<U, F: FnOnce(T, U) -> T>(self, value: Option<U>, f: F) -> (r: Wrapper<T>)
        requires
            value is Some ==> f.requires((self.0, value->0)),
        ensures
            value is None ==> r.0 == self.0,
            value is Some ==> f.ensures((self.0, value->0), r.0),
    {
        if let Some(value) = value {
            Wrapper(f(self.0, value))
        } else {
            self
        }
    }

    /// Like `apply`, but hands the present value to `f` still wrapped in
    /// `Some`; `f` is never called with `None`.
    pub fn flat_apply<U, F: FnOnce(T, Option<U>) -> T>(self, value: Option<U>, f: F) -> (r:
        Wrapper<T>)
        requires
            value is Some ==> f.requires((self.0, Some(value->0))),
        ensures
            value is None ==> r.0 == self.0,
            value is Some ==> f.ensures((self.0, Some(value->0)), r.0),
    {
        self.apply(value, |obj, value| -> (t: T)
            requires
                f.requires((obj, Some(value))),
            ensures
                f.ensures((obj, Some(value)), t),
            { f(obj, Some(value)) })
    }
}

/// The shadow parameters used when the caller sets none.
pub open spec fn default_shadow_spec() -> ShadowConfig {
    ShadowConfig {
        background: None,
        shadow_color: Rgba { r: 0, g: 0, b: 0, a: 180 },
        blur_radius: 10,
        pad_horiz: 20,
        pad_vert: 20,
        offset_x: 0,
        offset_y: 0,
    }
}

impl Default for RenderConfig {
    /// The default configuration; see `default_config_spec`.
    fn default() -> (c: RenderConfig)
        ensures
            c.line_pad == 2,
            c.line_number == false,
            c.font@ =~= Seq::<(String, u32)>::empty(),
            c.highlight_lines@ =~= Seq::<u32>::empty(),
            c.window_controls == false,
            c.window_title is None,
            c.round_corner == false,
            c.tab_width == 4,
            c.line_offset == 1,
            c.shadow is None,
    {
        RenderConfig {
            line_pad: 2,
            line_number: false,
            font: Vec::new(),
            highlight_lines: Vec::new(),
            window_controls: false,
            window_title: None,
            round_corner: false,
            tab_width: 4,
            line_offset: 1,
            shadow: None,
        }
    }
}

/// The shadow configuration that `opts` resolves to.
pub open spec fn resolved_shadow_spec(opts: ShadowOptions) -> ShadowConfig {
    let d = default_shadow_spec();
    ShadowConfig {
        background: if opts.background is Some { Some(opts.background->0) } else { d.background },
        shadow_color: if opts.shadow_color is Some { opts.shadow_color->0 } else { d.shadow_color },
        blur_radius: if opts.blur_radius is Some { opts.blur_radius->0 } else { d.blur_radius },
        pad_horiz: if opts.pad_horiz is Some { opts.pad_horiz->0 } else { d.pad_horiz },
        pad_vert: if opts.pad_vert is Some { opts.pad_vert->0 } else { d.pad_vert },
        offset_x: if opts.offset_x is Some { opts.offset_x->0 } else { d.offset_x },
        offset_y: if opts.offset_y is Some { opts.offset_y->0 } else { d.offset_y },
    }
}

/// Fills the unset fields of `opts` with the default shadow parameters.
pub fn apply_shadow_options(opts: ShadowOptions) -> (c: ShadowConfig)
    ensures
        c == resolved_shadow_spec(opts),
{
    let d = ShadowConfig {
        background: None,
        shadow_color: Rgba { r: 0, g: 0, b: 0, a: 180 },
        blur_radius: 10,
        pad_horiz: 20,
        pad_vert: 20,
        offset_x: 0,
        offset_y: 0,
    };
    let Wrapper(c) = Wrapper(d)
        .apply(opts.blur_radius, |s: ShadowConfig, v: u32| -> (t: ShadowConfig)
            ensures
                t == (ShadowConfig { blur_radius: v, ..s }),
            { ShadowConfig { blur_radius: v, ..s } })
        .apply(opts.pad_horiz, |s: ShadowConfig, v: u32| -> (t: ShadowConfig)
            ensures
                t == (ShadowConfig { pad_horiz: v, ..s }),
            { ShadowConfig { pad_horiz: v, ..s } })
        .apply(opts.pad_vert, |s: ShadowConfig, v: u32| -> (t: ShadowConfig)
            ensures
                t == (ShadowConfig { pad_vert: v, ..s }),
            { ShadowConfig { pad_vert: v, ..s } })
        .apply(opts.offset_x, |s: ShadowConfig, v: i32| -> (t: ShadowConfig)
            ensures
                t == (ShadowConfig { offset_x: v, ..s }),
            { ShadowConfig { offset_x: v, ..s } })
        .apply(opts.offset_y, |s: ShadowConfig, v: i32| -> (t: ShadowConfig)
            ensures
                t == (ShadowConfig { offset_y: v, ..s }),
            { ShadowConfig { offset_y: v, ..s } })
        .apply(opts.shadow_color, |s: ShadowConfig, v: Rgba| -> (t: ShadowConfig)
            ensures
                t == (ShadowConfig { shadow_color: v, ..s }),
            { ShadowConfig { shadow_color: v, ..s } })
        .apply(opts.background, |s: ShadowConfig, v: Background| -> (t: ShadowConfig)
            ensures
                t == (ShadowConfig { background: Some(v), ..s }),
            { ShadowConfig { background: Some(v), ..s } });
    c
}

/// Fills the unset fields of `opts` with the defaults of
/// `RenderConfig::default` and resolves the nested shadow options.
pub fn apply_image_options(opts: ImageOptions) -> (c: RenderConfig)
    ensures
        c.line_pad == (if opts.line_pad is Some { opts.line_pad->0 } else { 2u32 }),
        c.line_number == (if opts.line_number is Some { opts.line_number->0 } else { false }),
        c.font@ == (if opts.font is Some { opts.font->0@ } else { Seq::<(String, u32)>::empty() }),
        c.highlight_lines@ == (if opts.highlight_lines is Some {
            opts.highlight_lines->0@
        } else {
            Seq::<u32>::empty()
        }),
        c.window_controls == (if opts.window_controls is Some {
            opts.window_controls->0
        } else {
            false
        }),
        c.window_title == opts.window_title,
        c.round_corner == (if opts.round_corner is Some { opts.round_corner->0 } else { false }),
        c.tab_width == (if opts.tab_width is Some { opts.tab_width->0 } else { 4u8 }),
        c.line_offset == (if opts.line_offset is Some { opts.line_offset->0 } else { 1u32 }),
        c.shadow == (if opts.shadow_adder is Some {
            Some(resolved_shadow_spec(opts.shadow_adder->0))
        } else {
            None::<ShadowConfig>
        }),
{
    let Wrapper(c) = Wrapper(RenderConfig::default())
        .apply(opts.line_pad, |s: RenderConfig, v: u32| -> (t: RenderConfig)
            ensures
                t == (RenderConfig { line_pad: v, ..s }),
            { RenderConfig { line_pad: v, ..s } })
        .apply(opts.line_number, |s: RenderConfig, v: bool| -> (t: RenderConfig)
            ensures
                t == (RenderConfig { line_number: v, ..s }),
            { RenderConfig { line_number: v, ..s } })
        .apply(opts.font, |s: RenderConfig, v: Vec<(String, u32)>| -> (t: RenderConfig)
            ensures
                t == (RenderConfig { font: v, ..s }),
            { RenderConfig { font: v, ..s } })
        .apply(opts.highlight_lines, |s: RenderConfig, v: Vec<u32>| -> (t: RenderConfig)
            ensures
                t == (RenderConfig { highlight_lines: v, ..s }),
            { RenderConfig { highlight_lines: v, ..s } })
        .apply(opts.window_controls, |s: RenderConfig, v: bool| -> (t: RenderConfig)
            ensures
                t == (RenderConfig { window_controls: v, ..s }),
            { RenderConfig { window_controls: v, ..s } })
        .flat_apply(opts.window_title, |s: RenderConfig, v: Option<String>| -> (t: RenderConfig)
            ensures
                t == (RenderConfig { window_title: v, ..s }),
            { RenderConfig { window_title: v, ..s } })
        .apply(opts.round_corner, |s: RenderConfig, v: bool| -> (t: RenderConfig)
            ensures
                t == (RenderConfig { round_corner: v, ..s }),
            { RenderConfig { round_corner: v, ..s } })
        .apply(opts.tab_width, |s: RenderConfig, v: u8| -> (t: RenderConfig)
            ensures
                t == (RenderConfig { tab_width: v, ..s }),
            { RenderConfig { tab_width: v, ..s } })
        .apply(opts.line_offset, |s: RenderConfig, v: u32| -> (t: RenderConfig)
            ensures
                t == (RenderConfig { line_offset: v, ..s }),
            { RenderConfig { line_offset: v, ..s } })
        .apply(opts.shadow_adder, |s: RenderConfig, v: ShadowOptions| -> (t: RenderConfig)
            ensures
                t == (RenderConfig { shadow: Some(resolved_shadow_spec(v)), ..s }),
            {
                let sh = apply_shadow_options(v);
                RenderConfig { shadow: Some(sh), ..s }
            });
    c
}

} // verus!
