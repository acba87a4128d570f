use codeshot::color::{blend, Rgba};
use codeshot::layout::layout;
use codeshot::options::{
    apply_image_options, apply_shadow_options, ImageOptions, RenderConfig, ShadowOptions, Wrapper,
};

#[test]
fn wrapper_apply_uses_present_values_only() {
    let Wrapper(a) = Wrapper(5u32).apply(Some(3u32), |x, y| x + y);
    assert_eq!(a, 8);
    let Wrapper(b) = Wrapper(5u32).apply(None::<u32>, |x, y| x + y);
    assert_eq!(b, 5);
}

#[test]
fn wrapper_flat_apply_wraps_present_values() {
    let f = |x: u32, y: Option<u32>| match y {
        Some(v) => x + v,
        None => 1000,
    };
    let Wrapper(a) = Wrapper(5u32).flat_apply(Some(3u32), f);
    assert_eq!(a, 8);
    // The function is never called with None: the value stays untouched.
    let Wrapper(b) = Wrapper(5u32).flat_apply(None::<u32>, f);
    assert_eq!(b, 5);
}

#[test]
fn defaults_resolve_as_documented() {
    let c = apply_image_options(ImageOptions::empty());
    assert_eq!(c.line_pad, 2);
    assert!(!c.line_number);
    assert!(!c.window_controls);
    assert!(!c.round_corner);
    assert_eq!(c.tab_width, 4);
    assert_eq!(c.line_offset, 1);
    assert!(c.shadow.is_none());
    assert!(c.window_title.is_none());
}

#[test]
fn shadow_options_resolve_fieldwise() {
    let s = apply_shadow_options(ShadowOptions {
        background: None,
        shadow_color: None,
        blur_radius: Some(3),
        pad_horiz: None,
        pad_vert: Some(7),
        offset_x: Some(-2),
        offset_y: None,
    });
    assert_eq!(s.blur_radius, 3);
    assert_eq!(s.pad_horiz, 20);
    assert_eq!(s.pad_vert, 7);
    assert_eq!(s.offset_x, -2);
    assert_eq!(s.offset_y, 0);
}

#[test]
fn layout_computes_exact_dimensions() {
    let cfg = RenderConfig::default();
    let plan = layout(&cfg, 1, 12).unwrap();
    assert_eq!(plan.glyph_w, 13);
    assert_eq!(plan.line_h, 28);
    assert_eq!(plan.gutter_w, 0);
    assert_eq!(plan.chrome_h, 0);
    assert_eq!(plan.width, 12 * 13 + 40);
    assert_eq!(plan.height, 28 + 40);
    assert_eq!(plan.text_x, 20);
    assert_eq!(plan.text_y, 20);
}

#[test]
fn layout_gutter_grows_with_line_count() {
    let mut cfg = RenderConfig::default();
    cfg.line_number = true;
    // 9 lines starting at 1: one digit in the gutter.
    let one_digit = layout(&cfg, 9, 10).unwrap();
    assert_eq!(one_digit.gutter_w, 13 + 8);
    // 100 lines starting at 1: three digits.
    let three_digits = layout(&cfg, 100, 10).unwrap();
    assert_eq!(three_digits.gutter_w, 3 * 13 + 8);
}

#[test]
fn layout_rejects_oversized_inputs() {
    let cfg = RenderConfig::default();
    assert!(layout(&cfg, 1, 100_000).is_err());
    assert!(layout(&cfg, 100_000, 1).is_err());
}

#[test]
fn blend_opaque_foreground_wins() {
    let f = Rgba { r: 10, g: 20, b: 30, a: 255 };
    let b = Rgba { r: 200, g: 200, b: 200, a: 255 };
    assert_eq!(blend(f, b), f);
}

#[test]
fn blend_transparent_foreground_keeps_background() {
    let f = Rgba { r: 10, g: 20, b: 30, a: 0 };
    let b = Rgba { r: 200, g: 100, b: 50, a: 255 };
    assert_eq!(blend(f, b), b);
}
