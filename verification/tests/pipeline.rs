use codeshot::highlight::Assets;
use codeshot::options::ImageOptions;
use codeshot::render::{format_png, format_rgba8, FormatOptions, ThemeSpec};

fn default_request() -> FormatOptions {
    FormatOptions {
        lang: "rust".to_string(),
        theme: ThemeSpec::Name("base16-ocean.dark".to_string()),
        image_options: None,
    }
}

fn options_with(f: impl FnOnce(&mut ImageOptions)) -> FormatOptions {
    let mut o = ImageOptions::empty();
    f(&mut o);
    FormatOptions {
        lang: "rust".to_string(),
        theme: ThemeSpec::Name("base16-ocean.dark".to_string()),
        image_options: Some(o),
    }
}

#[test]
fn scenario_default_options_dimensions() {
    let assets = Assets::new();
    let canvas = codeshot::render::format("fn main() {}", default_request(), &assets).unwrap();
    // 12 glyph columns at 13 px each, no gutter, margins of 20 on each side.
    assert_eq!(canvas.width, 12 * 13 + 40);
    // One line of 26 + 2 px, margins of 20 above and below, no chrome strip.
    assert_eq!(canvas.height, 28 + 40);
    // The bare text footprint is exceeded by the margins in each direction.
    assert!(canvas.width >= 12 * 13 + 40);
    assert!(canvas.height >= 28 + 40);
}

#[test]
fn scenario_line_numbers_strictly_widen() {
    let assets = Assets::new();
    let plain = codeshot::render::format("fn main() {}", default_request(), &assets).unwrap();
    let numbered = codeshot::render::format(
        "fn main() {}",
        options_with(|o| o.line_number = Some(true)),
        &assets,
    )
    .unwrap();
    assert!(numbered.width > plain.width);
    assert_eq!(numbered.height, plain.height);
}

#[test]
fn dimension_monotonicity_window_controls() {
    let assets = Assets::new();
    let plain = codeshot::render::format("fn main() {}", default_request(), &assets).unwrap();
    let chrome = codeshot::render::format(
        "fn main() {}",
        options_with(|o| o.window_controls = Some(true)),
        &assets,
    )
    .unwrap();
    assert!(chrome.width >= plain.width);
    assert!(chrome.height > plain.height);
}

#[test]
fn determinism_same_input_same_bytes() {
    let assets = Assets::new();
    let a = format_rgba8("fn main() {}\nlet x = 1;\n", default_request(), &assets).unwrap();
    let b = format_rgba8("fn main() {}\nlet x = 1;\n", default_request(), &assets).unwrap();
    assert_eq!(a, b);
    let p = format_png("fn main() {}", default_request(), &assets).unwrap();
    let q = format_png("fn main() {}", default_request(), &assets).unwrap();
    assert_eq!(p, q);
}

#[test]
fn raw_buffer_length_is_width_height_four() {
    let assets = Assets::new();
    let canvas = codeshot::render::format("fn main() {}\n", default_request(), &assets).unwrap();
    let raw = format_rgba8("fn main() {}\n", default_request(), &assets).unwrap();
    assert_eq!(raw.len(), canvas.width as usize * canvas.height as usize * 4);
}

#[test]
fn tab_expands_to_next_stop() {
    let assets = Assets::new();
    // "\ta" expands to 4 spaces and one glyph: 5 columns of 13 px plus margins.
    let canvas = codeshot::render::format("\ta", default_request(), &assets).unwrap();
    assert_eq!(canvas.width, 5 * 13 + 40);
    // With tab_width 8 the same input takes 9 columns.
    let wide = codeshot::render::format("\ta", options_with(|o| o.tab_width = Some(8)), &assets).unwrap();
    assert_eq!(wide.width, 9 * 13 + 40);
}

#[test]
fn empty_code_gives_minimal_canvas() {
    let assets = Assets::new();
    let canvas = codeshot::render::format("", default_request(), &assets).unwrap();
    // Zero lines: only the margins remain.
    assert_eq!(canvas.height, 40);
    assert_eq!(canvas.width, 40);
}

#[test]
fn single_blank_line_gives_one_row() {
    let assets = Assets::new();
    let canvas = codeshot::render::format("\n", default_request(), &assets).unwrap();
    assert_eq!(canvas.height, 28 + 40);
}

#[test]
fn round_corner_pixels_are_transparent() {
    let assets = Assets::new();
    let canvas = codeshot::render::format(
        "fn main() { let long_enough = 42; }",
        options_with(|o| o.round_corner = Some(true)),
        &assets,
    )
    .unwrap();
    let w = canvas.width as usize;
    let h = canvas.height as usize;
    let alpha = |x: usize, y: usize| canvas.pixels[y * w + x].a;
    assert_eq!(alpha(0, 0), 0);
    assert_eq!(alpha(w - 1, 0), 0);
    assert_eq!(alpha(0, h - 1), 0);
    assert_eq!(alpha(w - 1, h - 1), 0);
    assert_eq!(alpha(w / 2, h / 2), 255);
}

#[test]
fn square_corner_pixels_are_opaque() {
    let assets = Assets::new();
    let canvas = codeshot::render::format("fn main() {}", default_request(), &assets).unwrap();
    assert_eq!(canvas.pixels[0].a, 255);
}

#[test]
fn no_chrome_drawn_by_default() {
    let assets = Assets::new();
    let plain = codeshot::render::format("fn main() {}", default_request(), &assets).unwrap();
    let chrome = codeshot::render::format(
        "fn main() {}",
        options_with(|o| o.window_controls = Some(true)),
        &assets,
    )
    .unwrap();
    // The first control glyph center is red only when controls are on.
    let red = codeshot::color::Rgba { r: 255, g: 95, b: 86, a: 255 };
    let at = |c: &codeshot::canvas::Canvas, x: u32, y: u32| {
        c.pixels[(y * c.width + x) as usize]
    };
    assert_eq!(at(&chrome, 20, 20), red);
    assert_ne!(at(&plain, 20, 20), red);
}

#[test]
fn gutter_digits_are_drawn() {
    let assets = Assets::new();
    let plain = codeshot::render::format("fn main() {}", default_request(), &assets).unwrap();
    let numbered = codeshot::render::format(
        "fn main() {}",
        options_with(|o| o.line_number = Some(true)),
        &assets,
    )
    .unwrap();
    // The digit "1" occupies the single gutter cell: left margin 20 wide,
    // one 13 px column, rows from 20. Its pixels differ from the bare
    // background, which the plain render shows at the same spot.
    let bg = plain.pixels[(30 * plain.width + 25) as usize];
    let digit = numbered.pixels[(30 * numbered.width + 25) as usize];
    assert_ne!(digit, bg);
}

#[test]
fn highlighted_line_changes_pixels() {
    let assets = Assets::new();
    let plain = codeshot::render::format("fn main() {}\nlet x = 1;\n", default_request(), &assets).unwrap();
    let marked = codeshot::render::format(
        "fn main() {}\nlet x = 1;\n",
        options_with(|o| o.highlight_lines = Some(vec![2])),
        &assets,
    )
    .unwrap();
    assert_eq!(plain.width, marked.width);
    assert_eq!(plain.height, marked.height);
    assert_ne!(plain.pixels, marked.pixels);
}
