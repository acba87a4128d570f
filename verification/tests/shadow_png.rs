use codeshot::highlight::Assets;
use codeshot::options::{Background, ImageOptions, ShadowOptions};
use codeshot::render::{format_png, format_rgba8, FormatOptions, ThemeSpec};
use codeshot::color::Rgba;

fn request(opts: Option<ImageOptions>) -> FormatOptions {
    FormatOptions {
        lang: "rust".to_string(),
        theme: ThemeSpec::Name("base16-ocean.dark".to_string()),
        image_options: opts,
    }
}

fn shadow_opts(ph: u32, pv: u32, ox: i32, oy: i32, blur: u32) -> ImageOptions {
    let mut o = ImageOptions::empty();
    o.shadow_adder = Some(ShadowOptions {
        background: Some(Background::Solid(Rgba { r: 250, g: 250, b: 250, a: 255 })),
        shadow_color: Some(Rgba { r: 0, g: 0, b: 0, a: 200 }),
        blur_radius: Some(blur),
        pad_horiz: Some(ph),
        pad_vert: Some(pv),
        offset_x: Some(ox),
        offset_y: Some(oy),
    });
    o
}

#[test]
fn shadow_expands_canvas_by_padding() {
    let assets = Assets::new();
    let plain = codeshot::render::format("fn main() {}", request(None), &assets).unwrap();
    let shadowed = codeshot::render::format(
        "fn main() {}",
        request(Some(shadow_opts(25, 30, 0, 0, 5))),
        &assets,
    )
    .unwrap();
    assert_eq!(shadowed.width, plain.width + 2 * 25);
    assert_eq!(shadowed.height, plain.height + 2 * 30);
}

#[test]
fn shadow_offsets_expand_further() {
    let assets = Assets::new();
    let plain = codeshot::render::format("fn main() {}", request(None), &assets).unwrap();
    let shadowed = codeshot::render::format(
        "fn main() {}",
        request(Some(shadow_opts(10, 10, 7, -9, 0))),
        &assets,
    )
    .unwrap();
    assert_eq!(shadowed.width, plain.width + 2 * 10 + 7);
    assert_eq!(shadowed.height, plain.height + 2 * 10 + 9);
    assert!(shadowed.width >= plain.width + 2 * 10);
    assert!(shadowed.height >= plain.height + 2 * 10);
}

#[test]
fn shadow_keeps_foreground_pixels() {
    let assets = Assets::new();
    let plain = codeshot::render::format("fn main() {}", request(None), &assets).unwrap();
    let shadowed = codeshot::render::format(
        "fn main() {}",
        request(Some(shadow_opts(12, 12, 3, 4, 6))),
        &assets,
    )
    .unwrap();
    // Offsets are positive, so the foreground sits at the plain padding.
    let (fx, fy) = (12u32, 12u32);
    for y in 0..plain.height {
        for x in 0..plain.width {
            let a = plain.pixels[(y * plain.width + x) as usize];
            let b = shadowed.pixels[((fy + y) * shadowed.width + fx + x) as usize];
            assert_eq!(a, b);
        }
    }
}

#[test]
fn png_decodes_to_raw_rgba() {
    let assets = Assets::new();
    let raw = format_rgba8("fn main() {}\n", request(None), &assets).unwrap();
    let png = format_png("fn main() {}\n", request(None), &assets).unwrap();
    assert_eq!(&png[..8], &[137u8, 80, 78, 71, 13, 10, 26, 10]);
    let decoded = image::load_from_memory(&png).unwrap().to_rgba8();
    assert_eq!(decoded.into_raw(), raw);
}

#[test]
fn png_roundtrip_with_shadow_and_corners() {
    let assets = Assets::new();
    let mut o = shadow_opts(8, 8, 2, 2, 3);
    o.round_corner = Some(true);
    o.line_number = Some(true);
    o.window_controls = Some(true);
    o.window_title = Some("demo".to_string());
    let raw = format_rgba8("fn main() {}\n\tlet x = 1;\n", request(Some(o.clone())), &assets)
        .unwrap();
    let png = format_png("fn main() {}\n\tlet x = 1;\n", request(Some(o)), &assets).unwrap();
    let decoded = image::load_from_memory(&png).unwrap().to_rgba8();
    assert_eq!(decoded.into_raw(), raw);
}

#[test]
fn span_reconstruction_via_dimensions() {
    // A line of 20 characters must lay out to exactly 20 glyph columns:
    // the highlighter's spans cover the line exactly, terminators excluded.
    let assets = Assets::new();
    let line = "let a_name = 12 + 3;";
    assert_eq!(line.len(), 20);
    let canvas = codeshot::render::format(line, request(None), &assets).unwrap();
    assert_eq!(canvas.width, 20 * 13 + 40);
    let with_newline = codeshot::render::format(&format!("{}\n", line), request(None), &assets).unwrap();
    assert_eq!(with_newline.width, canvas.width);
    assert_eq!(with_newline.height, canvas.height);
}
