use codeshot::canvas::{encode_raw, Canvas};
use codeshot::color::Rgba;
use codeshot::highlight::{parse_theme, Assets};
use codeshot::options::ImageOptions;
use codeshot::render::{FormatOptions, ThemeSpec};
use codeshot::Error;

#[test]
fn unknown_language_is_reported() {
    let assets = Assets::new();
    let r = codeshot::render::format(
        "fn main() {}",
        FormatOptions {
            lang: "not-a-real-lang".to_string(),
            theme: ThemeSpec::Name("base16-ocean.dark".to_string()),
            image_options: None,
        },
        &assets,
    );
    assert!(matches!(r, Err(Error::UnknownLanguage)));
}

#[test]
fn unknown_theme_is_reported() {
    let assets = Assets::new();
    let r = codeshot::render::format(
        "fn main() {}",
        FormatOptions {
            lang: "rust".to_string(),
            theme: ThemeSpec::Name("not-a-real-theme".to_string()),
            image_options: None,
        },
        &assets,
    );
    assert!(matches!(r, Err(Error::UnknownTheme)));
}

#[test]
fn malformed_theme_bytes_are_reported() {
    let data = vec![0u8, 1, 2, 3, 4, 5];
    let r = parse_theme(&data);
    assert!(matches!(r, Err(Error::ThemeParse(_))));
}

#[test]
fn parsed_theme_handle_renders() {
    // A minimal plist theme with only default colors.
    let mut text = String::new();
    text.push_str("<?xml version=\"1.0\" encoding=\"UTF-8\"?>\n");
    text.push_str("<plist version=\"1.0\"><dict>");
    text.push_str("<key>name</key><string>Tiny</string>");
    text.push_str("<key>settings</key><array><dict><key>settings</key><dict>");
    text.push_str("<key>background</key><string>#102030</string>");
    text.push_str("<key>foreground</key><string>#aabbcc</string>");
    text.push_str("</dict></dict></array>");
    text.push_str("</dict></plist>\n");
    let handle = parse_theme(&text.as_bytes().to_vec()).unwrap();
    let assets = Assets::new();
    let r = codeshot::render::format(
        "fn main() {}",
        FormatOptions {
            lang: "rust".to_string(),
            theme: ThemeSpec::Handle(handle),
            image_options: None,
        },
        &assets,
    );
    let canvas = r.unwrap();
    // The canvas background is the theme's background color.
    assert_eq!(canvas.pixels[0], Rgba { r: 0x10, g: 0x20, b: 0x30, a: 255 });
}

#[test]
fn oversized_font_is_invalid_config() {
    let assets = Assets::new();
    let mut o = ImageOptions::empty();
    o.font = Some(vec![("Hack".to_string(), 1_000_000)]);
    let r = codeshot::render::format(
        "fn main() {}",
        FormatOptions {
            lang: "rust".to_string(),
            theme: ThemeSpec::Name("base16-ocean.dark".to_string()),
            image_options: Some(o),
        },
        &assets,
    );
    assert!(matches!(r, Err(Error::InvalidConfig)));
}

#[test]
fn malformed_canvas_is_non_rgba() {
    let c = Canvas { width: 4, height: 4, pixels: vec![Rgba { r: 0, g: 0, b: 0, a: 0 }; 3] };
    let r = encode_raw(&c);
    assert!(matches!(r, Err(Error::NonRgbaBuffer)));
}

#[test]
fn error_messages_are_nonempty() {
    assert!(!Error::UnknownLanguage.message().is_empty());
    assert!(!Error::UnknownTheme.message().is_empty());
    assert!(!Error::InvalidConfig.message().is_empty());
    assert!(!Error::NonRgbaBuffer.message().is_empty());
}
