//! Renders a block of source code into a raster image: syntax-highlighted
//! text inside an optional window frame (title bar, control glyphs, rounded
//! corners, line numbers), optionally composited over a blurred drop shadow,
//! and encoded as PNG bytes or as a raw RGBA8 buffer.
//!
//! The pipeline is `highlight` -> `layout` -> `draw` -> `composite` ->
//! `encode_png` / `encode_raw`; each stage is a pure function of its inputs.
//! Syntax tokenization and the theme catalog come from the `syntect` crate;
//! PNG serialization comes from the `image` crate.
//!
//! The glyph backend is a fixed block model: text is laid out on a
//! monospace grid of half-font-size cells and every visible character is
//! drawn as a filled cell, so rendered images show colored blocks rather
//! than letterforms. A font rasterizer can replace the model behind the
//! same layout and contracts.
use vstd::prelude::*;

pub mod color;
pub mod options;
pub mod text;
pub mod layout;
pub mod canvas;
pub mod raster;
pub mod shadow;
pub mod highlight;
pub mod render;

verus! {

/// Everything that can go wrong in one render call; every failure is a
/// deterministic function of the inputs, never retried internally.
#[derive(Debug, Clone)]
pub enum Error {
    /// The grammar catalog has no entry for the requested language token.
    UnknownLanguage,
    /// The theme catalog has no entry for the requested theme name.
    UnknownTheme,
    /// Theme bytes handed to `parse_theme` were malformed.
    ThemeParse(String),
    /// The tokenizer failed on a line of input.
    Highlight(String),
    /// Layout parameters produce a canvas outside the supported range.
    InvalidConfig,
    /// The PNG serializer reported a failure.
    EncodingFailure(String),
    /// A canvas that cannot be represented as 8-bit RGBA was handed to the
    /// encoder; guarded defensively, the pipeline never produces one.
    NonRgbaBuffer,
}

impl Error {
    /// A short human-readable description of the failure.
    pub fn message(&self) -> (m: String)
        ensures
            m@.len() > 0,
    {
        let m = match self {
            Error::UnknownLanguage => "Unknown lang",
            Error::UnknownTheme => "Unknown theme",
            Error::ThemeParse(_) => "Malformed theme",
            Error::Highlight(_) => "Highlighting failed",
            Error::InvalidConfig => "Invalid configuration",
            Error::EncodingFailure(_) => "Encoding failed",
            Error::NonRgbaBuffer => "Underlying buffer is not rgba",
        };
        proof {
            reveal_strlit("Unknown lang");
            reveal_strlit("Unknown theme");
            reveal_strlit("Malformed theme");
            reveal_strlit("Highlighting failed");
            reveal_strlit("Invalid configuration");
            reveal_strlit("Encoding failed");
            reveal_strlit("Underlying buffer is not rgba");
        }
        m.to_owned()
    }
}

} // verus!
