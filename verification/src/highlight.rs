//! The highlighter: hands the code to the `syntect` tokenizer and trims
//! the line terminators off its styled tokens. The grammar and theme
//! catalogs are `syntect`'s; each call into them stands behind a trusted
//! wrapper whose contract states what the crate's source shows, over
//! named results where the outcome is a function of the arguments alone.
use vstd::prelude::*;
use crate::color::Rgba;
use crate::text::{
    StyledSpan, HighlightedLine, SpanView, spans_chars, split_lines, split_lines_spec,
    strip_ending, drop_back, drop_back_spec,
};
use crate::Error;
use std::io::Cursor;
use syntect::easy::HighlightLines;
use syntect::highlighting::{FontStyle, Theme, ThemeSet};
use syntect::parsing::{SyntaxReference, SyntaxSet};
use syntect::util::LinesWithEndings;

verus! {

#[verifier::external_type_specification]
#[verifier::external_body]
pub struct ExSyntaxSet(SyntaxSet);

#[verifier::external_type_specification]
#[verifier::external_body]
pub struct ExSyntaxReference(SyntaxReference);

#[verifier::external_type_specification]
#[verifier::external_body]
pub struct ExTheme(Theme);

#[verifier::external_type_specification]
#[verifier::external_body]
pub struct ExThemeSet(ThemeSet);

/// Whether the grammar catalog has an entry for this language token.
pub uninterp spec fn catalog_has_lang(ss: SyntaxSet, token: Seq<char>) -> bool;

/// The grammar the catalog holds for this language token (meaningful when
/// `catalog_has_lang` holds).
pub uninterp spec fn catalog_syntax(ss: SyntaxSet, token: Seq<char>) -> SyntaxReference;

/// Whether the theme catalog has an entry for this theme name.
pub uninterp spec fn catalog_has_theme(ts: ThemeSet, name: Seq<char>) -> bool;

/// The theme the catalog holds under this name (meaningful when
/// `catalog_has_theme` holds).
pub uninterp spec fn catalog_theme(ts: ThemeSet, name: Seq<char>) -> Theme;

/// Whether these bytes parse as a theme document.
pub uninterp spec fn theme_parses(data: Seq<u8>) -> bool;

/// The default background color a theme names, if any.
pub uninterp spec fn bg_color_of(t: Theme) -> Option<Rgba>;

/// The default foreground color a theme names, if any.
pub uninterp spec fn fg_color_of(t: Theme) -> Option<Rgba>;

/// Whether tokenizing this code succeeds with this catalog, grammar and
/// theme.
pub uninterp spec fn hl_ok(ss: SyntaxSet, syn: SyntaxReference, th: Theme, code: Seq<char>) -> bool;

/// The styled lines the tokenizer yields for this catalog, grammar, theme
/// and code: one span sequence per line, tokens still carrying the line
/// terminators.
pub uninterp spec fn hl_spans(ss: SyntaxSet, syn: SyntaxReference, th: Theme, code: Seq<char>) -> Seq<Seq<SpanView>>;

/// Relies on str::chars and Iterator::collect: the characters of the
/// string, in order.
#[verifier::external_body]
pub fn chars_vec(s: &str) -> (r: Vec<char>)
    ensures
        r@ == s@,
{
    s.chars().collect()
}

/// Relies on syntect::parsing::SyntaxSet::load_defaults_newlines: the
/// bundled grammar catalog.
#[verifier::external_body]
fn load_default_syntaxes() -> SyntaxSet {
    SyntaxSet::load_defaults_newlines()
}

/// Relies on syntect::highlighting::ThemeSet::load_defaults: the bundled
/// theme catalog.
#[verifier::external_body]
fn load_default_themes() -> ThemeSet {
    ThemeSet::load_defaults()
}

/// Relies on syntect::parsing::SyntaxSet::find_syntax_by_token: a pure
/// lookup, `Some` exactly when the catalog knows the token.
#[verifier::external_body]
pub(crate) fn find_syntax<'a>(ss: &'a SyntaxSet, token: &str) -> (r: Option<&'a SyntaxReference>)
    ensures
        r is Some <==> catalog_has_lang(*ss, token@),
        r matches Some(s) ==> *s == catalog_syntax(*ss, token@),
{
    ss.find_syntax_by_token(token)
}

/// Relies on the `themes` map of syntect::highlighting::ThemeSet: a pure
/// lookup, `Some` exactly when the catalog holds the name.
#[verifier::external_body]
pub(crate) fn find_theme<'a>(ts: &'a ThemeSet, name: &str) -> (r: Option<&'a Theme>)
    ensures
        r is Some <==> catalog_has_theme(*ts, name@),
        r matches Some(t) ==> *t == catalog_theme(*ts, name@),
{
    ts.themes.get(name)
}

/// Relies on syntect::highlighting::ThemeSet::load_from_reader: parses one
/// theme from its byte serialization; the outcome is a function of the
/// byte value alone (an in-memory cursor, no file, clock or network).
#[verifier::external_body]
fn theme_from_bytes(data: &Vec<u8>) -> (r: Result<Theme, String>)
    ensures
        r is Ok <==> theme_parses(data@),
{
    ThemeSet::load_from_reader(&mut Cursor::new(data.as_slice())).map_err(|e| e.to_string())
}

/// Relies on the `settings` of syntect::highlighting::Theme: its default
/// background color, when the theme names one; a pure field read.
#[verifier::external_body]
fn theme_background(t: &Theme) -> (r: Option<Rgba>)
    ensures
        r == bg_color_of(*t),
{
    t.settings.background.map(|c| Rgba { r: c.r, g: c.g, b: c.b, a: c.a })
}

/// Relies on the `settings` of syntect::highlighting::Theme: its default
/// foreground color, when the theme names one; a pure field read.
#[verifier::external_body]
fn theme_foreground(t: &Theme) -> (r: Option<Rgba>)
    ensures
        r == fg_color_of(*t),
{
    t.settings.foreground.map(|c| Rgba { r: c.r, g: c.g, b: c.b, a: c.a })
}

/// Relies on syntect::easy::HighlightLines::highlight_line driven over
/// syntect::util::LinesWithEndings, exactly as syntect is meant to be
/// used: one tokenizer state built from the grammar and theme, threaded
/// through the lines in order. Each line's token strings are consecutive
/// slices of that line — their concatenation is the line — and the
/// outcome is a function of the four arguments alone.
#[verifier::external_body]
fn tokenize(ss: &SyntaxSet, syntax: &SyntaxReference, theme: &Theme, code: &str) -> (r: Result<
    Vec<HighlightedLine>,
    String,
>)
    ensures
        r is Ok <==> hl_ok(*ss, *syntax, *theme, code@),
        r matches Ok(lines) ==> {
            &&& lines.deep_view() == hl_spans(*ss, *syntax, *theme, code@)
            &&& lines.deep_view().len() == split_lines_spec(code@).len()
            &&& forall|i: int|
                0 <= i < lines.deep_view().len() ==> spans_chars(
                    #[trigger] lines.deep_view()[i],
                ) == split_lines_spec(code@)[i]
        },
{
    let mut h = HighlightLines::new(syntax, theme);
    let mut out: Vec<HighlightedLine> = Vec::new();
    for line in LinesWithEndings::from(code) {
        let spans = h.highlight_line(line, ss).map_err(|e| e.to_string())?
            .into_iter().map(|(st, tx)| StyledSpan {
            text: tx.chars().collect(),
            fg: Rgba { r: st.foreground.r, g: st.foreground.g, b: st.foreground.b, a: st.foreground.a },
            bold: st.font_style.contains(FontStyle::BOLD),
            italic: st.font_style.contains(FontStyle::ITALIC),
            underline: st.font_style.contains(FontStyle::UNDERLINE),
        }).collect();
        out.push(HighlightedLine { spans });
    }
    Ok(out)
}

/// The read-only grammar and theme catalogs, loaded once and shared by
/// every render call.
pub struct Assets {
    pub syntax_set: SyntaxSet,
    pub theme_set: ThemeSet,
}

impl Assets {
    /// Loads the bundled catalogs.
    pub fn new() -> (a: Assets) {
        Assets { syntax_set: load_default_syntaxes(), theme_set: load_default_themes() }
    }
}

/// An opaque, shareable, immutable parsed theme, created once from theme
/// bytes and reused across renders.
pub struct ThemeHandle {
    pub theme: Theme,
}

/// Parses theme bytes into a reusable handle: `Ok` exactly when the byte
/// value parses as a theme document, else `ThemeParse`. The outcome is a
/// function of the bytes alone.
pub fn parse_theme(data: &Vec<u8>) -> (r: Result<ThemeHandle, Error>)
    ensures
        r is Ok <==> theme_parses(data@),
        r matches Err(e) ==> e is ThemeParse,
{
    match theme_from_bytes(data) {
        Ok(t) => Ok(ThemeHandle { theme: t }),
        Err(m) => Err(Error::ThemeParse(m)),
    }
}

/// The default background of a theme, or opaque white when the theme
/// names none.
pub fn background_of(t: &Theme) -> (c: Rgba)
    ensures
        c == (if bg_color_of(*t) is Some {
            bg_color_of(*t)->0
        } else {
            Rgba { r: 255, g: 255, b: 255, a: 255 }
        }),
{
    match theme_background(t) {
        Some(c) => c,
        None => Rgba { r: 255, g: 255, b: 255, a: 255 },
    }
}

/// The default foreground of a theme, or opaque black when the theme
/// names none.
pub fn foreground_of(t: &Theme) -> (c: Rgba)
    ensures
        c == (if fg_color_of(*t) is Some {
            fg_color_of(*t)->0
        } else {
            Rgba { r: 0, g: 0, b: 0, a: 255 }
        }),
{
    match theme_foreground(t) {
        Some(c) => c,
        None => Rgba { r: 0, g: 0, b: 0, a: 255 },
    }
}

/// Dropping the last `k` characters of a span list shortens its
/// concatenated text by exactly `k`.
proof fn lemma_drop_back_chars(spans: Seq<SpanView>, k: nat)
    requires
        k <= spans_chars(spans).len(),
    ensures
        spans_chars(drop_back_spec(spans, k)) == spans_chars(spans).take(
            spans_chars(spans).len() - k,
        ),
    decreases spans.len(),
{
    let total = spans_chars(spans).len() as int;
    if k == 0 || spans.len() == 0 {
        assert(spans_chars(spans).take(total - k) =~= spans_chars(spans));
    } else if spans.last().text.len() <= k {
        let rest = spans.drop_last();
        lemma_drop_back_chars(rest, (k - spans.last().text.len()) as nat);
        assert(spans_chars(rest).take(total - k) =~= spans_chars(spans).take(total - k));
    } else {
        let rest = spans.drop_last();
        let last = spans.last();
        let trimmed = SpanView { text: last.text.take(last.text.len() - k), ..last };
        let result = rest.push(trimmed);
        assert(result.drop_last() =~= rest);
        assert(result.last() == trimmed);
        assert(spans_chars(result) == spans_chars(rest) + trimmed.text);
        assert(spans_chars(rest) + trimmed.text =~= spans_chars(spans).take(total - k));
    }
}

/// Length of the terminator that `strip_ending` removes from a line.
pub open spec fn ending_len(line: Seq<char>) -> nat {
    (line.len() - strip_ending(line).len()) as nat
}

/// The tokenizer's lines with each line's terminator trimmed off the
/// back: the highlighter's output as a function of the tokenizer's.
pub open spec fn trimmed_lines(raw: Seq<Seq<SpanView>>, lines: Seq<Seq<char>>) -> Seq<
    Seq<SpanView>,
> {
    Seq::new(raw.len(), |i: int| drop_back_spec(raw[i], ending_len(lines[i])))
}

/// Tokenizes `code` into styled lines: one `HighlightedLine` per line of
/// the input, whose spans concatenate to exactly that line's text with
/// the terminator removed. Succeeds exactly when the tokenizer does, and
/// the output is the tokenizer's, trimmed — a function of the catalog,
/// grammar, theme and code alone.
pub fn highlight(code: &str, syntax: &SyntaxReference, theme: &Theme, ss: &SyntaxSet) -> (r: Result<
    Vec<HighlightedLine>,
    Error,
>)
    ensures
        r is Ok <==> hl_ok(*ss, *syntax, *theme, code@),
        r matches Ok(lines) ==> {
            &&& lines.deep_view() == trimmed_lines(
                hl_spans(*ss, *syntax, *theme, code@),
                split_lines_spec(code@),
            )
            &&& lines.deep_view().len() == split_lines_spec(code@).len()
            &&& forall|i: int|
                0 <= i < lines.deep_view().len() ==> spans_chars(#[trigger] lines.deep_view()[i])
                    == strip_ending(split_lines_spec(code@)[i])
        },
        r matches Err(e) ==> e is Highlight,
{
    let mut toks = match tokenize(ss, syntax, theme, code) {
        Ok(t) => t,
        Err(m) => {
            return Err(Error::Highlight(m));
        },
    };
    let code_chars = chars_vec(code);
    let raw_lines = split_lines(&code_chars);
    let ghost lines_spec = split_lines_spec(code@);
    let ghost hl = hl_spans(*ss, *syntax, *theme, code@);
    let mut out: Vec<HighlightedLine> = Vec::new();
    let mut i: usize = 0;
    while i < raw_lines.len()
        invariant
            i <= raw_lines@.len(),
            raw_lines.deep_view() == lines_spec,
            lines_spec == split_lines_spec(code@),
            hl == hl_spans(*ss, *syntax, *theme, code@),
            hl.len() == lines_spec.len(),
            forall|k: int| 0 <= k < hl.len() ==> spans_chars(#[trigger] hl[k]) == lines_spec[k],
            i + toks@.len() == hl.len(),
            toks.deep_view() =~= hl.skip(i as int),
            out.deep_view().len() == i,
            forall|j: int|
                0 <= j < i ==> #[trigger] out.deep_view()[j] == drop_back_spec(
                    hl[j],
                    ending_len(lines_spec[j]),
                ),
        decreases raw_lines@.len() - i,
    {
        let ghost pre_seq = toks@;
        let ghost pre_deep = toks.deep_view();
        let mut item = toks.remove(0);
        proof {
            assert(item == pre_seq[0]);
            assert(pre_deep[0] == pre_seq[0].deep_view());
            assert(pre_deep[0] == hl.skip(i as int)[0]);
            assert(item.deep_view() == hl[i as int]);
            assert forall|k: int| 0 <= k < toks@.len() implies #[trigger] toks.deep_view()[k]
                == hl.skip(i + 1)[k] by {
                assert(toks@[k] == pre_seq.remove(0)[k]);
                assert(pre_seq.remove(0)[k] == pre_seq[k + 1]);
                assert(toks.deep_view()[k] == toks@[k].deep_view());
                assert(pre_deep[k + 1] == pre_seq[k + 1].deep_view());
                assert(pre_deep[k + 1] == hl.skip(i as int)[k + 1]);
            }
            assert(toks.deep_view() =~= hl.skip(i + 1));
        }
        let line = &raw_lines[i];
        let n = line.len();
        let term: usize = if n >= 2 && line[n - 2] == '\r' && line[n - 1] == '\n' {
            2
        } else if n >= 1 && line[n - 1] == '\n' {
            1
        } else {
            0
        };
        proof {
            assert(term as nat == ending_len(lines_spec[i as int]));
            lemma_drop_back_chars(hl[i as int], term as nat);
            assert(spans_chars(hl[i as int]).take(spans_chars(hl[i as int]).len() - term)
                =~= strip_ending(line@));
        }
        drop_back(&mut item.spans, term);
        let ghost before_push = out.deep_view();
        out.push(item);
        proof {
            assert(out.deep_view() =~~= before_push.push(item.deep_view()));
        }
        i += 1;
    }
    proof {
        assert(out.deep_view() =~~= trimmed_lines(hl, lines_spec));
        assert forall|j: int| 0 <= j < out.deep_view().len() implies spans_chars(
            #[trigger] out.deep_view()[j],
        ) == strip_ending(lines_spec[j]) by {
            lemma_drop_back_chars(hl[j], ending_len(lines_spec[j]));
            assert(spans_chars(hl[j]).take(spans_chars(hl[j]).len() - ending_len(lines_spec[j]))
                =~= strip_ending(lines_spec[j]));
        }
    }
    Ok(out)
}

} // verus!
