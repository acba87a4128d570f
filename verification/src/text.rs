//! The text model: styled spans, line splitting, terminator trimming, and
//! tab expansion into fixed-width glyph cells.
use vstd::prelude::*;
use crate::color::Rgba;

verus! {

/// A run of characters drawn with one style.
#[derive(Debug, Clone)]
pub struct StyledSpan {
    pub text: Vec<char>,
    pub fg: Rgba,
    pub bold: bool,
    pub italic: bool,
    pub underline: bool,
}

/// The mathematical model of a span: its characters and style.
pub ghost struct SpanView {
    pub text: Seq<char>,
    pub fg: Rgba,
    pub bold: bool,
    pub italic: bool,
    pub underline: bool,
}

impl View for StyledSpan {
    type V = SpanView;

    open spec fn view(&self) -> SpanView {
        SpanView {
            text: self.text@,
            fg: self.fg,
            bold: self.bold,
            italic: self.italic,
            underline: self.underline,
        }
    }
}

impl DeepView for StyledSpan {
    type V = SpanView;

    open spec fn deep_view(&self) -> SpanView {
        self.view()
    }
}

/// One line of highlighted output: spans in left-to-right reading order.
#[derive(Debug, Clone)]
pub struct HighlightedLine {
    pub spans: Vec<StyledSpan>,
}

impl View for HighlightedLine {
    type V = Seq<SpanView>;

    open spec fn view(&self) -> Seq<SpanView> {
        self.spans.deep_view()
    }
}

impl DeepView for HighlightedLine {
    type V = Seq<SpanView>;

    open spec fn deep_view(&self) -> Seq<SpanView> {
        self.view()
    }
}

/// One glyph cell after tab expansion: the character (as a Unicode code
/// point) and its color.
#[derive(Clone, Copy, Debug, PartialEq, Eq, Structural)]
pub struct Cell {
    pub ch: u32,
    pub fg: Rgba,
}

/// The characters of a span sequence, concatenated in order.
pub open spec fn spans_chars(spans: Seq<SpanView>) -> Seq<char>
    decreases spans.len(),
{
    if spans.len() == 0 {
        Seq::<char>::empty()
    } else {
        spans_chars(spans.drop_last()) + spans.last().text
    }
}

/// One step of line splitting: append `c` to the open line, closing it when
/// `c` is a newline. State: (open line, closed lines).
pub open spec fn split_step(st: (Seq<char>, Seq<Seq<char>>), c: char) -> (Seq<char>, Seq<
    Seq<char>,
>) {
    if c == '\n' {
        (Seq::<char>::empty(), st.1.push(st.0.push('\n')))
    } else {
        (st.0.push(c), st.1)
    }
}

/// The split state after reading `s`: the open line and the closed lines.
pub open spec fn split_fold(s: Seq<char>) -> (Seq<char>, Seq<Seq<char>>) {
    s.fold_left(
        (Seq::<char>::empty(), Seq::<Seq<char>>::empty()),
        |st, c| split_step(st, c),
    )
}

/// The lines of `s`, each keeping its trailing newline; a final line
/// without one is kept too. The empty text has no lines.
pub open spec fn split_lines_spec(s: Seq<char>) -> Seq<Seq<char>> {
    let st = split_fold(s);
    if st.0.len() > 0 {
        st.1.push(st.0)
    } else {
        st.1
    }
}

/// `line` without its terminator: a trailing "\r\n" or "\n" is removed.
pub open spec fn strip_ending(line: Seq<char>) -> Seq<char> {
    if line.len() >= 2 && line[line.len() - 2] == '\r' && line[line.len() - 1] == '\n' {
        line.take(line.len() - 2)
    } else if line.len() >= 1 && line[line.len() - 1] == '\n' {
        line.take(line.len() - 1)
    } else {
        line
    }
}

/// Splits `code` into its lines, terminators kept, as `split_lines_spec`
/// says.
pub fn split_lines(code: &Vec<char>) -> (r: Vec<Vec<char>>)
    ensures
        r.deep_view() == split_lines_spec(code@),
{
    let mut cur: Vec<char> = Vec::new();
    let mut lines: Vec<Vec<char>> = Vec::new();
    let mut i: usize = 0;
    while i < code.len()
        invariant
            i <= code.len(),
            (cur@, lines.deep_view()) == split_fold(code@.take(i as int)),
        decreases code.len() - i,
    {
        let c = code[i];
        let ghost pre_cur = cur@;
        let ghost pre_lines = lines.deep_view();
        proof {
            assert(code@.take(i + 1).drop_last() =~= code@.take(i as int));
            assert(code@.take(i + 1).last() == c);
            assert(split_fold(code@.take(i + 1)) == split_step(
                split_fold(code@.take(i as int)),
                c,
            ));
        }
        if c == '\n' {
            cur.push('\n');
            lines.push(cur);
            cur = Vec::new();
            proof {
                assert(cur@ =~= Seq::<char>::empty());
                assert(lines.deep_view() =~~= pre_lines.push(pre_cur.push('\n')));
            }
        } else {
            cur.push(c);
            proof {
                assert(lines.deep_view() =~~= pre_lines);
            }
        }
        i += 1;
    }
    proof {
        assert(code@.take(code@.len() as int) =~= code@);
    }
    let ghost end_cur = cur@;
    let ghost end_lines = lines.deep_view();
    if cur.len() > 0 {
        lines.push(cur);
        proof {
            assert(lines.deep_view() =~~= end_lines.push(end_cur));
        }
    }
    lines
}

/// Drops the last `k` characters from the back of a span sequence,
/// discarding spans that empty out.
pub open spec fn drop_back_spec(spans: Seq<SpanView>, k: nat) -> Seq<SpanView>
    decreases spans.len(),
{
    if k == 0 || spans.len() == 0 {
        spans
    } else if spans.last().text.len() <= k {
        drop_back_spec(spans.drop_last(), (k - spans.last().text.len()) as nat)
    } else {
        spans.drop_last().push(
            SpanView { text: spans.last().text.take(spans.last().text.len() - k), ..spans.last() },
        )
    }
}

/// Removes the last `k` characters of the spans of a line, dropping spans
/// that empty out.
pub fn drop_back(spans: &mut Vec<StyledSpan>, count: usize)
    ensures
        final(spans).deep_view() == drop_back_spec(old(spans).deep_view(), count as nat),
{
    let mut k: usize = count;
    while k > 0 && spans.len() > 0
        invariant
            drop_back_spec(spans.deep_view(), k as nat) == drop_back_spec(
                old(spans).deep_view(),
                count as nat,
            ),
        decreases spans.len(), k,
    {
        let ghost pre = spans.deep_view();
        let ghost pre_k = k as nat;
        let mut s = spans.pop().unwrap();
        let tlen = s.text.len();
        proof {
            assert(pre.drop_last() =~= spans.deep_view());
            assert(pre.last() == s@);
        }
        if tlen <= k {
            k = k - tlen;
        } else {
            let keep = tlen - k;
            s.text.truncate(keep);
            k = 0;
            spans.push(s);
            proof {
                assert(s@.text =~= pre.last().text.take(pre.last().text.len() - pre_k));
                assert(s@ == (SpanView {
                    text: pre.last().text.take(pre.last().text.len() - pre_k),
                    ..pre.last()
                }));
                assert(spans.deep_view() =~= pre.drop_last().push(s@));
                assert(drop_back_spec(pre, pre_k) == spans.deep_view());
            }
        }
    }
}

/// The cells of one span: its characters, each carrying the span's color.
pub open spec fn span_cells(s: SpanView) -> Seq<Cell>
    decreases s.text.len(),
{
    if s.text.len() == 0 {
        Seq::<Cell>::empty()
    } else {
        span_cells(SpanView { text: s.text.drop_last(), ..s }).push(
            Cell { ch: s.text.last() as u32, fg: s.fg },
        )
    }
}

/// `span_cells` pairs each character of the span with the span's color.
pub proof fn lemma_span_cells(s: SpanView)
    ensures
        span_cells(s).len() == s.text.len(),
        forall|i: int|
            0 <= i < s.text.len() ==> #[trigger] span_cells(s)[i] == (Cell {
                ch: s.text[i] as u32,
                fg: s.fg,
            }),
    decreases s.text.len(),
{
    if s.text.len() > 0 {
        lemma_span_cells(SpanView { text: s.text.drop_last(), ..s });
    }
}

/// The cells of a whole line of spans, concatenated in order.
pub open spec fn line_cells(spans: Seq<SpanView>) -> Seq<Cell>
    decreases spans.len(),
{
    if spans.len() == 0 {
        Seq::<Cell>::empty()
    } else {
        line_cells(spans.drop_last()) + span_cells(spans.last())
    }
}

/// One step of tab expansion. The pen column equals the output length, so
/// a tab appends spaces up to the next multiple of `tab`; every other
/// character appends itself.
pub open spec fn expand_step(out: Seq<Cell>, c: Cell, tab: nat) -> Seq<Cell> {
    let fgc = c.fg;
    if c.ch == 9 {
        out + Seq::new((tab - (out.len() % tab)) as nat, |i: int| Cell { ch: 32u32, fg: fgc })
    } else {
        out.push(c)
    }
}

/// The glyph columns of a line after tab expansion with stop width `tab`.
pub open spec fn expand_spec(cells: Seq<Cell>, tab: nat) -> Seq<Cell> {
    cells.fold_left(Seq::<Cell>::empty(), |out, c| expand_step(out, c, tab))
}

/// Expands the tabs of one line of spans into glyph cells, exactly as
/// `expand_spec` of `line_cells` says. A tab stop of zero is treated as
/// one.
pub fn expand_line(line: &HighlightedLine, tab_width: u8) -> (r: Vec<Cell>)
    ensures
        r@ == expand_spec(line_cells(line@), if tab_width == 0 { 1nat } else { tab_width as nat }),
{
    let tab: usize = if tab_width == 0 {
        1
    } else {
        tab_width as usize
    };
    let ghost tabn = tab as nat;
    let mut out: Vec<Cell> = Vec::new();
    let mut si: usize = 0;
    while si < line.spans.len()
        invariant
            si <= line.spans@.len(),
            1 <= tab,
            tabn == tab as nat,
            out@ == expand_spec(line_cells(line@.take(si as int)), tabn),
        decreases line.spans@.len() - si,
    {
        let span = &line.spans[si];
        let fg = span.fg;
        let mut ci: usize = 0;
        while ci < span.text.len()
            invariant
                si < line.spans@.len(),
                ci <= span.text@.len(),
                1 <= tab,
                tabn == tab as nat,
                span == line.spans@[si as int],
                fg == span.fg,
                out@ == expand_spec(
                    line_cells(line@.take(si as int)) + span_cells(span@).take(ci as int),
                    tabn,
                ),
            decreases span.text@.len() - ci,
        {
            let ghost processed = line_cells(line@.take(si as int)) + span_cells(span@).take(
                ci as int,
            );
            let c = span.text[ci];
            let cu: u32 = c as u32;
            let cell = Cell { ch: cu, fg };
            proof {
                lemma_span_cells(span@);
                assert(span_cells(span@).take(ci + 1).drop_last() =~= span_cells(span@).take(
                    ci as int,
                ));
                assert(span_cells(span@)[ci as int] == cell);
                let pr1 = line_cells(line@.take(si as int)) + span_cells(span@).take(ci + 1);
                assert(pr1.drop_last() =~= processed);
                assert(pr1.last() == cell);
                assert(expand_spec(pr1, tabn) == expand_step(expand_spec(processed, tabn), cell, tabn));
            }
            if cu == 9 {
                let pad: usize = tab - (out.len() % tab);
                let mut j: usize = 0;
                let ghost before = out@;
                while j < pad
                    invariant
                        j <= pad,
                        pad as int == tab as int - (before.len() as int % (tab as int)),
                        1 <= tab,
                        tabn == tab as nat,
                        fg == cell.fg,
                        cell.ch == 9,
                        out@ == before + Seq::new(j as nat, |i: int| Cell { ch: 32u32, fg }),
                    decreases pad - j,
                {
                    out.push(Cell { ch: 32, fg });
                    proof {
                        assert(out@ =~= before + Seq::new((j + 1) as nat, |i: int| Cell { ch: 32u32, fg }));
                    }
                    j += 1;
                }
                proof {
                    assert(pad as nat == (tabn - (before.len() % tabn)) as nat);
                    assert(out@ =~= expand_step(before, cell, tabn));
                }
            } else {
                out.push(cell);
            }
            ci += 1;
        }
        proof {
            lemma_span_cells(span@);
            assert(span_cells(span@).take(span.text@.len() as int) =~= span_cells(span@));
            assert(line@.take(si + 1).drop_last() =~= line@.take(si as int));
            assert(line@.take(si + 1).last() == span@);
            assert(line_cells(line@.take(si + 1)) =~= line_cells(line@.take(si as int))
                + span_cells(span@));
        }
        si += 1;
    }
    proof {
        assert(line@.take(line@.len() as int) =~= line@);
    }
    out
}

} // verus!
