//! Styled text: what is to be drawn, before anything draws it.

use vstd::prelude::*;

use crate::text::{count_chars, lemma_find_char, lines, lines_of, texts};

verus! {

#[derive(Debug, Clone, Copy, PartialEq, Eq, Structural)]
pub enum Color {
    Reset,
    Black,
    Red,
    Green,
    Yellow,
    Blue,
    Cyan,
    Gray,
    DarkGray,
    White,
}

#[derive(Debug, Clone, Copy, PartialEq, Eq, Structural)]
pub struct Style {
    pub fg: Option<Color>,
    pub bg: Option<Color>,
    pub bold: bool,
    pub dim: bool,
    pub italic: bool,
    pub reversed: bool,
}

/// Text as the terminal shows it by default.
pub open spec fn plain() -> Style {
    Style { fg: None, bg: None, bold: false, dim: false, italic: false, reversed: false }
}

impl Default for Style {
    fn default() -> (r: Style)
        ensures
            r == plain(),
    {
        Style { fg: None, bg: None, bold: false, dim: false, italic: false, reversed: false }
    }
}

impl Style {
    pub open spec fn with_fg(self, c: Color) -> Style {
        Style { fg: Some(c), ..self }
    }

    pub open spec fn with_bg(self, c: Color) -> Style {
        Style { bg: Some(c), ..self }
    }

    pub open spec fn with_bold(self) -> Style {
        Style { bold: true, ..self }
    }

    pub open spec fn with_dim(self) -> Style {
        Style { dim: true, ..self }
    }

    pub open spec fn with_italic(self) -> Style {
        Style { italic: true, ..self }
    }

    pub open spec fn with_reversed(self) -> Style {
        Style { reversed: true, ..self }
    }

    pub fn fg(self, c: Color) -> (r: Style)
        ensures
            r == self.with_fg(c),
    {
        Style { fg: Some(c), ..self }
    }

    pub fn bg(self, c: Color) -> (r: Style)
        ensures
            r == self.with_bg(c),
    {
        Style { bg: Some(c), ..self }
    }

    pub fn bold(self) -> (r: Style)
        ensures
            r == self.with_bold(),
    {
        Style { bold: true, ..self }
    }

    pub fn dim(self) -> (r: Style)
        ensures
            r == self.with_dim(),
    {
        Style { dim: true, ..self }
    }

    pub fn italic(self) -> (r: Style)
        ensures
            r == self.with_italic(),
    {
        Style { italic: true, ..self }
    }

    pub fn reversed(self) -> (r: Style)
        ensures
            r == self.with_reversed(),
    {
        Style { reversed: true, ..self }
    }
}

/// A run of text in one style.
#[derive(Debug)]
pub struct Span<S = String> {
    pub content: S,
    pub style: Style,
}

pub type SpanView = Span<Seq<char>>;

impl View for Span<String> {
    type V = Span<Seq<char>>;

    open spec fn view(&self) -> Span<Seq<char>> {
        Span { content: self.content@, style: self.style }
    }
}

/// A span of `text` in a style.
pub open spec fn span(text: Seq<char>, style: Style) -> Span<Seq<char>> {
    Span { content: text, style }
}

/// A span of unstyled text.
pub open spec fn bare(text: Seq<char>) -> Span<Seq<char>> {
    Span { content: text, style: plain() }
}

pub fn styled(text: &str, style: Style) -> (r: Span)
    ensures
        r@ == span(text@, style),
{
    Span { content: String::from_str(text), style }
}

pub fn raw(text: &str) -> (r: Span)
    ensures
        r@ == bare(text@),
{
    styled(text, Style::default())
}

/// Which side of its column a line keeps to.
#[derive(Debug, Clone, Copy, PartialEq, Eq, Structural)]
pub enum Alignment {
    Left,
    Center,
    Right,
}

/// A line of spans, with a style of its own under theirs.
#[derive(Debug)]
pub struct Line {
    pub spans: Vec<Span>,
    pub style: Style,
    /// As whoever draws it has it, where none is given.
    pub alignment: Option<Alignment>,
}

#[verifier::ext_equal]
pub struct LineView {
    pub spans: Seq<Span<Seq<char>>>,
    pub style: Style,
    pub alignment: Option<Alignment>,
}

/// What a sequence of spans shows.
pub open spec fn spans_view(v: Seq<Span<String>>) -> Seq<Span<Seq<char>>> {
    Seq::new(v.len(), |i: int| v[i]@)
}

impl View for Line {
    type V = LineView;

    open spec fn view(&self) -> LineView {
        LineView { spans: spans_view(self.spans@), style: self.style, alignment: self.alignment }
    }
}

/// What a sequence of lines shows.
pub open spec fn lines_view(v: Seq<Line>) -> Seq<LineView> {
    Seq::new(v.len(), |i: int| v[i]@)
}

/// A line of spans, itself unstyled.
pub open spec fn row(spans: Seq<Span<Seq<char>>>) -> LineView {
    LineView { spans, style: plain(), alignment: None }
}

/// A text as spans: one for each of its lines, so that what is drawn on one
/// row holds no line feed.
pub open spec fn text_spans(text: Seq<char>) -> Seq<Span<Seq<char>>> {
    Seq::new(lines(text).len(), |i: int| bare(lines(text)[i]))
}

/// A line of unstyled text.
pub open spec fn text_line(text: Seq<char>) -> LineView {
    row(text_spans(text))
}

/// An empty line.
pub open spec fn blank_line() -> LineView {
    row(Seq::empty())
}

/// A line of text under a style of the line.
pub open spec fn styled_text(text: Seq<char>, style: Style) -> LineView {
    LineView { spans: text_spans(text), style, alignment: None }
}

/// A text of one line, not empty, is one span.
pub proof fn lemma_one_line(text: Seq<char>)
    requires
        text.len() > 0,
        forall|i: int| 0 <= i < text.len() ==> #[trigger] text[i] != '\n',
    ensures
        text_spans(text) == seq![bare(text)],
{
    lemma_find_char(text, '\n');
    assert(lines(text) =~= seq![text]);
    assert(text_spans(text) =~= seq![bare(text)]);
}

/// The text of a line, its spans strung together.
pub open spec fn line_text(l: LineView) -> Seq<char> {
    spans_text(l.spans)
}

pub open spec fn spans_text(spans: Seq<Span<Seq<char>>>) -> Seq<char>
    decreases spans.len(),
{
    if spans.len() == 0 {
        Seq::empty()
    } else {
        spans_text(spans.drop_last()) + spans.last().content
    }
}

pub fn push_span(v: &mut Vec<Span>, s: Span)
    ensures
        final(v)@ == old(v)@.push(s),
        spans_view(final(v)@) == spans_view(old(v)@).push(s@),
{
    let ghost before = v@;
    v.push(s);
    assert(spans_view(v@) =~= spans_view(before).push(s@));
}

pub fn push_line(v: &mut Vec<Line>, l: Line)
    ensures
        final(v)@ == old(v)@.push(l),
        lines_view(final(v)@) == lines_view(old(v)@).push(l@),
{
    let ghost before = v@;
    v.push(l);
    assert(lines_view(v@) =~= lines_view(before).push(l@));
}

/// No lines yet.
pub fn no_lines() -> (v: Vec<Line>)
    ensures
        v@.len() == 0,
        lines_view(v@) == Seq::<LineView>::empty(),
{
    let v: Vec<Line> = Vec::new();
    assert(lines_view(v@) =~= Seq::<LineView>::empty());
    v
}

/// Appends all of `more`.
pub fn extend_lines(v: &mut Vec<Line>, more: Vec<Line>)
    ensures
        lines_view(final(v)@) == lines_view(old(v)@) + lines_view(more@),
{
    let ghost a = v@;
    let ghost b = more@;
    let mut more = more;
    v.append(&mut more);
    assert(lines_view(v@) =~= lines_view(a) + lines_view(b));
}

impl Line {
    /// An empty line.
    pub fn blank() -> (r: Line)
        ensures
            r@ == blank_line(),
    {
        let v: Vec<Span> = Vec::new();
        assert(spans_view(v@) =~= Seq::<Span<Seq<char>>>::empty());
        Line::of(v)
    }

    /// A line of unstyled text.
    pub fn raw(text: &str) -> (r: Line)
        ensures
            r@ == text_line(text@),
    {
        let ls = lines_of(text);
        let mut v: Vec<Span> = Vec::new();
        let mut i: usize = 0;
        assert(spans_view(v@) =~= text_spans(text@).take(0));
        while i < ls.len()
            invariant
                i <= ls@.len(),
                texts(ls@) == lines(text@),
                spans_view(v@) == text_spans(text@).take(i as int),
            decreases ls@.len() - i,
        {
            push_span(&mut v, raw(ls[i].as_str()));
            i = i + 1;
            assert(texts(ls@)[i - 1] == ls@[i - 1]@);
            assert(text_spans(text@).take(i as int) =~= text_spans(text@).take(i - 1).push(
                bare(ls@[i - 1]@),
            ));
        }
        assert(texts(ls@).len() == ls@.len());
        assert(text_spans(text@).take(ls@.len() as int) =~= text_spans(text@));
        Line::of(v)
    }

    /// A line of text under a style of the line.
    pub fn styled(text: &str, style: Style) -> (r: Line)
        ensures
            r@ == styled_text(text@, style),
    {
        let mut l = Line::raw(text);
        l.style = style;
        l
    }

    /// A line of the given spans.
    pub fn of(spans: Vec<Span>) -> (r: Line)
        ensures
            r@ == row(spans_view(spans@)),
    {
        Line { spans, style: Style::default(), alignment: None }
    }

    pub fn of1(a: Span) -> (r: Line)
        ensures
            r@ == row(seq![a@]),
    {
        let mut v: Vec<Span> = Vec::new();
        assert(spans_view(v@) =~= Seq::<Span<Seq<char>>>::empty());
        push_span(&mut v, a);
        Line::of(v)
    }

    pub fn of2(a: Span, b: Span) -> (r: Line)
        ensures
            r@ == row(seq![a@, b@]),
    {
        let mut l = Line::of1(a);
        push_span(&mut l.spans, b);
        l
    }

    pub fn of3(a: Span, b: Span, c: Span) -> (r: Line)
        ensures
            r@ == row(seq![a@, b@, c@]),
    {
        let mut l = Line::of2(a, b);
        push_span(&mut l.spans, c);
        l
    }

    pub fn of5(a: Span, b: Span, c: Span, d: Span, e: Span) -> (r: Line)
        ensures
            r@ == row(seq![a@, b@, c@, d@, e@]),
    {
        let mut l = Line::of3(a, b, c);
        push_span(&mut l.spans, d);
        push_span(&mut l.spans, e);
        l
    }

    /// The text of the line.
    pub fn text(&self) -> (r: String)
        ensures
            r@ == line_text(self@),
    {
        let mut out = String::new();
        let mut i: usize = 0;
        let ghost all = spans_view(self.spans@);
        while i < self.spans.len()
            invariant
                i <= self.spans@.len(),
                all == spans_view(self.spans@),
                out@ == spans_text(all.take(i as int)),
            decreases self.spans@.len() - i,
        {
            out.append(self.spans[i].content.as_str());
            i = i + 1;
            assert(all.take(i as int).drop_last() =~= all.take(i - 1));
        }
        assert(all.take(all.len() as int) =~= all);
        out
    }
}

/// A copy of some lines.
pub fn clone_lines(lines: &Vec<Line>) -> (out: Vec<Line>)
    ensures
        lines_view(out@) == lines_view(lines@),
{
    let mut out = no_lines();
    let mut i: usize = 0;
    while i < lines.len()
        invariant
            i <= lines@.len(),
            lines_view(out@) == lines_view(lines@).take(i as int),
        decreases lines@.len() - i,
    {
        let l = clone_line(&lines[i]);
        push_line(&mut out, l);
        i = i + 1;
        assert(lines_view(lines@).take(i as int) =~= lines_view(lines@).take(i - 1).push(
            lines@[i - 1]@,
        ));
    }
    assert(lines_view(lines@).take(lines@.len() as int) =~= lines_view(lines@));
    out
}

fn clone_line(l: &Line) -> (r: Line)
    ensures
        r@ == l@,
{
    let mut spans: Vec<Span> = Vec::new();
    let mut i: usize = 0;
    assert(spans_view(spans@) =~= spans_view(l.spans@).take(0));
    while i < l.spans.len()
        invariant
            i <= l.spans@.len(),
            spans_view(spans@) == spans_view(l.spans@).take(i as int),
        decreases l.spans@.len() - i,
    {
        push_span(&mut spans, styled(l.spans[i].content.as_str(), l.spans[i].style));
        i = i + 1;
        assert(spans_view(l.spans@).take(i as int) =~= spans_view(l.spans@).take(i - 1).push(
            l.spans@[i - 1]@,
        ));
    }
    assert(spans_view(l.spans@).take(l.spans@.len() as int) =~= spans_view(l.spans@));
    Line { spans, style: l.style, alignment: l.alignment }
}

// ---------------------------------------------------------------------------
// Measuring
// ---------------------------------------------------------------------------

/// Number of characters that some spans show.
pub open spec fn spans_width(spans: Seq<Span<Seq<char>>>) -> nat
    decreases spans.len(),
{
    if spans.len() == 0 {
        0
    } else {
        spans_width(spans.drop_last()) + spans.last().content.len()
    }
}

/// `n`, or the greatest `u16` where it is larger.
pub open spec fn cap_u16(n: int) -> int {
    if n <= u16::MAX {
        n
    } else {
        u16::MAX as int
    }
}

pub fn to_u16(n: usize) -> (r: u16)
    ensures
        r == cap_u16(n as int),
{
    if n <= u16::MAX as usize {
        n as u16
    } else {
        u16::MAX
    }
}

/// Width of a line in cells: the characters of its spans.
pub fn line_width(l: &Line) -> (w: u16)
    ensures
        w == cap_u16(spans_width(l@.spans) as int),
{
    let ghost all = l@.spans;
    let mut total: usize = 0;
    let mut i: usize = 0;
    while i < l.spans.len()
        invariant
            i <= l.spans@.len(),
            all == spans_view(l.spans@),
            total <= u16::MAX,
            total == cap_u16(spans_width(all.take(i as int)) as int),
        decreases l.spans@.len() - i,
    {
        let n = count_chars(l.spans[i].content.as_str());
        assert(all.take(i + 1).drop_last() =~= all.take(i as int));
        if n <= u16::MAX as usize - total {
            total = total + n;
        } else {
            total = u16::MAX as usize;
        }
        i = i + 1;
    }
    assert(all.take(all.len() as int) =~= all);
    total as u16
}

/// Rows that a line of `chars` characters takes in a column of `width`: at
/// least one.
pub open spec fn rows_for(chars: int, width: int) -> int {
    if chars <= 0 {
        1
    } else {
        (chars + width - 1) / width
    }
}

pub fn rows_needed(chars: usize, width: usize) -> (r: usize)
    requires
        width > 0,
    ensures
        r == rows_for(chars as int, width as int),
        1 <= r,
        r <= chars || r == 1,
{
    if chars == 0 {
        1
    } else {
        let q: usize = chars / width;
        let m: usize = chars % width;
        proof {
            assert(chars == width * q + m) by {
                vstd::arithmetic::div_mod::lemma_fundamental_div_mod(chars as int, width as int);
            }
            if m == 0 {
                assert(chars + width - 1 == q * width + (width - 1)) by (nonlinear_arith)
                    requires
                        chars == width * q,
                ;
                vstd::arithmetic::div_mod::lemma_fundamental_div_mod_converse(
                    chars + width - 1,
                    width as int,
                    q as int,
                    width - 1,
                );
                assert(q <= chars) by (nonlinear_arith)
                    requires
                        chars == width * q,
                        width >= 1,
                ;
                assert(q >= 1) by (nonlinear_arith)
                    requires
                        chars == width * q,
                        chars > 0,
                ;
            } else {
                assert(chars + width - 1 == (q + 1) * width + (m - 1)) by (nonlinear_arith)
                    requires
                        chars == width * q + m,
                ;
                vstd::arithmetic::div_mod::lemma_fundamental_div_mod_converse(
                    chars + width - 1,
                    width as int,
                    q + 1,
                    m - 1,
                );
                assert(q + 1 <= chars) by (nonlinear_arith)
                    requires
                        chars == width * q + m,
                        m >= 1,
                        width >= 1,
                ;
            }
        }
        if m == 0 {
            q
        } else {
            q + 1
        }
    }
}

/// Rows that some lines take when each is wrapped to `width` columns.
pub open spec fn wrapped_rows(lines: Seq<LineView>, width: int) -> int
    decreases lines.len(),
{
    if lines.len() == 0 {
        0
    } else {
        wrapped_rows(lines.drop_last(), width) + rows_for(
            cap_u16(spans_width(lines.last().spans) as int),
            width,
        )
    }
}

/// Rows that some lines take when each is wrapped to `width` columns, or
/// their number where there are no columns.
pub fn wrapped_height(lines: &Vec<Line>, width: u16) -> (h: u16)
    ensures
        h == cap_u16(
            if width == 0 {
                lines@.len() as int
            } else {
                wrapped_rows(lines_view(lines@), width as int)
            },
        ),
{
    if width == 0 {
        return to_u16(lines.len());
    }
    let ghost all = lines_view(lines@);
    let w: usize = width as usize;
    let mut rows: usize = 0;
    let mut i: usize = 0;
    while i < lines.len()
        invariant
            i <= lines@.len(),
            w == width,
            w > 0,
            all == lines_view(lines@),
            rows <= u16::MAX,
            rows == cap_u16(wrapped_rows(all.take(i as int), width as int)),
        decreases lines@.len() - i,
    {
        let n = rows_needed(line_width(&lines[i]) as usize, w);
        assert(all.take(i + 1).drop_last() =~= all.take(i as int));
        if n <= u16::MAX as usize - rows {
            rows = rows + n;
        } else {
            rows = u16::MAX as usize;
        }
        i = i + 1;
    }
    assert(all.take(all.len() as int) =~= all);
    rows as u16
}

// ---------------------------------------------------------------------------
// Laws
// ---------------------------------------------------------------------------

/// Plain text has no colour and no emphasis, and each setting changes one
/// thing alone.
pub proof fn law_styles_change_one_thing(s: Style, c: Color)
    ensures
        plain().fg is None && plain().bg is None && !plain().bold && !plain().dim && !plain().italic
            && !plain().reversed,
        s.with_fg(c) == (Style { fg: Some(c), ..s }),
        s.with_bg(c) == (Style { bg: Some(c), ..s }),
        s.with_bold() == (Style { bold: true, ..s }),
        s.with_dim() == (Style { dim: true, ..s }),
        s.with_italic() == (Style { italic: true, ..s }),
        s.with_reversed() == (Style { reversed: true, ..s }),
{
}

/// A span holds its text in its style; a line holds its spans, and only a
/// styled line has a style of its own.
pub proof fn law_lines_hold_their_spans(
    text: Seq<char>,
    style: Style,
    spans: Seq<Span<Seq<char>>>,
)
    ensures
        span(text, style).content == text && span(text, style).style == style,
        bare(text).content == text && bare(text).style == plain(),
        row(spans).spans == spans && row(spans).style == plain() && row(spans).alignment is None,
        blank_line().spans.len() == 0 && blank_line().style == plain(),
        styled_text(text, style).style == style,
        styled_text(text, style).alignment is None,
        styled_text(text, style).spans == text_line(text).spans,
        text_line(text).style == plain(),
        text_line(text).spans.len() == lines(text).len(),
        forall|i: int|
            0 <= i < lines(text).len() ==> (#[trigger] text_line(text).spans[i]).content == lines(
                text,
            )[i] && text_line(text).spans[i].style == plain(),
{
}

/// What is drawn is what is held, span for span and line for line.
pub proof fn law_every_span_is_shown(spans: Seq<Span>, ls: Seq<Line>, i: int)
    ensures
        spans_view(spans).len() == spans.len(),
        0 <= i < spans.len() ==> spans_view(spans)[i].content == spans[i].content@
            && spans_view(spans)[i].style == spans[i].style,
        lines_view(ls).len() == ls.len(),
        0 <= i < ls.len() ==> lines_view(ls)[i].spans == spans_view(ls[i].spans@)
            && lines_view(ls)[i].style == ls[i].style && lines_view(ls)[i].alignment
            == ls[i].alignment,
{
}

/// The text of a line is that of its spans one after the other, and its
/// width the number of their characters.
pub proof fn law_spans_are_strung_together(spans: Seq<Span<Seq<char>>>, s: Span<Seq<char>>)
    ensures
        spans_text(Seq::empty()).len() == 0,
        spans_text(spans.push(s)) == spans_text(spans) + s.content,
        line_text(row(spans)) == spans_text(spans),
        spans_width(spans) == spans_text(spans).len(),
    decreases spans.len(),
{
    assert(spans.push(s).drop_last() =~= spans);
    if spans.len() > 0 {
        law_spans_are_strung_together(spans.drop_last(), s);
    }
}

/// Wrapped lines fill their rows: as many as hold all characters, and none
/// to spare; an empty line takes one.
pub proof fn law_rows_hold_all_characters(chars: int, width: int)
    requires
        width > 0,
    ensures
        chars <= 0 ==> rows_for(chars, width) == 1,
        chars > 0 ==> (rows_for(chars, width) - 1) * width < chars <= rows_for(chars, width)
            * width,
{
    if chars > 0 {
        let q = (chars + width - 1) / width;
        assert((q - 1) * width < chars <= q * width) by (nonlinear_arith)
            requires
                q == (chars + width - 1) / width,
                chars > 0,
                width > 0,
        ;
    }
}

/// The rows of several lines add up, and what does not fit a cell count is
/// held at the greatest.
pub proof fn law_rows_add_up(ls: Seq<LineView>, l: LineView, width: int, n: int)
    ensures
        wrapped_rows(Seq::empty(), width) == 0,
        spans_width(l.spans) <= 65535 ==> wrapped_rows(ls.push(l), width) == wrapped_rows(ls, width)
            + rows_for(spans_width(l.spans) as int, width),
        spans_width(l.spans) > 65535 ==> wrapped_rows(ls.push(l), width) == wrapped_rows(ls, width)
            + rows_for(65535, width),
        n <= 65535 ==> cap_u16(n) == n,
        n > 65535 ==> cap_u16(n) == 65535,
{
    assert(ls.push(l).drop_last() =~= ls);
}

} // verus!
