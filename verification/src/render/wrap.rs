//! Wrapping styled lines at a column, character by character.

use vstd::prelude::*;

use crate::style::{
    lines_view, no_lines, push_line, push_span, rows_for, span, spans_view, spans_width, Line,
    LineView, Span, SpanView, Style,
};
use crate::text::{chars_of, string_of};

verus! {

pub open spec fn later(a: int, b: int) -> int {
    if a >= b {
        a
    } else {
        b
    }
}

pub open spec fn earlier(a: int, b: int) -> int {
    if a <= b {
        a
    } else {
        b
    }
}

/// The spans of a line from character `lo` up to character `hi`: those that
/// reach in there, each cut to what lies there.
pub open spec fn pieces(spans: Seq<SpanView>, lo: int, hi: int) -> Seq<SpanView>
    decreases spans.len(),
{
    if spans.len() == 0 {
        Seq::empty()
    } else {
        let head = pieces(spans.drop_last(), lo, hi);
        let before = spans_width(spans.drop_last()) as int;
        let last = spans.last();
        let from = later(lo, before) - before;
        let to = earlier(hi, before + last.content.len()) - before;
        if from < to {
            head.push(span(last.content.subrange(from, to), last.style))
        } else {
            head
        }
    }
}

/// The `k`-th row of a line that is wrapped at `width`.
pub open spec fn wrapped_row(l: LineView, width: int, k: int) -> LineView {
    LineView { spans: pieces(l.spans, k * width, (k + 1) * width), ..l }
}

/// The rows of a line that is wrapped at `width`. An empty line is a row.
pub open spec fn wrapped(l: LineView, width: int) -> Seq<LineView> {
    Seq::new(
        rows_for(spans_width(l.spans) as int, width) as nat,
        |k: int| wrapped_row(l, width, k),
    )
}

/// The rows of some lines that are each wrapped at `width`.
pub open spec fn wrapped_all(lines: Seq<LineView>, width: int) -> Seq<LineView>
    decreases lines.len(),
{
    if lines.len() == 0 {
        Seq::empty()
    } else {
        wrapped_all(lines.drop_last(), width) + wrapped(lines.last(), width)
    }
}

/// The first `s` spans and the first `c` characters of the next.
spec fn partial(all: Seq<SpanView>, s: int, c: int) -> Seq<SpanView> {
    all.take(s).push(span(all[s].content.take(c), all[s].style))
}

proof fn lemma_width_take(all: Seq<SpanView>, s: int)
    requires
        0 <= s < all.len(),
    ensures
        spans_width(all.take(s + 1)) == spans_width(all.take(s)) + all[s].content.len(),
{
    assert(all.take(s + 1).drop_last() =~= all.take(s));
}

proof fn lemma_width_monotonic(all: Seq<SpanView>, s: int)
    requires
        0 <= s <= all.len(),
    ensures
        spans_width(all.take(s)) <= spans_width(all),
    decreases all.len() - s,
{
    if s < all.len() {
        lemma_width_take(all, s);
        lemma_width_monotonic(all, s + 1);
    } else {
        assert(all.take(s) =~= all);
    }
}

proof fn lemma_no_pieces_behind(spans: Seq<SpanView>, lo: int, hi: int)
    requires
        spans_width(spans) <= lo,
    ensures
        pieces(spans, lo, hi) == Seq::<SpanView>::empty(),
    decreases spans.len(),
{
    if spans.len() > 0 {
        lemma_no_pieces_behind(spans.drop_last(), lo, hi);
    }
}

/// Spans that begin at `hi` or behind it have no part in what lies before.
proof fn lemma_pieces_of_prefix(all: Seq<SpanView>, s: int, lo: int, hi: int)
    requires
        0 <= s <= all.len(),
        hi <= spans_width(all.take(s)),
    ensures
        pieces(all, lo, hi) == pieces(all.take(s), lo, hi),
    decreases all.len(),
{
    if s < all.len() {
        assert(all.drop_last().take(s) =~= all.take(s));
        lemma_pieces_of_prefix(all.drop_last(), s, lo, hi);
        lemma_width_monotonic(all.drop_last(), s);
    } else {
        assert(all.take(s) =~= all);
    }
}

proof fn lemma_pieces_of_partial(all: Seq<SpanView>, s: int, c: int, lo: int, hi: int)
    requires
        0 <= s < all.len(),
        0 <= c <= all[s].content.len(),
        0 <= lo,
        hi <= spans_width(all.take(s)) + c,
    ensures
        pieces(all, lo, hi) == pieces(partial(all, s, c), lo, hi),
{
    lemma_width_take(all, s);
    lemma_pieces_of_prefix(all, s + 1, lo, hi);
    assert(all.take(s + 1).drop_last() =~= all.take(s));
    assert(partial(all, s, c).drop_last() =~= all.take(s));
    let before = spans_width(all.take(s)) as int;
    let from = later(lo, before) - before;
    let to = earlier(hi, before + c) - before;
    if from < to {
        assert(all[s].content.take(c).subrange(from, to) =~= all[s].content.subrange(from, to));
    }
}

/// The rows that a line of `n` characters takes, when `k` rows are full and
/// `used` characters are left over.
proof fn lemma_row_count(n: int, width: int, k: int, used: int)
    requires
        0 <= used < width,
        0 <= k,
        n == k * width + used,
    ensures
        rows_for(n, width) == (if used > 0 || k == 0 {
            k + 1
        } else {
            k
        }),
{
    if n == 0 {
        assert(k == 0) by (nonlinear_arith)
            requires
                0 == k * width + used,
                0 <= used < width,
                0 <= k,
        ;
    } else if used > 0 {
        assert(n + width - 1 == (k + 1) * width + (used - 1)) by (nonlinear_arith)
            requires
                n == k * width + used,
        ;
        vstd::arithmetic::div_mod::lemma_fundamental_div_mod_converse(
            n + width - 1,
            width,
            k + 1,
            used - 1,
        );
    } else {
        vstd::arithmetic::div_mod::lemma_fundamental_div_mod_converse(
            n + width - 1,
            width,
            k,
            width - 1,
        );
        assert(k > 0) by (nonlinear_arith)
            requires
                n == k * width,
                n > 0,
                width > 0,
        ;
    }
}

proof fn lemma_next_row(k: int, width: int)
    ensures
        (k + 1) * width == k * width + width,
{
    assert((k + 1) * width == k * width + width) by (nonlinear_arith);
}

/// What has been done of a line when `done` of its characters have been
/// read: `k` full rows, and a row begun.
spec fn progress(
    l: LineView,
    read: Seq<SpanView>,
    width: int,
    out: Seq<LineView>,
    row: Seq<SpanView>,
    used: int,
) -> bool {
    let k = out.len() as int;
    &&& 0 <= used < width
    &&& spans_width(read) == k * width + used
    &&& forall|j: int| 0 <= j < k ==> #[trigger] out[j] == wrapped_row(l, width, j)
    &&& row == pieces(read, k * width, (k + 1) * width)
    &&& (used > 0 <==> row.len() > 0)
}

proof fn lemma_take_piece(
    l: LineView,
    s: int,
    i: int,
    take: int,
    width: int,
    out: Seq<LineView>,
    row: Seq<SpanView>,
    used: int,
)
    requires
        0 <= s < l.spans.len(),
        0 <= i < l.spans[s].content.len(),
        progress(l, partial(l.spans, s, i), width, out, row, used),
        i == 0 || used == 0,
        take == earlier(width - used, l.spans[s].content.len() - i),
    ensures
        used + take < width ==> progress(
            l,
            partial(l.spans, s, i + take),
            width,
            out,
            row.push(
                span(l.spans[s].content.subrange(i, i + take), l.spans[s].style),
            ),
            used + take,
        ),
        used + take == width ==> progress(
            l,
            partial(l.spans, s, i + take),
            width,
            out.push(
                LineView {
                    spans: row.push(
                        span(l.spans[s].content.subrange(i, i + take), l.spans[s].style),
                    ),
                    ..l
                },
            ),
            Seq::empty(),
            0,
        ),
{
    let all = l.spans;
    let content = all[s].content;
    let style = all[s].style;
    let k = out.len() as int;
    let lo = k * width;
    let hi = (k + 1) * width;
    let before = spans_width(all.take(s)) as int;
    let piece = span(content.subrange(i, i + take), style);
    let next = partial(all, s, i + take);
    lemma_next_row(k, width);
    lemma_next_row(k + 1, width);
    assert(0 <= lo) by (nonlinear_arith)
        requires
            lo == k * width,
            0 <= k,
            0 < width,
    ;
    assert(partial(all, s, i).drop_last() =~= all.take(s));
    assert(next.drop_last() =~= all.take(s));
    assert(spans_width(partial(all, s, i)) == before + i);
    assert(spans_width(next) == before + i + take);
    // Before this piece the span has no part in the row.
    assert(row == pieces(all.take(s), lo, hi)) by {
        if i > 0 {
            lemma_no_pieces_behind(partial(all, s, i), lo, hi);
            lemma_no_pieces_behind(all.take(s), lo, hi);
        }
    }
    let from = later(lo, before) - before;
    let to = earlier(hi, before + i + take) - before;
    assert(from == i);
    assert(to == i + take);
    assert(content.take(i + take).subrange(i, i + take) =~= content.subrange(i, i + take));
    assert(pieces(next, lo, hi) == row.push(piece));
    if used + take == width {
        let full = LineView { spans: row.push(piece), ..l };
        lemma_pieces_of_partial(all, s, i + take, lo, hi);
        assert(full == wrapped_row(l, width, k));
        lemma_no_pieces_behind(next, hi, (k + 2) * width);
        assert forall|j: int| 0 <= j < k + 1 implies #[trigger] out.push(full)[j] == wrapped_row(
            l,
            width,
            j,
        ) by {
            if j < k {
                assert(out.push(full)[j] == out[j]);
            }
        }
    }
}

proof fn lemma_span_begun(all: Seq<SpanView>, s: int, lo: int, hi: int)
    requires
        0 <= s < all.len(),
    ensures
        pieces(partial(all, s, 0), lo, hi) == pieces(all.take(s), lo, hi),
        spans_width(partial(all, s, 0)) == spans_width(all.take(s)),
{
    assert(partial(all, s, 0).drop_last() =~= all.take(s));
}

proof fn lemma_span_read(all: Seq<SpanView>, s: int)
    requires
        0 <= s < all.len(),
    ensures
        partial(all, s, all[s].content.len() as int) == all.take(s + 1),
{
    let n = all[s].content.len() as int;
    assert(all[s].content.take(n) =~= all[s].content);
    assert(partial(all, s, n) =~= all.take(s + 1));
}

/// The rows of one line.
fn wrap_line(line: &Line, width: usize) -> (out: Vec<Line>)
    requires
        width > 0,
    ensures
        lines_view(out@) == wrapped(line@, width as int),
{
    let ghost l = line@;
    let ghost all = l.spans;
    let mut out = no_lines();
    let mut row: Vec<Span> = Vec::new();
    let mut used: usize = 0;
    let mut s: usize = 0;
    assert(spans_view(row@) =~= Seq::<SpanView>::empty());
    assert(all.take(0) =~= Seq::<SpanView>::empty());
    while s < line.spans.len()
        invariant
            s <= line.spans@.len(),
            width > 0,
            l == line@,
            all == l.spans,
            all == spans_view(line.spans@),
            progress(
                l,
                all.take(s as int),
                width as int,
                lines_view(out@),
                spans_view(row@),
                used as int,
            ),
        decreases line.spans@.len() - s,
    {
        let style = line.spans[s].style;
        let cs = chars_of(line.spans[s].content.as_str());
        let mut i: usize = 0;
        assert(all[s as int] == line.spans@[s as int]@);
        proof {
            let k = lines_view(out@).len() as int;
            lemma_span_begun(all, s as int, k * width, (k + 1) * width);
        }
        while i < cs.len()
            invariant
                s < line.spans@.len(),
                i <= cs@.len(),
                width > 0,
                l == line@,
                all == l.spans,
                all.len() == line.spans@.len(),
                cs@ == all[s as int].content,
                style == all[s as int].style,
                i == 0 || used == 0 || i == cs@.len(),
                progress(
                    l,
                    partial(all, s as int, i as int),
                    width as int,
                    lines_view(out@),
                    spans_view(row@),
                    used as int,
                ),
            decreases cs@.len() - i,
        {
            let room: usize = width - used;
            let left: usize = cs.len() - i;
            let take: usize = if room <= left {
                room
            } else {
                left
            };
            proof {
                lemma_take_piece(
                    l,
                    s as int,
                    i as int,
                    take as int,
                    width as int,
                    lines_view(out@),
                    spans_view(row@),
                    used as int,
                );
            }
            push_span(&mut row, Span { content: string_of(&cs, i, i + take), style });
            used = used + take;
            i = i + take;
            if used == width {
                let full = Line { spans: row, style: line.style, alignment: line.alignment };
                push_line(&mut out, full);
                row = Vec::new();
                assert(spans_view(row@) =~= Seq::<SpanView>::empty());
                used = 0;
            }
        }
        proof {
            lemma_span_read(all, s as int);
        }
        s = s + 1;
    }
    proof {
        let k = lines_view(out@).len() as int;
        assert(all.take(s as int) =~= all);
        lemma_row_count(spans_width(all) as int, width as int, k, used as int);
    }
    if row.len() > 0 || out.len() == 0 {
        let ghost begun = spans_view(row@);
        assert(begun.len() == row@.len());
        let last = Line { spans: row, style: line.style, alignment: line.alignment };
        push_line(&mut out, last);
    } else {
        assert(spans_view(row@).len() == row@.len());
    }
    assert(lines_view(out@) =~= wrapped(l, width as int));
    out
}

/// The rows of some lines in a column of `width`; as many lines as before
/// where the column has no room at all.
pub fn wrap_lines_to_width(lines: Vec<Line>, width: u16) -> (out: Vec<Line>)
    ensures
        lines_view(out@) == (if width == 0 {
            lines_view(lines@)
        } else {
            wrapped_all(lines_view(lines@), width as int)
        }),
{
    if width == 0 {
        return lines;
    }
    let ghost all = lines_view(lines@);
    let mut out = no_lines();
    let mut i: usize = 0;
    assert(all.take(0) =~= Seq::<LineView>::empty());
    while i < lines.len()
        invariant
            i <= lines@.len(),
            width > 0,
            all == lines_view(lines@),
            lines_view(out@) == wrapped_all(all.take(i as int), width as int),
        decreases lines@.len() - i,
    {
        crate::style::extend_lines(&mut out, wrap_line(&lines[i], width as usize));
        i = i + 1;
        assert(all.take(i as int).drop_last() =~= all.take(i - 1));
    }
    assert(all.take(i as int) =~= all);
    out
}

// ---------------------------------------------------------------------------
// Laws
// ---------------------------------------------------------------------------

/// The characters of some spans, each in its style.
pub open spec fn glyphs(spans: Seq<SpanView>) -> Seq<(char, Style)>
    decreases spans.len(),
{
    if spans.len() == 0 {
        Seq::empty()
    } else {
        glyphs(spans.drop_last()) + Seq::new(
            spans.last().content.len(),
            |i: int| (spans.last().content[i], spans.last().style),
        )
    }
}

proof fn lemma_glyphs_len(spans: Seq<SpanView>)
    ensures
        glyphs(spans).len() == spans_width(spans),
    decreases spans.len(),
{
    if spans.len() > 0 {
        lemma_glyphs_len(spans.drop_last());
    }
}

proof fn lemma_glyphs_of_pieces(spans: Seq<SpanView>, lo: int, hi: int)
    requires
        0 <= lo <= hi,
    ensures
        glyphs(pieces(spans, lo, hi)) == glyphs(spans).subrange(
            earlier(lo, spans_width(spans) as int),
            earlier(hi, spans_width(spans) as int),
        ),
    decreases spans.len(),
{
    lemma_glyphs_len(spans);
    if spans.len() > 0 {
        let init = spans.drop_last();
        let last = spans.last();
        lemma_glyphs_len(init);
        lemma_glyphs_of_pieces(init, lo, hi);
        let before = spans_width(init) as int;
        let from = later(lo, before) - before;
        let to = earlier(hi, before + last.content.len()) - before;
        if from < to {
            let piece = span(last.content.subrange(from, to), last.style);
            assert(pieces(init, lo, hi).push(piece).drop_last() =~= pieces(init, lo, hi));
        }
        assert(glyphs(pieces(spans, lo, hi)) =~= glyphs(spans).subrange(
            earlier(lo, spans_width(spans) as int),
            earlier(hi, spans_width(spans) as int),
        ));
    } else {
        assert(glyphs(spans).subrange(0, 0) =~= Seq::<(char, Style)>::empty());
    }
}

/// The characters of some rows, one after the other.
pub open spec fn rows_glyphs(rows: Seq<LineView>) -> Seq<(char, Style)>
    decreases rows.len(),
{
    if rows.len() == 0 {
        Seq::empty()
    } else {
        rows_glyphs(rows.drop_last()) + glyphs(rows.last().spans)
    }
}

proof fn lemma_rows_glyphs(l: LineView, width: int, k: int)
    requires
        width > 0,
        0 <= k <= wrapped(l, width).len(),
    ensures
        rows_glyphs(wrapped(l, width).take(k)) == glyphs(l.spans).take(
            earlier(k * width, spans_width(l.spans) as int),
        ),
    decreases k,
{
    let all = wrapped(l, width);
    let n = spans_width(l.spans) as int;
    lemma_glyphs_len(l.spans);
    if k > 0 {
        lemma_rows_glyphs(l, width, k - 1);
        lemma_next_row(k - 1, width);
        assert(0 <= (k - 1) * width) by (nonlinear_arith)
            requires
                k > 0,
                width > 0,
        ;
        assert(all.take(k).drop_last() =~= all.take(k - 1));
        lemma_glyphs_of_pieces(l.spans, (k - 1) * width, k * width);
        assert(rows_glyphs(all.take(k)) =~= glyphs(l.spans).take(earlier(k * width, n)));
    } else {
        assert(rows_glyphs(all.take(0)) =~= glyphs(l.spans).take(0));
    }
}

proof fn lemma_rows_cover(n: int, width: int)
    requires
        0 <= n,
        0 < width,
    ensures
        n <= rows_for(n, width) * width,
        n > 0 ==> (rows_for(n, width) - 1) * width < n,
        rows_for(n, width) >= 1,
{
    if n > 0 {
        let q = (n + width - 1) / width;
        let m = (n + width - 1) % width;
        vstd::arithmetic::div_mod::lemma_fundamental_div_mod(n + width - 1, width);
        vstd::arithmetic::div_mod::lemma_mod_bound(n + width - 1, width);
        assert(q * width == width * q) by (nonlinear_arith);
        assert((q - 1) * width == q * width - width) by (nonlinear_arith);
        assert(q >= 1) by (nonlinear_arith)
            requires
                n + width - 1 == width * q + m,
                0 <= m < width,
                n > 0,
                width > 0,
        ;
    }
}

/// Wrapping loses nothing and adds nothing: the rows of a line hold its
/// characters in order, each in its style, and every row has the style and
/// the alignment of the line.
pub proof fn law_wrapping_keeps_the_text(l: LineView, width: int)
    requires
        width > 0,
    ensures
        rows_glyphs(wrapped(l, width)) == glyphs(l.spans),
        forall|k: int|
            0 <= k < wrapped(l, width).len() ==> (#[trigger] wrapped(l, width)[k]).style == l.style
            && wrapped(l, width)[k].alignment == l.alignment,
{
    let n = spans_width(l.spans) as int;
    let k = rows_for(n, width);
    lemma_rows_cover(n, width);
    lemma_rows_glyphs(l, width, k);
    lemma_glyphs_len(l.spans);
    assert(wrapped(l, width).take(k) =~= wrapped(l, width));
    assert(glyphs(l.spans).take(n) =~= glyphs(l.spans));
}

/// No row is wider than the column, and every row but the last fills it.
pub proof fn law_rows_fit_the_column(l: LineView, width: int, k: int)
    requires
        width > 0,
        0 <= k < wrapped(l, width).len(),
    ensures
        spans_width(wrapped(l, width)[k].spans) <= width,
        k < wrapped(l, width).len() - 1 ==> spans_width(wrapped(l, width)[k].spans) == width,
{
    let n = spans_width(l.spans) as int;
    lemma_rows_cover(n, width);
    lemma_next_row(k, width);
    assert(0 <= k * width) by (nonlinear_arith)
        requires
            0 <= k,
            width > 0,
    ;
    lemma_glyphs_of_pieces(l.spans, k * width, (k + 1) * width);
    lemma_glyphs_len(l.spans);
    lemma_glyphs_len(wrapped(l, width)[k].spans);
    if k < rows_for(n, width) - 1 {
        let rest = rows_for(n, width) - 1;
        assert((k + 1) * width <= rest * width) by (nonlinear_arith)
            requires
                k + 1 <= rest,
                width > 0,
        ;
        if n == 0 {
            assert(rows_for(n, width) == 1);
        }
    }
}

/// The rows of a line follow those of the lines before it; a line has the
/// rows that its characters take.
pub proof fn law_lines_are_wrapped_one_by_one(ls: Seq<LineView>, l: LineView, width: int)
    requires
        width > 0,
    ensures
        wrapped_all(Seq::empty(), width).len() == 0,
        wrapped_all(ls.push(l), width) == wrapped_all(ls, width) + wrapped(l, width),
        wrapped(l, width).len() == rows_for(spans_width(l.spans) as int, width),
        spans_width(l.spans) == 0 ==> wrapped(l, width).len() == 1,
{
    assert(ls.push(l).drop_last() =~= ls);
    lemma_rows_cover(spans_width(l.spans) as int, width);
}

} // verus!
