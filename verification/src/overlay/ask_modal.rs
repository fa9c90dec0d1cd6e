//! The request for permission: what is asked, and the answers to choose from.

use vstd::prelude::*;

use crate::app::opt_request;
use crate::ask::{AskRequest, AskRequestView};
use crate::layout::{
    all_cells, centered, centered_rect_abs, edge, extent, smaller, split_area, split_into, stretchy,
    Size,
};
use crate::style::{
    bare, blank_line, cap_u16, extend_lines, line_width, lines_view, no_lines, plain, push_line,
    raw, row, span, spans_width, styled, styled_text, text_line, wrapped_height, wrapped_rows,
    Color, Line, LineView, Style,
};
use crate::text::cat2;
use crate::types::Rect;

verus! {

/// What is asked: the tool, its input, and the pattern that a standing
/// answer would keep.
pub open spec fn body_rows(req: Option<AskRequestView>) -> Seq<LineView> {
    let bold = plain().with_bold();
    match req {
        None => seq![text_line("(no pending ask)"@)],
        Some(r) => seq![
            blank_line(),
            row(seq![bare("   "@), span("Tool: "@, bold), bare(r.tool_name)]),
            row(seq![bare("   "@), span("Input: "@, bold), bare(r.input_summary)]),
            blank_line(),
            row(seq![bare("   "@), span("Pattern: "@, bold), bare(r.always_pattern)]),
        ],
    }
}

/// What is asked.
pub fn ask_modal_body_lines(req: &Option<AskRequest>) -> (out: Vec<Line>)
    ensures
        lines_view(out@) == body_rows(opt_request(*req)),
{
    let bold = Style::default().bold();
    let mut out = no_lines();
    match req {
        None => push_line(&mut out, Line::raw("(no pending ask)")),
        Some(r) => {
            push_line(&mut out, Line::blank());
            push_line(
                &mut out,
                Line::of3(raw("   "), styled("Tool: ", bold), raw(r.tool_name.as_str())),
            );
            push_line(
                &mut out,
                Line::of3(raw("   "), styled("Input: ", bold), raw(r.input_summary.as_str())),
            );
            push_line(&mut out, Line::blank());
            push_line(
                &mut out,
                Line::of3(raw("   "), styled("Pattern: ", bold), raw(r.always_pattern.as_str())),
            );
        },
    }
    out
}

/// The answers, from the mildest to the firmest, as their rows read.
pub open spec fn answer_labels() -> Seq<Seq<char>> {
    seq![
        "[y] Allow once"@,
        "[n] Deny once"@,
        "[a] Always allow (opens scope picker)"@,
        "[d] Always deny  (opens scope picker)"@,
        "[Esc] Deny once"@,
    ]
}

/// The row of an answer; the chosen one is marked.
pub open spec fn answer_row(label: Seq<char>, chosen: bool) -> LineView {
    let cyan = plain().with_fg(Color::Cyan);
    if chosen {
        styled_text(" \u{25b8} "@ + label, cyan.with_reversed().with_bold())
    } else {
        styled_text("   "@ + label, cyan)
    }
}

fn answer_line(label: &str, chosen: bool) -> (l: Line)
    ensures
        l@ == answer_row(label@, chosen),
{
    let cyan = Style::default().fg(Color::Cyan);
    if chosen {
        Line::styled(cat2(" \u{25b8} ", label).as_str(), cyan.reversed().bold())
    } else {
        Line::styled(cat2("   ", label).as_str(), cyan)
    }
}

/// The answers with `selected` marked, and how to give them.
pub open spec fn action_rows(selected: Option<usize>) -> Seq<LineView> {
    let dim = plain().with_dim();
    let labels = answer_labels();
    seq![
        blank_line(),
        answer_row(labels[0], selected == Some(0usize)),
        answer_row(labels[1], selected == Some(1usize)),
        answer_row(labels[2], selected == Some(2usize)),
        answer_row(labels[3], selected == Some(3usize)),
        answer_row(labels[4], selected == Some(4usize)),
        blank_line(),
        styled_text(
            "   \u{2191}/\u{2193} move \u{00b7} Enter select \u{00b7} or press the [key]."@,
            dim,
        ),
        styled_text("   Modal blocks the agent loop until you decide."@, dim),
    ]
}

fn is_at(selected: Option<usize>, i: usize) -> (r: bool)
    ensures
        r == (selected == Some(i)),
{
    match selected {
        Some(s) => s == i,
        None => false,
    }
}

/// The answers with `selected` marked, and how to give them.
pub fn ask_modal_action_lines(selected: Option<usize>) -> (out: Vec<Line>)
    ensures
        lines_view(out@) == action_rows(selected),
{
    let dim = Style::default().dim();
    let mut out = no_lines();
    push_line(&mut out, Line::blank());
    push_line(&mut out, answer_line("[y] Allow once", is_at(selected, 0)));
    push_line(&mut out, answer_line("[n] Deny once", is_at(selected, 1)));
    push_line(
        &mut out,
        answer_line("[a] Always allow (opens scope picker)", is_at(selected, 2)),
    );
    push_line(
        &mut out,
        answer_line("[d] Always deny  (opens scope picker)", is_at(selected, 3)),
    );
    push_line(&mut out, answer_line("[Esc] Deny once", is_at(selected, 4)));
    push_line(&mut out, Line::blank());
    push_line(
        &mut out,
        Line::styled(
            "   \u{2191}/\u{2193} move \u{00b7} Enter select \u{00b7} or press the [key].",
            dim,
        ),
    );
    push_line(&mut out, Line::styled("   Modal blocks the agent loop until you decide.", dim));
    out
}

/// What is asked and the answers in one block.
pub fn ask_modal_lines(req: &Option<AskRequest>) -> (out: Vec<Line>)
    ensures
        lines_view(out@) == body_rows(opt_request(*req)) + action_rows(None),
{
    let mut out = ask_modal_body_lines(req);
    extend_lines(&mut out, ask_modal_action_lines(None));
    out
}

// ---------------------------------------------------------------------------
// Its size
// ---------------------------------------------------------------------------

/// Cells left free on the right, as many as every row has on the left.
pub const PAD: u16 = 3;

/// Width that the rows are wrapped at, at the latest.
pub const MAX_INNER: u16 = 80;

/// Width of the widest of some lines, in cells.
pub open spec fn widest(lines: Seq<LineView>) -> int
    decreases lines.len(),
{
    if lines.len() == 0 {
        0
    } else {
        let w = cap_u16(spans_width(lines.last().spans) as int);
        let rest = widest(lines.drop_last());
        if w > rest {
            w
        } else {
            rest
        }
    }
}

fn widest_of(lines: &Vec<Line>) -> (r: u16)
    ensures
        r == widest(lines_view(lines@)),
{
    let ghost all = lines_view(lines@);
    let mut r: u16 = 0;
    let mut i: usize = 0;
    while i < lines.len()
        invariant
            i <= lines@.len(),
            all == lines_view(lines@),
            r == widest(all.take(i as int)),
        decreases lines@.len() - i,
    {
        let w = line_width(&lines[i]);
        assert(all.take(i + 1).drop_last() =~= all.take(i as int));
        if w > r {
            r = w;
        }
        i = i + 1;
    }
    assert(all.take(all.len() as int) =~= all);
    r
}

/// Rows that some lines take in so many columns.
pub open spec fn height_in(lines: Seq<LineView>, width: u16) -> int {
    cap_u16(
        if width == 0 {
            lines.len() as int
        } else {
            wrapped_rows(lines, width as int)
        },
    )
}

pub open spec fn clamped(n: int, low: int, high: int) -> int {
    if n < low {
        low
    } else if n > high {
        high
    } else {
        n
    }
}

/// Width of the window: that of the widest row with its margins and border,
/// as far as the screen has it.
pub open spec fn modal_width(body: Seq<LineView>, screen: u16) -> u16 {
    let b = widest(body);
    let a = widest(action_rows(None));
    let inner = clamped(
        if b > a {
            b
        } else {
            a
        },
        0,
        MAX_INNER as int,
    );
    smaller((inner + PAD + 2) as u16, screen)
}

/// Where the window stands: wide enough for its rows and high enough for
/// all answers under a body of three rows at least and twelve at most.
pub open spec fn modal_area(body: Seq<LineView>, screen: Rect) -> Rect {
    let width = modal_width(body, screen.width);
    let avail = (if width >= 2 {
        width - 2
    } else {
        0
    }) as u16;
    let rows = clamped(height_in(body, avail), 3, 12) + height_in(action_rows(None), avail) + 2;
    centered(width, cap_u16(rows) as u16, screen)
}

/// Where the window stands.
pub fn ask_modal_area(req: &Option<AskRequest>, screen: Rect) -> (r: Rect)
    requires
        screen.x + screen.width <= u16::MAX,
        screen.y + screen.height <= u16::MAX,
    ensures
        r == modal_area(
            body_rows(opt_request(*req)),
            screen,
        ),
{
    let body = ask_modal_body_lines(req);
    let actions = ask_modal_action_lines(None);
    let b = widest_of(&body);
    let a = widest_of(&actions);
    let mut inner: u16 = if b > a {
        b
    } else {
        a
    };
    if inner > MAX_INNER {
        inner = MAX_INNER;
    }
    let wanted: u16 = inner + PAD + 2;
    let width: u16 = if wanted <= screen.width {
        wanted
    } else {
        screen.width
    };
    let avail = width.saturating_sub(2);
    let mut body_h = wrapped_height(&body, avail);
    assert(lines_view(body@).len() == body@.len());
    assert(lines_view(actions@).len() == actions@.len());
    if body_h < 3 {
        body_h = 3;
    }
    if body_h > 12 {
        body_h = 12;
    }
    let action_h = wrapped_height(&actions, avail);
    centered_rect_abs(width, (body_h + 2).saturating_add(action_h), screen)
}

/// The rows that the answers take in a column of `width`, one at least.
pub open spec fn answers_height(selected: Option<usize>, width: u16) -> int {
    let h = height_in(action_rows(selected), width);
    if h > 1 {
        h
    } else {
        1
    }
}

/// How the window is split: what is asked above, all rows of the answers
/// below.
pub open spec fn modal_sizes(selected: Option<usize>, width: u16) -> Seq<Size> {
    seq![Size::Min(1), Size::Length(answers_height(selected, width) as u16)]
}

/// How the window is split.
pub fn ask_modal_sizes(selected: Option<usize>, width: u16) -> (sizes: Vec<Size>)
    ensures
        sizes@ == modal_sizes(selected, width),
{
    let actions = ask_modal_action_lines(selected);
    assert(lines_view(actions@).len() == actions@.len());
    let mut h = wrapped_height(&actions, width);
    if h < 1 {
        h = 1;
    }
    let mut sizes: Vec<Size> = Vec::new();
    sizes.push(Size::Min(1));
    sizes.push(Size::Length(h));
    assert(sizes@ =~= modal_sizes(selected, width));
    sizes
}

/// The places of what is asked and of the answers inside the border.
pub fn ask_modal_parts(cursor: usize, inner: Rect) -> (parts: (Rect, Rect))
    ensures
        split_into(seq![parts.0, parts.1], inner, true, modal_sizes(Some(cursor), inner.width)),
{
    let parts = split_area(inner, true, &ask_modal_sizes(Some(cursor), inner.width));
    assert(parts@ =~= seq![parts@[0], parts@[1]]);
    (parts[0], parts[1])
}

// ---------------------------------------------------------------------------
// Laws
// ---------------------------------------------------------------------------

/// Marking an answer leaves its row as wide as it was, so that the window
/// keeps its size while the mark moves.
pub proof fn law_marks_keep_the_width(label: Seq<char>)
    requires
        label.len() > 0,
        forall|i: int| 0 <= i < label.len() ==> #[trigger] label[i] != '\n',
    ensures
        spans_width(answer_row(label, true).spans) == spans_width(
            answer_row(label, false).spans,
        ),
        spans_width(answer_row(label, true).spans) == 3 + label.len(),
{
    reveal_strlit(" \u{25b8} ");
    reveal_strlit("   ");
    let marked = " \u{25b8} "@ + label;
    let bare_row = "   "@ + label;
    crate::style::lemma_one_line(marked);
    crate::style::lemma_one_line(bare_row);
    reveal_with_fuel(spans_width, 2);
    assert(seq![bare(marked)].drop_last() =~= Seq::<crate::style::Span<Seq<char>>>::empty());
    assert(seq![bare(bare_row)].drop_last() =~= Seq::<crate::style::Span<Seq<char>>>::empty());
}

/// Lines of equal widths take equally many columns and rows.
proof fn lemma_widths_decide(a: Seq<LineView>, b: Seq<LineView>, width: int)
    requires
        a.len() == b.len(),
        forall|i: int|
            0 <= i < a.len() ==> spans_width(#[trigger] a[i].spans) == spans_width(b[i].spans),
    ensures
        widest(a) == widest(b),
        wrapped_rows(a, width) == wrapped_rows(b, width),
    decreases a.len(),
{
    if a.len() > 0 {
        assert forall|i: int| 0 <= i < a.drop_last().len() implies spans_width(
            #[trigger] a.drop_last()[i].spans,
        ) == spans_width(b.drop_last()[i].spans) by {
            assert(a.drop_last()[i] == a[i]);
        }
        lemma_widths_decide(a.drop_last(), b.drop_last(), width);
        assert(spans_width(a[a.len() - 1].spans) == spans_width(b[a.len() - 1].spans));
    }
}

/// Whichever answer is marked, the answers take as many columns and rows as
/// without a mark.
pub proof fn law_marks_keep_the_size(selected: Option<usize>, width: u16)
    ensures
        widest(action_rows(selected)) == widest(action_rows(None)),
        height_in(action_rows(selected), width) == height_in(action_rows(None), width),
{
    let labels = answer_labels();
    reveal_strlit("[y] Allow once");
    reveal_strlit("[n] Deny once");
    reveal_strlit("[a] Always allow (opens scope picker)");
    reveal_strlit("[d] Always deny  (opens scope picker)");
    reveal_strlit("[Esc] Deny once");
    law_marks_keep_the_width(labels[0]);
    law_marks_keep_the_width(labels[1]);
    law_marks_keep_the_width(labels[2]);
    law_marks_keep_the_width(labels[3]);
    law_marks_keep_the_width(labels[4]);
    lemma_widths_decide(action_rows(selected), action_rows(None), width as int);
}

/// The window lies on the screen.
pub proof fn law_window_lies_on_the_screen(body: Seq<LineView>, screen: Rect)
    requires
        screen.x + screen.width <= u16::MAX,
        screen.y + screen.height <= u16::MAX,
    ensures
        screen.x <= modal_area(body, screen).x,
        modal_area(body, screen).x + modal_area(body, screen).width <= screen.x + screen.width,
        screen.y <= modal_area(body, screen).y,
        modal_area(body, screen).y + modal_area(body, screen).height <= screen.y + screen.height,
{
}

/// Where there is a row to spare, all rows of the answers are shown, below
/// what is asked and down to the border.
pub proof fn law_answers_have_their_rows(parts: Seq<Rect>, inner: Rect, selected: Option<usize>)
    requires
        split_into(parts, inner, true, modal_sizes(selected, inner.width)),
        answers_height(selected, inner.width) < extent(inner, true),
    ensures
        parts[1].height == answers_height(selected, inner.width),
        parts[0].y == inner.y,
        parts[1].y == parts[0].y + parts[0].height,
        parts[1].y + parts[1].height == inner.y + extent(inner, true),
{
    let sizes = modal_sizes(selected, inner.width);
    let len = extent(inner, true);
    reveal_with_fuel(all_cells, 3);
    reveal_with_fuel(stretchy, 3);
    assert(sizes.take(2) =~= sizes);
    assert(sizes.take(2).drop_last() =~= sizes.take(1));
    assert(sizes.take(1).drop_last() =~= sizes.take(0));
    assert(!(sizes[0] is Percentage));
    assert(edge(sizes, len, 0) == 0);
    assert(edge(sizes, len, 2) == len);
}

/// The request shows its tool, its input and its pattern, each behind its
/// label.
pub proof fn law_requests_show_what_is_asked(r: AskRequestView)
    ensures
        body_rows(Some(r)).len() == 5,
        body_rows(Some(r))[1].spans[1].content == "Tool: "@,
        body_rows(Some(r))[1].spans[2].content == r.tool_name,
        body_rows(Some(r))[2].spans[1].content == "Input: "@,
        body_rows(Some(r))[2].spans[2].content == r.input_summary,
        body_rows(Some(r))[4].spans[1].content == "Pattern: "@,
        body_rows(Some(r))[4].spans[2].content == r.always_pattern,
        body_rows(None) == seq![text_line("(no pending ask)"@)],
{
}

/// The five answers stand in their order between empty rows, the chosen one
/// alone marked, and how to give them below.
pub proof fn law_answers_stand_in_order(selected: Option<usize>, i: int)
    requires
        0 <= i < 5,
    ensures
        ({
            let rows = action_rows(selected);
            let label = seq![
                "[y] Allow once"@,
                "[n] Deny once"@,
                "[a] Always allow (opens scope picker)"@,
                "[d] Always deny  (opens scope picker)"@,
                "[Esc] Deny once"@,
            ][i];
            let cyan = plain().with_fg(Color::Cyan);
            &&& rows.len() == 9
            &&& rows[0] == blank_line()
            &&& selected is Some && selected->0 == i ==> rows[i + 1] == styled_text(
                " \u{25b8} "@ + label,
                cyan.with_reversed().with_bold(),
            )
            &&& selected is None || selected->0 != i ==> rows[i + 1] == styled_text(
                "   "@ + label,
                cyan,
            )
            &&& rows[6] == blank_line()
            &&& rows[7] == styled_text(
                "   \u{2191}/\u{2193} move \u{00b7} Enter select \u{00b7} or press the [key]."@,
                plain().with_dim(),
            )
            &&& rows[8] == styled_text(
                "   Modal blocks the agent loop until you decide."@,
                plain().with_dim(),
            )
        }),
{
}

/// The widest line is as wide as any, and one of them is as wide.
pub proof fn law_the_widest_line_is_found(ls: Seq<LineView>, i: int)
    ensures
        0 <= i < ls.len() ==> cap_u16(spans_width(ls[i].spans) as int) <= widest(ls),
        ls.len() == 0 ==> widest(ls) == 0,
        widest(ls) > 0 ==> exists|k: int|
            0 <= k < ls.len() && widest(ls) == cap_u16(spans_width((#[trigger] ls[k]).spans) as int),
    decreases ls.len(),
{
    if ls.len() > 0 {
        let front = ls.drop_last();
        law_the_widest_line_is_found(front, i);
        assert(ls[ls.len() - 1] == ls.last());
        if i < front.len() && 0 <= i {
            assert(front[i] == ls[i]);
        }
        if widest(front) > 0 {
            let k = choose|k: int|
                0 <= k < front.len() && widest(front) == cap_u16(
                    spans_width((#[trigger] front[k]).spans) as int,
                );
            assert(ls[k] == front[k]);
        }
    }
}

/// The window is as wide as its widest row, eighty cells at most, with three
/// cells of margin and its border, as far as the screen has it.
pub proof fn law_the_window_fits_its_rows(body: Seq<LineView>, screen: u16)
    ensures
        ({
            let b = widest(body);
            let a = widest(action_rows(None));
            let rows = if a <= b {
                b
            } else {
                a
            };
            let wanted = (if rows <= 80 {
                rows
            } else {
                80
            }) + 5;
            &&& wanted <= screen ==> modal_width(body, screen) == wanted
            &&& wanted > screen ==> modal_width(body, screen) == screen
        }),
{
    law_the_widest_line_is_found(body, 0);
    lemma_widest_not_negative(body);
    lemma_widest_not_negative(action_rows(None));
}

proof fn lemma_widest_not_negative(ls: Seq<LineView>)
    ensures
        widest(ls) >= 0,
    decreases ls.len(),
{
    if ls.len() > 0 {
        lemma_widest_not_negative(ls.drop_last());
    }
}

/// The window is as high as its border, the rows of the answers and those of
/// the body, three at least and twelve at most, and stands in the middle.
pub proof fn law_the_window_is_high_enough(body: Seq<LineView>, screen: Rect)
    requires
        modal_width(body, screen.width) >= 2,
    ensures
        ({
            let width = modal_width(body, screen.width);
            let inner = (width - 2) as u16;
            let h = height_in(body, inner);
            let shown = if h < 3 {
                3
            } else if h > 12 {
                12
            } else {
                h
            };
            let rows = shown + height_in(action_rows(None), inner) + 2;
            modal_area(body, screen) == centered(width, cap_u16(rows) as u16, screen)
        }),
{
}

/// Lines take the rows that they wrap to, or one each where there are no
/// columns; the answers take one at least.
pub proof fn law_heights_are_those_of_wrapped_lines(
    ls: Seq<LineView>,
    width: u16,
    selected: Option<usize>,
)
    ensures
        width > 0 ==> height_in(ls, width) == cap_u16(wrapped_rows(ls, width as int)),
        height_in(ls, 0) == cap_u16(ls.len() as int),
        answers_height(selected, width) >= 1,
        height_in(action_rows(selected), width) >= 1 ==> answers_height(selected, width)
            == height_in(action_rows(selected), width),
        modal_sizes(selected, width).len() == 2,
        modal_sizes(selected, width)[0] == Size::Min(1),
        modal_sizes(selected, width)[1] == Size::Length(answers_height(selected, width) as u16),
{
}

} // verus!
