//! The main view: the transcript, the prompt and the status bar.

use vstd::prelude::*;

use std::collections::VecDeque;

use crate::app::{App, AppView};
use crate::ask::AskRequest;
use crate::layout::{all_cells, edge, extent, split_area, split_into, stretchy, Size};
use crate::style::{
    cap_u16, extend_lines, lines_view, no_lines, plain, push_line, row, rows_for, rows_needed, span,
    styled, text_line, to_u16, Color, Line, LineView, Style,
};
use crate::text::{
    cat2, cat3, chars_of, count_chars, decimal, decimal_usize, find_char, lemma_find_char, prefix,
    split, split_text,
    string_of, take_chars, texts,
};
use crate::toast::{elapsed, Toast, ToastLevel, TOAST_TTL_MS};
use crate::types::Rect;

use self::status::{render_status, status_row, StatusInfo, StatusInfoView};
use self::transcript::{render_transcript, transcript_rows};
use self::wrap::{earlier, wrap_lines_to_width, wrapped_all};

pub mod status;
pub mod transcript;
pub mod wrap;

verus! {

// ---------------------------------------------------------------------------
// The prompt
// ---------------------------------------------------------------------------

/// Characters of the mark before the prompt.
pub const PROMPT_CHARS: usize = 2;

/// Rows of the prompt that are shown at most.
pub const INPUT_MAX_ROWS: u16 = 10;

/// Characters that the `i`-th line of a prompt takes, with the mark before
/// the first.
pub open spec fn line_chars(segments: Seq<Seq<char>>, i: int) -> int {
    segments[i].len() + (if i == 0 {
        PROMPT_CHARS as int
    } else {
        0
    })
}

/// Rows that the lines of a prompt take.
pub open spec fn prompt_rows(segments: Seq<Seq<char>>, width: int) -> int
    decreases segments.len(),
{
    if segments.len() == 0 {
        0
    } else {
        prompt_rows(segments.drop_last(), width) + rows_for(
            line_chars(segments, segments.len() - 1),
            width,
        )
    }
}

/// Rows that the prompt is given.
pub open spec fn prompt_height(text: Seq<char>, width: int) -> int {
    if width == 0 {
        1
    } else {
        earlier(prompt_rows(split(text, '\n'), width), INPUT_MAX_ROWS as int)
    }
}

/// Rows for so many characters, up to the most that are shown.
fn rows_up_to_max(chars: usize, first: bool, width: usize) -> (r: usize)
    requires
        0 < width <= u16::MAX,
    ensures
        r == earlier(
            rows_for(
                chars + (if first {
                    PROMPT_CHARS as int
                } else {
                    0
                }),
                width as int,
            ),
            INPUT_MAX_ROWS as int,
        ),
        r >= 1,
{
    let extra: usize = if first {
        PROMPT_CHARS
    } else {
        0
    };
    if chars > usize::MAX - 2 {
        proof {
            let n = chars + extra + width - 1;
            assert(n >= 10 * width);
            vstd::arithmetic::div_mod::lemma_div_is_ordered(10 * width, n, width as int);
            vstd::arithmetic::div_mod::lemma_div_multiples_vanish(10, width as int);
            assert(width * 10 == 10 * width);
        }
        return INPUT_MAX_ROWS as usize;
    }
    let rows = rows_needed(chars + extra, width);
    if rows > INPUT_MAX_ROWS as usize {
        INPUT_MAX_ROWS as usize
    } else {
        rows
    }
}

proof fn lemma_rows_positive(chars: int, width: int)
    requires
        0 < width,
        0 <= chars,
    ensures
        rows_for(chars, width) >= 1,
{
    if chars > 0 {
        vstd::arithmetic::div_mod::lemma_div_is_ordered(width, chars + width - 1, width);
        vstd::arithmetic::div_mod::lemma_div_by_self(width);
    }
}

/// Rows that some lines take, the first with the mark before it, up to the
/// most that are shown.
fn rows_of_segments(segments: &Vec<String>, count: usize, width: usize) -> (r: usize)
    requires
        0 < width <= u16::MAX,
        count <= segments@.len(),
    ensures
        r == earlier(
            prompt_rows(texts(segments@).take(count as int), width as int),
            INPUT_MAX_ROWS as int,
        ),
{
    let ghost all = texts(segments@);
    let mut total: usize = 0;
    let mut i: usize = 0;
    while i < count
        invariant
            i <= count <= segments@.len(),
            0 < width <= u16::MAX,
            all == texts(segments@),
            total == earlier(prompt_rows(all.take(i as int), width as int), INPUT_MAX_ROWS as int),
        decreases count - i,
    {
        let rows = rows_up_to_max(count_chars(segments[i].as_str()), i == 0, width);
        assert(all[i as int] == segments@[i as int]@);
        assert(all.take(i + 1).drop_last() =~= all.take(i as int));
        assert(line_chars(all.take(i + 1), i as int) == line_chars(all, i as int));
        proof {
            lemma_rows_positive(line_chars(all, i as int), width as int);
            lemma_prompt_rows_positive(all.take(i as int), width as int);
        }
        total = total + rows;
        if total > INPUT_MAX_ROWS as usize {
            total = INPUT_MAX_ROWS as usize;
        }
        i = i + 1;
    }
    total
}

proof fn lemma_prompt_rows_positive(segments: Seq<Seq<char>>, width: int)
    requires
        0 < width,
    ensures
        prompt_rows(segments, width) >= segments.len(),
    decreases segments.len(),
{
    if segments.len() > 0 {
        lemma_prompt_rows_positive(segments.drop_last(), width);
        lemma_rows_positive(line_chars(segments, segments.len() - 1), width);
    }
}

/// Rows that the prompt is given: as many as it takes, and ten at most.
pub fn input_rows(text: &str, width: u16) -> (r: u16)
    ensures
        r == prompt_height(text@, width as int),
{
    if width == 0 {
        return 1;
    }
    let segments = split_text(text, '\n');
    assert(texts(segments@).take(segments@.len() as int) =~= texts(segments@));
    rows_of_segments(&segments, segments.len(), width as usize) as u16
}

/// A line of the prompt with the mark before the first.
pub open spec fn marked_line(segment: Seq<char>, first: bool) -> Seq<char> {
    if first {
        "> "@ + segment
    } else {
        segment
    }
}

/// A text cut every `width` characters; an empty one is a row.
pub open spec fn cut_rows(s: Seq<char>, width: int) -> Seq<LineView> {
    Seq::new(
        rows_for(s.len() as int, width) as nat,
        |k: int|
            text_line(s.subrange(k * width, earlier((k + 1) * width, s.len() as int))),
    )
}

/// The rows of the prompt.
pub open spec fn input_page(segments: Seq<Seq<char>>, width: int) -> Seq<LineView>
    decreases segments.len(),
{
    if segments.len() == 0 {
        Seq::empty()
    } else {
        input_page(segments.drop_last(), width) + cut_rows(
            marked_line(segments.last(), segments.len() == 1),
            width,
        )
    }
}

fn cut_lines(s: &str, width: usize) -> (out: Vec<Line>)
    requires
        width > 0,
    ensures
        lines_view(out@) == cut_rows(s@, width as int),
{
    let cs = chars_of(s);
    let ghost w = width as int;
    let mut out = no_lines();
    if cs.len() == 0 {
        push_line(&mut out, Line::raw(""));
        proof {
            reveal_strlit("");
            assert(s@.subrange(0, 0) =~= ""@);
            assert(0 * w == 0);
        }
        assert(lines_view(out@) =~= cut_rows(s@, w));
        return out;
    }
    let rows = rows_needed(cs.len(), width);
    let mut k: usize = 0;
    let mut at: usize = 0;
    assert(lines_view(out@) =~= cut_rows(s@, w).take(0));
    while k < rows
        invariant
            width > 0,
            w == width,
            cs@ == s@,
            cs@.len() > 0,
            k <= rows,
            rows == rows_for(s@.len() as int, w),
            at == earlier(k * w, s@.len() as int),
            lines_view(out@) == cut_rows(s@, w).take(k as int),
        decreases rows - k,
    {
        let left: usize = cs.len() - at;
        let end: usize = if left <= width {
            cs.len()
        } else {
            at + width
        };
        proof {
            lemma_row_begins(s@.len() as int, w, k as int);
            assert((k + 1) * w == k * w + w) by (nonlinear_arith);
        }
        push_line(&mut out, Line::raw(string_of(&cs, at, end).as_str()));
        at = end;
        k = k + 1;
        assert(cut_rows(s@, w).take(k as int) =~= cut_rows(s@, w).take(k - 1).push(
            cut_rows(s@, w)[k - 1],
        ));
    }
    assert(cut_rows(s@, w).take(k as int) =~= cut_rows(s@, w));
    out
}

/// Every row of a text begins before its end.
proof fn lemma_row_begins(n: int, width: int, k: int)
    requires
        0 < width,
        0 < n,
        0 <= k < rows_for(n, width),
    ensures
        0 <= k * width < n,
{
    let q = (n + width - 1) / width;
    vstd::arithmetic::div_mod::lemma_fundamental_div_mod(n + width - 1, width);
    vstd::arithmetic::div_mod::lemma_mod_bound(n + width - 1, width);
    assert(0 <= k * width) by (nonlinear_arith)
        requires
            0 <= k,
            0 < width,
    ;
    assert(k * width <= (q - 1) * width) by (nonlinear_arith)
        requires
            k <= q - 1,
            0 < width,
    ;
    assert((q - 1) * width == width * q - width) by (nonlinear_arith);
}

/// The rows of the prompt, with its mark, in a column of `width`; none where
/// the column has no room.
pub fn input_lines(text: &str, width: u16) -> (out: Vec<Line>)
    ensures
        lines_view(out@) == (if width == 0 {
            Seq::empty()
        } else {
            input_page(split(text@, '\n'), width as int)
        }),
{
    let mut out = no_lines();
    if width == 0 {
        return out;
    }
    let segments = split_text(text, '\n');
    let ghost all = split(text@, '\n');
    assert(texts(segments@).len() == segments@.len());
    let mut i: usize = 0;
    assert(all.take(0) =~= Seq::<Seq<char>>::empty());
    while i < segments.len()
        invariant
            i <= segments@.len(),
            width > 0,
            all == texts(segments@),
            lines_view(out@) == input_page(all.take(i as int), width as int),
        decreases segments@.len() - i,
    {
        let line = if i == 0 {
            cat2("> ", segments[i].as_str())
        } else {
            segments[i].clone()
        };
        assert(all[i as int] == segments@[i as int]@);
        extend_lines(&mut out, cut_lines(line.as_str(), width as usize));
        i = i + 1;
        assert(all.take(i as int).drop_last() =~= all.take(i - 1));
    }
    assert(all.take(i as int) =~= all);
    out
}

/// Where the cursor stands, by column and row: behind the text before it,
/// in the last row that is shown at the latest.
pub open spec fn cursor_at(before: Seq<char>, width: int, rows: int) -> (int, int) {
    let segments = split(before, '\n');
    let last = segments.len() - 1;
    let chars = line_chars(segments, last);
    let above = prompt_rows(segments.take(last), width);
    (chars % width, earlier(above + chars / width, rows - 1))
}

/// Where the cursor stands in the rows of the prompt, by column and row.
pub fn cursor_cell(before: &str, width: u16, rows: u16) -> (r: (u16, u16))
    requires
        0 < width,
        0 < rows <= INPUT_MAX_ROWS,
    ensures
        (r.0 as int, r.1 as int) == cursor_at(before@, width as int, rows as int),
{
    let segments = split_text(before, '\n');
    assert(texts(segments@).len() == segments@.len());
    proof {
        lemma_split_some(before@, '\n');
    }
    let last: usize = segments.len() - 1;
    let ghost all = texts(segments@);
    let above = rows_of_segments(&segments, last, width as usize);
    let n = count_chars(segments[last].as_str());
    assert(all[last as int] == segments@[last as int]@);
    let w: usize = width as usize;
    let extra: usize = if last == 0 {
        PROMPT_CHARS
    } else {
        0
    };
    let ghost chars = n + extra;
    // The column: the remainder, taken twice so that nothing overflows.
    let rest: usize = n % w;
    let col: usize = (rest + extra) % w;
    proof {
        vstd::arithmetic::div_mod::lemma_add_mod_noop_right(extra as int, n as int, w as int);
    }
    // The row: one more for each full width.
    let full: usize = n / w;
    let more: usize = (rest + extra) / w;
    proof {
        vstd::arithmetic::div_mod::lemma_fundamental_div_mod(n as int, w as int);
        vstd::arithmetic::div_mod::lemma_fundamental_div_mod(rest + extra, w as int);
        let q = n as int / w as int;
        let p = (rest + extra) / w as int;
        assert(chars == (q + p) * w + col) by (nonlinear_arith)
            requires
                n == w * q + rest,
                rest + extra == w * p + col,
                chars == n + extra,
        ;
        vstd::arithmetic::div_mod::lemma_fundamental_div_mod_converse(
            chars,
            w as int,
            q + p,
            col as int,
        );
        lemma_prompt_rows_positive(all.take(last as int), width as int);
        vstd::arithmetic::div_mod::lemma_div_is_ordered_by_denominator(
            rest + extra,
            1,
            w as int,
        );
        vstd::arithmetic::div_mod::lemma_div_pos_is_pos(rest + extra, w as int);
    }
    let top: usize = rows as usize - 1;
    let row: usize = if full > top {
        top
    } else if above + full + more > top {
        top
    } else {
        above + full + more
    };
    (col as u16, row as u16)
}

proof fn lemma_split_some(s: Seq<char>, c: char)
    ensures
        split(s, c).len() > 0,
{
}

// ---------------------------------------------------------------------------
// The strip above the prompt
// ---------------------------------------------------------------------------

/// Characters of a waiting prompt that are shown at most.
pub const QUEUED_PREVIEW_CHARS: usize = 48;

/// A text on one line: a space stands for each line feed.
pub open spec fn on_one_line(s: Seq<char>) -> Seq<char> {
    s.map_values(
        |c: char|
            if c == '\n' {
                ' '
            } else {
                c
            },
    )
}

fn joined_lines(s: &str) -> (out: String)
    ensures
        out@ == on_one_line(s@),
{
    let cs = chars_of(s);
    let mut out = String::new();
    let mut i: usize = 0;
    assert(out@ =~= on_one_line(cs@).take(0));
    while i < cs.len()
        invariant
            i <= cs@.len(),
            out@ == on_one_line(cs@).take(i as int),
        decreases cs@.len() - i,
    {
        out.push(
            if cs[i] == '\n' {
                ' '
            } else {
                cs[i]
            },
        );
        i = i + 1;
        assert(on_one_line(cs@).take(i as int) =~= on_one_line(cs@).take(i - 1).push(
            on_one_line(cs@)[i - 1],
        ));
    }
    assert(on_one_line(cs@).take(cs@.len() as int) =~= on_one_line(cs@));
    out
}

/// The first waiting prompt on one line, and how many wait behind it.
pub open spec fn queued_text(queue: Seq<Seq<char>>) -> Option<Seq<char>> {
    if queue.len() == 0 {
        None
    } else {
        Some(
            "QUEUED: "@ + on_one_line(prefix(queue[0], QUEUED_PREVIEW_CHARS as int)) + (if queue.len()
                > 1 {
                " (+"@ + decimal((queue.len() - 1) as nat) + " more)"@
            } else {
                Seq::empty()
            }),
        )
    }
}

/// The first waiting prompt, and how many wait behind it; nothing where none
/// waits.
pub fn format_queued_indicator(queue: &VecDeque<String>) -> (r: Option<String>)
    ensures
        crate::text::opt_text(r) == queued_text(texts(queue@)),
{
    assert(texts(queue@).len() == queue@.len());
    if queue.len() == 0 {
        return None;
    }
    assert(texts(queue@)[0] == queue@[0]@);
    let preview = take_chars(queue[0].as_str(), QUEUED_PREVIEW_CHARS);
    let suffix = if queue.len() > 1 {
        cat3(" (+", decimal_usize(queue.len() - 1).as_str(), " more)")
    } else {
        String::new()
    };
    Some(cat3("QUEUED: ", joined_lines(preview.as_str()).as_str(), suffix.as_str()))
}

/// Whether a notice is to be seen.
pub open spec fn notice_up(t: Option<Toast<Seq<char>>>, now: u64) -> bool {
    match t {
        Some(t) => elapsed(t.shown_at, now) < TOAST_TTL_MS,
        None => false,
    }
}

fn has_notice(app: &App, now: u64) -> (r: bool)
    ensures
        r == notice_up(app@.toast, now),
{
    match &app.toast {
        Some(t) => !t.is_expired(now),
        None => false,
    }
}

/// Rows of the strip: one for a notice or for waiting prompts.
pub open spec fn strip_height(app: AppView, now: u64) -> int {
    if notice_up(app.toast, now) || app.queued.len() > 0 {
        1
    } else {
        0
    }
}

/// Rows of the strip: one for a notice or for waiting prompts.
pub fn strip_rows(app: &App, now: u64) -> (r: u16)
    ensures
        r == strip_height(app@, now),
{
    assert(texts(app.queued@).len() == app.queued@.len());
    if has_notice(app, now) || app.queued.len() > 0 {
        1
    } else {
        0
    }
}

pub open spec fn notice_row(t: Toast<Seq<char>>) -> LineView {
    let style = match t.level {
        ToastLevel::Error => plain().with_fg(Color::White).with_bg(Color::Red),
        ToastLevel::Warn => plain().with_fg(Color::Black).with_bg(Color::Yellow),
        ToastLevel::Info => plain().with_fg(Color::Gray).with_bg(Color::Reset),
    };
    row(seq![span(t.text, style.with_bold())])
}

fn notice_line(t: &Toast) -> (l: Line)
    ensures
        l@ == notice_row(t@),
{
    let style = match t.level {
        ToastLevel::Error => Style::default().fg(Color::White).bg(Color::Red),
        ToastLevel::Warn => Style::default().fg(Color::Black).bg(Color::Yellow),
        ToastLevel::Info => Style::default().fg(Color::Gray).bg(Color::Reset),
    };
    Line::of1(styled(t.text.as_str(), style.bold()))
}

/// What the strip shows: the notice before the waiting prompts.
pub open spec fn strip_row(app: AppView, now: u64) -> Option<LineView> {
    if notice_up(app.toast, now) {
        Some(notice_row(app.toast->0))
    } else {
        match queued_text(app.queued) {
            Some(t) => Some(
                row(seq![span(t, plain().with_fg(Color::DarkGray).with_italic())]),
            ),
            None => None,
        }
    }
}

pub open spec fn opt_line(o: Option<Line>) -> Option<LineView> {
    match o {
        Some(l) => Some(l@),
        None => None,
    }
}

/// What the strip shows: the notice before the waiting prompts.
pub fn strip_line(app: &App, now: u64) -> (r: Option<Line>)
    ensures
        opt_line(r) == strip_row(app@, now),
{
    if has_notice(app, now) {
        if let Some(t) = &app.toast {
            return Some(notice_line(t));
        }
    }
    match format_queued_indicator(&app.queued) {
        Some(t) => Some(
            Line::of1(styled(t.as_str(), Style::default().fg(Color::DarkGray).italic())),
        ),
        None => None,
    }
}

// ---------------------------------------------------------------------------
// The frame
// ---------------------------------------------------------------------------

/// How the screen is split from top to bottom: the transcript, a rule, the
/// strip, the prompt, a rule and the status bar.
pub open spec fn screen_sizes(strip: u16, input: u16) -> Seq<Size> {
    seq![
        Size::Min(0),
        Size::Length(1),
        Size::Length(strip),
        Size::Length(input),
        Size::Length(1),
        Size::Length(1),
    ]
}

/// How the screen is split from top to bottom.
pub fn main_sizes(strip: u16, input: u16) -> (sizes: Vec<Size>)
    ensures
        sizes@ == screen_sizes(strip, input),
{
    let mut sizes: Vec<Size> = Vec::new();
    sizes.push(Size::Min(0));
    sizes.push(Size::Length(1));
    sizes.push(Size::Length(strip));
    sizes.push(Size::Length(input));
    sizes.push(Size::Length(1));
    sizes.push(Size::Length(1));
    assert(sizes@ =~= screen_sizes(strip, input));
    sizes
}

/// The rows of the transcript in a column of `width`.
pub open spec fn output_rows(app: AppView, width: u16) -> Seq<LineView> {
    if width == 0 {
        transcript_rows(app.transcript)
    } else {
        wrapped_all(transcript_rows(app.transcript), width as int)
    }
}

/// The last position that so many rows can be scrolled to.
pub open spec fn scroll_end(rows: int, visible: u16) -> int {
    if cap_u16(rows) > visible {
        cap_u16(rows) - visible
    } else {
        0
    }
}

/// The state once the transcript has been placed: at its end while it is
/// followed, and never behind it.
pub open spec fn placed(app: AppView, rows: int, visible: u16) -> AppView {
    let end = scroll_end(rows, visible);
    AppView {
        last_max_scroll: end as u16,
        scroll: (if app.auto_scroll {
            end
        } else {
            earlier(app.scroll as int, end)
        }) as u16,
        ..app
    }
}

/// Places the transcript.
pub fn place_transcript(app: &mut App, rows: usize, visible: u16)
    requires
        old(app).wf(),
    ensures
        final(app).wf(),
        final(app)@ == placed(old(app)@, rows as int, visible),
{
    let end = to_u16(rows).saturating_sub(visible);
    if app.auto_scroll || app.scroll > end {
        app.scroll = end;
    }
    app.last_max_scroll = end;
}

/// What is to be drawn.
#[derive(Debug)]
pub struct Frame {
    pub transcript: Vec<Line>,
    pub strip: Option<Line>,
    pub input: Vec<Line>,
    /// Column and row of the cursor in the prompt, where there is room.
    pub cursor: Option<(u16, u16)>,
    pub status: Line,
}

#[verifier::ext_equal]
pub struct FrameView {
    pub transcript: Seq<LineView>,
    pub strip: Option<LineView>,
    pub input: Seq<LineView>,
    pub cursor: Option<(int, int)>,
    pub status: LineView,
}

impl View for Frame {
    type V = FrameView;

    open spec fn view(&self) -> FrameView {
        FrameView {
            transcript: lines_view(self.transcript@),
            strip: opt_line(self.strip),
            input: lines_view(self.input@),
            cursor: match self.cursor {
                Some((c, r)) => Some((c as int, r as int)),
                None => None,
            },
            status: self.status@,
        }
    }
}

/// What is to be drawn in the areas of the screen. `input` is the height
/// that the prompt was given.
pub open spec fn drawn(
    app: AppView,
    areas: Seq<Rect>,
    input: u16,
    info: StatusInfoView,
    now: u64,
) -> FrameView {
    FrameView {
        transcript: output_rows(app, areas[0].width),
        strip: strip_row(app, now),
        input: if areas[3].width == 0 {
            Seq::empty()
        } else {
            input_page(split(app.input.text, '\n'), areas[3].width as int)
        },
        cursor: if areas[3].width == 0 {
            None
        } else {
            Some(
                cursor_at(
                    app.input.text.take(app.input.at),
                    areas[3].width as int,
                    input as int,
                ),
            )
        },
        status: status_row(app, info, now),
    }
}

/// The frame for the areas of the screen; the transcript is placed in its
/// area.
pub fn frame_in(
    app: &mut App,
    areas: &Vec<Rect>,
    input: u16,
    info: &StatusInfo,
    now: u64,
) -> (f: Frame)
    requires
        old(app).wf(),
        areas@.len() == 6,
        0 < input <= INPUT_MAX_ROWS,
    ensures
        final(app).wf(),
        f@ == drawn(old(app)@, areas@, input, info@, now),
        final(app)@ == placed(
            old(app)@,
            output_rows(old(app)@, areas@[0].width).len() as int,
            areas@[0].height,
        ),
{
    let transcript = wrap_lines_to_width(render_transcript(app), areas[0].width);
    let strip = strip_line(app, now);
    let width = areas[3].width;
    let input_rows = input_lines(app.input.buffer.as_str(), width);
    let cursor = if width == 0 {
        None
    } else {
        let before = app.input.before_cursor();
        Some(cursor_cell(before.as_str(), width, input))
    };
    let status = render_status(app, info, now);
    assert(lines_view(transcript@).len() == transcript@.len());
    place_transcript(app, transcript.len(), areas[0].height);
    Frame { transcript, strip, input: input_rows, cursor, status }
}

/// Splits the screen and fills it.
pub fn render(app: &mut App, screen: Rect, info: &StatusInfo, now: u64) -> (r: (Vec<Rect>, Frame))
    requires
        old(app).wf(),
    ensures
        final(app).wf(),
        split_into(
            r.0@,
            screen,
            true,
            screen_sizes(
                strip_height(old(app)@, now) as u16,
                prompt_height(old(app)@.input.text, screen.width as int) as u16,
            ),
        ),
        r.1@ == drawn(
            old(app)@,
            r.0@,
            prompt_height(old(app)@.input.text, screen.width as int) as u16,
            info@,
            now,
        ),
        final(app)@ == placed(
            old(app)@,
            output_rows(old(app)@, r.0@[0].width).len() as int,
            r.0@[0].height,
        ),
{
    let input = input_rows(app.input.buffer.as_str(), screen.width);
    proof {
        if screen.width > 0 {
            lemma_split_some(app@.input.text, '\n');
            lemma_prompt_rows_positive(split(app@.input.text, '\n'), screen.width as int);
        }
    }
    let areas = split_area(screen, true, &main_sizes(strip_rows(app, now), input));
    let f = frame_in(app, &areas, input, info, now);
    (areas, f)
}

/// What the sub-prompt is about.
pub open spec fn subject(req: Option<crate::ask::AskRequestView>) -> (Seq<char>, Seq<char>) {
    match req {
        Some(r) => (r.tool_name, r.input_summary),
        None => ("(rule editor)"@, ""@),
    }
}

/// What the sub-prompt is about: the tool and its input.
pub fn subprompt_subject(req: &Option<AskRequest>) -> (r: (String, String))
    ensures
        (r.0@, r.1@) == subject(crate::app::opt_request(*req)),
{
    match req {
        Some(r) => (r.tool_name.clone(), r.input_summary.clone()),
        None => (String::from_str("(rule editor)"), String::from_str("")),
    }
}

// ---------------------------------------------------------------------------
// Laws
// ---------------------------------------------------------------------------

proof fn lemma_decimal_on_one_line(n: nat)
    ensures
        !decimal(n).contains('\n'),
    decreases n,
{
    if n >= 10 {
        lemma_decimal_on_one_line(n / 10);
        let d = decimal(n / 10);
        assert forall|i: int| 0 <= i < decimal(n).len() implies decimal(n)[i] != '\n' by {
            if i < d.len() {
                assert(decimal(n)[i] == d[i]);
                assert(d.contains(d[i]));
            }
        }
    }
}

/// What is said of the waiting prompts holds no line feed, and shows all of
/// the first one where that is one short line.
pub proof fn law_waiting_prompts_take_one_line(queue: Seq<Seq<char>>)
    requires
        queue.len() > 0,
    ensures
        queued_text(queue) is Some,
        !queued_text(queue)->0.contains('\n'),
        !queue[0].contains('\n') && queue[0].len() <= QUEUED_PREVIEW_CHARS ==> ("QUEUED: "@
            + queue[0]).is_prefix_of(queued_text(queue)->0),
        queue.len() == 1 && !queue[0].contains('\n') && queue[0].len() <= QUEUED_PREVIEW_CHARS
            ==> queued_text(queue)->0 == "QUEUED: "@ + queue[0],
{
    reveal_strlit("QUEUED: ");
    reveal_strlit(" (+");
    reveal_strlit(" more)");
    lemma_decimal_on_one_line((queue.len() - 1) as nat);
    let shown = prefix(queue[0], QUEUED_PREVIEW_CHARS as int);
    let row = on_one_line(shown);
    let all = queued_text(queue)->0;
    let head = "QUEUED: "@ + row;
    let n = decimal((queue.len() - 1) as nat);
    let tail = " (+"@ + n + " more)"@;
    assert forall|i: int| 0 <= i < all.len() implies all[i] != '\n' by {
        if i < head.len() {
            assert(all[i] == head[i]);
        } else {
            assert(all[i] == tail[i - head.len()]);
            if 3 <= i - head.len() < 3 + n.len() {
                assert(tail[i - head.len()] == n[i - head.len() - 3]);
                assert(n.contains(n[i - head.len() - 3]));
            }
        }
    }
    if !queue[0].contains('\n') && queue[0].len() <= QUEUED_PREVIEW_CHARS {
        assert(shown =~= queue[0]);
        assert(row =~= queue[0]) by {
            assert forall|i: int| 0 <= i < row.len() implies row[i] == queue[0][i] by {
                assert(queue[0].contains(queue[0][i]));
            }
        }
        assert(all =~= head + all.skip(head.len() as int));
        if queue.len() == 1 {
            assert(all =~= head);
        }
    }
}

/// Where there is room, the parts of the screen fill it from top to bottom
/// without a gap, the strip and the prompt have the rows that they take, and
/// the status bar is the last row.
pub proof fn law_parts_fill_the_screen(areas: Seq<Rect>, screen: Rect, strip: u16, input: u16)
    requires
        split_into(areas, screen, true, screen_sizes(strip, input)),
        strip + input + 3 <= extent(screen, true),
    ensures
        areas.len() == 6,
        areas[0].y == screen.y,
        forall|i: int|
            #![trigger areas[i]]
            0 <= i < 5 ==> areas[i + 1].y == areas[i].y + areas[i].height,
        areas[0].height == extent(screen, true) - 3 - strip - input,
        areas[2].height == strip,
        areas[3].height == input,
        areas[5].height == 1,
        areas[5].y + 1 == screen.y + extent(screen, true),
{
    let sizes = screen_sizes(strip, input);
    let len = extent(screen, true);
    reveal_with_fuel(all_cells, 7);
    reveal_with_fuel(stretchy, 7);
    assert(sizes.take(6) =~= sizes);
    assert(sizes.take(6).drop_last() =~= sizes.take(5));
    assert(sizes.take(5).drop_last() =~= sizes.take(4));
    assert(sizes.take(4).drop_last() =~= sizes.take(3));
    assert(sizes.take(3).drop_last() =~= sizes.take(2));
    assert(sizes.take(2).drop_last() =~= sizes.take(1));
    assert(sizes.take(1).drop_last() =~= sizes.take(0));
    assert(!(sizes[0] is Percentage));
    assert(edge(sizes, len, 0) == 0);
    assert(edge(sizes, len, 1) == len - 3 - strip - input);
    assert(edge(sizes, len, 2) == edge(sizes, len, 1) + 1);
    assert(edge(sizes, len, 3) == edge(sizes, len, 2) + strip);
    assert(edge(sizes, len, 4) == edge(sizes, len, 3) + input);
    assert(edge(sizes, len, 5) == edge(sizes, len, 4) + 1);
    assert(edge(sizes, len, 6) == len);
}

/// While the transcript is followed its end is in view, and drawing it
/// again changes nothing.
pub proof fn law_placing_settles(app: AppView, rows: int, visible: u16)
    requires
        0 <= rows,
    ensures
        placed(placed(app, rows, visible), rows, visible) == placed(app, rows, visible),
        placed(app, rows, visible).scroll <= placed(app, rows, visible).last_max_scroll,
        app.auto_scroll ==> placed(app, rows, visible).scroll == placed(
            app,
            rows,
            visible,
        ).last_max_scroll,
{
}

/// The prompt has as many rows as it was measured to take, as long as those
/// are no more than are shown.
pub proof fn law_prompt_rows_match_their_measure(segments: Seq<Seq<char>>, width: int)
    requires
        0 < width,
    ensures
        input_page(segments, width).len() == prompt_rows(segments, width),
    decreases segments.len(),
{
    if segments.len() > 0 {
        law_prompt_rows_match_their_measure(segments.drop_last(), width);
        reveal_strlit("> ");
        let last = segments.len() - 1;
        let line = marked_line(segments.last(), segments.len() == 1);
        assert(line.len() == line_chars(segments, last));
        lemma_rows_positive(line_chars(segments, last), width);
    }
}

/// The cursor stands in the column and in a row that is shown.
pub proof fn law_cursor_stays_in_view(before: Seq<char>, width: int, rows: int)
    requires
        0 < width,
        0 < rows,
    ensures
        0 <= cursor_at(before, width, rows).0 < width,
        0 <= cursor_at(before, width, rows).1 < rows,
{
    let segments = split(before, '\n');
    let last = segments.len() - 1;
    lemma_split_some(before, '\n');
    vstd::arithmetic::div_mod::lemma_mod_bound(line_chars(segments, last), width);
    vstd::arithmetic::div_mod::lemma_div_pos_is_pos(line_chars(segments, last), width);
    lemma_prompt_rows_positive(segments.take(last), width);
}

/// A notice hides the waiting prompts while it is up, and only then.
pub proof fn law_notices_come_first(app: AppView, now: u64)
    ensures
        notice_up(app.toast, now) ==> strip_row(app, now) == Some(notice_row(app.toast->0)),
        !notice_up(app.toast, now) && app.queued.len() > 0 ==> strip_row(app, now) is Some,
        strip_row(app, now) is Some <==> strip_height(app, now) == 1,
{
}

/// A prompt takes the rows of its lines, the first with two more characters
/// for its mark; ten rows are shown at most, and one where there is no room.
pub proof fn law_prompts_are_measured_line_by_line(
    segments: Seq<Seq<char>>,
    last: Seq<char>,
    text: Seq<char>,
    width: int,
)
    ensures
        prompt_rows(seq![last], width) == rows_for(last.len() as int + 2, width),
        segments.len() > 0 ==> prompt_rows(segments.push(last), width) == prompt_rows(
            segments,
            width,
        ) + rows_for(last.len() as int, width),
        prompt_height(text, 0) == 1,
        width > 0 && prompt_rows(split(text, '\n'), width) <= 10 ==> prompt_height(text, width)
            == prompt_rows(split(text, '\n'), width),
        width > 0 && prompt_rows(split(text, '\n'), width) > 10 ==> prompt_height(text, width)
            == 10,
{
    assert(segments.push(last).drop_last() =~= segments);
    assert(seq![last].drop_last() =~= Seq::empty());
    assert(prompt_rows(Seq::empty(), width) == 0);
}

/// The mark stands before the first line of a prompt alone, and the rows of
/// a line follow those of the lines before it.
pub proof fn law_the_mark_stands_before_the_first_line(
    segments: Seq<Seq<char>>,
    last: Seq<char>,
    width: int,
)
    ensures
        input_page(seq![last], width) == cut_rows("> "@ + last, width),
        segments.len() > 0 ==> input_page(segments.push(last), width) == input_page(
            segments,
            width,
        ) + cut_rows(last, width),
{
    assert(segments.push(last).drop_last() =~= segments);
    assert(seq![last].drop_last() =~= Seq::empty());
    assert(input_page(Seq::empty(), width) == Seq::<LineView>::empty());
    assert(Seq::<LineView>::empty() + cut_rows("> "@ + last, width) =~= cut_rows(
        "> "@ + last,
        width,
    ));
}

/// A line is cut every so many characters: the `k`-th row holds what starts
/// `k` widths in, up to the next or to the end.
pub proof fn law_rows_are_cut_at_the_width(s: Seq<char>, width: int, k: int)
    requires
        width > 0,
        0 <= k < cut_rows(s, width).len(),
    ensures
        cut_rows(s, width).len() == rows_for(s.len() as int, width),
        (k + 1) * width <= s.len() ==> cut_rows(s, width)[k] == text_line(
            s.subrange(k * width, (k + 1) * width),
        ),
        (k + 1) * width > s.len() ==> cut_rows(s, width)[k] == text_line(
            s.subrange(k * width, s.len() as int),
        ),
{
    if s.len() > 0 {
        lemma_rows_positive(s.len() as int, width);
    }
}

/// On the first line the cursor stands two characters further than the text
/// before it, on a later line right behind it, each wrapped at the width; it
/// stands below the rows of the lines above, but in the last row that is
/// shown at the latest.
pub proof fn law_the_cursor_follows_the_text(
    above: Seq<char>,
    line: Seq<char>,
    width: int,
    rows: int,
)
    requires
        !line.contains('\n'),
    ensures
        cursor_at(line, width, rows).0 == (line.len() as int + 2) % width,
        (line.len() as int + 2) / width < rows ==> cursor_at(line, width, rows).1 == (line.len() as int + 2)
            / width,
        (line.len() as int + 2) / width >= rows ==> cursor_at(line, width, rows).1 == rows - 1,
        cursor_at(above + seq!['\n'] + line, width, rows).0 == line.len() as int % width,
        ({
            let y = prompt_rows(split(above, '\n'), width) + line.len() as int / width;
            cursor_at(above + seq!['\n'] + line, width, rows).1 == (if y < rows {
                y
            } else {
                rows - 1
            })
        }),
{
    lemma_split_line(line);
    assert(seq![line].take(0) =~= Seq::empty());
    lemma_split_last(above, line);
    lemma_split_some(above, '\n');
    let segments = split(above, '\n');
    assert(segments.push(line).take(segments.len() as int) =~= segments);
}

proof fn lemma_split_line(line: Seq<char>)
    requires
        !line.contains('\n'),
    ensures
        split(line, '\n') == seq![line],
{
    lemma_find_char(line, '\n');
    let n = find_char(line, '\n') as int;
    if n < line.len() {
        assert(line.contains(line[n]));
    }
}

proof fn lemma_split_last(above: Seq<char>, line: Seq<char>)
    requires
        !line.contains('\n'),
    ensures
        split(above + seq!['\n'] + line, '\n') == split(above, '\n').push(line),
    decreases above.len(),
{
    let all = above + seq!['\n'] + line;
    lemma_find_char(all, '\n');
    lemma_find_char(above, '\n');
    let n = find_char(all, '\n') as int;
    let m = find_char(above, '\n') as int;
    assert(all[above.len() as int] == '\n');
    if m < above.len() {
        assert(all[m] == above[m]);
        if n < m {
            assert(all[n] == above[n]);
        }
        assert(n == m);
        let rest = above.skip(m + 1);
        assert(all.skip(n + 1) =~= rest + seq!['\n'] + line);
        assert(all.take(n) =~= above.take(m));
        lemma_split_last(rest, line);
        assert(split(all, '\n') =~= split(above, '\n').push(line));
    } else {
        if n < above.len() {
            assert(all[n] == above[n]);
        }
        assert(n == above.len());
        assert(all.take(n) =~= above);
        assert(all.skip(n + 1) =~= line);
        lemma_split_line(line);
        assert(split(above, '\n') =~= seq![above]);
        assert(split(all, '\n') =~= seq![above, line]);
        assert(seq![above].push(line) =~= seq![above, line]);
    }
}

/// The first waiting prompt is shown up to forty-eight characters, with a
/// space for each line feed, and the others are counted.
pub proof fn law_waiting_prompts_are_counted(queue: Seq<Seq<char>>, s: Seq<char>, i: int)
    ensures
        queue.len() == 0 ==> queued_text(queue) is None,
        queue.len() == 1 ==> queued_text(queue) == Some(
            "QUEUED: "@ + on_one_line(prefix(queue[0], 48)),
        ),
        queue.len() > 1 ==> queued_text(queue) == Some(
            "QUEUED: "@ + on_one_line(prefix(queue[0], 48)) + (" (+"@ + decimal(
                (queue.len() - 1) as nat,
            ) + " more)"@),
        ),
        on_one_line(s).len() == s.len(),
        0 <= i < s.len() && s[i] == '\n' ==> on_one_line(s)[i] == ' ',
        0 <= i < s.len() && s[i] != '\n' ==> on_one_line(s)[i] == s[i],
{
    if queue.len() == 1 {
        let text = "QUEUED: "@ + on_one_line(prefix(queue[0], 48));
        assert(text + Seq::<char>::empty() =~= text);
    }
}

/// The strip has a row for a notice of the last five seconds or for prompts
/// that wait, and otherwise none.
pub proof fn law_the_strip_shows_when_needed(app: AppView, now: u64)
    ensures
        strip_height(app, now) == 0 || strip_height(app, now) == 1,
        app.queued.len() > 0 ==> strip_height(app, now) == 1,
        app.toast is None && app.queued.len() == 0 ==> strip_height(app, now) == 0,
        app.toast is Some && now < app.toast->0.shown_at + 5000 ==> strip_height(app, now) == 1
            && notice_up(app.toast, now),
        app.toast is Some && now >= app.toast->0.shown_at + 5000 ==> !notice_up(app.toast, now),
        app.toast is Some && now >= app.toast->0.shown_at + 5000 && app.queued.len() == 0
            ==> strip_height(app, now) == 0,
{
}

/// A notice is bold, and its colours tell its level; waiting prompts are
/// grey and slanted.
pub proof fn law_notices_are_coloured_by_level(t: Toast<Seq<char>>, app: AppView, now: u64)
    ensures
        notice_row(t).spans.len() == 1,
        notice_row(t).spans[0].content == t.text,
        notice_row(t).spans[0].style.bold,
        t.level == ToastLevel::Error ==> notice_row(t).spans[0].style.fg == Some(Color::White)
            && notice_row(t).spans[0].style.bg == Some(Color::Red),
        t.level == ToastLevel::Warn ==> notice_row(t).spans[0].style.fg == Some(Color::Black)
            && notice_row(t).spans[0].style.bg == Some(Color::Yellow),
        t.level == ToastLevel::Info ==> notice_row(t).spans[0].style.fg == Some(Color::Gray)
            && notice_row(t).spans[0].style.bg == Some(Color::Reset),
        !notice_up(app.toast, now) && app.queued.len() > 0 ==> strip_row(app, now) == Some(
            row(
                seq![
                    span(
                        queued_text(app.queued)->0,
                        plain().with_fg(Color::DarkGray).with_italic(),
                    ),
                ],
            ),
        ),
{
}

/// The screen is split into the transcript, a rule, the strip, the prompt, a
/// rule and the bar; the transcript takes what is left.
pub proof fn law_the_screen_has_six_parts(strip: u16, input: u16)
    ensures
        screen_sizes(strip, input).len() == 6,
        screen_sizes(strip, input)[0] == Size::Min(0),
        screen_sizes(strip, input)[1] == Size::Length(1),
        screen_sizes(strip, input)[2] == Size::Length(strip),
        screen_sizes(strip, input)[3] == Size::Length(input),
        screen_sizes(strip, input)[4] == Size::Length(1),
        screen_sizes(strip, input)[5] == Size::Length(1),
{
}

/// The transcript is wrapped at its width, and shown as it is where it has
/// none.
pub proof fn law_the_transcript_is_wrapped(app: AppView, width: u16)
    ensures
        width > 0 ==> output_rows(app, width) == wrapped_all(
            transcript_rows(app.transcript),
            width as int,
        ),
        output_rows(app, 0) == transcript_rows(app.transcript),
{
}

/// A transcript that fits is not scrolled; one that does not can be scrolled
/// until its last row is at the bottom. What is followed stands there; what
/// is not stays where it was, up to there. Nothing else changes.
pub proof fn law_scrolling_ends_at_the_last_row(app: AppView, rows: int, visible: u16)
    requires
        0 <= rows <= 65535,
    ensures
        ({
            let end = if rows > visible {
                rows - visible
            } else {
                0
            };
            let after = placed(app, rows, visible);
            &&& after.last_max_scroll == end
            &&& app.auto_scroll ==> after.scroll == end
            &&& !app.auto_scroll && app.scroll <= end ==> after.scroll == app.scroll
            &&& !app.auto_scroll && app.scroll > end ==> after.scroll == end
            &&& after == (AppView {
                scroll: after.scroll,
                last_max_scroll: after.last_max_scroll,
                ..app
            })
        }),
{
}

/// Each part of the frame is drawn in its own area, from the state.
pub proof fn law_frames_draw_each_part(
    app: AppView,
    areas: Seq<Rect>,
    input: u16,
    info: StatusInfoView,
    now: u64,
)
    ensures
        ({
            let f = drawn(app, areas, input, info, now);
            &&& f.transcript == output_rows(app, areas[0].width)
            &&& f.strip == strip_row(app, now)
            &&& f.status == status_row(app, info, now)
            &&& areas[3].width == 0 ==> f.input.len() == 0 && f.cursor is None
            &&& areas[3].width > 0 ==> f.input == input_page(
                split(app.input.text, '\n'),
                areas[3].width as int,
            )
            &&& areas[3].width > 0 ==> f.cursor == Some(
                cursor_at(
                    app.input.text.take(app.input.at),
                    areas[3].width as int,
                    input as int,
                ),
            )
        }),
{
}

/// The sub-prompt is about the call that asks, or about a rule where none
/// does.
pub proof fn law_subprompts_are_about_the_call(r: crate::ask::AskRequestView)
    ensures
        subject(Some(r)) == (r.tool_name, r.input_summary),
        subject(None) == ("(rule editor)"@, ""@),
{
}

} // verus!
