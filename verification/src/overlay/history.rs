//! The search through past prompts, and the list of checkpoints.

use vstd::prelude::*;

use crate::reverse_history::{ReverseHistoryState, ReverseHistoryView};
use crate::rewind::{ManifestKind, PromptSummary};
use crate::style::{
    bare, blank_line, lines_view, no_lines, plain, push_line, raw, row, span, styled, styled_text,
    text_line, Color, Line, LineView, Style,
};
use crate::text::{
    cat2, cat3, cat5, decimal, decimal_u64, decimal_usize, pad_left, pad_right, padded_left,
    padded_right, texts,
};

verus! {

/// Rows of prompts that the search shows at most.
pub const MAX_HITS: usize = 40;

/// A prompt that the search found; the chosen one stands out.
pub open spec fn hit_row(text: Seq<char>, chosen: bool) -> LineView {
    row(
        seq![
            span(
                "  "@ + text,
                if chosen {
                    plain().with_fg(Color::Black).with_bg(Color::Cyan)
                } else {
                    plain()
                },
            ),
        ],
    )
}

/// The prompts that the search found, as far as they are shown.
pub open spec fn hit_rows(hits: Seq<Seq<char>>, cursor: int) -> Seq<LineView> {
    Seq::new(
        if hits.len() <= MAX_HITS {
            hits.len()
        } else {
            MAX_HITS as nat
        },
        |i: int| hit_row(hits[i], i == cursor),
    )
}

/// The search: where it looks, what it looks for, and what it found.
pub open spec fn search_page(state: Option<ReverseHistoryView>) -> Seq<LineView> {
    let dim = plain().with_dim();
    match state {
        None => seq![text_line("(no active search)"@)],
        Some(s) => {
            let head = seq![
                row(
                    seq![
                        span(
                            " scope: "@ + s.scope.name() + "  "@,
                            plain().with_fg(Color::Yellow),
                        ),
                        span("(Ctrl+S to cycle)"@, dim),
                    ],
                ),
                row(seq![bare(" query: "@), span(s.query, plain().with_fg(Color::Cyan))]),
                blank_line(),
            ];
            let found = if s.hits().len() == 0 {
                seq![styled_text("   (no matches)"@, dim)]
            } else {
                hit_rows(s.hits(), s.cursor)
            };
            (head + found).push(blank_line()).push(
                styled_text(" Enter: accept   Esc: cancel   Ctrl+S: cycle scope"@, dim),
            )
        },
    }
}

fn push_hits(hits: &Vec<String>, cursor: usize, out: &mut Vec<Line>)
    ensures
        lines_view(final(out)@) == lines_view(old(out)@) + hit_rows(texts(hits@), cursor as int),
{
    let ghost head = lines_view(out@);
    let ghost rows = hit_rows(texts(hits@), cursor as int);
    let mut i: usize = 0;
    assert(head + rows.take(0) =~= head);
    while i < hits.len() && i < MAX_HITS
        invariant
            i <= hits@.len(),
            i <= MAX_HITS,
            rows == hit_rows(texts(hits@), cursor as int),
            lines_view(out@) == head + rows.take(i as int),
        decreases hits@.len() - i,
    {
        let mut style = Style::default();
        if i == cursor {
            style = style.fg(Color::Black).bg(Color::Cyan);
        }
        assert(texts(hits@)[i as int] == hits@[i as int]@);
        push_line(out, Line::of1(styled(cat2("  ", hits[i].as_str()).as_str(), style)));
        i = i + 1;
        assert(rows.take(i as int) =~= rows.take(i - 1).push(rows[i - 1]));
        assert((head + rows.take(i - 1)).push(rows[i - 1]) =~= head + rows.take(i as int));
    }
    assert(texts(hits@).len() == hits@.len());
    assert(rows.take(i as int) =~= rows);
}

pub open spec fn opt_search(o: Option<ReverseHistoryState>) -> Option<ReverseHistoryView> {
    match o {
        Some(s) => Some(s@),
        None => None,
    }
}

/// The search: where it looks, what it looks for, and what it found.
pub fn reverse_history_lines(state: &Option<ReverseHistoryState>) -> (out: Vec<Line>)
    ensures
        lines_view(out@) == search_page(opt_search(*state)),
{
    let dim = Style::default().dim();
    let mut out = no_lines();
    match state {
        None => push_line(&mut out, Line::raw("(no active search)")),
        Some(s) => {
            push_line(
                &mut out,
                Line::of2(
                    styled(
                        cat3(" scope: ", s.scope.label(), "  ").as_str(),
                        Style::default().fg(Color::Yellow),
                    ),
                    styled("(Ctrl+S to cycle)", dim),
                ),
            );
            push_line(
                &mut out,
                Line::of2(
                    raw(" query: "),
                    styled(s.query.as_str(), Style::default().fg(Color::Cyan)),
                ),
            );
            push_line(&mut out, Line::blank());
            let hits = s.matches();
            assert(texts(hits@).len() == hits@.len());
            if hits.len() == 0 {
                let ghost head = lines_view(out@);
                push_line(&mut out, Line::styled("   (no matches)", dim));
                assert(lines_view(out@) =~= head + seq![styled_text("   (no matches)"@, plain().with_dim())]);
            } else {
                push_hits(&hits, s.cursor, &mut out);
            }
            push_line(&mut out, Line::blank());
            push_line(
                &mut out,
                Line::styled(" Enter: accept   Esc: cancel   Ctrl+S: cycle scope", dim),
            );
        },
    }
    out
}

// ---------------------------------------------------------------------------
// Checkpoints
// ---------------------------------------------------------------------------

/// What the store of checkpoints says.
#[derive(Debug)]
pub enum Checkpoints {
    /// There is no store.
    Off,
    /// The list could not be read.
    Failed(String),
    /// The checkpoints, newest first.
    Listed(Vec<PromptSummary>),
}

#[verifier::ext_equal]
pub enum CheckpointsView {
    Off,
    Failed(Seq<char>),
    Listed(Seq<PromptSummary<Seq<char>>>),
}

pub open spec fn summaries_view(v: Seq<PromptSummary<String>>) -> Seq<PromptSummary<Seq<char>>> {
    Seq::new(v.len(), |i: int| v[i]@)
}

impl View for Checkpoints {
    type V = CheckpointsView;

    open spec fn view(&self) -> CheckpointsView {
        match self {
            Checkpoints::Off => CheckpointsView::Off,
            Checkpoints::Failed(e) => CheckpointsView::Failed(e@),
            Checkpoints::Listed(v) => CheckpointsView::Listed(summaries_view(v@)),
        }
    }
}

/// What a checkpoint holds.
pub open spec fn kind_tag(p: PromptSummary<Seq<char>>) -> Seq<char> {
    match p.kind {
        ManifestKind::Plan => "plan"@,
        ManifestKind::Cleared => "cleared"@,
        ManifestKind::Files => decimal(p.file_count as nat) + " file(s)"@,
    }
}

fn kind_text(p: &PromptSummary) -> (r: String)
    ensures
        r@ == kind_tag(p@),
{
    match p.kind {
        ManifestKind::Plan => String::from_str("plan"),
        ManifestKind::Cleared => String::from_str("cleared"),
        ManifestKind::Files => cat2(decimal_usize(p.file_count).as_str(), " file(s)"),
    }
}

/// The row of a checkpoint.
pub open spec fn checkpoint_row(p: PromptSummary<Seq<char>>) -> LineView {
    let title = if p.title.len() == 0 {
        "(no title)"@
    } else {
        p.title
    };
    row(
        seq![
            bare(
                if p.partial {
                    "\u{26a0} "@
                } else {
                    "   "@
                },
            ),
            span(
                "#"@ + pad_left(decimal(p.prompt_index as nat), 3) + "  "@,
                plain().with_fg(Color::Cyan),
            ),
            bare(pad_right(title, 40) + " "@ + p.time + "  "@ + kind_tag(p)),
        ],
    )
}

fn checkpoint_line(p: &PromptSummary) -> (l: Line)
    ensures
        l@ == checkpoint_row(p@),
{
    let title: &str = if p.title.as_str().is_empty() {
        "(no title)"
    } else {
        p.title.as_str()
    };
    let prefix: &str = if p.partial {
        "\u{26a0} "
    } else {
        "   "
    };
    let number = padded_left(decimal_u64(p.prompt_index as u64).as_str(), 3);
    let text = cat5(
        padded_right(title, 40).as_str(),
        " ",
        p.time.as_str(),
        "  ",
        kind_text(p).as_str(),
    );
    Line::of3(
        raw(prefix),
        styled(cat3("#", number.as_str(), "  ").as_str(), Style::default().fg(Color::Cyan)),
        raw(text.as_str()),
    )
}

pub open spec fn checkpoint_rows(list: Seq<PromptSummary<Seq<char>>>) -> Seq<LineView> {
    Seq::new(list.len(), |i: int| checkpoint_row(list[i]))
}

/// The list of checkpoints with what can be done with them.
pub open spec fn rewind_page(c: CheckpointsView) -> Seq<LineView> {
    let dim = plain().with_dim();
    match c {
        CheckpointsView::Off => seq![
            blank_line(),
            styled_text("  (checkpointing not enabled for this session)"@, dim),
            blank_line(),
            text_line("  Checkpointing is opt-in. Disabled when CALIBAN_CHECKPOINT_DISABLED=1"@),
            text_line(
                "  is set, or when caliban was started without a checkpoint store wired in."@,
            ),
        ],
        CheckpointsView::Failed(e) => seq![
            blank_line(),
            styled_text("  error listing checkpoints: "@ + e, plain().with_fg(Color::Red)),
        ],
        CheckpointsView::Listed(list) => if list.len() == 0 {
            seq![
                blank_line(),
                styled_text(
                    "  (no checkpoints yet \u{2014} send a prompt to create one)"@,
                    dim,
                ),
            ]
        } else {
            (seq![blank_line()] + checkpoint_rows(list)).push(blank_line()).push(
                styled_text(
                    "  Actions: [c] code  [v] conversation  [b] both  [s] summarize\u{2192}  [S] summarize\u{2190}"@,
                    dim,
                ),
            ).push(
                styled_text("  \u{2139} Bash and external writes are NOT checkpointed."@, dim),
            )
        },
    }
}

fn push_checkpoints(list: &Vec<PromptSummary>, out: &mut Vec<Line>)
    ensures
        lines_view(final(out)@) == lines_view(old(out)@) + checkpoint_rows(
            summaries_view(list@),
        ),
{
    let ghost head = lines_view(out@);
    let ghost rows = checkpoint_rows(summaries_view(list@));
    let mut i: usize = 0;
    assert(head + rows.take(0) =~= head);
    while i < list.len()
        invariant
            i <= list@.len(),
            rows == checkpoint_rows(summaries_view(list@)),
            lines_view(out@) == head + rows.take(i as int),
        decreases list@.len() - i,
    {
        push_line(out, checkpoint_line(&list[i]));
        i = i + 1;
        assert(rows.take(i as int) =~= rows.take(i - 1).push(rows[i - 1]));
        assert((head + rows.take(i - 1)).push(rows[i - 1]) =~= head + rows.take(i as int));
    }
    assert(rows.take(i as int) =~= rows);
}

/// The list of checkpoints with what can be done with them.
pub fn rewind_lines(c: &Checkpoints) -> (out: Vec<Line>)
    ensures
        lines_view(out@) == rewind_page(c@),
{
    let dim = Style::default().dim();
    let mut out = no_lines();
    push_line(&mut out, Line::blank());
    match c {
        Checkpoints::Off => {
            push_line(
                &mut out,
                Line::styled("  (checkpointing not enabled for this session)", dim),
            );
            push_line(&mut out, Line::blank());
            push_line(
                &mut out,
                Line::raw("  Checkpointing is opt-in. Disabled when CALIBAN_CHECKPOINT_DISABLED=1"),
            );
            push_line(
                &mut out,
                Line::raw(
                    "  is set, or when caliban was started without a checkpoint store wired in.",
                ),
            );
        },
        Checkpoints::Failed(e) => push_line(
            &mut out,
            Line::styled(
                cat2("  error listing checkpoints: ", e.as_str()).as_str(),
                Style::default().fg(Color::Red),
            ),
        ),
        Checkpoints::Listed(list) => {
            if list.len() == 0 {
                push_line(
                    &mut out,
                    Line::styled("  (no checkpoints yet \u{2014} send a prompt to create one)", dim),
                );
            } else {
                assert(lines_view(out@) =~= seq![blank_line()]);
                push_checkpoints(list, &mut out);
                push_line(&mut out, Line::blank());
                push_line(
                    &mut out,
                    Line::styled(
                        "  Actions: [c] code  [v] conversation  [b] both  [s] summarize\u{2192}  [S] summarize\u{2190}",
                        dim,
                    ),
                );
                push_line(
                    &mut out,
                    Line::styled("  \u{2139} Bash and external writes are NOT checkpointed.", dim),
                );
            }
        },
    }
    out
}

/// The hits are listed in their order, forty at most, and the one at the
/// cursor alone stands out.
pub proof fn law_hits_are_listed(hits: Seq<Seq<char>>, cursor: int, i: int)
    ensures
        hits.len() <= 40 ==> hit_rows(hits, cursor).len() == hits.len(),
        hits.len() > 40 ==> hit_rows(hits, cursor).len() == 40,
        0 <= i < hit_rows(hits, cursor).len() ==> ({
            let r = hit_rows(hits, cursor)[i];
            &&& r.spans.len() == 1
            &&& r.spans[0].content == "  "@ + hits[i]
            &&& i == cursor ==> r.spans[0].style == plain().with_fg(Color::Black).with_bg(
                Color::Cyan,
            )
            &&& i != cursor ==> r.spans[0].style == plain()
        }),
{
}

/// The search tells its scope and its query above the hits, and the keys
/// below them; without hits it says so.
pub proof fn law_the_search_tells_its_query(s: ReverseHistoryView, i: int)
    ensures
        ({
            let page = search_page(Some(s));
            let n = if s.hits().len() == 0 {
                1int
            } else {
                hit_rows(s.hits(), s.cursor).len() as int
            };
            &&& page.len() == n + 5
            &&& page[0].spans[0].content == " scope: "@ + s.scope.name() + "  "@
            &&& page[0].spans[1].content == "(Ctrl+S to cycle)"@
            &&& page[1].spans[0].content == " query: "@
            &&& page[1].spans[1].content == s.query
            &&& page[2] == blank_line()
            &&& s.hits().len() == 0 ==> page[3] == styled_text(
                "   (no matches)"@,
                plain().with_dim(),
            )
            &&& s.hits().len() > 0 && 0 <= i < n ==> page[i + 3] == hit_rows(s.hits(), s.cursor)[i]
            &&& page[n + 3] == blank_line()
            &&& page[n + 4] == styled_text(
                " Enter: accept   Esc: cancel   Ctrl+S: cycle scope"@,
                plain().with_dim(),
            )
        }),
        search_page(None) == seq![text_line("(no active search)"@)],
{
}

/// A checkpoint is told by its number, its title, its time and what it
/// holds; a warning stands before one that is partial.
pub proof fn law_checkpoints_are_told(p: PromptSummary<Seq<char>>)
    ensures
        kind_tag(p) == (match p.kind {
            ManifestKind::Plan => "plan"@,
            ManifestKind::Cleared => "cleared"@,
            ManifestKind::Files => decimal(p.file_count as nat) + " file(s)"@,
        }),
        checkpoint_row(p).spans.len() == 3,
        p.partial ==> checkpoint_row(p).spans[0].content == "\u{26a0} "@,
        !p.partial ==> checkpoint_row(p).spans[0].content == "   "@,
        checkpoint_row(p).spans[1].content == "#"@ + pad_left(decimal(p.prompt_index as nat), 3)
            + "  "@,
        p.title.len() > 0 ==> checkpoint_row(p).spans[2].content == pad_right(p.title, 40) + " "@
            + p.time + "  "@ + kind_tag(p),
        p.title.len() == 0 ==> checkpoint_row(p).spans[2].content == pad_right("(no title)"@, 40)
            + " "@ + p.time + "  "@ + kind_tag(p),
{
}

/// The checkpoints are listed in their order with what can be done with
/// them; where there are none, or no store, or no list, that is said.
pub proof fn law_checkpoints_are_listed(list: Seq<PromptSummary<Seq<char>>>, e: Seq<char>, i: int)
    ensures
        list.len() > 0 ==> ({
            let page = rewind_page(CheckpointsView::Listed(list));
            let n = list.len() as int;
            &&& page.len() == n + 4
            &&& page[0] == blank_line()
            &&& 0 <= i < n ==> page[i + 1] == checkpoint_row(list[i])
            &&& page[n + 1] == blank_line()
            &&& page[n + 2] == styled_text(
                "  Actions: [c] code  [v] conversation  [b] both  [s] summarize\u{2192}  [S] summarize\u{2190}"@,
                plain().with_dim(),
            )
            &&& page[n + 3] == styled_text(
                "  \u{2139} Bash and external writes are NOT checkpointed."@,
                plain().with_dim(),
            )
        }),
        rewind_page(CheckpointsView::Listed(Seq::empty())) == seq![
            blank_line(),
            styled_text(
                "  (no checkpoints yet \u{2014} send a prompt to create one)"@,
                plain().with_dim(),
            ),
        ],
        rewind_page(CheckpointsView::Failed(e)) == seq![
            blank_line(),
            styled_text("  error listing checkpoints: "@ + e, plain().with_fg(Color::Red)),
        ],
        rewind_page(CheckpointsView::Off).len() == 5,
        rewind_page(CheckpointsView::Off)[1] == styled_text(
            "  (checkpointing not enabled for this session)"@,
            plain().with_dim(),
        ),
{
}

} // verus!
