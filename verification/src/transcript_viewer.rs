//! The conversation as the model sees it, in an overlay of its own.

use vstd::prelude::*;

use crate::style::{
    bare, blank_line, lines_view, no_lines, plain, push_line, raw, row, span, spans_text, styled,
    styled_text, Color, Line, LineView, Span, Style,
};
use crate::text::{
    cat2, cat3, cat4, cat5, decimal, decimal_usize, join, join_texts, prefix, split, split_text,
    take_chars, texts,
};
use crate::types::{
    block_texts, blocks_view, messages_view, BlockView, ContentBlock, ImageSource, Message,
    MessageView, Role,
};

verus! {

/// Where the viewer stands.
#[derive(Debug, Clone, Copy, PartialEq, Eq, Structural)]
pub struct TranscriptViewerState {
    /// First row shown.
    pub scroll: u16,
    /// Show thinking and whole tool inputs too.
    pub show_all: bool,
    /// Show the keys.
    pub show_help: bool,
}

impl Default for TranscriptViewerState {
    fn default() -> (r: TranscriptViewerState)
        ensures
            r == (TranscriptViewerState { scroll: 0, show_all: false, show_help: false }),
    {
        TranscriptViewerState { scroll: 0, show_all: false, show_help: false }
    }
}

impl TranscriptViewerState {
    pub open spec fn risen(self, by: u16) -> TranscriptViewerState {
        TranscriptViewerState {
            scroll: (if self.scroll >= by {
                self.scroll - by
            } else {
                0
            }) as u16,
            ..self
        }
    }

    pub open spec fn sunk(self, by: u16, max: u16) -> TranscriptViewerState {
        TranscriptViewerState {
            scroll: (if self.scroll + by <= max {
                self.scroll + by
            } else {
                max as int
            }) as u16,
            ..self
        }
    }

    /// Moves towards older messages, not past the first row.
    pub fn up(&mut self, by: u16)
        ensures
            *final(self) == old(self).risen(by),
    {
        self.scroll = self.scroll.saturating_sub(by);
    }

    /// Moves towards newer messages, not past `max`.
    pub fn down(&mut self, by: u16, max: u16)
        ensures
            *final(self) == old(self).sunk(by, max),
    {
        let next = self.scroll.saturating_add(by);
        self.scroll = if next <= max {
            next
        } else {
            max
        };
    }
}

// ---------------------------------------------------------------------------
// What it shows
// ---------------------------------------------------------------------------

/// Most lines of a tool result that are shown while not everything is.
pub const RESULT_LINES: usize = 8;

/// Most characters of a tool's input that are shown while not everything is.
pub const INPUT_CHARS: usize = 80;

/// Who speaks, in front of the first line of a message.
pub open spec fn role_label(role: Role) -> Span<Seq<char>> {
    match role {
        Role::User => span("user: "@, plain().with_fg(Color::Cyan).with_bold()),
        Role::Assistant => span("assistant: "@, plain().with_fg(Color::Green).with_bold()),
        Role::System => span("system: "@, plain().with_fg(Color::Yellow).with_bold()),
    }
}

fn label_of(role: Role) -> (r: Span)
    ensures
        r@ == role_label(role),
{
    match role {
        Role::User => styled("user: ", Style::default().fg(Color::Cyan).bold()),
        Role::Assistant => styled("assistant: ", Style::default().fg(Color::Green).bold()),
        Role::System => styled("system: ", Style::default().fg(Color::Yellow).bold()),
    }
}

pub open spec fn faint() -> Style {
    plain().with_dim().with_italic()
}

/// A text block, one row for each of its lines. The first text block of a
/// message carries the label; everything else is indented.
pub open spec fn text_rows(role: Role, text: Seq<char>, first: bool) -> Seq<LineView> {
    let ls = split(text, '\n');
    Seq::new(
        ls.len(),
        |i: int|
            row(
                seq![
                    if first && i == 0 {
                        role_label(role)
                    } else {
                        bare("    "@)
                    },
                    bare(ls[i]),
                ],
            ),
    )
}

pub open spec fn thinking_rows(text: Seq<char>, show_all: bool) -> Seq<LineView> {
    if show_all {
        let ls = split(text, '\n');
        Seq::new(ls.len(), |i: int| styled_text("    \u{25B8} "@ + ls[i], faint()))
    } else {
        seq![styled_text("    [thinking hidden \u{2014} press Ctrl+E to reveal]"@, faint())]
    }
}

pub open spec fn call_row(name: Seq<char>, input: Seq<char>, show_all: bool) -> LineView {
    let shown = if show_all {
        input
    } else {
        prefix(input, INPUT_CHARS as int)
    };
    styled_text("    \u{1F527} "@ + name + "("@ + shown + ")"@, plain().with_fg(Color::Yellow))
}

/// How many lines of a result are shown.
pub open spec fn result_shown(total: int, show_all: bool) -> int {
    if show_all || total < RESULT_LINES {
        total
    } else {
        RESULT_LINES as int
    }
}

pub open spec fn result_rows(parts: Seq<Seq<char>>, is_error: bool, show_all: bool) -> Seq<LineView> {
    let ls = split(join(parts, "\n"@), '\n');
    let mark = if is_error {
        "(error) "@
    } else {
        ""@
    };
    Seq::new(
        result_shown(ls.len() as int, show_all) as nat,
        |i: int| styled_text("    \u{2192} "@ + mark + ls[i], plain().with_dim()),
    )
}

pub open spec fn image_text(source: ImageSource<Seq<char>>) -> Seq<char> {
    match source {
        ImageSource::Base64 { media_type, bytes } => "[image: media_type="@ + media_type
            + " bytes="@ + decimal(bytes as nat) + "]"@,
        ImageSource::Url(url) => "[image url: "@ + url + "]"@,
    }
}

/// The rows of one block. `first` says that no text block came before it.
pub open spec fn block_rows(role: Role, b: BlockView, first: bool, show_all: bool) -> Seq<LineView> {
    match b {
        ContentBlock::Text(t) => text_rows(role, t, first),
        ContentBlock::Thinking(t) => thinking_rows(t, show_all),
        ContentBlock::ToolUse { name, input, .. } => seq![call_row(name, input, show_all)],
        ContentBlock::ToolResult { texts: parts, is_error, .. } => result_rows(
            parts,
            is_error,
            show_all,
        ),
        ContentBlock::Image(source) => seq![
            styled_text("    "@ + image_text(source), plain().with_dim()),
        ],
    }
}

/// The rows of the blocks of a message.
pub open spec fn content_rows(role: Role, blocks: Seq<BlockView>, show_all: bool) -> Seq<LineView>
    decreases blocks.len(),
{
    if blocks.len() == 0 {
        Seq::empty()
    } else {
        let before = blocks.drop_last();
        content_rows(role, before, show_all) + block_rows(
            role,
            blocks.last(),
            block_texts(before).len() == 0,
            show_all,
        )
    }
}

/// The rows of a conversation, an empty one behind each message.
pub open spec fn history_rows(messages: Seq<MessageView>, show_all: bool) -> Seq<LineView>
    decreases messages.len(),
{
    if messages.len() == 0 {
        Seq::empty()
    } else {
        let m = messages.last();
        (history_rows(messages.drop_last(), show_all) + content_rows(m.role, m.content, show_all)).push(
            blank_line(),
        )
    }
}

fn push_text_rows(out: &mut Vec<Line>, role: Role, text: &str, first: bool)
    ensures
        lines_view(final(out)@) == lines_view(old(out)@) + text_rows(role, text@, first),
{
    let ls = split_text(text, '\n');
    let ghost rows = text_rows(role, text@, first);
    let ghost start = lines_view(out@);
    assert(texts(ls@).len() == ls@.len());
    let mut i: usize = 0;
    assert(start =~= start + rows.take(0));
    while i < ls.len()
        invariant
            i <= ls@.len(),
            texts(ls@) == split(text@, '\n'),
            rows == text_rows(role, text@, first),
            rows.len() == ls@.len(),
            lines_view(out@) == start + rows.take(i as int),
        decreases ls@.len() - i,
    {
        assert(texts(ls@)[i as int] == ls@[i as int]@);
        let head = if first && i == 0 {
            label_of(role)
        } else {
            raw("    ")
        };
        let line = Line::of2(head, raw(ls[i].as_str()));
        assert(line@ == rows[i as int]);
        push_line(out, line);
        i = i + 1;
        assert(rows.take(i as int) =~= rows.take(i - 1).push(rows[i - 1]));
        assert((start + rows.take(i - 1)).push(rows[i - 1]) =~= start + rows.take(i as int));
    }
    assert(rows.take(rows.len() as int) =~= rows);
}

fn push_thinking_rows(out: &mut Vec<Line>, text: &str, show_all: bool)
    ensures
        lines_view(final(out)@) == lines_view(old(out)@) + thinking_rows(text@, show_all),
{
    let ghost start = lines_view(out@);
    let faint_style = Style::default().dim().italic();
    if !show_all {
        push_line(
            out,
            Line::styled("    [thinking hidden \u{2014} press Ctrl+E to reveal]", faint_style),
        );
        assert(lines_view(out@) =~= start + thinking_rows(text@, show_all));
        return;
    }
    let ls = split_text(text, '\n');
    let ghost rows = thinking_rows(text@, show_all);
    assert(texts(ls@).len() == ls@.len());
    let mut i: usize = 0;
    assert(start =~= start + rows.take(0));
    while i < ls.len()
        invariant
            i <= ls@.len(),
            faint_style == faint(),
            show_all,
            texts(ls@) == split(text@, '\n'),
            rows == thinking_rows(text@, show_all),
            rows.len() == ls@.len(),
            lines_view(out@) == start + rows.take(i as int),
        decreases ls@.len() - i,
    {
        assert(texts(ls@)[i as int] == ls@[i as int]@);
        push_line(out, Line::styled(cat2("    \u{25B8} ", ls[i].as_str()).as_str(), faint_style));
        i = i + 1;
        assert(rows.take(i as int) =~= rows.take(i - 1).push(rows[i - 1]));
        assert((start + rows.take(i - 1)).push(rows[i - 1]) =~= start + rows.take(i as int));
    }
    assert(rows.take(rows.len() as int) =~= rows);
}

fn push_result_rows(out: &mut Vec<Line>, parts: &Vec<String>, is_error: bool, show_all: bool)
    ensures
        lines_view(final(out)@) == lines_view(old(out)@) + result_rows(
            texts(parts@),
            is_error,
            show_all,
        ),
{
    let body = join_texts(parts, "\n");
    let ls = split_text(body.as_str(), '\n');
    let mark = if is_error {
        "(error) "
    } else {
        ""
    };
    let ghost rows = result_rows(texts(parts@), is_error, show_all);
    let ghost start = lines_view(out@);
    assert(texts(ls@).len() == ls@.len());
    let n: usize = if show_all || ls.len() < RESULT_LINES {
        ls.len()
    } else {
        RESULT_LINES
    };
    let mut i: usize = 0;
    assert(start =~= start + rows.take(0));
    while i < n
        invariant
            i <= n <= ls@.len(),
            mark@ == (if is_error {
                "(error) "@
            } else {
                ""@
            }),
            texts(ls@) == split(join(texts(parts@), "\n"@), '\n'),
            rows == result_rows(texts(parts@), is_error, show_all),
            rows.len() == n,
            lines_view(out@) == start + rows.take(i as int),
        decreases n - i,
    {
        assert(texts(ls@)[i as int] == ls@[i as int]@);
        push_line(
            out,
            Line::styled(
                cat3("    \u{2192} ", mark, ls[i].as_str()).as_str(),
                Style::default().dim(),
            ),
        );
        i = i + 1;
        assert(rows.take(i as int) =~= rows.take(i - 1).push(rows[i - 1]));
        assert((start + rows.take(i - 1)).push(rows[i - 1]) =~= start + rows.take(i as int));
    }
    assert(rows.take(rows.len() as int) =~= rows);
}

fn describe_image(source: &ImageSource) -> (r: String)
    ensures
        r@ == (match *source {
            ImageSource::Base64 { media_type, bytes } => image_text(
                ImageSource::Base64 { media_type: media_type@, bytes },
            ),
            ImageSource::Url(u) => image_text(ImageSource::Url(u@)),
        }),
{
    match source {
        ImageSource::Base64 { media_type, bytes } => cat5(
            "[image: media_type=",
            media_type.as_str(),
            " bytes=",
            decimal_usize(*bytes).as_str(),
            "]",
        ),
        ImageSource::Url(url) => cat3("[image url: ", url.as_str(), "]"),
    }
}

fn push_block_rows(out: &mut Vec<Line>, role: Role, b: &ContentBlock, first: bool, show_all: bool)
    ensures
        lines_view(final(out)@) == lines_view(old(out)@) + block_rows(role, b@, first, show_all),
{
    let ghost start = lines_view(out@);
    match b {
        ContentBlock::Text(t) => push_text_rows(out, role, t.as_str(), first),
        ContentBlock::Thinking(t) => push_thinking_rows(out, t.as_str(), show_all),
        ContentBlock::ToolUse { name, input, .. } => {
            let shown = if show_all {
                input.clone()
            } else {
                take_chars(input.as_str(), INPUT_CHARS)
            };
            let mut s = cat4("    \u{1F527} ", name.as_str(), "(", shown.as_str());
            s.append(")");
            push_line(out, Line::styled(s.as_str(), Style::default().fg(Color::Yellow)));
            assert(lines_view(out@) =~= start + block_rows(role, b@, first, show_all));
        },
        ContentBlock::ToolResult { texts: parts, is_error, .. } => push_result_rows(
            out,
            parts,
            *is_error,
            show_all,
        ),
        ContentBlock::Image(source) => {
            let text = describe_image(source);
            push_line(
                out,
                Line::styled(cat2("    ", text.as_str()).as_str(), Style::default().dim()),
            );
            assert(lines_view(out@) =~= start + block_rows(role, b@, first, show_all));
        },
    }
}

fn push_message_rows(out: &mut Vec<Line>, m: &Message, show_all: bool)
    ensures
        lines_view(final(out)@) == lines_view(old(out)@) + content_rows(
            m.role,
            blocks_view(m.content@),
            show_all,
        ),
{
    let ghost all = blocks_view(m.content@);
    let ghost start = lines_view(out@);
    let mut first = true;
    let mut i: usize = 0;
    assert(start =~= start + content_rows(m.role, all.take(0), show_all));
    while i < m.content.len()
        invariant
            i <= m.content@.len(),
            all == blocks_view(m.content@),
            first == (block_texts(all.take(i as int)).len() == 0),
            lines_view(out@) == start + content_rows(m.role, all.take(i as int), show_all),
        decreases m.content@.len() - i,
    {
        let ghost before = content_rows(m.role, all.take(i as int), show_all);
        assert(all.take(i + 1).drop_last() =~= all.take(i as int));
        assert(all.take(i + 1).last() == m.content@[i as int]@);
        let ghost more = block_rows(m.role, m.content@[i as int]@, first, show_all);
        push_block_rows(out, m.role, &m.content[i], first, show_all);
        assert(start + before + more =~= start + (before + more));
        if let ContentBlock::Text(_) = &m.content[i] {
            first = false;
        }
        i = i + 1;
    }
    assert(all.take(all.len() as int) =~= all);
}

/// The rows that a conversation is shown in. Without `show_all`, thinking is
/// hidden and tool inputs and results are cut short.
pub fn format_history(messages: &Vec<Message>, show_all: bool) -> (out: Vec<Line>)
    ensures
        lines_view(out@) == history_rows(messages_view(messages@), show_all),
{
    let ghost all = messages_view(messages@);
    let mut out = no_lines();
    let mut i: usize = 0;
    while i < messages.len()
        invariant
            i <= messages@.len(),
            all == messages_view(messages@),
            lines_view(out@) == history_rows(all.take(i as int), show_all),
        decreases messages@.len() - i,
    {
        assert(all.take(i + 1).drop_last() =~= all.take(i as int));
        assert(all.take(i + 1).last() == messages@[i as int]@);
        push_message_rows(&mut out, &messages[i], show_all);
        push_line(&mut out, Line::blank());
        i = i + 1;
    }
    assert(all.take(all.len() as int) =~= all);
    out
}

/// The keys of the viewer.
pub open spec fn help_texts() -> Seq<Seq<char>> {
    seq![
        " keys:"@,
        "   j/k or \u{2191}\u{2193}     scroll one row"@,
        "   PgUp/PgDn     scroll one page"@,
        "   g / G         top / bottom"@,
        "   Ctrl+E        toggle show-all (thinking + tool inputs)"@,
        "   [             dump transcript to scrollback (below alt-screen)"@,
        "   v             open transcript in $VISUAL / $EDITOR"@,
        "   q, Esc        close"@,
        "   ?             toggle this help"@,
    ]
}

pub open spec fn help_rows() -> Seq<LineView> {
    Seq::new(help_texts().len(), |i: int| styled_text(help_texts()[i], plain().with_dim()))
}

pub fn help_lines() -> (out: Vec<Line>)
    ensures
        lines_view(out@) == help_rows(),
{
    let style = Style::default().dim();
    let mut out = no_lines();
    push_line(&mut out, Line::styled(" keys:", style));
    push_line(&mut out, Line::styled("   j/k or \u{2191}\u{2193}     scroll one row", style));
    push_line(&mut out, Line::styled("   PgUp/PgDn     scroll one page", style));
    push_line(&mut out, Line::styled("   g / G         top / bottom", style));
    push_line(
        &mut out,
        Line::styled("   Ctrl+E        toggle show-all (thinking + tool inputs)", style),
    );
    push_line(
        &mut out,
        Line::styled("   [             dump transcript to scrollback (below alt-screen)", style),
    );
    push_line(
        &mut out,
        Line::styled("   v             open transcript in $VISUAL / $EDITOR", style),
    );
    push_line(&mut out, Line::styled("   q, Esc        close", style));
    push_line(&mut out, Line::styled("   ?             toggle this help", style));
    assert(lines_view(out@) =~= help_rows());
    out
}

/// The texts of some lines, a line feed behind each.
pub open spec fn plain_lines(ls: Seq<LineView>) -> Seq<char>
    decreases ls.len(),
{
    if ls.len() == 0 {
        Seq::empty()
    } else {
        plain_lines(ls.drop_last()) + spans_text(ls.last().spans) + "\n"@
    }
}

/// The conversation as plain text.
pub fn dump_plain(messages: &Vec<Message>, show_all: bool) -> (out: String)
    ensures
        out@ == plain_lines(history_rows(messages_view(messages@), show_all)),
{
    let ls = format_history(messages, show_all);
    let ghost all = lines_view(ls@);
    let mut out = String::new();
    let mut i: usize = 0;
    while i < ls.len()
        invariant
            i <= ls@.len(),
            all == lines_view(ls@),
            out@ == plain_lines(all.take(i as int)),
        decreases ls@.len() - i,
    {
        assert(all.take(i + 1).drop_last() =~= all.take(i as int));
        assert(all.take(i + 1).last() == ls@[i as int]@);
        let text = ls[i].text();
        out.append(text.as_str());
        out.append("\n");
        i = i + 1;
    }
    assert(all.take(all.len() as int) =~= all);
    out
}

// ---------------------------------------------------------------------------
// Laws
// ---------------------------------------------------------------------------

/// Moving never leaves the rows, and moving down by less than what is left
/// is undone by moving up.
pub proof fn law_viewer_stays_within_its_rows(v: TranscriptViewerState, by: u16, max: u16)
    ensures
        v.sunk(by, max).scroll <= max,
        v.scroll <= max ==> v.risen(by).scroll <= max,
        v.scroll + by <= max ==> v.sunk(by, max).risen(by) == v,
{
}

/// A conversation shown after another is the two shown one after the other.
pub proof fn law_history_shows_message_by_message(a: Seq<MessageView>, b: Seq<MessageView>, show_all: bool)
    ensures
        history_rows(a + b, show_all) == history_rows(a, show_all) + history_rows(b, show_all),
    decreases b.len(),
{
    if b.len() == 0 {
        assert(a + b =~= a);
        assert(history_rows(a, show_all) + history_rows(b, show_all) =~= history_rows(a, show_all));
    } else {
        assert((a + b).drop_last() =~= a + b.drop_last());
        law_history_shows_message_by_message(a, b.drop_last(), show_all);
        let m = b.last();
        let body = content_rows(m.role, m.content, show_all);
        assert((history_rows(a, show_all) + history_rows(b.drop_last(), show_all) + body).push(
            blank_line(),
        ) =~= history_rows(a, show_all) + (history_rows(b.drop_last(), show_all) + body).push(
            blank_line(),
        ));
    }
}

/// A message without text blocks is nowhere labelled.
pub proof fn law_label_comes_with_the_first_text(role: Role, blocks: Seq<BlockView>, show_all: bool)
    requires
        block_texts(blocks).len() == 0,
    ensures
        forall|i: int|
            0 <= i < content_rows(role, blocks, show_all).len() ==> !(#[trigger] content_rows(
                role,
                blocks,
                show_all,
            )[i]).spans.contains(role_label(role)),
    decreases blocks.len(),
{
    if blocks.len() > 0 {
        let before = blocks.drop_last();
        let b = blocks.last();
        law_label_comes_with_the_first_text(role, before, show_all);
        let head = content_rows(role, before, show_all);
        let more = block_rows(role, b, true, show_all);
        assert forall|i: int| 0 <= i < more.len() implies !(#[trigger] more[i]).spans.contains(
            role_label(role),
        ) by {
            assert(forall|k: int| 0 <= k < more[i].spans.len() ==> (#[trigger] more[i].spans[k]).style == plain());
        }
        assert forall|i: int| 0 <= i < content_rows(role, blocks, show_all).len() implies !(
        #[trigger] content_rows(role, blocks, show_all)[i]).spans.contains(role_label(role)) by {
            if i < head.len() {
                assert(content_rows(role, blocks, show_all)[i] == head[i]);
            } else {
                assert(content_rows(role, blocks, show_all)[i] == more[i - head.len()]);
            }
        }
    }
}

/// Moving up and down goes by as many rows as asked, up to the ends, and
/// leaves the rest as it was.
pub proof fn law_moves_go_as_far_as_asked(v: TranscriptViewerState, by: u16, max: u16)
    ensures
        v.scroll >= by ==> v.risen(by).scroll == v.scroll - by,
        v.scroll < by ==> v.risen(by).scroll == 0,
        v.scroll + by <= max ==> v.sunk(by, max).scroll == v.scroll + by,
        v.scroll + by > max ==> v.sunk(by, max).scroll == max,
        v.risen(by) == (TranscriptViewerState { scroll: v.risen(by).scroll, ..v }),
        v.sunk(by, max) == (TranscriptViewerState { scroll: v.sunk(by, max).scroll, ..v }),
{
}

/// Each speaker has a label and a colour of their own.
pub proof fn law_speakers_have_their_labels()
    ensures
        role_label(Role::User).content == "user: "@,
        role_label(Role::User).style.fg == Some(Color::Cyan),
        role_label(Role::Assistant).content == "assistant: "@,
        role_label(Role::Assistant).style.fg == Some(Color::Green),
        role_label(Role::System).content == "system: "@,
        role_label(Role::System).style.fg == Some(Color::Yellow),
        forall|r: Role| (#[trigger] role_label(r)).style.bold,
{
}

/// A text has a row for each of its lines, with the label before the very
/// first of a message and an indent before every other.
pub proof fn law_texts_are_labelled_once(role: Role, text: Seq<char>, first: bool, show_all: bool, i: int)
    requires
        0 <= i < split(text, '\n').len(),
    ensures
        ({
            let rows = block_rows(role, ContentBlock::Text(text), first, show_all);
            &&& rows.len() == split(text, '\n').len()
            &&& rows[i].spans.len() == 2
            &&& rows[i].spans[1] == bare(split(text, '\n')[i])
            &&& first && i == 0 ==> rows[i].spans[0] == role_label(role)
            &&& !first || i > 0 ==> rows[i].spans[0] == bare("    "@)
        }),
{
}

/// Thinking is hidden behind one row unless everything is shown; then each
/// of its lines has a row.
pub proof fn law_thinking_is_hidden(role: Role, text: Seq<char>, first: bool, i: int)
    ensures
        ({
            let hidden = block_rows(role, ContentBlock::Thinking(text), first, false);
            let shown = block_rows(role, ContentBlock::Thinking(text), first, true);
            let s = plain().with_dim().with_italic();
            &&& hidden == seq![
                styled_text("    [thinking hidden \u{2014} press Ctrl+E to reveal]"@, s),
            ]
            &&& shown.len() == split(text, '\n').len()
            &&& 0 <= i < split(text, '\n').len() ==> shown[i] == styled_text(
                "    \u{25B8} "@ + split(text, '\n')[i],
                s,
            )
        }),
{
}

/// A call is one yellow row with its name and its input, the input cut to
/// eighty characters unless everything is shown.
pub proof fn law_calls_show_their_input(name: Seq<char>, input: Seq<char>, show_all: bool)
    ensures
        call_row(name, input, true) == styled_text(
            "    \u{1F527} "@ + name + "("@ + input + ")"@,
            plain().with_fg(Color::Yellow),
        ),
        call_row(name, input, false) == styled_text(
            "    \u{1F527} "@ + name + "("@ + prefix(input, 80) + ")"@,
            plain().with_fg(Color::Yellow),
        ),
{
}

/// A result shows its lines behind arrows, marked where the call failed: at
/// most eight unless everything is shown.
pub proof fn law_results_show_their_lines(
    parts: Seq<Seq<char>>,
    is_error: bool,
    show_all: bool,
    i: int,
)
    ensures
        ({
            let ls = split(join(parts, "\n"@), '\n');
            let rows = result_rows(parts, is_error, show_all);
            &&& show_all || ls.len() <= 8 ==> rows.len() == ls.len()
            &&& !show_all && ls.len() > 8 ==> rows.len() == 8
            &&& 0 <= i < rows.len() && is_error ==> rows[i] == styled_text(
                "    \u{2192} "@ + "(error) "@ + ls[i],
                plain().with_dim(),
            )
            &&& 0 <= i < rows.len() && !is_error ==> rows[i] == styled_text(
                "    \u{2192} "@ + ls[i],
                plain().with_dim(),
            )
        }),
{
    reveal_strlit("");
    let arrow = "    \u{2192} "@;
    assert(arrow + ""@ =~= arrow);
}

/// Each kind of block is shown in its own rows, images by what they are.
pub proof fn law_blocks_are_shown_by_kind(role: Role, b: BlockView, first: bool, show_all: bool)
    ensures
        match b {
            ContentBlock::ToolUse { name, input, .. } => block_rows(role, b, first, show_all)
                == seq![call_row(name, input, show_all)],
            ContentBlock::ToolResult { texts: parts, is_error, .. } => block_rows(
                role,
                b,
                first,
                show_all,
            ) == result_rows(parts, is_error, show_all),
            ContentBlock::Image(ImageSource::Base64 { media_type, bytes }) => block_rows(
                role,
                b,
                first,
                show_all,
            ) == seq![
                styled_text(
                    "    "@ + ("[image: media_type="@ + media_type + " bytes="@ + decimal(
                        bytes as nat,
                    ) + "]"@),
                    plain().with_dim(),
                ),
            ],
            ContentBlock::Image(ImageSource::Url(url)) => block_rows(role, b, first, show_all)
                == seq![
                styled_text("    "@ + ("[image url: "@ + url + "]"@), plain().with_dim()),
            ],
            _ => true,
        },
{
}

/// A block's rows come behind those of the blocks before it; it is the first
/// to be labelled where none of those is a text.
pub proof fn law_blocks_are_shown_in_order(
    role: Role,
    blocks: Seq<BlockView>,
    b: BlockView,
    show_all: bool,
)
    ensures
        content_rows(role, Seq::empty(), show_all).len() == 0,
        (forall|i: int| 0 <= i < blocks.len() ==> !(#[trigger] blocks[i] is Text)) ==> content_rows(
            role,
            blocks.push(b),
            show_all,
        ) == content_rows(role, blocks, show_all) + block_rows(role, b, true, show_all),
        (exists|i: int| 0 <= i < blocks.len() && (#[trigger] blocks[i] is Text)) ==> content_rows(
            role,
            blocks.push(b),
            show_all,
        ) == content_rows(role, blocks, show_all) + block_rows(role, b, false, show_all),
{
    assert(blocks.push(b).drop_last() =~= blocks);
    lemma_texts_are_text_blocks(blocks);
}

proof fn lemma_texts_are_text_blocks(blocks: Seq<BlockView>)
    ensures
        block_texts(blocks).len() == 0 <==> forall|i: int|
            0 <= i < blocks.len() ==> !(#[trigger] blocks[i] is Text),
    decreases blocks.len(),
{
    if blocks.len() > 0 {
        let front = blocks.drop_last();
        lemma_texts_are_text_blocks(front);
        assert(blocks[blocks.len() - 1] == blocks.last());
        if block_texts(front).len() > 0 {
            let i = choose|i: int| 0 <= i < front.len() && (#[trigger] front[i] is Text);
            assert(blocks[i] is Text);
        } else {
            assert forall|i: int| 0 <= i < front.len() implies !(#[trigger] blocks[i] is Text) by {
                assert(front[i] == blocks[i]);
            }
        }
    }
}

/// A message is shown behind those before it, with an empty row behind it.
pub proof fn law_an_empty_row_ends_a_message(messages: Seq<MessageView>, m: MessageView, show_all: bool)
    ensures
        history_rows(Seq::empty(), show_all).len() == 0,
        history_rows(messages.push(m), show_all) == history_rows(messages, show_all) + content_rows(
            m.role,
            m.content,
            show_all,
        ) + seq![blank_line()],
{
    assert(messages.push(m).drop_last() =~= messages);
}

/// The plain text has the text of each line with a line feed behind it.
pub proof fn law_plain_lines_end_in_line_feeds(ls: Seq<LineView>, l: LineView)
    ensures
        plain_lines(Seq::empty()).len() == 0,
        plain_lines(ls.push(l)) == plain_lines(ls) + spans_text(l.spans) + "\n"@,
{
    assert(ls.push(l).drop_last() =~= ls);
}

/// The help lists the keys in this order, dimmed.
pub proof fn law_help_lists_the_keys(i: int)
    ensures
        help_rows().len() == 9,
        0 <= i < 9 ==> help_rows()[i] == styled_text(
            seq![
                " keys:"@,
                "   j/k or \u{2191}\u{2193}     scroll one row"@,
                "   PgUp/PgDn     scroll one page"@,
                "   g / G         top / bottom"@,
                "   Ctrl+E        toggle show-all (thinking + tool inputs)"@,
                "   [             dump transcript to scrollback (below alt-screen)"@,
                "   v             open transcript in $VISUAL / $EDITOR"@,
                "   q, Esc        close"@,
                "   ?             toggle this help"@,
            ][i],
            plain().with_dim(),
        ),
{
}

} // verus!
