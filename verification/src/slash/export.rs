//! Slash commands: writing the session to a file.

use vstd::prelude::*;

use crate::effect::{effects_view, just, nothing, Effect, EffectView};
use crate::slash::{
    outcome_view, register_all, registered_all, Command, SlashCommand, SlashCommandMeta,
    SlashCommandRegistry, SlashOutcome,
};
use crate::text::{
    cat2, cat3, cat4, contains, contains_text, decimal, decimal_usize, same, split_whitespace,
    starts_with, starts_with_text, texts, words,
};
use crate::types::{
    blocks_view, messages_view, BlockView, ContentBlock, Message, MessageView, Role,
};

verus! {

/// The commands of this group, in the order in which they register.
pub open spec fn commands() -> Seq<SlashCommand> {
    seq![
        SlashCommand {
            meta: SlashCommandMeta {
                name: "/export",
                description: "export the session transcript to markdown (or json)",
                args_hint: "[path] [--format json]",
                hidden: false,
                immediate: true,
            },
            command: Command::Export,
        },
    ]
}

/// Registers the commands of this group.
pub fn register(registry: &mut SlashCommandRegistry)
    requires
        old(registry).wf(),
    ensures
        final(registry).wf(),
        final(registry)@ == registered_all(old(registry)@, commands()),
{
    let mut cmds: Vec<SlashCommand> = Vec::new();
    cmds.push(
        SlashCommand {
            meta: SlashCommandMeta {
                name: "/export",
                description: "export the session transcript to markdown (or json)",
                args_hint: "[path] [--format json]",
                hidden: false,
                immediate: true,
            },
            command: Command::Export,
        },
    );
    assert(cmds@ =~= commands());
    register_all(registry, cmds);
}

/// What a conversation is written as.
#[derive(Debug, Clone, Copy, PartialEq, Eq, Structural)]
pub enum ExportFormat {
    Markdown,
    Json,
}

pub open spec fn format_asked(args: Seq<char>) -> ExportFormat {
    if contains(args, "--format json"@) {
        ExportFormat::Json
    } else {
        ExportFormat::Markdown
    }
}

pub fn export_format(args: &str) -> (r: ExportFormat)
    ensures
        r == format_asked(args@),
{
    if contains_text(args, "--format json") {
        ExportFormat::Json
    } else {
        ExportFormat::Markdown
    }
}

/// The first word that is no flag, nor the format behind `--format`.
pub open spec fn first_plain(ws: Seq<Seq<char>>) -> Option<Seq<char>>
    decreases ws.len(),
{
    if ws.len() == 0 {
        None
    } else if ws[0] == "--format"@ {
        if ws.len() == 1 {
            None
        } else {
            first_plain(ws.skip(2))
        }
    } else if !starts_with(ws[0], "--"@) {
        Some(ws[0])
    } else {
        first_plain(ws.skip(1))
    }
}

/// The file to write: the one that is named, or one named after the day;
/// none where the clipboard is asked for.
pub open spec fn target(args: Seq<char>, date: Seq<char>) -> Option<Seq<char>> {
    match first_plain(words(args)) {
        Some(p) => if p == "-"@ {
            None
        } else {
            Some(p)
        },
        None => Some(
            "caliban-session-"@ + date + "."@ + (match format_asked(args) {
                ExportFormat::Markdown => "md"@,
                ExportFormat::Json => "json"@,
            }),
        ),
    }
}

fn plain_word(args: &str) -> (r: Option<String>)
    ensures
        crate::text::opt_text(r) == first_plain(words(args@)),
{
    let ws = split_whitespace(args);
    let ghost all = words(args@);
    let mut i: usize = 0;
    assert(all.skip(0) =~= all);
    while i < ws.len()
        invariant
            i <= ws@.len(),
            all == texts(ws@),
            all == words(args@),
            first_plain(all) == first_plain(all.skip(i as int)),
        decreases ws@.len() - i,
    {
        assert(all.skip(i as int)[0] == ws@[i as int]@);
        assert(all.skip(i as int).skip(1) =~= all.skip(i + 1));
        if same(ws[i].as_str(), "--format") {
            if i + 1 == ws.len() {
                return None;
            }
            assert(all.skip(i as int).skip(2) =~= all.skip(i + 2));
            i = i + 2;
        } else {
            if !starts_with_text(ws[i].as_str(), "--") {
                return Some(ws[i].clone());
            }
            i = i + 1;
        }
    }
    None
}

/// The file to write; none where the clipboard is asked for. `date` is the
/// day as year, month and day.
pub fn export_target(args: &str, date: &str) -> (r: Option<String>)
    ensures
        crate::text::opt_text(r) == target(args@, date@),
{
    match plain_word(args) {
        Some(p) => if same(p.as_str(), "-") {
            None
        } else {
            Some(p)
        },
        None => {
            let suffix = match export_format(args) {
                ExportFormat::Markdown => "md",
                ExportFormat::Json => "json",
            };
            Some(cat4("caliban-session-", date, ".", suffix))
        },
    }
}

/// What `/export` says where it cannot write: to the clipboard.
pub fn no_clipboard_message() -> (r: String)
    ensures
        r@ == "/export: clipboard support not wired in this build \u{2014} pass a path"@,
{
    String::from_str("/export: clipboard support not wired in this build \u{2014} pass a path")
}

pub open spec fn exported_text(path: Seq<char>, error: Option<&str>) -> Seq<char> {
    match error {
        None => "exported to "@ + path,
        Some(e) => "/export: "@ + e@,
    }
}

/// What `/export` says when it has tried to write.
pub fn exported_message(path: &str, error: Option<&str>) -> (r: String)
    ensures
        r@ == exported_text(path@, error),
{
    match error {
        None => cat2("exported to ", path),
        Some(e) => cat2("/export: ", e),
    }
}

// ---------------------------------------------------------------------------
// Markdown
// ---------------------------------------------------------------------------

pub open spec fn role_name(role: Role) -> Seq<char> {
    match role {
        Role::System => "system"@,
        Role::User => "user"@,
        Role::Assistant => "assistant"@,
    }
}

/// Some texts, a line feed behind each.
pub open spec fn ended_lines(parts: Seq<Seq<char>>) -> Seq<char>
    decreases parts.len(),
{
    if parts.len() == 0 {
        Seq::empty()
    } else {
        ended_lines(parts.drop_last()) + parts.last() + "\n"@
    }
}

pub open spec fn block_markdown(b: BlockView) -> Seq<char> {
    match b {
        ContentBlock::Text(t) => t + "\n\n"@,
        ContentBlock::ToolUse { name, input, .. } => "### Tool: "@ + name + "\n\n```json\n"@ + input
            + "\n```\n\n"@,
        ContentBlock::ToolResult { texts: parts, .. } => "```\n"@ + ended_lines(parts) + "```\n\n"@,
        ContentBlock::Thinking(t) => "### Thinking\n\n"@ + t + "\n\n"@,
        ContentBlock::Image(_) => "_(image elided)_\n\n"@,
    }
}

pub open spec fn blocks_markdown(blocks: Seq<BlockView>) -> Seq<char>
    decreases blocks.len(),
{
    if blocks.len() == 0 {
        Seq::empty()
    } else {
        blocks_markdown(blocks.drop_last()) + block_markdown(blocks.last())
    }
}

/// One section for each message, numbered from one.
pub open spec fn turns_markdown(messages: Seq<MessageView>) -> Seq<char>
    decreases messages.len(),
{
    if messages.len() == 0 {
        Seq::empty()
    } else {
        let m = messages.last();
        turns_markdown(messages.drop_last()) + "## Turn "@ + decimal(messages.len()) + " \u{2014} "@
            + role_name(m.role) + "\n\n"@ + blocks_markdown(m.content)
    }
}

/// A conversation as markdown.
pub open spec fn markdown(messages: Seq<MessageView>, model: Seq<char>, date: Seq<char>) -> Seq<char> {
    "# caliban session "@ + date + "\n\n- model: "@ + model + "\n- messages: "@ + decimal(
        messages.len(),
    ) + "\n\n"@ + turns_markdown(messages)
}

fn append_lines(out: &mut String, parts: &Vec<String>)
    ensures
        final(out)@ == old(out)@ + ended_lines(texts(parts@)),
{
    let ghost all = texts(parts@);
    let ghost start = out@;
    let mut i: usize = 0;
    assert(start =~= start + ended_lines(all.take(0)));
    while i < parts.len()
        invariant
            i <= parts@.len(),
            all == texts(parts@),
            out@ == start + ended_lines(all.take(i as int)),
        decreases parts@.len() - i,
    {
        let ghost before = ended_lines(all.take(i as int));
        assert(all.take(i + 1).drop_last() =~= all.take(i as int));
        assert(all.take(i + 1).last() == parts@[i as int]@);
        out.append(parts[i].as_str());
        out.append("\n");
        assert(start + before + parts@[i as int]@ + "\n"@ =~= start + (before + parts@[i as int]@
            + "\n"@));
        i = i + 1;
    }
    assert(all.take(all.len() as int) =~= all);
}

fn markdown_of_block(b: &ContentBlock) -> (r: String)
    ensures
        r@ == block_markdown(b@),
{
    match b {
        ContentBlock::Text(t) => cat2(t.as_str(), "\n\n"),
        ContentBlock::ToolUse { name, input, .. } => {
            let mut s = cat4("### Tool: ", name.as_str(), "\n\n```json\n", input.as_str());
            s.append("\n```\n\n");
            s
        },
        ContentBlock::ToolResult { texts: parts, .. } => {
            let mut s = String::from_str("```\n");
            append_lines(&mut s, parts);
            s.append("```\n\n");
            s
        },
        ContentBlock::Thinking(t) => cat3("### Thinking\n\n", t.as_str(), "\n\n"),
        ContentBlock::Image(_) => String::from_str("_(image elided)_\n\n"),
    }
}

fn markdown_of_blocks(blocks: &Vec<ContentBlock>) -> (r: String)
    ensures
        r@ == blocks_markdown(blocks_view(blocks@)),
{
    let ghost all = blocks_view(blocks@);
    let mut r = String::new();
    let mut i: usize = 0;
    while i < blocks.len()
        invariant
            i <= blocks@.len(),
            all == blocks_view(blocks@),
            r@ == blocks_markdown(all.take(i as int)),
        decreases blocks@.len() - i,
    {
        assert(all.take(i + 1).drop_last() =~= all.take(i as int));
        assert(all.take(i + 1).last() == blocks@[i as int]@);
        r.append(markdown_of_block(&blocks[i]).as_str());
        i = i + 1;
    }
    assert(all.take(all.len() as int) =~= all);
    r
}

pub fn render_markdown(messages: &Vec<Message>, model: &str, date: &str) -> (out: String)
    ensures
        out@ == markdown(messages_view(messages@), model@, date@),
{
    let ghost all = messages_view(messages@);
    let mut out = cat4("# caliban session ", date, "\n\n- model: ", model);
    out.append("\n- messages: ");
    out.append(decimal_usize(messages.len()).as_str());
    out.append("\n\n");
    let ghost head = out@;
    let mut i: usize = 0;
    assert(head =~= head + turns_markdown(all.take(0)));
    while i < messages.len()
        invariant
            i <= messages@.len(),
            all == messages_view(messages@),
            out@ == head + turns_markdown(all.take(i as int)),
        decreases messages@.len() - i,
    {
        let ghost before = turns_markdown(all.take(i as int));
        let ghost m = messages@[i as int]@;
        assert(all.take(i + 1).drop_last() =~= all.take(i as int));
        assert(all.take(i + 1).last() == m);
        let role = match messages[i].role {
            Role::System => "system",
            Role::User => "user",
            Role::Assistant => "assistant",
        };
        let number = decimal_usize(i + 1);
        let body = markdown_of_blocks(&messages[i].content);
        out.append("## Turn ");
        out.append(number.as_str());
        out.append(" \u{2014} ");
        out.append(role);
        out.append("\n\n");
        out.append(body.as_str());
        assert(out@ =~= head + (before + "## Turn "@ + number@ + " \u{2014} "@ + role@ + "\n\n"@
            + body@));
        i = i + 1;
    }
    assert(all.take(all.len() as int) =~= all);
    out
}

/// The text to write: markdown, or the conversation as JSON.
pub fn render_session(messages: &Vec<Message>, model: &str, date: &str, format: ExportFormat, json: &str) -> (out: String)
    ensures
        out@ == (match format {
            ExportFormat::Markdown => markdown(messages_view(messages@), model@, date@),
            ExportFormat::Json => json@,
        }),
{
    match format {
        ExportFormat::Markdown => render_markdown(messages, model, date),
        ExportFormat::Json => String::from_str(json),
    }
}

/// What `/export` does with a conversation: write it, or say why not.
pub open spec fn export_ran(
    messages: Seq<MessageView>,
    args: Seq<char>,
    model: Seq<char>,
    date: Seq<char>,
    json: Seq<char>,
) -> (SlashOutcome<Seq<char>>, Seq<EffectView>) {
    match target(args, date) {
        None => (
            SlashOutcome::StatusMessage(
                "/export: clipboard support not wired in this build \u{2014} pass a path"@,
            ),
            Seq::empty(),
        ),
        Some(path) => (
            SlashOutcome::Continue,
            seq![
                EffectView::WriteFile {
                    path,
                    body: match format_asked(args) {
                        ExportFormat::Markdown => markdown(messages, model, date),
                        ExportFormat::Json => json,
                    },
                },
            ],
        ),
    }
}

/// Runs `/export`. `json` is the conversation as JSON.
pub fn run_export(messages: &Vec<Message>, args: &str, model: &str, date: &str, json: &str) -> (r: (
    SlashOutcome,
    Vec<Effect>,
))
    ensures
        (outcome_view(r.0), effects_view(r.1@)) == export_ran(
            messages_view(messages@),
            args@,
            model@,
            date@,
            json@,
        ),
{
    match export_target(args, date) {
        None => (SlashOutcome::StatusMessage(no_clipboard_message()), nothing()),
        Some(path) => {
            let body = render_session(messages, model, date, export_format(args), json);
            (SlashOutcome::Continue, just(Effect::WriteFile { path, body }))
        },
    }
}

/// The word behind `--format` is never taken for the file: what follows it
/// decides, and where nothing does, the file is named after the day.
pub proof fn law_the_format_is_no_file(
    format: Seq<char>,
    rest: Seq<Seq<char>>,
    args: Seq<char>,
    date: Seq<char>,
)
    ensures
        first_plain(seq!["--format"@, format] + rest) == first_plain(rest),
        words(args) == seq!["--format"@, format] ==> target(args, date) == Some(
            "caliban-session-"@ + date + "."@ + (match format_asked(args) {
                ExportFormat::Markdown => "md"@,
                ExportFormat::Json => "json"@,
            }),
        ),
{
    reveal_with_fuel(first_plain, 2);
    assert((seq!["--format"@, format] + rest).skip(2) =~= rest);
    assert(seq!["--format"@, format].skip(2) =~= Seq::<Seq<char>>::empty());
}

/// The section of a message is headed by its number and by who spoke: `user`
/// for the user, `assistant` for the assistant, `system` for the system.
/// What the message holds follows the heading, and the sections of the
/// messages before it stand before it.
pub proof fn law_sections_are_headed_by_their_speaker(
    before: Seq<MessageView>,
    m: MessageView,
    model: Seq<char>,
    date: Seq<char>,
)
    ensures
        ({
            let head = "## Turn "@ + decimal((before.len() + 1) as nat) + " \u{2014} "@;
            let all = turns_markdown(before.push(m));
            &&& m.role == Role::User ==> all == turns_markdown(before) + (head + "user"@ + "\n\n"@
                + blocks_markdown(m.content))
            &&& m.role == Role::Assistant ==> all == turns_markdown(before) + (head
                + "assistant"@ + "\n\n"@ + blocks_markdown(m.content))
            &&& m.role == Role::System ==> all == turns_markdown(before) + (head + "system"@
                + "\n\n"@ + blocks_markdown(m.content))
        }),
        turns_markdown(Seq::<MessageView>::empty()).len() == 0,
        markdown(before, model, date) == "# caliban session "@ + date + "\n\n- model: "@ + model
            + "\n- messages: "@ + decimal(before.len()) + "\n\n"@ + turns_markdown(before),
{
    let head = "## Turn "@ + decimal((before.len() + 1) as nat) + " \u{2014} "@;
    let all = turns_markdown(before.push(m));
    assert(before.push(m).drop_last() =~= before);
    assert(before.push(m).last() == m);
    let body = blocks_markdown(m.content);
    if m.role == Role::User {
        assert(all =~= turns_markdown(before) + (head + "user"@ + "\n\n"@ + body));
    } else if m.role == Role::Assistant {
        assert(all =~= turns_markdown(before) + (head + "assistant"@ + "\n\n"@ + body));
    } else {
        assert(all =~= turns_markdown(before) + (head + "system"@ + "\n\n"@ + body));
    }
}

/// Blocks are written in their order, each as what it is: text as it reads,
/// a call under its tool's name with its input as JSON, the texts of a
/// result between fences, thinking under its heading, an image left out.
pub proof fn law_blocks_are_written_as_what_they_are(before: Seq<BlockView>, b: BlockView)
    ensures
        blocks_markdown(Seq::<BlockView>::empty()).len() == 0,
        blocks_markdown(before.push(b)) == blocks_markdown(before) + (match b {
            ContentBlock::Text(t) => t + "\n\n"@,
            ContentBlock::ToolUse { name, input, .. } => "### Tool: "@ + name + "\n\n```json\n"@
                + input + "\n```\n\n"@,
            ContentBlock::ToolResult { texts: parts, .. } => "```\n"@ + ended_lines(parts)
                + "```\n\n"@,
            ContentBlock::Thinking(t) => "### Thinking\n\n"@ + t + "\n\n"@,
            ContentBlock::Image(_) => "_(image elided)_\n\n"@,
        }),
{
    assert(before.push(b).drop_last() =~= before);
}

/// The texts of a result are written in their order, each with a line feed
/// behind it.
pub proof fn law_results_are_written_line_by_line(parts: Seq<Seq<char>>, last: Seq<char>)
    ensures
        ended_lines(Seq::<Seq<char>>::empty()).len() == 0,
        ended_lines(parts.push(last)) == ended_lines(parts) + last + "\n"@,
{
    assert(parts.push(last).drop_last() =~= parts);
}

/// JSON is written exactly where it is asked for, markdown elsewhere, and
/// either goes to the file that is named; a dash asks for the clipboard,
/// which writes nothing.
pub proof fn law_exports_write_what_is_asked_for(
    messages: Seq<MessageView>,
    args: Seq<char>,
    model: Seq<char>,
    date: Seq<char>,
    json: Seq<char>,
)
    ensures
        ({
            let (outcome, effects) = export_ran(messages, args, model, date, json);
            let as_json = exists|i: int|
                0 <= i && i + "--format json"@.len() <= args.len() && #[trigger] args.subrange(
                    i,
                    i + "--format json"@.len(),
                ) == "--format json"@;
            let named = first_plain(words(args));
            &&& named == Some("-"@) <==> effects.len() == 0
            &&& named == Some("-"@) ==> outcome == SlashOutcome::StatusMessage(
                "/export: clipboard support not wired in this build \u{2014} pass a path"@,
            )
            &&& named != Some("-"@) ==> outcome is Continue && effects.len() == 1
                && effects[0] is WriteFile && effects[0]->WriteFile_path == (if named is Some {
                named->0
            } else if as_json {
                "caliban-session-"@ + date + "."@ + "json"@
            } else {
                "caliban-session-"@ + date + "."@ + "md"@
            }) && effects[0]->body == (if as_json {
                json
            } else {
                markdown(messages, model, date)
            })
        }),
{
    let as_json = exists|i: int|
        0 <= i && i + "--format json"@.len() <= args.len() && #[trigger] args.subrange(
            i,
            i + "--format json"@.len(),
        ) == "--format json"@;
    assert(as_json == contains(args, "--format json"@)) by {
        if as_json {
            let i = choose|i: int|
                0 <= i && i + "--format json"@.len() <= args.len() && #[trigger] args.subrange(
                    i,
                    i + "--format json"@.len(),
                ) == "--format json"@;
            assert(crate::text::occurs_at(args, "--format json"@, i));
        }
        if contains(args, "--format json"@) {
            let i = choose|i: int| crate::text::occurs_at(args, "--format json"@, i);
            assert(args.subrange(i, i + "--format json"@.len()) == "--format json"@);
        }
    }
}

/// The file that is named is one of the words, and no flag; words before it
/// are flags or the format.
pub proof fn law_the_file_is_no_flag(ws: Seq<Seq<char>>)
    ensures
        first_plain(ws) matches Some(p) ==> ws.contains(p) && !(p.len() >= 2 && p[0] == '-'
            && p[1] == '-'),
        ws.len() > 0 && !(ws[0].len() >= 2 && ws[0][0] == '-' && ws[0][1] == '-') ==> first_plain(
            ws,
        ) == Some(ws[0]),
        ws.len() > 0 && ws[0] != "--format"@ && ws[0].len() >= 2 && ws[0][0] == '-' && ws[0][1]
            == '-' ==> first_plain(ws) == first_plain(ws.skip(1)),
    decreases ws.len(),
{
    reveal_strlit("--format");
    reveal_strlit("--");
    if ws.len() > 0 {
        let w = ws[0];
        assert(starts_with(w, "--"@) == (w.len() >= 2 && w[0] == '-' && w[1] == '-')) by {
            if w.len() >= 2 {
                assert(w.subrange(0, 2)[0] == w[0]);
                assert(w.subrange(0, 2)[1] == w[1]);
                if w[0] == '-' && w[1] == '-' {
                    assert(w.subrange(0, 2) =~= "--"@);
                }
            }
        }
        if w == "--format"@ {
            assert(w[0] == '-' && w[1] == '-');
            if ws.len() > 1 {
                law_the_file_is_no_flag(ws.skip(2));
                if let Some(p) = first_plain(ws) {
                    let k = ws.skip(2).index_of(p);
                    assert(ws.skip(2).contains(p));
                    assert(ws[k + 2] == p);
                }
            }
        } else if starts_with(w, "--"@) {
            law_the_file_is_no_flag(ws.skip(1));
            if let Some(p) = first_plain(ws) {
                let k = ws.skip(1).index_of(p);
                assert(ws.skip(1).contains(p));
                assert(ws[k + 1] == p);
            }
        } else {
            assert(ws.contains(ws[0]));
        }
    }
}

/// What `/export` says names the file where it was written, and the reason
/// where it was not.
pub proof fn law_exports_are_told(path: Seq<char>, error: Option<&str>)
    ensures
        exported_text(path, error) == (if error is None {
            "exported to "@ + path
        } else {
            "/export: "@ + error->0@
        }),
{
}

/// The command goes by its name and may run at any time.
pub proof fn law_export_is_registered()
    ensures
        commands().len() == 1,
        commands()[0].meta.name@ == "/export"@,
        commands()[0].meta.immediate,
        !commands()[0].meta.hidden,
        commands()[0].command == Command::Export,
{
}

} // verus!
