//! The list of commands and keys, and the note on skills.

use vstd::prelude::*;

use crate::slash::{SlashCommand, SlashCommandMeta, SlashCommandRegistry};
use crate::style::{
    bare, blank_line, lines_view, no_lines, plain, push_line, raw, row, span, styled, styled_text,
    text_line, Color, Line, LineView, Style,
};
use crate::text::{cat3, lemma_text_order, pad_right, padded_right, text_before};

verus! {

/// A name in a column of its own, with what it does.
pub open spec fn entry_row(name: Seq<char>, text: Seq<char>) -> LineView {
    row(
        seq![
            bare("   "@),
            span(pad_right(name, 18), plain().with_fg(Color::Cyan)),
            bare(text),
        ],
    )
}

fn entry_line(name: &str, text: &str) -> (l: Line)
    ensures
        l@ == entry_row(name@, text@),
{
    Line::of3(
        raw("   "),
        styled(padded_right(name, 18).as_str(), Style::default().fg(Color::Cyan)),
        raw(text),
    )
}

/// A command as the list names it: with what may follow it.
pub open spec fn usage(m: SlashCommandMeta) -> Seq<char> {
    if m.args_hint@.len() == 0 {
        m.name@
    } else {
        m.name@ + " "@ + m.args_hint@
    }
}

pub open spec fn command_rows(metas: Seq<SlashCommandMeta>) -> Seq<LineView> {
    Seq::new(metas.len(), |i: int| entry_row(usage(metas[i]), metas[i].description@))
}

/// What each key does.
pub open spec fn key_rows() -> Seq<LineView> {
    seq![
        entry_row("Enter"@, "Submit prompt or slash command"@),
        entry_row("Shift+Enter / Alt+Enter"@, "Insert newline (multi-line input)"@),
        entry_row("Backspace / Del"@, "Edit input"@),
        entry_row("Left / Right"@, "Move cursor"@),
        entry_row("Up / Down"@, "Navigate input history (or menu selection)"@),
        entry_row("Home / End"@, "Jump to start / end of input"@),
        entry_row("/"@, "Open slash-command menu"@),
        entry_row("@"@, "Open path-completion menu (auto-attaches file on submit)"@),
        entry_row("Tab / Shift+Tab"@, "Cycle selection in an open menu"@),
        entry_row("PageUp / PageDn"@, "Scroll transcript"@),
        entry_row("Mouse wheel"@, "Scroll transcript (Opt/Shift+drag to select text)"@),
        entry_row("Ctrl+C"@, "Cancel running turn or clear input"@),
        entry_row("Ctrl+D"@, "Exit (when input is empty)"@),
        entry_row("Esc / q"@, "Close menu or overlay (or cancel a running turn)"@),
    ]
}

/// The commands, then the keys.
pub open spec fn help_page(metas: Seq<SlashCommandMeta>) -> Seq<LineView> {
    (seq![blank_line()] + command_rows(metas)).push(blank_line()).push(
        styled_text(" \u{2014} Keyboard "@, plain().with_fg(Color::Yellow).with_bold()),
    ).push(blank_line()) + key_rows().push(blank_line()).push(
        styled_text("  Press q or Esc to close."@, plain().with_dim()),
    )
}

fn push_keys(out: &mut Vec<Line>)
    ensures
        lines_view(final(out)@) == lines_view(old(out)@) + key_rows(),
{
    let ghost before = lines_view(out@);
    push_line(out, entry_line("Enter", "Submit prompt or slash command"));
    push_line(out, entry_line("Shift+Enter / Alt+Enter", "Insert newline (multi-line input)"));
    push_line(out, entry_line("Backspace / Del", "Edit input"));
    push_line(out, entry_line("Left / Right", "Move cursor"));
    push_line(out, entry_line("Up / Down", "Navigate input history (or menu selection)"));
    push_line(out, entry_line("Home / End", "Jump to start / end of input"));
    push_line(out, entry_line("/", "Open slash-command menu"));
    push_line(
        out,
        entry_line("@", "Open path-completion menu (auto-attaches file on submit)"),
    );
    push_line(out, entry_line("Tab / Shift+Tab", "Cycle selection in an open menu"));
    push_line(out, entry_line("PageUp / PageDn", "Scroll transcript"));
    push_line(out, entry_line("Mouse wheel", "Scroll transcript (Opt/Shift+drag to select text)"));
    push_line(out, entry_line("Ctrl+C", "Cancel running turn or clear input"));
    push_line(out, entry_line("Ctrl+D", "Exit (when input is empty)"));
    push_line(out, entry_line("Esc / q", "Close menu or overlay (or cancel a running turn)"));
    assert(lines_view(out@) =~= before + key_rows());
}

fn push_commands(metas: &Vec<SlashCommandMeta>, out: &mut Vec<Line>)
    ensures
        lines_view(final(out)@) == lines_view(old(out)@) + command_rows(metas@),
{
    let ghost head = lines_view(out@);
    let ghost rows = command_rows(metas@);
    let mut i: usize = 0;
    assert(head + rows.take(0) =~= head);
    while i < metas.len()
        invariant
            i <= metas@.len(),
            rows == command_rows(metas@),
            lines_view(out@) == head + rows.take(i as int),
        decreases metas@.len() - i,
    {
        let m = metas[i];
        let line = if m.args_hint.is_empty() {
            entry_line(m.name, m.description)
        } else {
            entry_line(cat3(m.name, " ", m.args_hint).as_str(), m.description)
        };
        assert(line@ == rows[i as int]);
        push_line(out, line);
        i = i + 1;
        assert(rows.take(i as int) =~= rows.take(i - 1).push(rows[i - 1]));
        assert((head + rows.take(i - 1)).push(rows[i - 1]) =~= head + rows.take(i as int));
    }
    assert(rows.take(i as int) =~= rows);
}

/// The commands that a list shows, then the keys.
pub fn help_lines_for(metas: &Vec<SlashCommandMeta>) -> (out: Vec<Line>)
    ensures
        lines_view(out@) == help_page(metas@),
{
    let mut out = no_lines();
    push_line(&mut out, Line::blank());
    assert(lines_view(out@) =~= seq![blank_line()]);
    push_commands(metas, &mut out);
    push_line(&mut out, Line::blank());
    push_line(
        &mut out,
        Line::styled(" \u{2014} Keyboard ", Style::default().fg(Color::Yellow).bold()),
    );
    push_line(&mut out, Line::blank());
    push_keys(&mut out);
    push_line(&mut out, Line::blank());
    push_line(&mut out, Line::styled("  Press q or Esc to close.", Style::default().dim()));
    assert(lines_view(out@) =~= help_page(metas@));
    out
}

/// Whether `metas` are the commands that are not hidden, by name.
pub open spec fn visible_in(commands: Seq<SlashCommand>, metas: Seq<SlashCommandMeta>) -> bool {
    &&& forall|i: int|
        #![trigger metas[i]]
        0 <= i < metas.len() ==> !metas[i].hidden && exists|k: int|
            0 <= k < commands.len() && commands[k].meta == metas[i]
    &&& forall|k: int|
        #![trigger commands[k]]
        0 <= k < commands.len() && !commands[k].meta.hidden ==> metas.contains(commands[k].meta)
    &&& forall|i: int, j: int|
        #![trigger metas[i], metas[j]]
        0 <= i < j < metas.len() ==> text_before(metas[i].name@, metas[j].name@)
}

/// Whether a page lists the commands that are not hidden, by name, then the
/// keys.
pub open spec fn lists_commands(commands: Seq<SlashCommand>, page: Seq<LineView>) -> bool {
    exists|metas: Seq<SlashCommandMeta>|
        #[trigger] visible_in(commands, metas) && page == help_page(metas)
}

/// The commands that are not hidden, by name, then the keys.
pub fn slash_help_lines(registry: &SlashCommandRegistry) -> (out: Vec<Line>)
    requires
        registry.wf(),
    ensures
        lists_commands(registry@, lines_view(out@)),
{
    let metas = registry.visible_metas();
    assert(visible_in(registry@, metas@));
    help_lines_for(&metas)
}

/// The note on skills.
pub open spec fn skills_page() -> Seq<LineView> {
    let dim = plain().with_dim();
    seq![
        blank_line(),
        text_line("   No skills configured."@),
        blank_line(),
        text_line("   Skills are reusable instruction-and-procedure packages the"@),
        text_line("   model can invoke via a Skill tool. They mirror the"@),
        text_line("   superpowers / skills design."@),
        blank_line(),
        styled_text("   Planned configuration:"@, plain().with_fg(Color::Yellow)),
        text_line("     ~/.config/caliban/skills/"@),
        text_line("         <skill-name>/"@),
        text_line("             SKILL.md         (instruction set)"@),
        text_line("             scripts/         (optional helper scripts)"@),
        text_line("             references/      (optional reference docs)"@),
        blank_line(),
        text_line("   The Skill tool would dispatch to the matching skill, load"@),
        text_line("   its SKILL.md, and inject the content into the agent's"@),
        text_line("   context."@),
        blank_line(),
        styled_text("   See caliban-skills (future sub-project) \u{2014} not yet shipped."@, dim),
        blank_line(),
        styled_text("  Press q or Esc to close."@, dim),
    ]
}

/// The note on skills.
pub fn skills_lines() -> (out: Vec<Line>)
    ensures
        lines_view(out@) == skills_page(),
{
    let dim = Style::default().dim();
    let mut out = no_lines();
    push_line(&mut out, Line::blank());
    push_line(&mut out, Line::raw("   No skills configured."));
    push_line(&mut out, Line::blank());
    push_line(
        &mut out,
        Line::raw("   Skills are reusable instruction-and-procedure packages the"),
    );
    push_line(&mut out, Line::raw("   model can invoke via a Skill tool. They mirror the"));
    push_line(&mut out, Line::raw("   superpowers / skills design."));
    push_line(&mut out, Line::blank());
    push_line(
        &mut out,
        Line::styled("   Planned configuration:", Style::default().fg(Color::Yellow)),
    );
    push_line(&mut out, Line::raw("     ~/.config/caliban/skills/"));
    push_line(&mut out, Line::raw("         <skill-name>/"));
    push_line(&mut out, Line::raw("             SKILL.md         (instruction set)"));
    push_line(&mut out, Line::raw("             scripts/         (optional helper scripts)"));
    push_line(&mut out, Line::raw("             references/      (optional reference docs)"));
    push_line(&mut out, Line::blank());
    push_line(&mut out, Line::raw("   The Skill tool would dispatch to the matching skill, load"));
    push_line(&mut out, Line::raw("   its SKILL.md, and inject the content into the agent's"));
    push_line(&mut out, Line::raw("   context."));
    push_line(&mut out, Line::blank());
    push_line(
        &mut out,
        Line::styled("   See caliban-skills (future sub-project) \u{2014} not yet shipped.", dim),
    );
    push_line(&mut out, Line::blank());
    push_line(&mut out, Line::styled("  Press q or Esc to close.", dim));
    out
}

proof fn lemma_listed_in_both(
    commands: Seq<SlashCommand>,
    a: Seq<SlashCommandMeta>,
    b: Seq<SlashCommandMeta>,
    i: int,
) -> (m: int)
    requires
        visible_in(commands, a),
        visible_in(commands, b),
        0 <= i < a.len(),
    ensures
        0 <= m < b.len(),
        b[m] == a[i],
{
    let k = choose|k: int| 0 <= k < commands.len() && commands[k].meta == a[i];
    assert(b.contains(commands[k].meta));
    choose|m: int| 0 <= m < b.len() && b[m] == a[i]
}

proof fn lemma_prefix_agrees(
    commands: Seq<SlashCommand>,
    a: Seq<SlashCommandMeta>,
    b: Seq<SlashCommandMeta>,
    n: nat,
)
    requires
        visible_in(commands, a),
        visible_in(commands, b),
        n <= a.len(),
    ensures
        n <= b.len(),
        forall|i: int| 0 <= i < n ==> #[trigger] a[i] == b[i],
    decreases n,
{
    if n > 0 {
        lemma_prefix_agrees(commands, a, b, (n - 1) as nat);
        let i = n - 1;
        let m = lemma_listed_in_both(commands, a, b, i);
        lemma_text_order(a[i].name@, a[i].name@);
        if m < i {
            assert(a[m] == b[m]);
            assert(text_before(a[m].name@, a[i].name@));
        } else if m > i {
            let l = lemma_listed_in_both(commands, b, a, i);
            assert(text_before(b[i].name@, b[m].name@));
            if l < i {
                assert(a[l] == b[l]);
                assert(text_before(b[l].name@, b[i].name@));
                lemma_text_order(b[i].name@, b[i].name@);
            } else if l > i {
                assert(text_before(a[i].name@, a[l].name@));
                lemma_text_order(a[i].name@, b[i].name@);
            }
        }
    }
}

/// Only one list is that of the commands that are not hidden.
pub proof fn law_one_list_of_commands(
    commands: Seq<SlashCommand>,
    a: Seq<SlashCommandMeta>,
    b: Seq<SlashCommandMeta>,
)
    requires
        visible_in(commands, a),
        visible_in(commands, b),
    ensures
        a == b,
{
    lemma_prefix_agrees(commands, a, b, a.len());
    lemma_prefix_agrees(commands, b, a, b.len());
    assert(a =~= b);
}

/// The name of an entry is cyan in a column of eighteen cells, and what it
/// does follows; a command is named with its arguments where it takes any.
pub proof fn law_entries_have_two_columns(name: Seq<char>, text: Seq<char>, m: SlashCommandMeta)
    ensures
        entry_row(name, text).spans.len() == 3,
        entry_row(name, text).spans[0] == bare("   "@),
        entry_row(name, text).spans[1].content == pad_right(name, 18),
        entry_row(name, text).spans[1].style.fg == Some(Color::Cyan),
        entry_row(name, text).spans[2] == bare(text),
        m.args_hint@.len() == 0 ==> usage(m) == m.name@,
        m.args_hint@.len() > 0 ==> usage(m) == m.name@ + " "@ + m.args_hint@,
{
}

/// The page lists the commands in their order below an empty row, then a
/// heading, the fourteen keys, and how to close it.
pub proof fn law_the_page_lists_commands_then_keys(metas: Seq<SlashCommandMeta>, i: int)
    ensures
        ({
            let page = help_page(metas);
            let n = metas.len() as int;
            &&& page.len() == n + 20
            &&& page[0] == blank_line()
            &&& 0 <= i < n ==> page[i + 1] == entry_row(usage(metas[i]), metas[i].description@)
            &&& page[n + 1] == blank_line()
            &&& page[n + 2] == styled_text(
                " \u{2014} Keyboard "@,
                plain().with_fg(Color::Yellow).with_bold(),
            )
            &&& page[n + 3] == blank_line()
            &&& 0 <= i < 14 ==> page[n + 4 + i] == entry_row(
                seq![
                    "Enter"@,
                    "Shift+Enter / Alt+Enter"@,
                    "Backspace / Del"@,
                    "Left / Right"@,
                    "Up / Down"@,
                    "Home / End"@,
                    "/"@,
                    "@"@,
                    "Tab / Shift+Tab"@,
                    "PageUp / PageDn"@,
                    "Mouse wheel"@,
                    "Ctrl+C"@,
                    "Ctrl+D"@,
                    "Esc / q"@,
                ][i],
                seq![
                    "Submit prompt or slash command"@,
                    "Insert newline (multi-line input)"@,
                    "Edit input"@,
                    "Move cursor"@,
                    "Navigate input history (or menu selection)"@,
                    "Jump to start / end of input"@,
                    "Open slash-command menu"@,
                    "Open path-completion menu (auto-attaches file on submit)"@,
                    "Cycle selection in an open menu"@,
                    "Scroll transcript"@,
                    "Scroll transcript (Opt/Shift+drag to select text)"@,
                    "Cancel running turn or clear input"@,
                    "Exit (when input is empty)"@,
                    "Close menu or overlay (or cancel a running turn)"@,
                ][i],
            )
            &&& page[n + 18] == blank_line()
            &&& page[n + 19] == styled_text("  Press q or Esc to close."@, plain().with_dim())
        }),
{
}

/// Hidden commands are listed nowhere, and every other one is.
pub proof fn law_hidden_commands_are_not_listed(
    commands: Seq<SlashCommand>,
    metas: Seq<SlashCommandMeta>,
    k: int,
)
    requires
        visible_in(commands, metas),
        0 <= k < commands.len(),
    ensures
        commands[k].meta.hidden ==> !metas.contains(commands[k].meta),
        !commands[k].meta.hidden ==> metas.contains(commands[k].meta),
{
    if metas.contains(commands[k].meta) {
        let i = choose|i: int| 0 <= i < metas.len() && metas[i] == commands[k].meta;
        assert(!metas[i].hidden);
    }
}

/// The note on skills reads so, line by line.
pub proof fn law_the_note_on_skills_reads_so()
    ensures
        skills_page().len() == 21,
        skills_page()[0] == blank_line(),
        skills_page()[1] == text_line("   No skills configured."@),
        skills_page()[2] == blank_line(),
        skills_page()[3] == text_line("   Skills are reusable instruction-and-procedure packages the"@),
        skills_page()[4] == text_line("   model can invoke via a Skill tool. They mirror the"@),
        skills_page()[5] == text_line("   superpowers / skills design."@),
        skills_page()[6] == blank_line(),
        skills_page()[7] == styled_text("   Planned configuration:"@, plain().with_fg(Color::Yellow)),
        skills_page()[8] == text_line("     ~/.config/caliban/skills/"@),
        skills_page()[9] == text_line("         <skill-name>/"@),
        skills_page()[10] == text_line("             SKILL.md         (instruction set)"@),
        skills_page()[11] == text_line("             scripts/         (optional helper scripts)"@),
        skills_page()[12] == text_line("             references/      (optional reference docs)"@),
        skills_page()[13] == blank_line(),
        skills_page()[14] == text_line("   The Skill tool would dispatch to the matching skill, load"@),
        skills_page()[15] == text_line("   its SKILL.md, and inject the content into the agent's"@),
        skills_page()[16] == text_line("   context."@),
        skills_page()[17] == blank_line(),
        skills_page()[18] == styled_text("   See caliban-skills (future sub-project) \u{2014} not yet shipped."@, plain().with_dim()),
        skills_page()[19] == blank_line(),
        skills_page()[20] == styled_text("  Press q or Esc to close."@, plain().with_dim()),
{
}

} // verus!
