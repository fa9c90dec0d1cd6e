//! Slash commands: plan mode, skills, memory and output styles.

use vstd::prelude::*;

use crate::slash::{
    register_all, registered_all, Command, SlashCommand, SlashCommandMeta, SlashCommandRegistry,
};
use crate::app::{App, AppView, SessionView, TranscriptLine};
use crate::effect::{effects_view, just, nothing, Effect, EffectView};
use crate::text::{
    cat2, cat3, cat4, cat5, decimal, decimal_u64, decimal_usize, first_line, first_line_of,
    head_word, lines, lines_of, opt_text, push_text, same, split_command, split_whitespace,
    starts_with, starts_with_text, tail_words, texts, words,
};

verus! {

/// The commands of this group, in the order in which they register.
pub open spec fn commands() -> Seq<SlashCommand> {
    seq![
        SlashCommand {
            meta: SlashCommandMeta {
                name: "/plan",
                description: "toggle plan mode (mutating tools blocked when on)",
                args_hint: "",
                hidden: false,
                immediate: false,
            },
            command: Command::Plan,
        },
        SlashCommand {
            meta: SlashCommandMeta {
                name: "/skills",
                description: "list skills loaded from .caliban/skills/",
                args_hint: "",
                hidden: false,
                immediate: true,
            },
            command: Command::Skills,
        },
        SlashCommand {
            meta: SlashCommandMeta {
                name: "/memory",
                description: "view or edit memory tiers and topic files",
                args_hint: "[list|show <slug>|edit <slug>|delete <slug> --force]",
                hidden: false,
                immediate: true,
            },
            command: Command::Memory,
        },
        SlashCommand {
            meta: SlashCommandMeta {
                name: "/output-style",
                description: "show the active output style and the available list",
                args_hint: "",
                hidden: false,
                immediate: true,
            },
            command: Command::OutputStyle,
        },
    ]
}

/// Registers the commands of this group.
pub fn register(registry: &mut SlashCommandRegistry)
    requires
        old(registry).wf(),
    ensures
        final(registry).wf(),
        final(registry)@ == registered_all(old(registry)@, commands()),
{
    let mut cmds: Vec<SlashCommand> = Vec::new();
    cmds.push(
        SlashCommand {
            meta: SlashCommandMeta {
                name: "/plan",
                description: "toggle plan mode (mutating tools blocked when on)",
                args_hint: "",
                hidden: false,
                immediate: false,
            },
            command: Command::Plan,
        },
    );
    cmds.push(
        SlashCommand {
            meta: SlashCommandMeta {
                name: "/skills",
                description: "list skills loaded from .caliban/skills/",
                args_hint: "",
                hidden: false,
                immediate: true,
            },
            command: Command::Skills,
        },
    );
    cmds.push(
        SlashCommand {
            meta: SlashCommandMeta {
                name: "/memory",
                description: "view or edit memory tiers and topic files",
                args_hint: "[list|show <slug>|edit <slug>|delete <slug> --force]",
                hidden: false,
                immediate: true,
            },
            command: Command::Memory,
        },
    );
    cmds.push(
        SlashCommand {
            meta: SlashCommandMeta {
                name: "/output-style",
                description: "show the active output style and the available list",
                args_hint: "",
                hidden: false,
                immediate: true,
            },
            command: Command::OutputStyle,
        },
    );
    assert(cmds@ =~= commands());
    register_all(registry, cmds);
}

// ---------------------------------------------------------------------------
// /plan
// ---------------------------------------------------------------------------

/// Plan mode switched over, in the session too.
pub open spec fn plan_toggled(app: AppView) -> AppView {
    let on = !app.plan_mode;
    AppView {
        plan_mode: on,
        session: match app.session {
            Some(s) => Some(SessionView { plan_mode: on, ..s }),
            None => None,
        },
        ..app
    }.informed(
        if on {
            "plan mode: ON \u{2014} mutating tools blocked until /plan toggles off"@
        } else {
            "plan mode: OFF \u{2014} mutating tools available"@
        },
    )
}

fn set_plan_mode(app: &mut App, on: bool)
    requires
        old(app).wf(),
    ensures
        final(app).wf(),
        final(app)@ == (AppView {
            plan_mode: on,
            session: match old(app)@.session {
                Some(s) => Some(SessionView { plan_mode: on, ..s }),
                None => None,
            },
            ..old(app)@
        }),
{
    app.plan_mode = on;
    match &mut app.session {
        Some(s) => {
            s.plan_mode = on;
        },
        None => {},
    }
}

/// Switches plan mode over.
pub fn toggle_plan(app: &mut App)
    requires
        old(app).wf(),
    ensures
        final(app).wf(),
        final(app)@ == plan_toggled(old(app)@),
{
    let on = !app.plan_mode;
    set_plan_mode(app, on);
    if on {
        app.inform("plan mode: ON \u{2014} mutating tools blocked until /plan toggles off");
    } else {
        app.inform("plan mode: OFF \u{2014} mutating tools available");
    }
}

/// Switching plan mode twice leaves it as it was, and the session always
/// agrees with it.
pub proof fn law_plan_mode_toggles(app: AppView)
    ensures
        plan_toggled(plan_toggled(app)).plan_mode == app.plan_mode,
        plan_toggled(app).session is Some ==> plan_toggled(app).session->0.plan_mode
            == plan_toggled(app).plan_mode,
        plan_toggled(app).permission_mode == app.permission_mode,
{
}

// ---------------------------------------------------------------------------
// /skills
// ---------------------------------------------------------------------------

/// A skill by its name and what it is for.
#[derive(Debug)]
pub struct Skill<S = String> {
    pub name: S,
    pub description: S,
}

pub open spec fn skills_view(v: Seq<Skill<String>>) -> Seq<Skill<Seq<char>>> {
    Seq::new(v.len(), |i: int| Skill { name: v[i].name@, description: v[i].description@ })
}

pub open spec fn skills_text(skills: Seq<Skill<Seq<char>>>) -> Seq<Seq<char>> {
    if skills.len() == 0 {
        seq!["no skills loaded (drop a SKILL.md under .caliban/skills/<name>/)"@]
    } else {
        seq![decimal(skills.len()) + " skill(s) loaded:"@] + Seq::new(
            skills.len(),
            |i: int| "  "@ + skills[i].name + " \u{2014} "@ + first_line(skills[i].description),
        )
    }
}

/// The answer to `/skills`.
pub fn skills_report(skills: &Vec<Skill>) -> (out: Vec<String>)
    ensures
        texts(out@) == skills_text(skills_view(skills@)),
{
    let mut out: Vec<String> = Vec::new();
    assert(texts(out@) =~= Seq::<Seq<char>>::empty());
    if skills.len() == 0 {
        push_text(
            &mut out,
            String::from_str("no skills loaded (drop a SKILL.md under .caliban/skills/<name>/)"),
        );
        return out;
    }
    let ghost rows = skills_text(skills_view(skills@));
    push_text(&mut out, cat2(decimal_usize(skills.len()).as_str(), " skill(s) loaded:"));
    let mut i: usize = 0;
    assert(texts(out@) =~= rows.take(1));
    while i < skills.len()
        invariant
            i <= skills@.len(),
            skills@.len() > 0,
            rows == skills_text(skills_view(skills@)),
            texts(out@) == rows.take(i + 1),
        decreases skills@.len() - i,
    {
        let s = cat4(
            "  ",
            skills[i].name.as_str(),
            " \u{2014} ",
            first_line_of(skills[i].description.as_str()).as_str(),
        );
        assert(rows[i + 1] == s@);
        push_text(&mut out, s);
        i = i + 1;
        assert(rows.take(i + 1) =~= rows.take(i as int).push(rows[i as int]));
    }
    assert(rows.take(rows.len() as int) =~= rows);
    out
}

// ---------------------------------------------------------------------------
// /output-style
// ---------------------------------------------------------------------------

/// An output style.
#[derive(Debug)]
pub struct OutputStyle<S = String> {
    pub name: S,
    pub description: S,
    pub force_for_plugin: bool,
}

pub open spec fn styles_view(v: Seq<OutputStyle<String>>) -> Seq<OutputStyle<Seq<char>>> {
    Seq::new(
        v.len(),
        |i: int|
            OutputStyle {
                name: v[i].name@,
                description: v[i].description@,
                force_for_plugin: v[i].force_for_plugin,
            },
    )
}

pub open spec fn style_rows(active: Seq<char>, styles: Seq<OutputStyle<Seq<char>>>) -> Seq<Seq<char>> {
    Seq::new(
        styles.len(),
        |i: int|
            "  "@ + (if styles[i].name == active {
                "*"@
            } else {
                " "@
            }) + " "@ + styles[i].name + " \u{2014} "@ + styles[i].description + (if styles[i].force_for_plugin {
                " [force_for_plugin \u{2014} inert until ADR 0030]"@
            } else {
                ""@
            }),
    )
}

/// The active style, and those to choose from. `variable` is where the
/// active one was read from.
pub open spec fn styles_text(
    active: Seq<char>,
    variable: Seq<char>,
    styles: Seq<OutputStyle<Seq<char>>>,
) -> Seq<Seq<char>> {
    (seq![
        "active output style: "@ + active + " (set via "@ + variable
            + " env var; full UI ships with ADR 0040)"@,
        decimal(styles.len()) + " style(s) available:"@,
    ] + style_rows(active, styles)).push(
        "note: applies after /clear or restart (system prompts are cached)"@,
    )
}

/// The answer to `/output-style`.
pub fn output_style_lines(active: &str, variable: &str, styles: &Vec<OutputStyle>) -> (out: Vec<
    String,
>)
    ensures
        texts(out@) == styles_text(active@, variable@, styles_view(styles@)),
{
    let mut out: Vec<String> = Vec::new();
    assert(texts(out@) =~= Seq::<Seq<char>>::empty());
    push_text(
        &mut out,
        cat5(
            "active output style: ",
            active,
            " (set via ",
            variable,
            " env var; full UI ships with ADR 0040)",
        ),
    );
    push_text(&mut out, cat2(decimal_usize(styles.len()).as_str(), " style(s) available:"));
    let ghost head = texts(out@);
    let ghost rows = style_rows(active@, styles_view(styles@));
    let mut i: usize = 0;
    assert(head =~= head + rows.take(0));
    while i < styles.len()
        invariant
            i <= styles@.len(),
            rows == style_rows(active@, styles_view(styles@)),
            texts(out@) == head + rows.take(i as int),
        decreases styles@.len() - i,
    {
        let marker = if same(styles[i].name.as_str(), active) {
            "*"
        } else {
            " "
        };
        let badge = if styles[i].force_for_plugin {
            " [force_for_plugin \u{2014} inert until ADR 0030]"
        } else {
            ""
        };
        let mut s = cat5("  ", marker, " ", styles[i].name.as_str(), " \u{2014} ");
        s.append(styles[i].description.as_str());
        s.append(badge);
        assert(rows[i as int] == s@);
        push_text(&mut out, s);
        i = i + 1;
        assert(rows.take(i as int) =~= rows.take(i - 1).push(rows[i - 1]));
        assert((head + rows.take(i - 1)).push(rows[i - 1]) =~= head + rows.take(i as int));
    }
    assert(rows.take(styles@.len() as int) =~= rows);
    push_text(
        &mut out,
        String::from_str("note: applies after /clear or restart (system prompts are cached)"),
    );
    out
}

// ---------------------------------------------------------------------------
// /memory
// ---------------------------------------------------------------------------

/// What `/memory delete` was told: the topic, and whether to go through
/// with it.
#[derive(Debug)]
pub struct ParsedDelete<O = Option<String>> {
    pub slug: O,
    pub force: bool,
}

/// The first word that is no flag, and whether `--force` is among the words.
pub open spec fn delete_args(ws: Seq<Seq<char>>) -> ParsedDelete<Option<Seq<char>>>
    decreases ws.len(),
{
    if ws.len() == 0 {
        ParsedDelete { slug: None, force: false }
    } else {
        let before = delete_args(ws.drop_last());
        let w = ws.last();
        if w == "--force"@ {
            ParsedDelete { force: true, ..before }
        } else if !starts_with(w, "--"@) && before.slug is None {
            ParsedDelete { slug: Some(w), ..before }
        } else {
            before
        }
    }
}

pub open spec fn parsed_view(p: ParsedDelete<Option<String>>) -> ParsedDelete<Option<Seq<char>>> {
    ParsedDelete { slug: opt_text(p.slug), force: p.force }
}

pub fn parse_delete_args(rest: &str) -> (r: ParsedDelete)
    ensures
        parsed_view(r) == delete_args(words(rest@)),
{
    let ws = split_whitespace(rest);
    let ghost all = words(rest@);
    let mut slug: Option<String> = None;
    let mut force = false;
    let mut i: usize = 0;
    while i < ws.len()
        invariant
            i <= ws@.len(),
            all == texts(ws@),
            (ParsedDelete { slug: opt_text(slug), force }) == delete_args(all.take(i as int)),
        decreases ws@.len() - i,
    {
        assert(all.take(i + 1).drop_last() =~= all.take(i as int));
        assert(all.take(i + 1).last() == ws@[i as int]@);
        if same(ws[i].as_str(), "--force") {
            force = true;
        } else if !starts_with_text(ws[i].as_str(), "--") && slug.is_none() {
            slug = Some(ws[i].clone());
        }
        i = i + 1;
    }
    assert(all.take(all.len() as int) =~= all);
    ParsedDelete { slug, force }
}

/// What is to be done about a topic that is to be deleted.
#[derive(Debug, Clone, Copy, PartialEq, Eq, Structural)]
pub enum DeleteAction {
    /// No topic was named.
    Usage,
    NoSuchTopic,
    /// Say what would be deleted.
    Preview,
    Delete,
}

pub open spec fn deletion(p: ParsedDelete<Option<Seq<char>>>, exists_file: bool) -> DeleteAction {
    if p.slug is None {
        DeleteAction::Usage
    } else if !exists_file {
        DeleteAction::NoSuchTopic
    } else if p.force {
        DeleteAction::Delete
    } else {
        DeleteAction::Preview
    }
}

pub fn delete_action(parsed: &ParsedDelete, exists_file: bool) -> (r: DeleteAction)
    ensures
        r == deletion(parsed_view(*parsed), exists_file),
{
    if parsed.slug.is_none() {
        DeleteAction::Usage
    } else if !exists_file {
        DeleteAction::NoSuchTopic
    } else if parsed.force {
        DeleteAction::Delete
    } else {
        DeleteAction::Preview
    }
}

/// Nothing is deleted without `--force`, nor where there is no such topic.
pub proof fn law_no_deletion_without_force(rest: Seq<char>, exists_file: bool)
    ensures
        deletion(delete_args(words(rest)), exists_file) == DeleteAction::Delete ==> words(
            rest,
        ).contains("--force"@) && exists_file,
{
    lemma_force_is_written(words(rest));
}

proof fn lemma_force_is_written(ws: Seq<Seq<char>>)
    ensures
        delete_args(ws).force ==> ws.contains("--force"@),
    decreases ws.len(),
{
    if ws.len() > 0 {
        lemma_force_is_written(ws.drop_last());
        if ws.last() == "--force"@ {
            assert(ws[ws.len() - 1] == "--force"@);
        } else if delete_args(ws.drop_last()).force {
            let i = ws.drop_last().index_of("--force"@);
            assert(ws.drop_last().contains("--force"@));
            assert(ws[i] == "--force"@);
        }
    }
}

pub open spec fn delete_usage() -> Seq<char> {
    "usage: /memory delete <slug> --force  (also: /memory rm <slug>)"@
}

/// What `/memory` does before anything is read: a usage line, or a step to
/// take.
pub open spec fn memory_asked(app: AppView, args: Seq<char>) -> (AppView, Seq<EffectView>) {
    let sub = head_word(args);
    let rest = tail_words(args);
    if sub.len() == 0 {
        (app, seq![Effect::LoadMemory])
    } else if sub == "list"@ {
        (app, seq![Effect::ListTopics])
    } else if sub == "show"@ {
        if rest.len() == 0 {
            (app.informed("usage: /memory show <slug>"@), Seq::empty())
        } else {
            (app, seq![Effect::ReadTopic(rest)])
        }
    } else if sub == "edit"@ {
        if rest.len() == 0 {
            (app.informed("usage: /memory edit <slug>"@), Seq::empty())
        } else {
            (app, seq![Effect::EditTopic(rest)])
        }
    } else if sub == "delete"@ || sub == "rm"@ {
        let p = delete_args(words(rest));
        match p.slug {
            None => (app.informed(delete_usage()), Seq::empty()),
            Some(slug) => (app, seq![Effect::CheckTopic { slug, force: p.force }]),
        }
    } else {
        (
            app.informed(
                "unknown /memory subcommand: "@ + sub + " \u{2014} try /memory list"@,
            ),
            Seq::empty(),
        )
    }
}

/// Runs `/memory` up to the point where something has to be read.
pub fn memory_command(app: &mut App, args: &str) -> (effects: Vec<Effect>)
    requires
        old(app).wf(),
    ensures
        final(app).wf(),
        (final(app)@, effects_view(effects@)) == memory_asked(old(app)@, args@),
{
    let (sub, rest) = split_command(args);
    if sub.as_str().is_empty() {
        just(Effect::LoadMemory)
    } else if same(sub.as_str(), "list") {
        just(Effect::ListTopics)
    } else if same(sub.as_str(), "show") {
        if rest.as_str().is_empty() {
            app.inform("usage: /memory show <slug>");
            nothing()
        } else {
            just(Effect::ReadTopic(rest))
        }
    } else if same(sub.as_str(), "edit") {
        if rest.as_str().is_empty() {
            app.inform("usage: /memory edit <slug>");
            nothing()
        } else {
            just(Effect::EditTopic(rest))
        }
    } else if same(sub.as_str(), "delete") || same(sub.as_str(), "rm") {
        let p = parse_delete_args(rest.as_str());
        match p.slug {
            None => {
                app.inform("usage: /memory delete <slug> --force  (also: /memory rm <slug>)");
                nothing()
            },
            Some(slug) => just(Effect::CheckTopic { slug, force: p.force }),
        }
    } else {
        app.inform(
            cat3(
                "unknown /memory subcommand: ",
                sub.as_str(),
                " \u{2014} try /memory list",
            ).as_str(),
        );
        nothing()
    }
}

/// The memory tiers, as they were loaded.
#[derive(Debug)]
pub struct MemorySummary {
    pub estimated_tokens: u64,
    pub max_tokens: u64,
    pub lines: Vec<String>,
    pub truncated: bool,
}

pub open spec fn memory_text(m: MemorySummary) -> Seq<Seq<char>> {
    let all = seq![
        "memory tiers ("@ + decimal(m.estimated_tokens as nat) + " tokens / "@ + decimal(
            m.max_tokens as nat,
        ) + " budget):"@,
    ] + texts(m.lines@);
    (if m.truncated {
        all.push("(some tiers truncated \u{2014} raise CALIBAN_MEMORY_BUDGET_TOKENS or trim)"@)
    } else {
        all
    }).push("subcommands: /memory list | show <slug> | edit <slug> | delete <slug> --force"@)
}

/// The answer to `/memory` alone.
pub fn memory_lines(m: &MemorySummary) -> (out: Vec<String>)
    ensures
        texts(out@) == memory_text(*m),
{
    let mut out: Vec<String> = Vec::new();
    assert(texts(out@) =~= Seq::<Seq<char>>::empty());
    push_text(
        &mut out,
        cat5(
            "memory tiers (",
            decimal_u64(m.estimated_tokens).as_str(),
            " tokens / ",
            decimal_u64(m.max_tokens).as_str(),
            " budget):",
        ),
    );
    let ghost head = texts(out@);
    let ghost rows = texts(m.lines@);
    let mut i: usize = 0;
    assert(head =~= head + rows.take(0));
    while i < m.lines.len()
        invariant
            i <= m.lines@.len(),
            rows == texts(m.lines@),
            texts(out@) == head + rows.take(i as int),
        decreases m.lines@.len() - i,
    {
        push_text(&mut out, m.lines[i].clone());
        i = i + 1;
        assert(rows.take(i as int) =~= rows.take(i - 1).push(rows[i - 1]));
        assert((head + rows.take(i - 1)).push(rows[i - 1]) =~= head + rows.take(i as int));
    }
    assert(rows.take(m.lines@.len() as int) =~= rows);
    assert(head =~= seq![head[0]]);
    if m.truncated {
        push_text(
            &mut out,
            String::from_str(
                "(some tiers truncated \u{2014} raise CALIBAN_MEMORY_BUDGET_TOKENS or trim)",
            ),
        );
    }
    push_text(
        &mut out,
        String::from_str(
            "subcommands: /memory list | show <slug> | edit <slug> | delete <slug> --force",
        ),
    );
    out
}

/// Takes in the memory tiers, or why they could not be loaded.
pub fn memory_loaded(app: &mut App, result: &Result<MemorySummary, String>)
    requires
        old(app).wf(),
    ensures
        final(app).wf(),
        final(app)@ == (match *result {
            Ok(m) => old(app)@.informed_all(memory_text(m)),
            Err(e) => old(app)@.failed("memory load failed: "@ + e@),
        }),
{
    match result {
        Ok(m) => {
            let ls = memory_lines(m);
            app.inform_all(&ls);
        },
        Err(e) => app.fail(cat2("memory load failed: ", e.as_str()).as_str()),
    }
}

/// A memory topic.
#[derive(Debug)]
pub struct Topic<S = String> {
    pub name: S,
    pub kind: S,
    pub description: S,
    pub body: S,
}

pub open spec fn topic_view(t: Topic<String>) -> Topic<Seq<char>> {
    Topic { name: t.name@, kind: t.kind@, description: t.description@, body: t.body@ }
}

pub open spec fn topic_title(t: Topic<Seq<char>>) -> Seq<char> {
    t.name + " ["@ + t.kind + "] \u{2014} "@ + t.description
}

fn title_of(t: &Topic) -> (r: String)
    ensures
        r@ == topic_title(topic_view(*t)),
{
    cat5(t.name.as_str(), " [", t.kind.as_str(), "] \u{2014} ", t.description.as_str())
}

/// The topics in a directory.
pub open spec fn topics_text(topics: Seq<Topic<String>>, dir: Seq<char>) -> Seq<Seq<char>> {
    if topics.len() == 0 {
        seq!["no topic files yet"@]
    } else {
        seq![decimal(topics.len()) + " topic file(s) in "@ + dir + ":"@] + Seq::new(
            topics.len(),
            |i: int| "  "@ + topic_title(topic_view(topics[i])),
        )
    }
}

/// The answer to `/memory list`.
pub fn topics_lines(topics: &Vec<Topic>, dir: &str) -> (out: Vec<String>)
    ensures
        texts(out@) == topics_text(topics@, dir@),
{
    let mut out: Vec<String> = Vec::new();
    assert(texts(out@) =~= Seq::<Seq<char>>::empty());
    if topics.len() == 0 {
        push_text(&mut out, String::from_str("no topic files yet"));
        return out;
    }
    let ghost rows = topics_text(topics@, dir@);
    push_text(
        &mut out,
        cat4(decimal_usize(topics.len()).as_str(), " topic file(s) in ", dir, ":"),
    );
    let mut i: usize = 0;
    assert(texts(out@) =~= rows.take(1));
    while i < topics.len()
        invariant
            i <= topics@.len(),
            topics@.len() > 0,
            rows == topics_text(topics@, dir@),
            texts(out@) == rows.take(i + 1),
        decreases topics@.len() - i,
    {
        let s = cat2("  ", title_of(&topics[i]).as_str());
        assert(rows[i + 1] == s@);
        push_text(&mut out, s);
        i = i + 1;
        assert(rows.take(i + 1) =~= rows.take(i as int).push(rows[i as int]));
    }
    assert(rows.take(rows.len() as int) =~= rows);
    out
}

/// Takes in the topics in `dir`, or why they could not be listed.
pub fn topics_listed(app: &mut App, result: &Result<Vec<Topic>, String>, dir: &str)
    requires
        old(app).wf(),
    ensures
        final(app).wf(),
        final(app)@ == (match *result {
            Ok(t) => old(app)@.informed_all(topics_text(t@, dir@)),
            Err(e) => old(app)@.failed("list failed: "@ + e@),
        }),
{
    match result {
        Ok(t) => {
            let ls = topics_lines(t, dir);
            app.inform_all(&ls);
        },
        Err(e) => app.fail(cat2("list failed: ", e.as_str()).as_str()),
    }
}

/// Takes in a topic, or why it could not be read.
pub fn topic_read(app: &mut App, result: &Result<Topic, String>)
    requires
        old(app).wf(),
    ensures
        final(app).wf(),
        final(app)@ == (match *result {
            Ok(t) => old(app)@.informed(topic_title(topic_view(t))).informed_all(lines(t.body@)),
            Err(e) => old(app)@.failed("show failed: "@ + e@),
        }),
{
    match result {
        Ok(t) => {
            app.inform(title_of(t).as_str());
            let ls = lines_of(t.body.as_str());
            app.inform_all(&ls);
        },
        Err(e) => app.fail(cat2("show failed: ", e.as_str()).as_str()),
    }
}

/// What is known of the file of a topic.
#[derive(Debug)]
pub enum TopicFile {
    /// The topic's name is none, and why.
    BadSlug(String),
    Missing { path: String },
    Present { path: String },
}

/// What is said of a topic to be edited.
pub open spec fn edit_checked(app: AppView, file: TopicFile, editor: Seq<char>) -> AppView {
    match file {
        TopicFile::BadSlug(e) => app.failed("bad slug: "@ + e@),
        TopicFile::Missing { path } => app.failed("no such topic: "@ + path@),
        TopicFile::Present { path } => app.informed(
            "opening "@ + path@ + " in "@ + editor
                + " (Ctrl-Z and `fg` to return, or run from outside the TUI)"@,
        ).informed("\u{2192} run: "@ + editor + " "@ + path@),
    }
}

/// Takes in what is known of the file of a topic to be edited.
pub fn topic_edit_checked(app: &mut App, file: &TopicFile, editor: &str)
    requires
        old(app).wf(),
    ensures
        final(app).wf(),
        final(app)@ == edit_checked(old(app)@, *file, editor@),
{
    match file {
        TopicFile::BadSlug(e) => app.fail(cat2("bad slug: ", e.as_str()).as_str()),
        TopicFile::Missing { path } => app.fail(cat2("no such topic: ", path.as_str()).as_str()),
        TopicFile::Present { path } => {
            app.inform(
                cat5(
                    "opening ",
                    path.as_str(),
                    " in ",
                    editor,
                    " (Ctrl-Z and `fg` to return, or run from outside the TUI)",
                ).as_str(),
            );
            app.inform(cat4("\u{2192} run: ", editor, " ", path.as_str()).as_str());
        },
    }
}

/// What is done about a topic to be deleted: without `force`, only said.
pub open spec fn delete_checked(app: AppView, slug: Seq<char>, force: bool, file: TopicFile) -> (
    AppView,
    Seq<EffectView>,
) {
    match file {
        TopicFile::BadSlug(e) => (app.failed("bad slug: "@ + e@), Seq::empty()),
        TopicFile::Missing { path } => (app.failed("no such topic: "@ + path@), Seq::empty()),
        TopicFile::Present { path } => if force {
            (app, seq![Effect::DeleteTopic(slug)])
        } else {
            (
                app.informed("will permanently delete "@ + path@).informed(
                    "re-run with: /memory delete "@ + slug + " --force"@,
                ),
                Seq::empty(),
            )
        },
    }
}

/// Takes in what is known of the file of a topic to be deleted.
pub fn topic_delete_checked(app: &mut App, slug: &str, force: bool, file: &TopicFile) -> (effects: Vec<
    Effect,
>)
    requires
        old(app).wf(),
    ensures
        final(app).wf(),
        (final(app)@, effects_view(effects@)) == delete_checked(old(app)@, slug@, force, *file),
{
    match file {
        TopicFile::BadSlug(e) => {
            app.fail(cat2("bad slug: ", e.as_str()).as_str());
            nothing()
        },
        TopicFile::Missing { path } => {
            app.fail(cat2("no such topic: ", path.as_str()).as_str());
            nothing()
        },
        TopicFile::Present { path } => {
            let parsed = ParsedDelete { slug: Some(String::from_str(slug)), force };
            match delete_action(&parsed, true) {
                DeleteAction::Delete => just(Effect::DeleteTopic(String::from_str(slug))),
                _ => {
                    app.inform(cat2("will permanently delete ", path.as_str()).as_str());
                    app.inform(cat3("re-run with: /memory delete ", slug, " --force").as_str());
                    nothing()
                },
            }
        },
    }
}

/// Takes in how deleting a topic went.
pub fn topic_deleted(app: &mut App, slug: &str, error: Option<&str>)
    requires
        old(app).wf(),
    ensures
        final(app).wf(),
        final(app)@ == (match error {
            None => old(app)@.informed("deleted topic '"@ + slug@ + "'"@),
            Some(e) => old(app)@.failed("delete failed: "@ + e@),
        }),
{
    match error {
        None => app.inform(cat3("deleted topic '", slug, "'").as_str()),
        Some(e) => app.fail(cat2("delete failed: ", e).as_str()),
    }
}

/// Each name with what it runs, whether it is listed, and whether it may run
/// while a turn is in flight.
pub proof fn law_workspace_commands_are_registered()
    ensures
        commands().len() == 4,
        commands()[0].meta.name@ == "/plan"@,
        commands()[0].meta.description@ == "toggle plan mode (mutating tools blocked when on)"@,
        commands()[0].meta.args_hint@ == ""@,
        !commands()[0].meta.hidden,
        !commands()[0].meta.immediate,
        commands()[0].command == Command::Plan,
        commands()[1].meta.name@ == "/skills"@,
        commands()[1].meta.description@ == "list skills loaded from .caliban/skills/"@,
        commands()[1].meta.args_hint@ == ""@,
        !commands()[1].meta.hidden,
        commands()[1].meta.immediate,
        commands()[1].command == Command::Skills,
        commands()[2].meta.name@ == "/memory"@,
        commands()[2].meta.description@ == "view or edit memory tiers and topic files"@,
        commands()[2].meta.args_hint@ == "[list|show <slug>|edit <slug>|delete <slug> --force]"@,
        !commands()[2].meta.hidden,
        commands()[2].meta.immediate,
        commands()[2].command == Command::Memory,
        commands()[3].meta.name@ == "/output-style"@,
        commands()[3].meta.description@ == "show the active output style and the available list"@,
        commands()[3].meta.args_hint@ == ""@,
        !commands()[3].meta.hidden,
        commands()[3].meta.immediate,
        commands()[3].command == Command::OutputStyle,
{
}

/// Switching plan mode over is said in the transcript, on or off, and
/// changes nothing but the mode, the session's and the transcript.
pub proof fn law_plan_mode_is_announced(app: AppView)
    ensures
        plan_toggled(app).transcript == app.transcript.push(
            TranscriptLine::Info(
                if app.plan_mode {
                    "plan mode: OFF \u{2014} mutating tools available"@
                } else {
                    "plan mode: ON \u{2014} mutating tools blocked until /plan toggles off"@
                },
            ),
        ),
        plan_toggled(app).plan_mode == !app.plan_mode,
        plan_toggled(app).session is Some <==> app.session is Some,
        app.session is Some ==> plan_toggled(app).session == Some(
            (SessionView { plan_mode: !app.plan_mode, ..app.session->0 }),
        ),
        plan_toggled(app) == (AppView {
            plan_mode: !app.plan_mode,
            session: plan_toggled(app).session,
            transcript: plan_toggled(app).transcript,
            ..app
        }),
{
}

/// The skills are counted and listed in their order, each with the first
/// line of what it is for.
pub proof fn law_skills_are_listed(skills: Seq<Skill<Seq<char>>>, i: int)
    requires
        0 <= i < skills.len(),
    ensures
        skills_text(skills).len() == skills.len() + 1,
        skills_text(skills)[0] == decimal(skills.len()) + " skill(s) loaded:"@,
        skills_text(skills)[i + 1] == "  "@ + skills[i].name + " \u{2014} "@ + first_line(
            skills[i].description,
        ),
        skills_text(Seq::empty()) == seq![
            "no skills loaded (drop a SKILL.md under .caliban/skills/<name>/)"@,
        ],
{
}

/// The styles are counted and listed in their order, the active one alone
/// starred, those forced by a plugin marked.
pub proof fn law_styles_are_listed(
    active: Seq<char>,
    variable: Seq<char>,
    styles: Seq<OutputStyle<Seq<char>>>,
    i: int,
)
    ensures
        ({
            let out = styles_text(active, variable, styles);
            &&& out.len() == styles.len() + 3
            &&& out[0] == "active output style: "@ + active + " (set via "@ + variable
                + " env var; full UI ships with ADR 0040)"@
            &&& out[1] == decimal(styles.len()) + " style(s) available:"@
            &&& out.last() == "note: applies after /clear or restart (system prompts are cached)"@
            &&& 0 <= i < styles.len() && styles[i].force_for_plugin ==> out[i + 2] == "  "@ + (
            if styles[i].name == active {
                "*"@
            } else {
                " "@
            }) + " "@ + styles[i].name + " \u{2014} "@ + styles[i].description
                + " [force_for_plugin \u{2014} inert until ADR 0030]"@
            &&& 0 <= i < styles.len() && !styles[i].force_for_plugin ==> out[i + 2] == "  "@ + (
            if styles[i].name == active {
                "*"@
            } else {
                " "@
            }) + " "@ + styles[i].name + " \u{2014} "@ + styles[i].description
        }),
{
    reveal_strlit("");
    if 0 <= i < styles.len() && !styles[i].force_for_plugin {
        let row = "  "@ + (if styles[i].name == active {
            "*"@
        } else {
            " "@
        }) + " "@ + styles[i].name + " \u{2014} "@ + styles[i].description;
        assert(row + ""@ =~= row);
    }
}

/// The topic is the first word that is no flag, and no later word changes
/// it; `--force` anywhere forces, and nothing else does.
pub proof fn law_the_first_plain_word_is_the_topic(ws: Seq<Seq<char>>, w: Seq<char>)
    ensures
        delete_args(ws).force <==> ws.contains("--force"@),
        delete_args(ws).slug is None <==> forall|i: int|
            0 <= i < ws.len() ==> starts_with(#[trigger] ws[i], "--"@),
        delete_args(ws).slug is Some ==> exists|i: int|
            {
                &&& 0 <= i < ws.len()
                &&& #[trigger] ws[i] == delete_args(ws).slug->0
                &&& !starts_with(ws[i], "--"@)
                &&& forall|k: int| 0 <= k < i ==> starts_with(#[trigger] ws[k], "--"@)
            },
        delete_args(ws).slug is Some ==> delete_args(ws.push(w)).slug == delete_args(ws).slug,
    decreases ws.len(),
{
    reveal_strlit("--");
    reveal_strlit("--force");
    assert("--force"@.subrange(0, 2) =~= "--"@);
    assert(starts_with("--force"@, "--"@));
    assert(ws.push(w).drop_last() =~= ws);
    if ws.len() > 0 {
        let front = ws.drop_last();
        law_the_first_plain_word_is_the_topic(front, ws.last());
        assert(front.push(ws.last()) =~= ws);
        assert(ws[ws.len() - 1] == ws.last());
        if front.contains("--force"@) {
            let i = choose|i: int| 0 <= i < front.len() && front[i] == "--force"@;
            assert(ws[i] == "--force"@);
        }
        if ws.contains("--force"@) && ws.last() != "--force"@ {
            let i = choose|i: int| 0 <= i < ws.len() && ws[i] == "--force"@;
            assert(front[i] == "--force"@);
        }
        if delete_args(front).slug is Some {
            let i = choose|i: int|
                {
                    &&& 0 <= i < front.len()
                    &&& #[trigger] front[i] == delete_args(front).slug->0
                    &&& !starts_with(front[i], "--"@)
                    &&& forall|k: int| 0 <= k < i ==> starts_with(#[trigger] front[k], "--"@)
                };
            assert(ws[i] == front[i]);
            assert forall|k: int| 0 <= k < i implies starts_with(#[trigger] ws[k], "--"@) by {
                assert(front[k] == ws[k]);
            }
        } else {
            assert forall|k: int| 0 <= k < front.len() implies starts_with(
                #[trigger] ws[k],
                "--"@,
            ) by {
                assert(front[k] == ws[k]);
            }
        }
    }
}

/// What is done about a topic to be deleted, for each of the four cases.
pub proof fn law_deletion_needs_topic_file_and_force(
    p: ParsedDelete<Option<Seq<char>>>,
    exists_file: bool,
)
    ensures
        deletion(p, exists_file) == DeleteAction::Usage <==> p.slug is None,
        deletion(p, exists_file) == DeleteAction::NoSuchTopic <==> p.slug is Some && !exists_file,
        deletion(p, exists_file) == DeleteAction::Preview <==> p.slug is Some && exists_file
            && !p.force,
        deletion(p, exists_file) == DeleteAction::Delete <==> p.slug is Some && exists_file
            && p.force,
{
}

/// `/memory` asks for one step, by its first word; where a topic is missing
/// or the word is unknown it asks for none and says how it is used. Nothing
/// else changes.
pub proof fn law_memory_asks_by_its_first_word(app: AppView, args: Seq<char>)
    ensures
        ({
            let sub = head_word(args);
            let rest = tail_words(args);
            let (after, asked) = memory_asked(app, args);
            &&& sub.len() == 0 ==> asked == Seq::<EffectView>::empty().push(Effect::LoadMemory)
            &&& sub == "list"@ ==> asked == Seq::<EffectView>::empty().push(Effect::ListTopics)
            &&& sub == "show"@ && rest.len() > 0 ==> asked == seq![EffectView::ReadTopic(rest)]
            &&& sub == "edit"@ && rest.len() > 0 ==> asked == seq![EffectView::EditTopic(rest)]
            &&& (sub == "delete"@ || sub == "rm"@) && delete_args(words(rest)).slug is Some ==> asked
                == seq![
                EffectView::CheckTopic {
                    slug: delete_args(words(rest)).slug->0,
                    force: delete_args(words(rest)).force,
                },
            ]
            &&& asked.len() > 0 ==> after == app
            &&& asked.len() == 0 ==> after == (AppView {
                transcript: app.transcript.push(
                    TranscriptLine::Info(
                        if sub == "show"@ {
                            "usage: /memory show <slug>"@
                        } else if sub == "edit"@ {
                            "usage: /memory edit <slug>"@
                        } else if sub == "delete"@ || sub == "rm"@ {
                            "usage: /memory delete <slug> --force  (also: /memory rm <slug>)"@
                        } else {
                            "unknown /memory subcommand: "@ + sub + " \u{2014} try /memory list"@
                        },
                    ),
                ),
                ..app
            })
            &&& (sub == "show"@ || sub == "edit"@) && rest.len() == 0 ==> asked.len() == 0
            &&& (sub == "delete"@ || sub == "rm"@) && delete_args(words(rest)).slug is None ==> asked.len()
                == 0
        }),
{
    reveal_strlit("list");
    reveal_strlit("show");
    reveal_strlit("edit");
    reveal_strlit("delete");
    reveal_strlit("rm");
    assert("list"@[0] == 'l');
    assert("show"@[0] == 's');
    assert("edit"@[0] == 'e');
}

/// The tiers are told by their tokens and their budget, their lines, a note
/// where some were cut, and the subcommands.
pub proof fn law_memory_is_told(m: MemorySummary, i: int)
    ensures
        ({
            let out = memory_text(m);
            let n = m.lines@.len() as int;
            &&& out.len() == n + (if m.truncated {
                3int
            } else {
                2int
            })
            &&& out[0] == "memory tiers ("@ + decimal(m.estimated_tokens as nat) + " tokens / "@
                + decimal(m.max_tokens as nat) + " budget):"@
            &&& 0 <= i < n ==> out[i + 1] == m.lines@[i]@
            &&& m.truncated ==> out[n + 1]
                == "(some tiers truncated \u{2014} raise CALIBAN_MEMORY_BUDGET_TOKENS or trim)"@
            &&& out.last()
                == "subcommands: /memory list | show <slug> | edit <slug> | delete <slug> --force"@
        }),
{
}

/// The topics are counted and listed in their order, each by its name, its
/// kind and what it is about.
pub proof fn law_topics_are_listed(topics: Seq<Topic<String>>, dir: Seq<char>, i: int)
    requires
        0 <= i < topics.len(),
    ensures
        topics_text(topics, dir).len() == topics.len() + 1,
        topics_text(topics, dir)[0] == decimal(topics.len()) + " topic file(s) in "@ + dir + ":"@,
        topics_text(topics, dir)[i + 1] == "  "@ + (topics[i].name@ + " ["@ + topics[i].kind@
            + "] \u{2014} "@ + topics[i].description@),
        topics_text(Seq::empty(), dir) == seq!["no topic files yet"@],
        topic_title(topic_view(topics[i])) == topics[i].name@ + " ["@ + topics[i].kind@
            + "] \u{2014} "@ + topics[i].description@,
{
}

/// A topic to be edited is opened where its file is there; otherwise the
/// error says what is missing. Nothing but the transcript changes.
pub proof fn law_topics_to_edit_must_be_there(app: AppView, file: TopicFile, editor: Seq<char>)
    ensures
        edit_checked(app, file, editor) == (AppView {
            transcript: edit_checked(app, file, editor).transcript,
            ..app
        }),
        match file {
            TopicFile::BadSlug(e) => edit_checked(app, file, editor).transcript
                == app.transcript.push(TranscriptLine::Error("bad slug: "@ + e@)),
            TopicFile::Missing { path } => edit_checked(app, file, editor).transcript
                == app.transcript.push(TranscriptLine::Error("no such topic: "@ + path@)),
            TopicFile::Present { path } => edit_checked(app, file, editor).transcript
                == app.transcript.push(
                TranscriptLine::Info(
                    "opening "@ + path@ + " in "@ + editor
                        + " (Ctrl-Z and `fg` to return, or run from outside the TUI)"@,
                ),
            ).push(TranscriptLine::Info("\u{2192} run: "@ + editor + " "@ + path@)),
        },
{
}

/// A topic is deleted exactly where its file is there and it was forced;
/// where it was not, the file and the command to repeat are told.
pub proof fn law_topics_are_deleted_where_forced(
    app: AppView,
    slug: Seq<char>,
    force: bool,
    file: TopicFile,
)
    ensures
        ({
            let (after, asked) = delete_checked(app, slug, force, file);
            &&& asked.len() > 0 <==> file is Present && force
            &&& asked.len() > 0 ==> asked == seq![EffectView::DeleteTopic(slug)] && after == app
            &&& after == (AppView { transcript: after.transcript, ..app })
            &&& match file {
                TopicFile::BadSlug(e) => after.transcript == app.transcript.push(
                    TranscriptLine::Error("bad slug: "@ + e@),
                ),
                TopicFile::Missing { path } => after.transcript == app.transcript.push(
                    TranscriptLine::Error("no such topic: "@ + path@),
                ),
                TopicFile::Present { path } => !force ==> after.transcript == app.transcript.push(
                    TranscriptLine::Info("will permanently delete "@ + path@),
                ).push(
                    TranscriptLine::Info("re-run with: /memory delete "@ + slug + " --force"@),
                ),
            }
        }),
{
}

} // verus!
