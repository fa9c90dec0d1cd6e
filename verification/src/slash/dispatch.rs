//! Running a slash command.

use vstd::prelude::*;

use crate::app::{App, AppView, TranscriptLine};
use crate::effect::{effects_view, just, nothing, Effect, EffectView};
use crate::overlay::{Overlay, ViewState};
use crate::slash::basic::{clear, cleared};
use crate::slash::existing::{memory_asked, memory_command, plan_toggled, toggle_plan};
use crate::slash::model::{
    effort_message, effort_named, effort_text, is_model_list, lists_models, parse_effort,
};
use crate::slash::think::{describe, parse_thinking_arg, setting_text, thinking_arg};
use crate::slash::{command_named, outcome_view, Command, SlashOutcome};
use crate::text::{
    cat2, cat3, head_word, is_white, law_command_lines_part_at_white_space, split_command,
    tail_words, trim, trim_text,
};
use crate::types::clone_messages;

verus! {

/// The answer of a command that always says the same.
pub open spec fn fixed_answer(c: Command) -> Option<Seq<char>> {
    match c {
        Command::Agents => Some(
            "/agents \u{2014} full sub-agent fleet overlay arrives with the Sub-agent isolation spec (ADR 0037 follow-up); use `caliban agents list` from a shell for now"@,
        ),
        Command::Login => Some(
            "/login \u{2014} provider-specific auth flow lands with the Auth spec (browser OAuth for Anthropic, `aws sso login` for Bedrock, `gcloud auth login` for Vertex)"@,
        ),
        Command::Logout => Some(
            "/logout \u{2014} credential clearing lands with the Auth spec; for now, unset provider env vars"@,
        ),
        Command::SetupToken => Some(
            "/setup-token \u{2014} long-lived OAuth token issuance lands with the Auth spec"@,
        ),
        Command::Heapdump => Some(
            "/heapdump \u{2014} jemalloc-prof feature is not enabled in this build; rebuild caliban with `--features=jemalloc-prof` to capture profiles"@,
        ),
        Command::Feedback => Some(
            "/feedback \u{2014} no endpoint configured. Set the `feedback_url` setting (Settings hierarchy spec) or file an issue on GitHub"@,
        ),
        Command::Tui => Some(
            "/tui \u{2014} alternate-screen toggle arrives with the TUI ergonomics spec"@,
        ),
        Command::Voice => Some(
            "voice dictation not available in this build"@,
        ),
        _ => None,
    }
}

fn fixed_message(c: Command) -> (r: Option<&'static str>)
    ensures
        match r {
            Some(s) => fixed_answer(c) == Some(s@),
            None => fixed_answer(c) is None,
        },
{
    match c {
        Command::Agents => Some(
            "/agents \u{2014} full sub-agent fleet overlay arrives with the Sub-agent isolation spec (ADR 0037 follow-up); use `caliban agents list` from a shell for now",
        ),
        Command::Login => Some(
            "/login \u{2014} provider-specific auth flow lands with the Auth spec (browser OAuth for Anthropic, `aws sso login` for Bedrock, `gcloud auth login` for Vertex)",
        ),
        Command::Logout => Some(
            "/logout \u{2014} credential clearing lands with the Auth spec; for now, unset provider env vars",
        ),
        Command::SetupToken => Some(
            "/setup-token \u{2014} long-lived OAuth token issuance lands with the Auth spec",
        ),
        Command::Heapdump => Some(
            "/heapdump \u{2014} jemalloc-prof feature is not enabled in this build; rebuild caliban with `--features=jemalloc-prof` to capture profiles",
        ),
        Command::Feedback => Some(
            "/feedback \u{2014} no endpoint configured. Set the `feedback_url` setting (Settings hierarchy spec) or file an issue on GitHub",
        ),
        Command::Tui => Some(
            "/tui \u{2014} alternate-screen toggle arrives with the TUI ergonomics spec",
        ),
        Command::Voice => Some(
            "voice dictation not available in this build",
        ),
        _ => None,
    }
}

/// The overlay of a command that does no more than open one.
pub open spec fn overlay_of(c: Command) -> Option<Overlay> {
    match c {
        Command::Help => Some(Overlay::SlashHelp),
        Command::Config => Some(Overlay::Config),
        Command::Mcp => Some(Overlay::Mcp),
        Command::Rewind => Some(Overlay::Rewind),
        Command::System => Some(Overlay::System),
        Command::Permissions => Some(Overlay::Permissions),
        _ => None,
    }
}

fn opens_overlay(c: Command) -> (r: Option<Overlay>)
    ensures
        r == overlay_of(c),
{
    match c {
        Command::Help => Some(Overlay::SlashHelp),
        Command::Config => Some(Overlay::Config),
        Command::Mcp => Some(Overlay::Mcp),
        Command::Rewind => Some(Overlay::Rewind),
        Command::System => Some(Overlay::System),
        Command::Permissions => Some(Overlay::Permissions),
        _ => None,
    }
}

/// What running a command leads to: the state, what is wanted next, and what
/// is asked of the world.
pub struct Ran {
    pub app: AppView,
    pub outcome: SlashOutcome<Seq<char>>,
    pub effects: Seq<EffectView>,
}

/// `/think` with an argument sets thinking; alone it has to ask first.
pub open spec fn think_ran(app: AppView, args: Seq<char>) -> Ran {
    if trim(args).len() == 0 {
        Ran {
            app,
            outcome: SlashOutcome::Continue,
            effects: seq![Effect::RunCommand { command: Command::Think, args }],
        }
    } else {
        match thinking_arg(trim(args)) {
            Ok(t) => Ran {
                app,
                outcome: SlashOutcome::StatusMessage("thinking \u{2192} "@ + setting_text(t)),
                effects: seq![Effect::SetThinking(t)],
            },
            Err(e) => Ran { app, outcome: SlashOutcome::StatusMessage(e), effects: Seq::empty() },
        }
    }
}

/// `/effort` sets the effort where it names one.
pub open spec fn effort_ran(app: AppView, args: Seq<char>) -> Ran {
    Ran {
        app,
        outcome: SlashOutcome::StatusMessage(effort_text(args)),
        effects: match effort_named(args) {
            Some(e) => seq![Effect::SetEffort(e)],
            None => Seq::empty(),
        },
    }
}

/// A command that needs more than the state.
pub open spec fn deferred(app: AppView, c: Command, args: Seq<char>) -> Ran {
    Ran {
        app,
        outcome: SlashOutcome::Continue,
        effects: seq![Effect::RunCommand { command: c, args }],
    }
}

/// What running a command leads to.
pub open spec fn ran(app: AppView, c: Command, args: Seq<char>) -> Ran {
    if fixed_answer(c) is Some {
        Ran {
            app,
            outcome: SlashOutcome::StatusMessage(fixed_answer(c)->0),
            effects: Seq::empty(),
        }
    } else if overlay_of(c) is Some {
        Ran { app, outcome: SlashOutcome::Overlay(overlay_of(c)->0), effects: Seq::empty() }
    } else {
        match c {
            Command::Quit => Ran { app, outcome: SlashOutcome::Quit, effects: Seq::empty() },
            Command::Clear => Ran {
                app: cleared(app),
                outcome: SlashOutcome::Continue,
                effects: seq![Effect::MeasureContext(Seq::empty())],
            },
            Command::Plan => Ran {
                app: plan_toggled(app),
                outcome: SlashOutcome::Continue,
                effects: Seq::empty(),
            },
            Command::Memory => Ran {
                app: memory_asked(app, args).0,
                outcome: SlashOutcome::Continue,
                effects: memory_asked(app, args).1,
            },
            Command::Effort => effort_ran(app, args),
            Command::Think => think_ran(app, args),
            Command::Model => if lists_models(args) {
                deferred(app, c, args)
            } else {
                Ran {
                    app,
                    outcome: SlashOutcome::Continue,
                    effects: seq![Effect::SwapModel(trim(args))],
                }
            },
            Command::Compact => if app.messages.len() == 0 {
                Ran {
                    app: app.informed("compact: no messages to compact"@),
                    outcome: SlashOutcome::Continue,
                    effects: Seq::empty(),
                }
            } else {
                deferred(app, c, args)
            },
            _ => deferred(app, c, args),
        }
    }
}

fn run_think(args: &str) -> (r: (SlashOutcome, Vec<Effect>))
    ensures
        forall|app: AppView| #[trigger]
            think_ran(app, args@) == (Ran {
                app,
                outcome: outcome_view(r.0),
                effects: effects_view(r.1@),
            }),
{
    let t = trim_text(args);
    if t.as_str().is_empty() {
        return (
            SlashOutcome::Continue,
            just(Effect::RunCommand { command: Command::Think, args: String::from_str(args) }),
        );
    }
    match parse_thinking_arg(t.as_str()) {
        Ok(setting) => (
            SlashOutcome::StatusMessage(cat2("thinking \u{2192} ", describe(setting).as_str())),
            just(Effect::SetThinking(setting)),
        ),
        Err(e) => (SlashOutcome::StatusMessage(e), nothing()),
    }
}

fn run_effort(args: &str) -> (r: (SlashOutcome, Vec<Effect>))
    ensures
        forall|app: AppView| #[trigger]
            effort_ran(app, args@) == (Ran {
                app,
                outcome: outcome_view(r.0),
                effects: effects_view(r.1@),
            }),
{
    let outcome = SlashOutcome::StatusMessage(effort_message(args));
    let effects = match parse_effort(args) {
        Some(e) => just(Effect::SetEffort(e)),
        None => nothing(),
    };
    (outcome, effects)
}

fn defer(c: Command, args: &str) -> (r: (SlashOutcome, Vec<Effect>))
    ensures
        r.0 == SlashOutcome::<String>::Continue,
        effects_view(r.1@) == seq![EffectView::RunCommand { command: c, args: args@ }],
{
    (SlashOutcome::Continue, just(Effect::RunCommand { command: c, args: String::from_str(args) }))
}

/// Runs a command.
pub fn execute(app: &mut App, c: Command, args: &str) -> (r: (SlashOutcome, Vec<Effect>))
    requires
        old(app).wf(),
    ensures
        final(app).wf(),
        (Ran {
            app: final(app)@,
            outcome: outcome_view(r.0),
            effects: effects_view(r.1@),
        }) == ran(old(app)@, c, args@),
{
    if let Some(text) = fixed_message(c) {
        return (SlashOutcome::StatusMessage(String::from_str(text)), nothing());
    }
    if let Some(o) = opens_overlay(c) {
        return (SlashOutcome::Overlay(o), nothing());
    }
    match c {
        Command::Quit => (SlashOutcome::Quit, nothing()),
        Command::Clear => {
            clear(app);
            (SlashOutcome::Continue, just(Effect::MeasureContext(clone_messages(&app.messages))))
        },
        Command::Plan => {
            toggle_plan(app);
            (SlashOutcome::Continue, nothing())
        },
        Command::Memory => {
            let effects = memory_command(app, args);
            (SlashOutcome::Continue, effects)
        },
        Command::Effort => {
            let r = run_effort(args);
            assert(effort_ran(app@, args@).app == app@);
            r
        },
        Command::Think => {
            let r = run_think(args);
            assert(think_ran(app@, args@).app == app@);
            r
        },
        Command::Model => if is_model_list(args) {
            defer(c, args)
        } else {
            (SlashOutcome::Continue, just(Effect::SwapModel(trim_text(args))))
        },
        Command::Compact => if app.messages.len() == 0 {
            app.inform("compact: no messages to compact");
            (SlashOutcome::Continue, nothing())
        } else {
            defer(c, args)
        },
        _ => defer(c, args),
    }
}

/// The state after what a command wanted was done.
pub open spec fn outcome_applied(app: AppView, o: SlashOutcome<Seq<char>>) -> AppView {
    match o {
        SlashOutcome::Continue => app,
        SlashOutcome::Quit => AppView { should_exit: true, ..app },
        SlashOutcome::Overlay(v) => app.showing(ViewState::Overlay(v)),
        SlashOutcome::StatusMessage(m) => AppView { last_status_message: Some(m), ..app }.informed(m),
        SlashOutcome::InsertText(t) => app.typing(app.input.filled(t)),
        SlashOutcome::Reload => app.informed(
            "reload requested \u{2014} settings hot-reload lands with the Settings hierarchy spec"@,
        ),
    }
}

/// Does what a command wants when it has run.
pub fn apply_slash_outcome(outcome: SlashOutcome, app: &mut App)
    requires
        old(app).wf(),
    ensures
        final(app).wf(),
        final(app)@ == outcome_applied(old(app)@, outcome_view(outcome)),
{
    match outcome {
        SlashOutcome::Continue => {},
        SlashOutcome::Quit => {
            app.should_exit = true;
        },
        SlashOutcome::Overlay(o) => {
            app.view = ViewState::Overlay(o);
        },
        SlashOutcome::StatusMessage(m) => {
            app.last_status_message = Some(m.clone());
            app.say(TranscriptLine::Info(m));
        },
        SlashOutcome::InsertText(t) => {
            app.input.set_buffer(t);
        },
        SlashOutcome::Reload => {
            app.inform(
                "reload requested \u{2014} settings hot-reload lands with the Settings hierarchy spec",
            );
        },
    }
}

pub open spec fn unknown_command(name: Seq<char>) -> Seq<char> {
    "unknown command: "@ + name + " \u{2014} type /help"@
}

/// The state after a command line, and what it asks of the world.
pub open spec fn line_ran(app: AppView, line: Seq<char>) -> (AppView, Seq<EffectView>) {
    match command_named(app.commands, head_word(line)) {
        None => (
            outcome_applied(app, SlashOutcome::StatusMessage(unknown_command(head_word(line)))),
            Seq::empty(),
        ),
        Some(cmd) => {
            let r = ran(app, cmd.command, tail_words(line));
            (outcome_applied(r.app, r.outcome), r.effects)
        },
    }
}

/// Runs a command line: a name, and what follows it.
pub fn handle_slash_command(line: &str, app: &mut App) -> (effects: Vec<Effect>)
    requires
        old(app).wf(),
    ensures
        final(app).wf(),
        (final(app)@, effects_view(effects@)) == line_ran(old(app)@, line@),
{
    let (name, args) = split_command(line);
    match app.slash_registry.lookup(name.as_str()) {
        None => {
            let text = cat3("unknown command: ", name.as_str(), " \u{2014} type /help");
            apply_slash_outcome(SlashOutcome::StatusMessage(text), app);
            nothing()
        },
        Some(cmd) => {
            let (outcome, effects) = execute(app, cmd.command, args.as_str());
            apply_slash_outcome(outcome, app);
            effects
        },
    }
}

/// A command that is not known leaves everything but the transcript and the
/// status message as it was, and says so.
pub proof fn law_unknown_commands_only_say_so(app: AppView, line: Seq<char>)
    requires
        command_named(app.commands, head_word(line)) is None,
    ensures
        line_ran(app, line).1 == Seq::<EffectView>::empty(),
        line_ran(app, line).0 == (AppView {
            last_status_message: Some(unknown_command(head_word(line))),
            transcript: app.transcript.push(TranscriptLine::Info(unknown_command(head_word(line)))),
            ..app
        }),
{
}

/// No command line changes the permission mode, the rules of the session or
/// the latch.
pub proof fn law_commands_keep_the_permissions(app: AppView, line: Seq<char>)
    ensures
        line_ran(app, line).0.permission_mode == app.permission_mode,
        line_ran(app, line).0.runtime_rules == app.runtime_rules,
        line_ran(app, line).0.bypass_latch == app.bypass_latch,
{
}

/// The commands that only speak, and what they say. They change nothing and
/// ask for nothing.
pub proof fn law_some_commands_always_say_the_same(app: AppView, c: Command, args: Seq<char>)
    ensures
        match c {
            Command::Agents => ran(app, c, args).outcome == SlashOutcome::StatusMessage(
                "/agents \u{2014} full sub-agent fleet overlay arrives with the Sub-agent isolation spec (ADR 0037 follow-up); use `caliban agents list` from a shell for now"@,
            ),
            Command::Login => ran(app, c, args).outcome == SlashOutcome::StatusMessage(
                "/login \u{2014} provider-specific auth flow lands with the Auth spec (browser OAuth for Anthropic, `aws sso login` for Bedrock, `gcloud auth login` for Vertex)"@,
            ),
            Command::Logout => ran(app, c, args).outcome == SlashOutcome::StatusMessage(
                "/logout \u{2014} credential clearing lands with the Auth spec; for now, unset provider env vars"@,
            ),
            Command::SetupToken => ran(app, c, args).outcome == SlashOutcome::StatusMessage(
                "/setup-token \u{2014} long-lived OAuth token issuance lands with the Auth spec"@,
            ),
            Command::Heapdump => ran(app, c, args).outcome == SlashOutcome::StatusMessage(
                "/heapdump \u{2014} jemalloc-prof feature is not enabled in this build; rebuild caliban with `--features=jemalloc-prof` to capture profiles"@,
            ),
            Command::Feedback => ran(app, c, args).outcome == SlashOutcome::StatusMessage(
                "/feedback \u{2014} no endpoint configured. Set the `feedback_url` setting (Settings hierarchy spec) or file an issue on GitHub"@,
            ),
            Command::Tui => ran(app, c, args).outcome == SlashOutcome::StatusMessage(
                "/tui \u{2014} alternate-screen toggle arrives with the TUI ergonomics spec"@,
            ),
            Command::Voice => ran(app, c, args).outcome == SlashOutcome::StatusMessage(
                "voice dictation not available in this build"@,
            ),
            _ => true,
        },
        c == Command::Agents || c == Command::Login || c == Command::Logout || c
            == Command::SetupToken || c == Command::Heapdump || c == Command::Feedback || c
            == Command::Tui || c == Command::Voice ==> ran(app, c, args).app == app && ran(
            app,
            c,
            args,
        ).effects.len() == 0,
{
}

/// The commands that open an overlay, and which. They change nothing else
/// and ask for nothing.
pub proof fn law_some_commands_open_an_overlay(app: AppView, c: Command, args: Seq<char>)
    ensures
        c == Command::Help ==> ran(app, c, args).outcome == SlashOutcome::<Seq<char>>::Overlay(
            Overlay::SlashHelp,
        ),
        c == Command::Config ==> ran(app, c, args).outcome == SlashOutcome::<Seq<char>>::Overlay(
            Overlay::Config,
        ),
        c == Command::Mcp ==> ran(app, c, args).outcome == SlashOutcome::<Seq<char>>::Overlay(
            Overlay::Mcp,
        ),
        c == Command::Rewind ==> ran(app, c, args).outcome == SlashOutcome::<Seq<char>>::Overlay(
            Overlay::Rewind,
        ),
        c == Command::System ==> ran(app, c, args).outcome == SlashOutcome::<Seq<char>>::Overlay(
            Overlay::System,
        ),
        c == Command::Permissions ==> ran(app, c, args).outcome == SlashOutcome::<
            Seq<char>,
        >::Overlay(Overlay::Permissions),
        ran(app, c, args).outcome is Overlay ==> ran(app, c, args).app == app && ran(
            app,
            c,
            args,
        ).effects.len() == 0,
        ran(app, c, args).outcome is Overlay <==> c == Command::Help || c == Command::Config || c
            == Command::Mcp || c == Command::Rewind || c == Command::System || c
            == Command::Permissions,
{
}

/// `/quit` leaves, and nothing else does.
pub proof fn law_only_quit_leaves(app: AppView, c: Command, args: Seq<char>)
    ensures
        ran(app, c, args).outcome == SlashOutcome::<Seq<char>>::Quit <==> c == Command::Quit,
        c == Command::Quit ==> ran(app, c, args).app == app && ran(app, c, args).effects.len() == 0,
{
}

/// `/clear` drops the conversation, and the context is measured anew without
/// messages.
pub proof fn law_clearing_measures_anew(app: AppView, args: Seq<char>)
    ensures
        ran(app, Command::Clear, args).app.messages.len() == 0,
        ran(app, Command::Clear, args).app.transcript.len() == 0,
        ran(app, Command::Clear, args).effects == seq![EffectView::MeasureContext(Seq::empty())],
        ran(app, Command::Clear, args).outcome == SlashOutcome::<Seq<char>>::Continue,
{
}

/// `/plan` and `/memory` go on in silence; what they do shows in the state
/// and in what they ask for.
pub proof fn law_plan_and_memory_run_at_once(app: AppView, args: Seq<char>)
    ensures
        ran(app, Command::Plan, args).app.plan_mode == !app.plan_mode,
        ran(app, Command::Plan, args).effects.len() == 0,
        ran(app, Command::Plan, args).outcome == SlashOutcome::<Seq<char>>::Continue,
        ran(app, Command::Memory, args).app == memory_asked(app, args).0,
        ran(app, Command::Memory, args).effects == memory_asked(app, args).1,
        ran(app, Command::Memory, args).outcome == SlashOutcome::<Seq<char>>::Continue,
{
}

/// `/effort` asks for the effort it names and for nothing where it names
/// none; either way it says so and changes no state.
pub proof fn law_effort_is_set_where_it_is_named(app: AppView, args: Seq<char>)
    ensures
        effort_named(args) is Some ==> ran(app, Command::Effort, args).effects == seq![
            EffectView::SetEffort(effort_named(args)->0),
        ],
        effort_named(args) is None ==> ran(app, Command::Effort, args).effects.len() == 0,
        ran(app, Command::Effort, args).outcome == SlashOutcome::StatusMessage(effort_text(args)),
        ran(app, Command::Effort, args).app == app,
{
}

/// `/think` with an argument that is a setting sets it and says which; one
/// that is none is answered by the complaint; without an argument the
/// setting is looked up first.
pub proof fn law_thinking_is_set_where_it_is_named(app: AppView, args: Seq<char>)
    ensures
        ran(app, Command::Think, args).app == app,
        trim(args).len() == 0 ==> ran(app, Command::Think, args).effects == seq![
            EffectView::RunCommand { command: Command::Think, args },
        ] && ran(app, Command::Think, args).outcome == SlashOutcome::<Seq<char>>::Continue,
        trim(args).len() > 0 ==> match thinking_arg(trim(args)) {
            Ok(t) => ran(app, Command::Think, args).effects == seq![EffectView::SetThinking(t)]
                && ran(app, Command::Think, args).outcome == SlashOutcome::StatusMessage(
                "thinking \u{2192} "@ + setting_text(t),
            ),
            Err(e) => ran(app, Command::Think, args).effects.len() == 0 && ran(
                app,
                Command::Think,
                args,
            ).outcome == SlashOutcome::StatusMessage(e),
        },
{
}

/// `/model` with a name switches to it, without the white space around it;
/// without one, or with `--picker`, the models are gathered.
pub proof fn law_models_are_named_or_listed(app: AppView, args: Seq<char>)
    ensures
        ran(app, Command::Model, args).app == app,
        ran(app, Command::Model, args).outcome == SlashOutcome::<Seq<char>>::Continue,
        ran(app, Command::Model, args).effects == (if trim(args).len() == 0 || trim(args)
            == "--picker"@ {
            seq![EffectView::RunCommand { command: Command::Model, args }]
        } else {
            seq![EffectView::SwapModel(trim(args))]
        }),
{
}

/// `/compact` has nothing to do without messages, and says so; otherwise it
/// is run with the conversation untouched.
pub proof fn law_nothing_is_compacted_without_messages(app: AppView, args: Seq<char>)
    ensures
        ran(app, Command::Compact, args).outcome == SlashOutcome::<Seq<char>>::Continue,
        app.messages.len() == 0 ==> ran(app, Command::Compact, args).effects.len() == 0 && ran(
            app,
            Command::Compact,
            args,
        ).app == (AppView {
            transcript: app.transcript.push(
                TranscriptLine::Info("compact: no messages to compact"@),
            ),
            ..app
        }),
        app.messages.len() > 0 ==> ran(app, Command::Compact, args).app == app && ran(
            app,
            Command::Compact,
            args,
        ).effects == seq![EffectView::RunCommand { command: Command::Compact, args }],
{
}

/// The commands that need more than the state are handed on with their
/// arguments as they came, and change nothing yet.
pub proof fn law_other_commands_are_handed_on(app: AppView, c: Command, args: Seq<char>)
    requires
        c == Command::Usage || c == Command::Context || c == Command::Doctor || c == Command::Hooks
            || c == Command::Plugins || c == Command::Cost || c == Command::Export || c
            == Command::Status || c == Command::Loop || c == Command::Statusline || c
            == Command::Skills || c == Command::OutputStyle || c == Command::Init || c
            == Command::Resume || c == Command::Recap || c == Command::Btw || c == Command::Plugin,
    ensures
        ran(app, c, args).app == app,
        ran(app, c, args).outcome == SlashOutcome::<Seq<char>>::Continue,
        ran(app, c, args).effects == seq![EffectView::RunCommand { command: c, args }],
{
}

/// What a command wants is done: leaving sets the flag, an overlay is shown,
/// a message is kept and shown in the transcript, a text replaces the prompt
/// with the cursor behind it. Nothing else changes.
pub proof fn law_wishes_are_granted(app: AppView, v: Overlay, t: Seq<char>)
    ensures
        outcome_applied(app, SlashOutcome::Continue) == app,
        outcome_applied(app, SlashOutcome::Quit) == (AppView { should_exit: true, ..app }),
        outcome_applied(app, SlashOutcome::Overlay(v)) == (AppView {
            view: ViewState::Overlay(v),
            ..app
        }),
        outcome_applied(app, SlashOutcome::StatusMessage(t)) == (AppView {
            last_status_message: Some(t),
            transcript: app.transcript.push(TranscriptLine::Info(t)),
            ..app
        }),
        outcome_applied(app, SlashOutcome::InsertText(t)).input.text == t,
        outcome_applied(app, SlashOutcome::InsertText(t)).input.at == t.len(),
        outcome_applied(app, SlashOutcome::InsertText(t)) == (AppView {
            input: outcome_applied(app, SlashOutcome::InsertText(t)).input,
            ..app
        }),
        outcome_applied(app, SlashOutcome::Reload) == (AppView {
            transcript: app.transcript.push(
                TranscriptLine::Info(
                    "reload requested \u{2014} settings hot-reload lands with the Settings hierarchy spec"@,
                ),
            ),
            ..app
        }),
{
}

/// A command line is a name and, behind white space, its arguments: the
/// command of that name runs with them, and what it wants is done.
pub proof fn law_command_lines_run_the_named_command(
    app: AppView,
    name: Seq<char>,
    c: char,
    rest: Seq<char>,
)
    requires
        forall|i: int| 0 <= i < name.len() ==> !is_white(#[trigger] name[i]),
        is_white(c),
    ensures
        match command_named(app.commands, name) {
            Some(cmd) => {
                let with = ran(app, cmd.command, trim(rest));
                let alone = ran(app, cmd.command, Seq::empty());
                &&& line_ran(app, name + seq![c] + rest).1 == with.effects
                &&& line_ran(app, name + seq![c] + rest).0 == outcome_applied(
                    with.app,
                    with.outcome,
                )
                &&& line_ran(app, name).1 == alone.effects
                &&& line_ran(app, name).0 == outcome_applied(alone.app, alone.outcome)
            },
            None => {
                &&& line_ran(app, name + seq![c] + rest).1.len() == 0
                &&& line_ran(app, name + seq![c] + rest).0.last_status_message == Some(
                    "unknown command: "@ + name + " \u{2014} type /help"@,
                )
            },
        },
{
    law_command_lines_part_at_white_space(name, c, rest);
    assert(tail_words(name) =~= Seq::empty());
}

} // verus!
