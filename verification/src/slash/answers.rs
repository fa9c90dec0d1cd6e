//! What the commands say once the program has gathered what they need.

use vstd::prelude::*;

use crate::app::{App, AppView, TranscriptLine};
use crate::effect::{effects_view, Effect, EffectView};
use crate::slash::config::{hook_events_view, hooks_lines, hooks_text, HookEvent};
use crate::slash::cost::{cost_lines, cost_text, CostBreakdown};
use crate::slash::dispatch::{apply_slash_outcome, outcome_applied};
use crate::slash::dx::{
    loop_line, loop_text, statusline_message, statusline_text, StatuslineConfig,
};
use crate::slash::existing::{
    output_style_lines, skills_report, skills_text, skills_view, styles_text, styles_view,
    OutputStyle, Skill,
};
use crate::slash::export::{export_ran, exported_message, exported_text, run_export};
use crate::slash::model::{
    model_message, models_lines, models_text, models_view, status_line, status_text,
    swap_text, KnownModel,
};
use crate::slash::observe::{
    checks_view, context_report, doctor_lines, doctor_text, render_context_lines,
    render_usage_lines, usage_report, ActiveSchemas, Check, ContextUsage,
};
use crate::slash::think::{setting_text, think_report};
use crate::slash::{SlashOutcome, ThinkingSetting};
use crate::text::{cat2, texts};

verus! {

/// What the program gathered for a command.
#[derive(Debug)]
pub enum Gathered {
    Hooks { total: usize, events: Vec<HookEvent>, disabled: bool },
    /// The rows of the list of plugins.
    Plugins(Result<Vec<String>, String>),
    Cost(CostBreakdown),
    Usage(CostBreakdown),
    Context { usage: ContextUsage, schemas: Option<ActiveSchemas> },
    Doctor(Vec<Check>),
    Models { active: String, provider: String, models: Vec<KnownModel> },
    Status { provider: String },
    Thinking(ThinkingSetting),
    Loop { args: String, max_turns: u32 },
    Statusline(Option<StatuslineConfig>),
    Skills(Vec<Skill>),
    /// The output styles, and the variable that the active one is set by.
    Styles { active: String, variable: String, styles: Vec<OutputStyle> },
}

impl Gathered {
    /// Amounts of money can be written.
    pub open spec fn wf(&self) -> bool {
        match self {
            Gathered::Cost(c) => c.wf(),
            _ => true,
        }
    }
}

/// With a status message.
pub open spec fn stated(app: AppView, text: Seq<char>) -> AppView {
    outcome_applied(app, SlashOutcome::StatusMessage(text))
}

/// The state after a command has said what was gathered for it.
pub open spec fn answered(app: AppView, g: Gathered) -> AppView {
    match g {
        Gathered::Hooks { total, events, disabled } => app.informed_all(
            hooks_text(total, hook_events_view(events@), disabled),
        ),
        Gathered::Plugins(Ok(rows)) => app.informed_all(texts(rows@)),
        Gathered::Plugins(Err(e)) => app.failed("/plugins: "@ + e@),
        Gathered::Cost(c) => app.informed_all(cost_text(c)),
        Gathered::Usage(c) => app.informed_all(usage_report(c, app.session)),
        Gathered::Context { usage, schemas } => app.informed_all(
            context_report(usage, schemas, app.messages),
        ),
        Gathered::Doctor(checks) => app.informed_all(doctor_text(checks_view(checks@))),
        Gathered::Models { active, provider, models } => app.informed_all(
            models_text(active@, provider@, models_view(models@)),
        ),
        Gathered::Status { provider } => app.informed(status_text(provider@)),
        Gathered::Thinking(t) => stated(app, "thinking: "@ + setting_text(t)),
        Gathered::Loop { args, max_turns } => app.informed(loop_text(args@, max_turns)),
        Gathered::Statusline(c) => stated(app, statusline_text(c)),
        Gathered::Skills(skills) => app.informed_all(skills_text(skills_view(skills@))),
        Gathered::Styles { active, variable, styles } => app.informed_all(
            styles_text(active@, variable@, styles_view(styles@)),
        ),
    }
}

/// Says what was gathered for a command.
pub fn command_answered(app: &mut App, g: &Gathered)
    requires
        old(app).wf(),
        g.wf(),
    ensures
        final(app).wf(),
        final(app)@ == answered(old(app)@, *g),
{
    match g {
        Gathered::Hooks { total, events, disabled } => {
            app.inform_all(&hooks_lines(*total, events, *disabled));
        },
        Gathered::Plugins(Ok(rows)) => app.inform_all(rows),
        Gathered::Plugins(Err(e)) => app.fail(cat2("/plugins: ", e.as_str()).as_str()),
        Gathered::Cost(c) => app.inform_all(&cost_lines(c)),
        Gathered::Usage(c) => {
            let lines = render_usage_lines(app, c);
            app.inform_all(&lines);
        },
        Gathered::Context { usage, schemas } => {
            let lines = render_context_lines(usage, schemas, &app.messages);
            app.inform_all(&lines);
        },
        Gathered::Doctor(checks) => app.inform_all(&doctor_lines(checks)),
        Gathered::Models { active, provider, models } => {
            app.inform_all(&models_lines(active.as_str(), provider.as_str(), models));
        },
        Gathered::Status { provider } => app.inform(status_line(provider.as_str()).as_str()),
        Gathered::Thinking(t) => state(app, think_report(*t)),
        Gathered::Loop { args, max_turns } => {
            app.inform(loop_line(args.as_str(), *max_turns).as_str());
        },
        Gathered::Statusline(c) => state(app, statusline_message(c)),
        Gathered::Skills(skills) => app.inform_all(&skills_report(skills)),
        Gathered::Styles { active, variable, styles } => {
            app.inform_all(&output_style_lines(active.as_str(), variable.as_str(), styles));
        },
    }
}

fn state(app: &mut App, text: String)
    requires
        old(app).wf(),
    ensures
        final(app).wf(),
        final(app)@ == stated(old(app)@, text@),
{
    apply_slash_outcome(SlashOutcome::StatusMessage(text), app);
}

/// Says how switching to a model went.
pub fn model_swapped(app: &mut App, id: &str, error: Option<&str>)
    requires
        old(app).wf(),
    ensures
        final(app).wf(),
        final(app)@ == stated(old(app)@, swap_text(id@, error)),
{
    state(app, model_message(id, error));
}

/// Says how writing the exported conversation went.
pub fn export_written(app: &mut App, path: &str, error: Option<&str>)
    requires
        old(app).wf(),
    ensures
        final(app).wf(),
        final(app)@ == stated(old(app)@, exported_text(path@, error)),
{
    state(app, exported_message(path, error));
}

/// The state after `/export`, and the file that it asks for.
pub open spec fn exporting(
    app: AppView,
    args: Seq<char>,
    model: Seq<char>,
    date: Seq<char>,
    json: Seq<char>,
) -> (AppView, Seq<EffectView>) {
    let (outcome, effects) = export_ran(app.messages, args, model, date, json);
    (outcome_applied(app, outcome), effects)
}

/// Exports the conversation; `json` is what it is in JSON.
pub fn export_conversation(app: &mut App, args: &str, model: &str, date: &str, json: &str) -> (effects:
    Vec<Effect>)
    requires
        old(app).wf(),
    ensures
        final(app).wf(),
        (final(app)@, effects_view(effects@)) == exporting(
            old(app)@,
            args@,
            model@,
            date@,
            json@,
        ),
{
    let (outcome, effects) = run_export(&app.messages, args, model, date, json);
    apply_slash_outcome(outcome, app);
    effects
}

/// Answers add to the end of the transcript, and touch nothing else but the
/// status message.
pub proof fn law_answers_only_speak(app: AppView, g: Gathered)
    ensures
        ({
            let after = answered(app, g);
            &&& app.transcript.is_prefix_of(after.transcript)
            &&& after == (AppView {
                transcript: after.transcript,
                last_status_message: after.last_status_message,
                ..app
            })
        }),
{
}

/// What was gathered is told as one information line for each text, behind
/// what stood there, in the words of the command.
pub proof fn law_answers_are_told_line_by_line(app: AppView, g: Gathered, i: int)
    ensures
        ({
            let told = match g {
                Gathered::Hooks { total, events, disabled } => Some(
                    hooks_text(total, hook_events_view(events@), disabled),
                ),
                Gathered::Plugins(Ok(rows)) => Some(texts(rows@)),
                Gathered::Plugins(Err(_)) => None,
                Gathered::Cost(c) => Some(cost_text(c)),
                Gathered::Usage(c) => Some(usage_report(c, app.session)),
                Gathered::Context { usage, schemas } => Some(
                    context_report(usage, schemas, app.messages),
                ),
                Gathered::Doctor(checks) => Some(doctor_text(checks_view(checks@))),
                Gathered::Models { active, provider, models } => Some(
                    models_text(active@, provider@, models_view(models@)),
                ),
                Gathered::Status { provider } => Some(seq![status_text(provider@)]),
                Gathered::Thinking(t) => Some(seq!["thinking: "@ + setting_text(t)]),
                Gathered::Loop { args, max_turns } => Some(seq![loop_text(args@, max_turns)]),
                Gathered::Statusline(c) => Some(seq![statusline_text(c)]),
                Gathered::Skills(skills) => Some(skills_text(skills_view(skills@))),
                Gathered::Styles { active, variable, styles } => Some(
                    styles_text(active@, variable@, styles_view(styles@)),
                ),
            };
            let after = answered(app, g);
            match told {
                Some(lines) => {
                    &&& after.transcript.len() == app.transcript.len() + lines.len()
                    &&& 0 <= i < lines.len() ==> after.transcript[app.transcript.len() + i]
                        == TranscriptLine::Info(lines[i])
                },
                None => true,
            }
        }),
{
}

/// Plugins that could not be listed are told as an error, and why.
pub proof fn law_unlisted_plugins_are_an_error(app: AppView, e: String)
    ensures
        answered(app, Gathered::Plugins(Err(e))) == (AppView {
            transcript: app.transcript.push(TranscriptLine::Error("/plugins: "@ + e@)),
            ..app
        }),
{
}

/// Thinking and the status line leave their answer as the status message
/// too; the other answers leave the status message as it was.
pub proof fn law_two_answers_stay_as_status(app: AppView, g: Gathered)
    ensures
        match g {
            Gathered::Thinking(t) => answered(app, g).last_status_message == Some(
                "thinking: "@ + setting_text(t),
            ),
            Gathered::Statusline(c) => answered(app, g).last_status_message == Some(
                statusline_text(c),
            ),
            _ => answered(app, g).last_status_message == app.last_status_message,
        },
{
}

/// A message is shown in the transcript and kept as the status message.
pub proof fn law_statements_are_shown_and_kept(app: AppView, text: Seq<char>)
    ensures
        stated(app, text) == (AppView {
            last_status_message: Some(text),
            transcript: app.transcript.push(TranscriptLine::Info(text)),
            ..app
        }),
{
}

/// Exporting reads the messages of the conversation and changes nothing but
/// what it says.
pub proof fn law_exporting_only_speaks(
    app: AppView,
    args: Seq<char>,
    model: Seq<char>,
    date: Seq<char>,
    json: Seq<char>,
)
    ensures
        exporting(app, args, model, date, json).1 == export_ran(
            app.messages,
            args,
            model,
            date,
            json,
        ).1,
        exporting(app, args, model, date, json).0.messages == app.messages,
        exporting(app, args, model, date, json).0.session == app.session,
        match export_ran(app.messages, args, model, date, json).0 {
            SlashOutcome::StatusMessage(m) => exporting(app, args, model, date, json).0 == (AppView {
                last_status_message: Some(m),
                transcript: app.transcript.push(TranscriptLine::Info(m)),
                ..app
            }),
            SlashOutcome::Continue => exporting(app, args, model, date, json).0 == app,
            _ => true,
        },
{
}

} // verus!
