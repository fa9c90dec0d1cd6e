//! What comes back when the program has done what it was asked: the editor,
//! the supervisor, the shell, the hooks and the files that a prompt names.

use vstd::prelude::*;

use crate::app::{App, AppView, Activity, RunningTurn, TranscriptLine};
use crate::effect::{effects_view, just, nothing, Effect, EffectView};
use crate::shell_escape::{OutcomeView, ShellEscapeOutcome};
use crate::slash::dispatch::{handle_slash_command, line_ran};
use crate::text::{
    cat2, cat3, opt_text, split, split_text, starts_with_char, starts_with_character,
};
use crate::toast::{toast, Toast, ToastLevel};
use crate::types::{
    clone_messages, messages_view, push_message, text_message, Message, MessageView, Role,
};

verus! {

pub open spec fn warned(app: AppView, text: Seq<char>, now: u64) -> AppView {
    app.noticed(toast(ToastLevel::Warn, text, now))
}

pub open spec fn alarmed(app: AppView, text: Seq<char>, now: u64) -> AppView {
    app.noticed(toast(ToastLevel::Error, text, now))
}

fn alarm(app: &mut App, text: &str, now: u64)
    requires
        old(app).wf(),
    ensures
        final(app).wf(),
        final(app)@ == alarmed(old(app)@, text@, now),
{
    app.toast = Some(Toast::error(text, now));
}

// ---------------------------------------------------------------------------
// The editor
// ---------------------------------------------------------------------------

/// How an editor ended.
#[derive(Debug, PartialEq, Eq)]
pub enum EditorOutcome<S = String> {
    /// It ended well; the file holds this text.
    Saved(S),
    /// It ended with another exit code than zero.
    NonZero,
    /// It could not be run.
    Failed(S),
}

impl View for EditorOutcome<String> {
    type V = EditorOutcome<Seq<char>>;

    open spec fn view(&self) -> EditorOutcome<Seq<char>> {
        match self {
            EditorOutcome::Saved(t) => EditorOutcome::Saved(t@),
            EditorOutcome::NonZero => EditorOutcome::NonZero,
            EditorOutcome::Failed(e) => EditorOutcome::Failed(e@),
        }
    }
}

pub open spec fn suspend_failed(app: AppView, error: Seq<char>, now: u64) -> AppView {
    alarmed(app, "editor suspend failed: "@ + error, now)
}

/// The screen could not be left for an editor.
pub fn screen_not_left(app: &mut App, error: &str, now: u64)
    requires
        old(app).wf(),
    ensures
        final(app).wf(),
        final(app)@ == suspend_failed(old(app)@, error@, now),
{
    alarm(app, cat2("editor suspend failed: ", error).as_str(), now);
}

pub open spec fn resumed(app: AppView, error: Option<Seq<char>>, now: u64) -> AppView {
    match error {
        Some(e) => alarmed(app, "editor resume failed: "@ + e, now),
        None => app,
    }
}

/// The screen was taken up again after an editor.
pub fn screen_resumed(app: &mut App, error: &Option<String>, now: u64)
    requires
        old(app).wf(),
    ensures
        final(app).wf(),
        final(app)@ == resumed(old(app)@, opt_text(*error), now),
{
    if let Some(e) = error {
        alarm(app, cat2("editor resume failed: ", e.as_str()).as_str(), now);
    }
}

/// The prompt after an editor has had it. A later notice takes the place of
/// an earlier one.
pub open spec fn prompt_edited(
    app: AppView,
    resume_error: Option<Seq<char>>,
    outcome: EditorOutcome<Seq<char>>,
    now: u64,
) -> AppView {
    let a = resumed(app, resume_error, now);
    match outcome {
        EditorOutcome::Saved(text) => a.typing(a.input.filled(text)),
        EditorOutcome::NonZero => warned(a, "editor exited non-zero; buffer unchanged"@, now),
        EditorOutcome::Failed(e) => alarmed(a, "editor failed: "@ + e, now),
    }
}

/// Takes the prompt back from an editor.
pub fn handle_ctrl_g(
    app: &mut App,
    resume_error: &Option<String>,
    outcome: EditorOutcome,
    now: u64,
)
    requires
        old(app).wf(),
    ensures
        final(app).wf(),
        final(app)@ == prompt_edited(old(app)@, opt_text(*resume_error), outcome@, now),
{
    screen_resumed(app, resume_error, now);
    match outcome {
        EditorOutcome::Saved(text) => app.input.set_buffer(text),
        EditorOutcome::NonZero => {
            app.toast = Some(Toast::warn("editor exited non-zero; buffer unchanged", now));
        },
        EditorOutcome::Failed(e) => alarm(app, cat2("editor failed: ", e.as_str()).as_str(), now),
    }
}

// ---------------------------------------------------------------------------
// The supervisor and the shell
// ---------------------------------------------------------------------------

pub open spec fn handed_off(app: AppView, id: Option<Seq<char>>) -> AppView {
    app.informed(
        match id {
            Some(id) => "[backgrounded sub-agent "@ + id
                + " \u{2014} see `caliban agents list`]"@,
            None =>
                "[backgrounded \u{2014} supervisor daemon offline; see `caliban daemon status`]"@,
        },
    )
}

/// Notes that the running turn went to the supervisor; without an `id` the
/// supervisor did not take it.
pub fn handoff_to_supervisor(app: &mut App, id: &Option<String>)
    requires
        old(app).wf(),
    ensures
        final(app).wf(),
        final(app)@ == handed_off(old(app)@, opt_text(*id)),
{
    match id {
        Some(id) => {
            let line = cat3(
                "[backgrounded sub-agent ",
                id.as_str(),
                " \u{2014} see `caliban agents list`]",
            );
            app.inform(line.as_str());
        },
        None => app.inform(
            "[backgrounded \u{2014} supervisor daemon offline; see `caliban daemon status`]",
        ),
    }
}

/// What a shell command leaves in the transcript: the reason that it may not
/// run, why it failed, or its output line by line.
pub open spec fn shell_ended(app: AppView, o: OutcomeView) -> AppView {
    if o.denied {
        app.failed(
            "[denied: "@ + (match o.message {
                Some(m) => m,
                None => "permission denied"@,
            }) + "]"@,
        )
    } else if o.is_error {
        app.failed(
            match o.message {
                Some(m) => m,
                None => "shell escape failed"@,
            },
        )
    } else {
        app.informed_all(split(o.output, '\n'))
    }
}

/// Takes in how a shell command ended.
pub fn dispatch_shell_escape(app: &mut App, outcome: &ShellEscapeOutcome)
    requires
        old(app).wf(),
    ensures
        final(app).wf(),
        final(app)@ == shell_ended(old(app)@, outcome@),
{
    if outcome.denied {
        let reason: &str = match &outcome.message {
            Some(m) => m.as_str(),
            None => "permission denied",
        };
        app.fail(cat3("[denied: ", reason, "]").as_str());
    } else if outcome.is_error {
        match &outcome.message {
            Some(m) => app.fail(m.as_str()),
            None => app.fail("shell escape failed"),
        }
    } else {
        app.inform_all(&split_text(outcome.output.as_str(), '\n'));
    }
}

// ---------------------------------------------------------------------------
// The hooks and the files
// ---------------------------------------------------------------------------

/// What the hooks say of a prompt.
#[derive(Debug, PartialEq, Eq)]
pub enum PromptVerdict<S = String, O = Option<String>> {
    /// It stands. A hook that fails says the same.
    Allow,
    Deny(S),
    /// It becomes another text, where the hooks gave a text.
    Updated(O),
}

pub type PromptVerdictView = PromptVerdict<Seq<char>, Option<Seq<char>>>;

impl View for PromptVerdict<String, Option<String>> {
    type V = PromptVerdict<Seq<char>, Option<Seq<char>>>;

    open spec fn view(&self) -> PromptVerdict<Seq<char>, Option<Seq<char>>> {
        match self {
            PromptVerdict::Allow => PromptVerdict::Allow,
            PromptVerdict::Deny(m) => PromptVerdict::Deny(m@),
            PromptVerdict::Updated(t) => PromptVerdict::Updated(opt_text(*t)),
        }
    }
}

/// The typed line given back to the prompt, with a notice.
pub open spec fn given_back(app: AppView, line: Seq<char>, text: Seq<char>, now: u64) -> AppView {
    let a = alarmed(app, text, now);
    a.typing(a.input.filled(line))
}

fn give_back(app: &mut App, line: String, text: &str, now: u64)
    requires
        old(app).wf(),
    ensures
        final(app).wf(),
        final(app)@ == given_back(old(app)@, line@, text@, now),
{
    alarm(app, text, now);
    app.input.set_buffer(line);
}

/// What goes on with a prompt that the hooks let through.
pub open spec fn let_through(app: AppView, prompt: Seq<char>, line: Seq<char>) -> (
    AppView,
    Seq<EffectView>,
) {
    if starts_with_char(prompt, '/') {
        line_ran(app, prompt)
    } else {
        (app, seq![EffectView::ResolveAttachments { line, prompt }])
    }
}

pub open spec fn judged(
    app: AppView,
    prompt: Seq<char>,
    line: Seq<char>,
    v: PromptVerdictView,
    now: u64,
) -> (AppView, Seq<EffectView>) {
    match v {
        PromptVerdict::Allow => let_through(app, prompt, line),
        PromptVerdict::Deny(m) => (
            given_back(app, line, "prompt rejected by hook: "@ + m, now),
            Seq::empty(),
        ),
        PromptVerdict::Updated(t) => let_through(
            app,
            match t {
                Some(t) => t,
                None => prompt,
            },
            line,
        ),
    }
}

fn pass_on(app: &mut App, prompt: String, line: String) -> (effects: Vec<Effect>)
    requires
        old(app).wf(),
    ensures
        final(app).wf(),
        (final(app)@, effects_view(effects@)) == let_through(old(app)@, prompt@, line@),
{
    if starts_with_character(prompt.as_str(), '/') {
        handle_slash_command(prompt.as_str(), app)
    } else {
        just(Effect::ResolveAttachments { line, prompt })
    }
}

/// Goes on with a prompt once the hooks have spoken. A denied one goes back
/// to where it was typed.
pub fn prompt_judged(
    app: &mut App,
    prompt: String,
    line: String,
    verdict: PromptVerdict,
    now: u64,
) -> (effects: Vec<Effect>)
    requires
        old(app).wf(),
    ensures
        final(app).wf(),
        (final(app)@, effects_view(effects@)) == judged(
            old(app)@,
            prompt@,
            line@,
            verdict@,
            now,
        ),
{
    match verdict {
        PromptVerdict::Allow => pass_on(app, prompt, line),
        PromptVerdict::Deny(m) => {
            give_back(app, line, cat2("prompt rejected by hook: ", m.as_str()).as_str(), now);
            nothing()
        },
        PromptVerdict::Updated(Some(t)) => pass_on(app, t, line),
        PromptVerdict::Updated(None) => pass_on(app, prompt, line),
    }
}

/// Why a file cannot go along with a prompt.
#[derive(Debug, Clone, Copy, PartialEq, Eq, Structural)]
pub enum AttachError {
    /// The file is too large.
    Oversize,
    /// The files together are too large.
    BudgetExceeded,
    NotUtf8,
    Io,
}

impl AttachError {
    pub open spec fn advice(self) -> Seq<char> {
        match self {
            AttachError::Oversize => "Drop the @ or raise --max-attach-bytes."@,
            AttachError::BudgetExceeded =>
                "Remove an attachment or raise --attach-budget-bytes."@,
            AttachError::NotUtf8 => "Binary files can't be inlined; ask me to Read it instead."@,
            AttachError::Io => "Check the path and try again."@,
        }
    }

    /// What the operator can do about it.
    pub fn hint(self) -> (r: &'static str)
        ensures
            r@ == self.advice(),
    {
        match self {
            AttachError::Oversize => "Drop the @ or raise --max-attach-bytes.",
            AttachError::BudgetExceeded => "Remove an attachment or raise --attach-budget-bytes.",
            AttachError::NotUtf8 => "Binary files can't be inlined; ask me to Read it instead.",
            AttachError::Io => "Check the path and try again.",
        }
    }
}

/// A file could not go along; the line goes back to where it was typed.
pub fn attach_failed(app: &mut App, line: String, kind: AttachError, message: &str, now: u64)
    requires
        old(app).wf(),
    ensures
        final(app).wf(),
        final(app)@ == given_back(
            old(app)@,
            line@,
            message@ + " \u{2014} "@ + kind.advice(),
            now,
        ),
{
    give_back(app, line, cat3(message, " \u{2014} ", kind.hint()).as_str(), now);
}

/// A file that goes along with a prompt.
#[derive(Debug, PartialEq, Eq)]
pub struct Attachment<S = String> {
    pub display_path: S,
    pub bytes: u64,
}

pub open spec fn attachments_view(v: Seq<Attachment<String>>) -> Seq<Attachment<Seq<char>>> {
    Seq::new(v.len(), |i: int| Attachment { display_path: v[i].display_path@, bytes: v[i].bytes })
}

/// The transcript entries of the files.
pub open spec fn attached(files: Seq<Attachment<Seq<char>>>) -> Seq<TranscriptLine<Seq<char>>> {
    Seq::new(
        files.len(),
        |i: int|
            TranscriptLine::Attached { display_path: files[i].display_path, bytes: files[i].bytes },
    )
}

/// The conversation as the model gets it: the system message first, where
/// there is one, in place of an older one; the prompt last.
pub open spec fn outgoing(
    messages: Seq<MessageView>,
    system: Option<Seq<char>>,
    text: Seq<char>,
) -> Seq<MessageView> {
    let with_system = match system {
        Some(s) => if messages.len() > 0 && messages[0].role == Role::System {
            messages.update(0, text_message(Role::System, s))
        } else {
            seq![text_message(Role::System, s)] + messages
        },
        None => messages,
    };
    with_system.push(text_message(Role::User, text))
}

/// The state once a turn has started.
pub open spec fn turn_started(
    app: AppView,
    prompt: Seq<char>,
    files: Seq<Attachment<Seq<char>>>,
    now: u64,
) -> AppView {
    AppView {
        transcript: app.transcript.push(TranscriptLine::UserPrompt(prompt)) + attached(files),
        running: Some(Activity::WaitingForModel { since: now }),
        ..app
    }
}

fn show_attachments(app: &mut App, files: &Vec<Attachment>)
    requires
        old(app).wf(),
    ensures
        final(app).wf(),
        final(app)@ == (AppView {
            transcript: old(app)@.transcript + attached(attachments_view(files@)),
            ..old(app)@
        }),
{
    let ghost start = app@;
    let ghost rows = attached(attachments_view(files@));
    let mut i: usize = 0;
    assert(start.transcript + rows.take(0) =~= start.transcript);
    while i < files.len()
        invariant
            i <= files@.len(),
            app.wf(),
            rows == attached(attachments_view(files@)),
            app@ == (AppView { transcript: start.transcript + rows.take(i as int), ..start }),
        decreases files@.len() - i,
    {
        app.say(
            TranscriptLine::Attached {
                display_path: files[i].display_path.clone(),
                bytes: files[i].bytes,
            },
        );
        i = i + 1;
        assert(rows.take(i as int) =~= rows.take(i - 1).push(rows[i - 1]));
        assert((start.transcript + rows.take(i - 1)).push(rows[i - 1]) =~= start.transcript
            + rows.take(i as int));
    }
    assert(rows.take(i as int) =~= rows);
}

/// Starts a turn with a prompt: notes it in the transcript with the files
/// that go along, and gives the conversation to send. `text` is the prompt
/// with the files' contents, `system` the system message of this turn.
pub fn start_turn(
    app: &mut App,
    prompt: String,
    text: &str,
    files: &Vec<Attachment>,
    system: &Option<String>,
    now: u64,
) -> (messages: Vec<Message>)
    requires
        old(app).wf(),
    ensures
        final(app).wf(),
        final(app)@ == turn_started(old(app)@, prompt@, attachments_view(files@), now),
        messages_view(messages@) == outgoing(old(app)@.messages, opt_text(*system), text@),
{
    app.say(TranscriptLine::UserPrompt(prompt));
    show_attachments(app, files);
    let mut messages = clone_messages(&app.messages);
    let ghost before = messages@;
    assert(messages_view(before).len() == before.len());
    if let Some(s) = system {
        let m = Message::system_text(s.as_str());
        if messages.len() > 0 && messages[0].role == Role::System {
            assert(messages_view(before)[0] == before[0]@);
            messages.set(0, m);
            assert(messages_view(messages@) =~= messages_view(before).update(0, m@));
        } else {
            proof {
                if before.len() > 0 {
                    assert(messages_view(before)[0] == before[0]@);
                }
            }
            messages.insert(0, m);
            assert(messages_view(messages@) =~= seq![m@] + messages_view(before));
        }
    }
    push_message(&mut messages, Message::user_text(text));
    app.running = Some(RunningTurn { activity: Activity::WaitingForModel { since: now } });
    messages
}

/// A prompt that the hooks deny, or that names a file that cannot go along,
/// stands in the input line again as it was typed, ready to be changed, and
/// nothing else is asked for.
pub proof fn law_refused_prompts_are_given_back(
    app: AppView,
    prompt: Seq<char>,
    line: Seq<char>,
    message: Seq<char>,
    now: u64,
)
    ensures
        judged(app, prompt, line, PromptVerdict::Deny(message), now).0.input.text == line,
        judged(app, prompt, line, PromptVerdict::Deny(message), now).0.input.at == line.len(),
        judged(app, prompt, line, PromptVerdict::Deny(message), now).1 == Seq::<EffectView>::empty(),
        given_back(app, line, message, now).input.text == line,
        given_back(app, line, message, now).transcript == app.transcript,
        given_back(app, line, message, now).running == app.running,
{
}

/// The model gets every message of the conversation but an older system
/// message, in order, with the prompt after them.
pub proof fn law_turns_send_the_conversation(
    messages: Seq<MessageView>,
    system: Option<Seq<char>>,
    text: Seq<char>,
    i: int,
)
    requires
        0 <= i < messages.len(),
        i > 0 || messages[0].role != Role::System || system is None,
    ensures
        outgoing(messages, system, text).last() == text_message(Role::User, text),
        outgoing(messages, system, text)[outgoing(messages, system, text).len() - 1
            - messages.len() + i] == messages[i],
{
}

/// A prompt that an editor saved takes the place of the one before, with the
/// cursor behind it; an editor that failed leaves the prompt, and a notice
/// says how: a warning where it ended badly, an error where it did not run.
pub proof fn law_saved_prompts_replace_the_old(
    app: AppView,
    resume_error: Option<Seq<char>>,
    outcome: EditorOutcome<Seq<char>>,
    now: u64,
)
    ensures
        ({
            let after = prompt_edited(app, resume_error, outcome, now);
            &&& after == (AppView { input: after.input, toast: after.toast, ..app })
            &&& after.input.history == app.input.history
            &&& match outcome {
                EditorOutcome::Saved(text) => after.input.text == text && after.input.at
                    == text.len() && after.toast == (if resume_error is Some {
                    Some(
                        toast(
                            ToastLevel::Error,
                            "editor resume failed: "@ + resume_error->0,
                            now,
                        ),
                    )
                } else {
                    app.toast
                }),
                EditorOutcome::NonZero => after.input == app.input && after.toast == Some(
                    toast(ToastLevel::Warn, "editor exited non-zero; buffer unchanged"@, now),
                ),
                EditorOutcome::Failed(e) => after.input == app.input && after.toast == Some(
                    toast(ToastLevel::Error, "editor failed: "@ + e, now),
                ),
            }
        }),
        suspend_failed(app, app.cwd, now) == app.noticed(
            toast(ToastLevel::Error, "editor suspend failed: "@ + app.cwd, now),
        ),
{
}

/// A turn that was handed off is named by the supervisor's number for it, or
/// it is said that the supervisor is not there.
pub proof fn law_handing_off_is_told(app: AppView, id: Option<Seq<char>>)
    ensures
        id is Some ==> handed_off(app, id) == app.informed(
            "[backgrounded sub-agent "@ + id->0 + " \u{2014} see `caliban agents list`]"@,
        ),
        id is None ==> handed_off(app, id) == app.informed(
            "[backgrounded \u{2014} supervisor daemon offline; see `caliban daemon status`]"@,
        ),
{
}

/// A shell command leaves its output line by line as information, or one
/// error: why it was denied, or why it failed.
pub proof fn law_shell_commands_leave_their_output(app: AppView, o: OutcomeView)
    ensures
        ({
            let after = shell_ended(app, o);
            let n = app.transcript.len() as int;
            &&& after == (AppView { transcript: after.transcript, ..app })
            &&& o.denied ==> after.transcript == app.transcript.push(
                TranscriptLine::Error(
                    "[denied: "@ + (if o.message is Some {
                        o.message->0
                    } else {
                        "permission denied"@
                    }) + "]"@,
                ),
            )
            &&& !o.denied && o.is_error ==> after.transcript == app.transcript.push(
                TranscriptLine::Error(
                    if o.message is Some {
                        o.message->0
                    } else {
                        "shell escape failed"@
                    },
                ),
            )
            &&& !o.denied && !o.is_error ==> {
                let ls = split(o.output, '\n');
                &&& after.transcript.len() == n + ls.len()
                &&& forall|i: int| 0 <= i < n ==> #[trigger] after.transcript[i] == app.transcript[i]
                &&& forall|i: int|
                    0 <= i < ls.len() ==> #[trigger] after.transcript[n + i]
                        == TranscriptLine::Info(ls[i])
            }
        }),
{
}

/// A prompt that the hooks let through runs as a command where it starts
/// with a slash, and goes on to its files elsewhere; where they gave another
/// text, it is that text that goes on, beside the line as it was typed.
pub proof fn law_hooks_decide_what_goes_on(
    app: AppView,
    prompt: Seq<char>,
    line: Seq<char>,
    v: PromptVerdictView,
    now: u64,
)
    requires
        !(v is Deny),
    ensures
        ({
            let text = if v is Updated && v->Updated_0 is Some {
                v->Updated_0->0
            } else {
                prompt
            };
            let r = judged(app, prompt, line, v, now);
            &&& text.len() > 0 && text[0] == '/' ==> r == line_ran(app, text)
            &&& !(text.len() > 0 && text[0] == '/') ==> r.0 == app && r.1
                == Seq::<EffectView>::empty().push(
                EffectView::ResolveAttachments { line, prompt: text },
            )
        }),
{
}

/// A denied prompt raises an error with the hook's words.
pub proof fn law_denials_raise_an_error(
    app: AppView,
    prompt: Seq<char>,
    line: Seq<char>,
    message: Seq<char>,
    now: u64,
)
    ensures
        ({
            let after = judged(app, prompt, line, PromptVerdict::Deny(message), now).0;
            &&& after == (AppView { input: after.input, toast: after.toast, ..app })
            &&& after.toast == Some(
                toast(ToastLevel::Error, "prompt rejected by hook: "@ + message, now),
            )
            &&& after.input.history == app.input.history
        }),
{
}

/// Each reason that a file cannot go along comes with its own advice.
pub proof fn law_advice_fits_the_reason()
    ensures
        AttachError::Oversize.advice() == "Drop the @ or raise --max-attach-bytes."@,
        AttachError::BudgetExceeded.advice()
            == "Remove an attachment or raise --attach-budget-bytes."@,
        AttachError::NotUtf8.advice()
            == "Binary files can't be inlined; ask me to Read it instead."@,
        AttachError::Io.advice() == "Check the path and try again."@,
{
}

/// A turn that starts is noted by its prompt and then by each file that goes
/// along, with its own size, in their order; the model is waited for from
/// then on.
pub proof fn law_turns_note_their_files(
    app: AppView,
    prompt: Seq<char>,
    files: Seq<Attachment<Seq<char>>>,
    now: u64,
)
    ensures
        ({
            let after = turn_started(app, prompt, files, now);
            let n = app.transcript.len() as int;
            &&& after == (AppView {
                transcript: after.transcript,
                running: Some(Activity::WaitingForModel { since: now }),
                ..app
            })
            &&& after.transcript.len() == n + 1 + files.len()
            &&& forall|i: int| 0 <= i < n ==> #[trigger] after.transcript[i] == app.transcript[i]
            &&& after.transcript[n] == TranscriptLine::UserPrompt(prompt)
            &&& forall|i: int|
                0 <= i < files.len() ==> #[trigger] after.transcript[n + 1 + i]
                    == (TranscriptLine::<Seq<char>>::Attached {
                    display_path: files[i].display_path,
                    bytes: files[i].bytes,
                })
        }),
{
}

/// The system message of the turn, where there is one, comes first and just
/// once; without one the conversation begins as it did.
pub proof fn law_the_system_message_comes_first(
    messages: Seq<MessageView>,
    system: Option<Seq<char>>,
    text: Seq<char>,
)
    ensures
        ({
            let sent = outgoing(messages, system, text);
            let had = messages.len() > 0 && messages[0].role == Role::System;
            &&& system matches Some(s) ==> sent[0].role == Role::System && sent[0]
                == text_message(Role::System, s) && sent.len() == messages.len() + (if had {
                1int
            } else {
                2
            })
            &&& system is None ==> sent == messages.push(text_message(Role::User, text))
            &&& sent.last().role == Role::User
        }),
{
}

} // verus!
