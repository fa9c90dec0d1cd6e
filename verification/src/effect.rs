//! What the front end asks of the world around it. The state decides; the
//! program carries out what it is handed here and reports back.

use vstd::prelude::*;

use crate::app::Effort;
use crate::reverse_history::HistorySource;
use crate::slash::{Command, ThinkingSetting};
use crate::text::opt_text;
use crate::types::{messages_view, Action, AskResponse, Message, MessageView, Scope};

verus! {

/// Tokens that a turn or a run took.
#[derive(Debug, Clone, Copy, PartialEq, Eq, Structural)]
pub struct Usage {
    pub input_tokens: u32,
    pub output_tokens: u32,
    pub cache_read_input_tokens: Option<u32>,
    pub cache_creation_input_tokens: Option<u32>,
}

/// A thing to do.
#[derive(Debug, PartialEq, Eq)]
pub enum Effect<S = String, O = Option<String>, M = Vec<Message>> {
    /// Stop the running turn.
    CancelTurn,
    /// Answer the request `id`.
    Respond { id: u64, response: AskResponse },
    /// Judge the waiting requests by the session's rules and hand the
    /// verdicts in.
    DrainAskQueue,
    /// Put a text on the clipboard.
    CopyToClipboard(S),
    /// Add a prompt to a history file.
    AppendHistory { path: S, line: S },
    /// Read a history.
    LoadHistory(HistorySource<S>),
    /// Run a shell command as the model would.
    RunShell(S),
    /// Ask the hooks about a prompt; `line` is what was typed.
    FireHook { prompt: S, line: S },
    /// Find the files that a prompt names; `prompt` is what the hooks made
    /// of the line.
    ResolveAttachments { line: S, prompt: S },
    /// Let the operator edit the prompt in an editor.
    EditPrompt(S),
    /// List what the file name at the cursor can go on to, and look the menu
    /// over.
    RefreshMenu,
    /// Print the conversation below the screen.
    DumpTranscript,
    /// Show the conversation in an editor.
    OpenTranscript,
    /// Hand the running turn to the supervisor.
    HandOff,
    /// Write a rule to the file of a scope.
    PersistRule { scope: Scope, pattern: S, action: Action, comment: O, reason: O },
    /// Delete a rule from a file.
    DeleteRule { path: S, pattern: S },
    /// Try a call against the rules; the input is JSON.
    TryRules { tool: S, input: S },
    /// Forget what the automatic mode has decided.
    ClearClassifierCache,
    /// Book the cost of a turn.
    BookTurn(Usage),
    /// Measure the context by these messages.
    MeasureContext(M),
    /// Merge a run, with these messages at its end, into the session, and
    /// hand the session in.
    MergeRun { messages: M, usage: Usage },
    /// Save the session.
    SaveSession,
    /// Gather what a command needs and run it.
    RunCommand { command: Command, args: S },
    /// Switch the model.
    SwapModel(S),
    SetEffort(Effort),
    SetThinking(ThinkingSetting),
    /// Write a text to a file.
    WriteFile { path: S, body: S },
    /// Show a memory topic.
    ReadTopic(S),
    /// List the memory topics.
    ListTopics,
    /// Load the memory tiers.
    LoadMemory,
    /// Check that a memory topic can be edited.
    EditTopic(S),
    /// Check that a memory topic can be deleted.
    CheckTopic { slug: S, force: bool },
    /// Delete a memory topic.
    DeleteTopic(S),
}

pub type EffectView = Effect<Seq<char>, Option<Seq<char>>, Seq<MessageView>>;

pub open spec fn source_view(s: HistorySource<String>) -> HistorySource<Seq<char>> {
    match s {
        HistorySource::ProjectFile(p) => HistorySource::ProjectFile(p@),
        HistorySource::ProjectsRoot(p) => HistorySource::ProjectsRoot(p@),
    }
}

impl View for Effect<String, Option<String>, Vec<Message>> {
    type V = Effect<Seq<char>, Option<Seq<char>>, Seq<MessageView>>;

    open spec fn view(&self) -> Effect<Seq<char>, Option<Seq<char>>, Seq<MessageView>> {
        match self {
            Effect::CancelTurn => Effect::CancelTurn,
            Effect::Respond { id, response } => Effect::Respond { id: *id, response: *response },
            Effect::DrainAskQueue => Effect::DrainAskQueue,
            Effect::CopyToClipboard(t) => Effect::CopyToClipboard(t@),
            Effect::AppendHistory { path, line } => Effect::AppendHistory { path: path@, line: line@ },
            Effect::LoadHistory(s) => Effect::LoadHistory(source_view(*s)),
            Effect::RunShell(t) => Effect::RunShell(t@),
            Effect::FireHook { prompt, line } => Effect::FireHook { prompt: prompt@, line: line@ },
            Effect::ResolveAttachments { line, prompt } => Effect::ResolveAttachments {
                line: line@,
                prompt: prompt@,
            },
            Effect::EditPrompt(t) => Effect::EditPrompt(t@),
            Effect::RefreshMenu => Effect::RefreshMenu,
            Effect::DumpTranscript => Effect::DumpTranscript,
            Effect::OpenTranscript => Effect::OpenTranscript,
            Effect::HandOff => Effect::HandOff,
            Effect::PersistRule { scope, pattern, action, comment, reason } => Effect::PersistRule {
                scope: *scope,
                pattern: pattern@,
                action: *action,
                comment: opt_text(*comment),
                reason: opt_text(*reason),
            },
            Effect::DeleteRule { path, pattern } => Effect::DeleteRule {
                path: path@,
                pattern: pattern@,
            },
            Effect::TryRules { tool, input } => Effect::TryRules { tool: tool@, input: input@ },
            Effect::ClearClassifierCache => Effect::ClearClassifierCache,
            Effect::BookTurn(u) => Effect::BookTurn(*u),
            Effect::MeasureContext(m) => Effect::MeasureContext(messages_view(m@)),
            Effect::MergeRun { messages, usage } => Effect::MergeRun {
                messages: messages_view(messages@),
                usage: *usage,
            },
            Effect::SaveSession => Effect::SaveSession,
            Effect::RunCommand { command, args } => Effect::RunCommand {
                command: *command,
                args: args@,
            },
            Effect::SwapModel(t) => Effect::SwapModel(t@),
            Effect::SetEffort(e) => Effect::SetEffort(*e),
            Effect::SetThinking(t) => Effect::SetThinking(*t),
            Effect::WriteFile { path, body } => Effect::WriteFile { path: path@, body: body@ },
            Effect::ReadTopic(t) => Effect::ReadTopic(t@),
            Effect::ListTopics => Effect::ListTopics,
            Effect::LoadMemory => Effect::LoadMemory,
            Effect::EditTopic(t) => Effect::EditTopic(t@),
            Effect::CheckTopic { slug, force } => Effect::CheckTopic { slug: slug@, force: *force },
            Effect::DeleteTopic(t) => Effect::DeleteTopic(t@),
        }
    }
}

pub open spec fn effects_view(v: Seq<Effect>) -> Seq<EffectView> {
    Seq::new(v.len(), |i: int| v[i]@)
}

/// Nothing to do.
pub fn nothing() -> (v: Vec<Effect>)
    ensures
        effects_view(v@) == Seq::<EffectView>::empty(),
{
    let v: Vec<Effect> = Vec::new();
    assert(effects_view(v@) =~= Seq::<EffectView>::empty());
    v
}

/// One thing to do.
pub fn just(e: Effect) -> (v: Vec<Effect>)
    ensures
        effects_view(v@) == seq![e@],
{
    let mut v = nothing();
    push_effect(&mut v, e);
    v
}

pub fn push_effect(v: &mut Vec<Effect>, e: Effect)
    ensures
        final(v)@ == old(v)@.push(e),
        effects_view(final(v)@) == effects_view(old(v)@).push(e@),
{
    let ghost before = v@;
    v.push(e);
    assert(effects_view(v@) =~= effects_view(before).push(e@));
}

/// What is asked for is asked for in the same order, with the same texts.
pub proof fn law_effects_keep_their_place_and_texts(v: Seq<Effect>, i: int)
    requires
        0 <= i < v.len(),
    ensures
        effects_view(v).len() == v.len(),
        match v[i] {
            Effect::AppendHistory { path, line } => effects_view(v)[i] == (EffectView::AppendHistory {
                path: path@,
                line: line@,
            }),
            Effect::FireHook { prompt, line } => effects_view(v)[i] == (EffectView::FireHook {
                prompt: prompt@,
                line: line@,
            }),
            Effect::ResolveAttachments { line, prompt } => effects_view(v)[i]
                == (EffectView::ResolveAttachments { line: line@, prompt: prompt@ }),
            Effect::DeleteRule { path, pattern } => effects_view(v)[i] == (EffectView::DeleteRule {
                path: path@,
                pattern: pattern@,
            }),
            Effect::TryRules { tool, input } => effects_view(v)[i] == (EffectView::TryRules {
                tool: tool@,
                input: input@,
            }),
            Effect::RunCommand { command, args } => effects_view(v)[i] == (EffectView::RunCommand {
                command,
                args: args@,
            }),
            Effect::WriteFile { path, body } => effects_view(v)[i] == (EffectView::WriteFile {
                path: path@,
                body: body@,
            }),
            Effect::PersistRule { scope, pattern, action, comment, reason } => effects_view(v)[i]
                == (EffectView::PersistRule {
                scope,
                pattern: pattern@,
                action,
                comment: opt_text(comment),
                reason: opt_text(reason),
            }),
            _ => true,
        },
{
}

} // verus!
